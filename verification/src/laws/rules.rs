//! Which configurations are accepted, and which can be deployed.

use vstd::prelude::*;

use crate::address;
use crate::address::{IpAddr, Ipv4Addr, Ipv6Addr};
use crate::config;
use crate::config::{
    AddressFamily, ConfigView, Fault, ListenPortsView, ProfileView, Protocol, TargetView,
};
use crate::number;
use crate::text;

verus! {

/// The address is of the family.
pub open spec fn of_family(ip: IpAddr, family: AddressFamily) -> bool {
    (ip is V4) == (family == AddressFamily::Ipv4)
}

/// The number of bits of an address of the family.
pub open spec fn bits(family: AddressFamily) -> nat {
    if family == AddressFamily::Ipv4 {
        32
    } else {
        128
    }
}

/// Packets may be sent on to the address: it is neither loopback, unspecified nor
/// multicast, and neither the IPv4 broadcast address nor an IPv6 link-local one.
pub open spec fn reachable(ip: IpAddr) -> bool {
    match ip {
        IpAddr::V4(v) => {
            &&& v.a != 127
            &&& v != (Ipv4Addr { a: 0, b: 0, c: 0, d: 0 })
            &&& !(224 <= v.a <= 239)
            &&& v != (Ipv4Addr { a: 255, b: 255, c: 255, d: 255 })
        },
        IpAddr::V6(v) => {
            &&& v != (Ipv6Addr { g0: 0, g1: 0, g2: 0, g3: 0, g4: 0, g5: 0, g6: 0, g7: 1 })
            &&& v != (Ipv6Addr { g0: 0, g1: 0, g2: 0, g3: 0, g4: 0, g5: 0, g6: 0, g7: 0 })
            &&& v.g0 < 0xff00
            &&& !(0xfe80 <= v.g0 <= 0xfebf)
        },
    }
}

/// The address is kept for documentation: 192.0.2.0/24, 198.51.100.0/24, 203.0.113.0/24
/// or 2001:db8::/32.
pub open spec fn for_documentation(ip: IpAddr) -> bool {
    match ip {
        IpAddr::V4(v) => {
            ||| (v.a, v.b, v.c) == (192u8, 0u8, 2u8)
            ||| (v.a, v.b, v.c) == (198u8, 51u8, 100u8)
            ||| (v.a, v.b, v.c) == (203u8, 0u8, 113u8)
        },
        IpAddr::V6(v) => (v.g0, v.g1) == (0x2001u16, 0x0db8u16),
    }
}

/// The text is an address of the family, a slash, and a number of bits that the family
/// has.
pub open spec fn source_range(family: AddressFamily, source: Seq<char>) -> bool {
    let parts = text::pieces(source, '/');
    &&& parts.len() == 2
    &&& address::ip_of(parts[0]) matches Some(ip) && of_family(ip, family)
    &&& number::unsigned(parts[1], 255) matches Some(n) && n <= bits(family)
}

/// The digits of the port end in those of the suffix.
pub open spec fn has_tail(port: int, suffix: u32) -> bool {
    exists|front: Seq<char>|
        #![trigger front + number::decimal(suffix as nat)]
        number::decimal(port as nat) == front + number::decimal(suffix as nat)
}

/// The ports are a range with a tail that one of its ports has, or a list in which each
/// stands once.
pub open spec fn ports_ok(l: ListenPortsView) -> bool {
    match l.ports {
        Some(ports) => {
            &&& l.range_start is None && l.range_end is None && l.suffix is None
            &&& ports.len() > 0
            &&& ports.no_duplicates()
        },
        None => {
            &&& l.range_start is Some && l.range_end is Some && l.suffix is Some
            &&& 1 <= l.range_start->0 < l.range_end->0 <= 65536
            &&& exists|port: int|
                l.range_start->0 <= port < l.range_end->0 && #[trigger] has_tail(
                    port,
                    l.suffix->0,
                )
        },
    }
}

/// The target is one that the profile may have.
pub open spec fn target_ok(p: ProfileView) -> bool {
    match p.target {
        TargetView::Remote { host, source_mode, .. } => {
            &&& !text::is_blank(host)
            &&& source_mode is Some == (p.family == AddressFamily::Ipv4)
            &&& address::ip_of(host) matches Some(ip) ==> of_family(ip, p.family) && reachable(ip)
        },
        TargetView::Redirect { .. } => true,
        TargetView::LoopbackDnat { .. } => p.family == AddressFamily::Ipv4
            && p.allow_route_localnet,
    }
}

/// The profile keeps the rules by itself.
pub open spec fn profile_ok(p: ProfileView) -> bool {
    &&& address::ip_of(p.listen_address) matches Some(ip) && of_family(ip, p.family)
    &&& p.protocols.len() > 0
    &&& p.protocols.no_duplicates()
    &&& ports_ok(p.listen_ports)
    &&& forall|i: int|
        0 <= i < p.source_cidrs.len() ==> source_range(p.family, #[trigger] p.source_cidrs[i])
    &&& p.source_cidrs.no_duplicates()
    &&& target_ok(p)
}

/// Two profiles want the same address, protocol and port.
pub open spec fn clash(a: ProfileView, b: ProfileView) -> bool {
    &&& address::ip_of(a.listen_address) == address::ip_of(b.listen_address)
    &&& exists|protocol: Protocol| #[trigger]
        a.protocols.contains(protocol) && b.protocols.contains(protocol)
    &&& exists|port: u16| #[trigger]
        config::projected(a.listen_ports)->Ok_0.contains(port) && config::projected(
            b.listen_ports,
        )->Ok_0.contains(port)
}

/// The configuration keeps the rules.
pub open spec fn config_ok(c: ConfigView) -> bool {
    &&& c.schema_version == 1
    &&& forall|i: int|
        0 <= i < c.profiles.len() ==> !text::is_blank((#[trigger] c.profiles[i]).name)
            && profile_ok(c.profiles[i])
    &&& forall|i: int, j: int|
        #![trigger c.profiles[i], c.profiles[j]]
        0 <= i < j < c.profiles.len() ==> c.profiles[i].name != c.profiles[j].name && !clash(
            c.profiles[i],
            c.profiles[j],
        )
}

// Families.

/// The any-source range of a family, and its addresses.
pub proof fn law_families_are_told_apart(family: AddressFamily, ip: IpAddr)
    ensures
        family.spec_matches(ip) <==> of_family(ip, family),
        family == AddressFamily::Ipv4 ==> family.spec_any_source() == "0.0.0.0/0"@,
        family == AddressFamily::Ipv6 ==> family.spec_any_source() == "::/0"@,
{
}

/// A target is allowed exactly where packets may be sent on to it, and the
/// documentation addresses are those of the four ranges.
pub proof fn law_addresses_have_their_classes(ip: IpAddr)
    ensures
        config::allowed_target(ip) <==> reachable(ip),
        config::documentation_address(ip) <==> for_documentation(ip),
{
    match ip {
        IpAddr::V4(v) => {},
        IpAddr::V6(v) => {
            let g = v.groups();
            assert(g[0] == v.g0 && g[1] == v.g1 && g[2] == v.g2 && g[3] == v.g3 && g[4] == v.g4
                && g[5] == v.g5 && g[6] == v.g6 && g[7] == v.g7);
        },
    }
}

// Sources.

/// A digit is no slash.
proof fn lemma_decimal_lacks_slash(n: nat)
    ensures
        text::lacks(number::decimal(n), '/'),
{
    number::law_rendered_reads_back(n, 10);
    let s = number::decimal(n);
    assert forall|i: int| 0 <= i < s.len() implies #[trigger] s[i] != '/' by {
        assert(number::digit_value(s[i], 10) is Some);
    }
}

/// A decimal number is read back as it was written.
proof fn lemma_decimal_is_read(n: nat, max: nat)
    ensures
        number::unsigned(number::decimal(n), max) == (if n <= max {
            Some(n)
        } else {
            None
        }),
{
    number::law_rendered_reads_back(n, 10);
    let s = number::decimal(n);
    assert(number::digit_value(s[0], 10) is Some);
}

proof fn lemma_joined_lacks(parts: Seq<Seq<char>>, sep: Seq<char>, c: char)
    requires
        text::lacks(sep, c),
        forall|i: int| 0 <= i < parts.len() ==> text::lacks(#[trigger] parts[i], c),
    ensures
        text::lacks(text::joined(parts, sep), c),
    decreases parts.len(),
{
    if parts.len() == 1 {
        assert(text::lacks(parts[0], c));
    } else if parts.len() > 1 {
        let front = parts.drop_last();
        assert forall|i: int| 0 <= i < front.len() implies text::lacks(#[trigger] front[i], c) by {
            assert(front[i] == parts[i]);
        }
        lemma_joined_lacks(front, sep, c);
        let last = parts[parts.len() - 1];
        let whole = text::joined(parts, sep);
        let head = text::joined(front, sep);
        assert(text::lacks(last, c));
        assert(whole == head + sep + last);
        assert forall|i: int| 0 <= i < whole.len() implies #[trigger] whole[i] != c by {
            if i < head.len() {
                assert(whole[i] == head[i]);
            } else if i < head.len() + sep.len() {
                assert(whole[i] == sep[i - head.len()]);
            } else {
                assert(whole[i] == last[i - head.len() - sep.len()]);
            }
        }
    }
}

proof fn lemma_hex_lacks_slash(n: nat)
    ensures
        text::lacks(number::rendered(n, 16), '/'),
{
    number::law_rendered_reads_back(n, 16);
    let s = number::rendered(n, 16);
    assert forall|i: int| 0 <= i < s.len() implies #[trigger] s[i] != '/' by {
        assert(number::digit_value(s[i], 16) is Some);
    }
}

proof fn lemma_groups_lack_slash(g: Seq<u16>)
    ensures
        text::lacks(address::groups_shown(g), '/'),
{
    let parts = address::group_texts(g);
    assert forall|i: int| 0 <= i < parts.len() implies text::lacks(#[trigger] parts[i], '/') by {
        lemma_hex_lacks_slash(g[i] as nat);
    }
    lemma_joined_lacks(parts, seq![':'], '/');
}

proof fn lemma_concat_lacks(a: Seq<char>, b: Seq<char>, c: char)
    requires
        text::lacks(a, c),
        text::lacks(b, c),
    ensures
        text::lacks(a + b, c),
{
    assert forall|i: int| 0 <= i < (a + b).len() implies #[trigger] (a + b)[i] != c by {
        if i < a.len() {
            assert((a + b)[i] == a[i]);
        } else {
            assert((a + b)[i] == b[i - a.len()]);
        }
    }
}

proof fn lemma_ipv4_lacks_slash(v: Ipv4Addr)
    ensures
        text::lacks(address::ipv4_shown(v), '/'),
{
    lemma_decimal_lacks_slash(v.a as nat);
    lemma_decimal_lacks_slash(v.b as nat);
    lemma_decimal_lacks_slash(v.c as nat);
    lemma_decimal_lacks_slash(v.d as nat);
    lemma_joined_lacks(
        seq![
            number::decimal(v.a as nat),
            number::decimal(v.b as nat),
            number::decimal(v.c as nat),
            number::decimal(v.d as nat),
        ],
        seq!['.'],
        '/',
    );
}

/// No address is written with a slash.
proof fn lemma_shown_lacks_slash(ip: IpAddr)
    ensures
        text::lacks(address::shown(ip), '/'),
{
    match ip {
        IpAddr::V4(v) => {
            lemma_ipv4_lacks_slash(v);
        },
        IpAddr::V6(v) => {
            if v.spec_mapped() {
                lemma_ipv4_lacks_slash(v.low_ipv4());
                lemma_concat_lacks(
                    seq![':', ':', 'f', 'f', 'f', 'f', ':'],
                    address::ipv4_shown(v.low_ipv4()),
                    '/',
                );
            } else {
                let run = address::longest_zero_run(v.groups(), 8);
                lemma_groups_lack_slash(v.groups());
                lemma_groups_lack_slash(v.groups().take(run.0));
                lemma_groups_lack_slash(v.groups().skip(run.0 + run.1));
                let head = address::groups_shown(v.groups().take(run.0));
                lemma_concat_lacks(head, seq![':', ':'], '/');
                lemma_concat_lacks(
                    head + seq![':', ':'],
                    address::groups_shown(v.groups().skip(run.0 + run.1)),
                    '/',
                );
            }
        },
    }
}

/// The text of an address of the family, a slash and the digits of a number is a source
/// exactly where an address of the family has that many bits. A larger number is refused
/// for its prefix length, and an address of the other family for its family.
pub proof fn law_prefix_lengths_go_up_to_the_bits_of_the_family(
    family: AddressFamily,
    ip: IpAddr,
    n: nat,
    name: Seq<char>,
)
    ensures
        ({
            let cidr = address::shown(ip).push('/') + number::decimal(n);
            let fault = config::cidr_fault(family, cidr, name);
            &&& fault is None <==> of_family(ip, family) && n <= bits(family)
            &&& of_family(ip, family) && bits(family) < n <= 255 ==> fault == Some(
                Fault::CidrPrefix { name, cidr },
            )
            &&& !of_family(ip, family) ==> fault == Some(Fault::CidrFamily { name, cidr })
        }),
{
    let s = address::shown(ip);
    let d = number::decimal(n);
    let cidr = s.push('/') + d;
    lemma_shown_lacks_slash(ip);
    lemma_decimal_lacks_slash(n);
    text::lemma_pieces_append(s, d, '/');
    text::lemma_pieces_single(s, '/');
    assert(text::pieces(cidr, '/') =~= seq![s, d]);
    address::law_shown_reads_back(ip);
    lemma_decimal_is_read(n, 255);
}

/// A source is accepted exactly where it is an address of the family, a slash and a
/// number of bits that the family has.
pub proof fn law_sources_are_ranges_of_the_family(
    family: AddressFamily,
    source: Seq<char>,
    name: Seq<char>,
)
    ensures
        config::cidr_fault(family, source, name) is None <==> source_range(family, source),
{
}

// Ports.

proof fn lemma_tail(port: int, suffix: u32)
    requires
        port >= 0,
    ensures
        config::ends_in(port as nat, suffix as nat) <==> has_tail(port, suffix),
{
    let p = number::decimal(port as nat);
    let s = number::decimal(suffix as nat);
    if config::ends_in(port as nat, suffix as nat) {
        let front = p.take(p.len() - s.len());
        assert(p =~= front + s);
    }
    if has_tail(port, suffix) {
        let front = choose|front: Seq<char>|
            #![trigger front + number::decimal(suffix as nat)]
            p == front + s;
        assert(p.skip(p.len() - s.len()) =~= s);
    }
}

/// Ports are accepted exactly where they are a range of ports between 1 and 65535 with a
/// tail that one of its ports has, or a list without repetition; a range projects to its
/// ports with the tail, without its end, and a list to its ports, in ascending order.
pub proof fn law_ports_are_a_range_with_a_tail_or_a_list(l: ListenPortsView)
    ensures
        config::projected(l) is Ok <==> ports_ok(l),
        config::projected(l) is Ok ==> forall|port: u16| #[trigger]
            config::projected(l)->Ok_0.contains(port) <==> match l.ports {
                Some(ports) => ports.contains(port),
                None => l.range_start->0 <= port < l.range_end->0 && has_tail(
                    port as int,
                    l.suffix->0,
                ),
            },
        config::projected(l) is Ok ==> forall|i: int, j: int|
            0 <= i < j < config::projected(l)->Ok_0.len() ==> config::projected(l)->Ok_0[i]
                < config::projected(l)->Ok_0[j],
{
    let suffix = l.suffix->0;
    if l.ports is None && l.range_start is Some && l.range_end is Some && l.suffix is Some && 1
        <= l.range_start->0 < l.range_end->0 <= 65536 {
        let (start, end) = (l.range_start->0 as int, l.range_end->0 as int);
        let chosen = |p: int| config::ends_in(p as nat, suffix as nat);
        let tail = config::tail_ports(l.range_start->0, l.range_end->0, suffix);
        config::lemma_chosen_ports(start, end, chosen);
        assert forall|port: u16| #[trigger] tail.contains(port) <==> start <= port < end
            && has_tail(port as int, suffix) by {
            lemma_tail(port as int, suffix);
            assert(tail.contains(port) <==> start <= port < end && chosen(port as int));
        }
        if tail.len() > 0 {
            assert(tail.contains(tail[0]));
            assert(has_tail(tail[0] as int, suffix));
        }
        if exists|port: int| start <= port < end && #[trigger] has_tail(port, suffix) {
            let port = choose|port: int| start <= port < end && #[trigger] has_tail(port, suffix);
            assert(tail.contains(port as u16));
        }
    }
    if l.ports is Some {
        let listed = l.ports->0;
        let chosen = |p: int| listed.contains(p as u16);
        config::lemma_chosen_ports(0, 65536, chosen);
        assert forall|port: u16| #[trigger]
            config::sorted_ports(listed).contains(port) <==> listed.contains(port) by {
            assert(config::sorted_ports(listed).contains(port) <==> chosen(port as int));
        }
    }
}

// Profiles.

/// A profile is accepted by itself exactly where it listens on an address of its family,
/// with protocols and ports, from sources of its family, each of these without
/// repetition, and has a target that it may have.
pub proof fn law_profile_is_accepted_exactly_where_it_keeps_the_rules(p: ProfileView)
    ensures
        config::profile_fault(p) is None <==> profile_ok(p),
{
    law_ports_are_a_range_with_a_tail_or_a_list(p.listen_ports);
    let any = p.family.spec_any_source();
    let sources = config::effective_sources(p.family, p.source_cidrs);
    let at = |i: int| config::source_fault_at(p.family, sources, p.name, i);
    config::lemma_no_fault(at, sources.len() as int);
    match p.target {
        TargetView::Remote { host, .. } => {
            if address::ip_of(host) is Some {
                law_addresses_have_their_classes(address::ip_of(host)->0);
            }
        },
        _ => {},
    }
    if p.source_cidrs.len() == 0 {
        lemma_any_source(p.family, p.name);
        assert(sources.take(0).len() == 0);
        assert(at(0) is None);
    } else {
        if forall|i: int| 0 <= i < sources.len() ==> (#[trigger] at(i)) is None {
            assert forall|i: int| 0 <= i < sources.len() implies source_range(
                p.family,
                #[trigger] p.source_cidrs[i],
            ) by {
                assert(at(i) is None);
            }
            assert forall|i: int, j: int| 0 <= i < j < sources.len() implies sources[i]
                != sources[j] by {
                assert(at(j) is None);
                if sources[i] == sources[j] {
                    assert(sources.take(j)[i] == sources[j]);
                }
            }
            assert(p.source_cidrs.no_duplicates());
        }
        if p.source_cidrs.no_duplicates() && forall|i: int|
            0 <= i < p.source_cidrs.len() ==> source_range(p.family, #[trigger] p.source_cidrs[i]) {
            assert forall|i: int| 0 <= i < sources.len() implies (#[trigger] at(i)) is None by {
                assert(source_range(p.family, p.source_cidrs[i]));
                if sources.take(i).contains(sources[i]) {
                    let k = choose|k: int| 0 <= k < i && sources.take(i)[k] == sources[i];
                    assert(sources[k] == sources[i]);
                }
            }
        }
    }
}

/// The unspecified IPv4 address is written with four zeros.
proof fn lemma_zero_ipv4_shown()
    ensures
        address::ipv4_shown(Ipv4Addr { a: 0, b: 0, c: 0, d: 0 }) == seq![
            '0',
            '.',
            '0',
            '.',
            '0',
            '.',
            '0',
        ],
{
    let zero = number::decimal(0);
    assert(zero =~= seq!['0']);
    let one = seq![zero];
    let two = seq![zero, zero];
    let three = seq![zero, zero, zero];
    let four = seq![zero, zero, zero, zero];
    let dot = seq!['.'];
    assert(two.drop_last() =~= one);
    assert(three.drop_last() =~= two);
    assert(four.drop_last() =~= three);
    assert(text::joined(one, dot) =~= seq!['0']);
    assert(text::joined(two, dot) =~= seq!['0', '.', '0']);
    assert(text::joined(three, dot) =~= seq!['0', '.', '0', '.', '0']);
    assert(text::joined(four, dot) =~= seq!['0', '.', '0', '.', '0', '.', '0']);
}

/// The unspecified IPv6 address is written with two colons.
proof fn lemma_zero_ipv6_shown(v: Ipv6Addr)
    requires
        v == (Ipv6Addr { g0: 0, g1: 0, g2: 0, g3: 0, g4: 0, g5: 0, g6: 0, g7: 0 }),
    ensures
        address::ipv6_shown(v) == seq![':', ':'],
{
    let g = v.groups();
    assert(address::zero_run(g, 8) == 0);
    assert(address::zero_run(g, 7) == 1);
    assert(address::zero_run(g, 6) == 2);
    assert(address::zero_run(g, 5) == 3);
    assert(address::zero_run(g, 4) == 4);
    assert(address::zero_run(g, 3) == 5);
    assert(address::zero_run(g, 2) == 6);
    assert(address::zero_run(g, 1) == 7);
    assert(address::zero_run(g, 0) == 8);
    assert(address::longest_zero_run(g, 0) == (0int, 0int));
    assert(address::longest_zero_run(g, 1) == (0int, 8int));
    assert(address::longest_zero_run(g, 2) == (0int, 8int));
    assert(address::longest_zero_run(g, 3) == (0int, 8int));
    assert(address::longest_zero_run(g, 4) == (0int, 8int));
    assert(address::longest_zero_run(g, 5) == (0int, 8int));
    assert(address::longest_zero_run(g, 6) == (0int, 8int));
    assert(address::longest_zero_run(g, 7) == (0int, 8int));
    assert(address::longest_zero_run(g, 8) == (0int, 8int));
    assert(address::group_texts(g.take(0)).len() == 0);
    assert(address::group_texts(g.skip(8)).len() == 0);
    assert(address::groups_shown(g.take(0)) =~= Seq::empty());
    assert(address::groups_shown(g.skip(8)) =~= Seq::empty());
    assert(address::ipv6_shown(v) =~= seq![':', ':']);
}

/// The unspecified address of a family.
spec fn unspecified(family: AddressFamily) -> IpAddr {
    match family {
        AddressFamily::Ipv4 => IpAddr::V4(Ipv4Addr { a: 0, b: 0, c: 0, d: 0 }),
        AddressFamily::Ipv6 => IpAddr::V6(
            Ipv6Addr { g0: 0, g1: 0, g2: 0, g3: 0, g4: 0, g5: 0, g6: 0, g7: 0 },
        ),
    }
}

/// The any-source range of a family is its unspecified address with no bits.
proof fn lemma_any_source_text(family: AddressFamily)
    ensures
        address::shown(unspecified(family)).push('/') + number::decimal(0)
            == family.spec_any_source(),
{
    let zero = number::decimal(0);
    assert(zero =~= seq!['0']);
    match family {
        AddressFamily::Ipv4 => {
            lemma_zero_ipv4_shown();
            reveal_strlit("0.0.0.0/0");
            let s = seq!['0', '.', '0', '.', '0', '.', '0'];
            assert(s.push('/') + seq!['0'] =~= "0.0.0.0/0"@);
        },
        AddressFamily::Ipv6 => {
            lemma_zero_ipv6_shown(unspecified(family)->V6_0);
            reveal_strlit("::/0");
            let s = seq![':', ':'];
            assert(s.push('/') + seq!['0'] =~= "::/0"@);
        },
    }
}

/// The any-source range of a family is one of its ranges.
proof fn lemma_any_source(family: AddressFamily, name: Seq<char>)
    ensures
        config::cidr_fault(family, family.spec_any_source(), name) is None,
{
    lemma_any_source_text(family);
    law_prefix_lengths_go_up_to_the_bits_of_the_family(family, unspecified(family), 0, name);
}

/// The normalized form of a profile has the address that it listens on, its ports, and
/// its sources, or the any-source range of its family where it configures none.
pub proof fn law_normalized_profile_is_the_profile(p: ProfileView)
    ensures
        config::normalized(p).profile == p,
        Some(config::normalized(p).listen_ip) == address::ip_of(p.listen_address)
            || address::ip_of(p.listen_address) is None,
        config::normalized(p).listen_ports == config::projected(p.listen_ports)->Ok_0,
        p.source_cidrs.len() > 0 ==> config::normalized(p).source_cidrs == p.source_cidrs,
        p.source_cidrs.len() == 0 ==> config::normalized(p).source_cidrs == seq![
            (if p.family == AddressFamily::Ipv4 {
                "0.0.0.0/0"@
            } else {
                "::/0"@
            }),
        ],
{
}

// Configurations.

/// A listener of profile `j` that is taken is one over which two profiles clash.
proof fn lemma_overlap(ps: Seq<ProfileView>, j: int)
    requires
        0 <= j < ps.len(),
        forall|i: int|
            0 <= i <= j ==> address::ip_of((#[trigger] ps[i]).listen_address) is Some,
    ensures
        config::overlap_fault(config::all_normalized(ps), j) is None <==> forall|i: int|
            0 <= i < j ==> !clash(#[trigger] ps[i], ps[j]),
{
    let vs = config::all_normalized(ps);
    let v = vs[j];
    let outer = |a: int| config::overlap_for(vs, j, a);
    config::lemma_no_fault(outer, v.profile.protocols.len() as int);
    assert(v == config::normalized(ps[j]));
    if config::overlap_fault(vs, j) is None {
        assert forall|i: int| 0 <= i < j implies !clash(#[trigger] ps[i], ps[j]) by {
            if clash(ps[i], ps[j]) {
                let protocol = choose|protocol: Protocol| #[trigger]
                    ps[i].protocols.contains(protocol) && ps[j].protocols.contains(protocol);
                let port = choose|port: u16| #[trigger]
                    config::projected(ps[i].listen_ports)->Ok_0.contains(port)
                        && config::projected(ps[j].listen_ports)->Ok_0.contains(port);
                let a = choose|a: int|
                    0 <= a < ps[j].protocols.len() && ps[j].protocols[a] == protocol;
                let b = choose|b: int|
                    0 <= b < v.listen_ports.len() && v.listen_ports[b] == port;
                assert(outer(a) is None);
                let inner = |b: int| config::overlap_at(vs, j, a, b);
                config::lemma_no_fault(inner, v.listen_ports.len() as int);
                assert(inner(b) is None);
                assert(vs[i] == config::normalized(ps[i]));
                assert(config::listens(vs[i], v.listen_ip, protocol, port));
                assert(config::occupied(vs, j, protocol, port));
            }
        }
    } else {
        let a = choose|a: int|
            0 <= a < v.profile.protocols.len() && !((#[trigger] outer(a)) is None);
        let inner = |b: int| config::overlap_at(vs, j, a, b);
        config::lemma_no_fault(inner, v.listen_ports.len() as int);
        let b = choose|b: int| 0 <= b < v.listen_ports.len() && !((#[trigger] inner(b)) is None);
        let protocol = v.profile.protocols[a];
        let port = v.listen_ports[b];
        assert(config::occupied(vs, j, protocol, port));
        let i = choose|i: int|
            0 <= i < j && #[trigger] config::listens(vs[i], v.listen_ip, protocol, port);
        assert(vs[i] == config::normalized(ps[i]));
        assert(ps[i].protocols.contains(protocol) && ps[j].protocols.contains(protocol));
        assert(config::projected(ps[i].listen_ports)->Ok_0.contains(port)
            && config::projected(ps[j].listen_ports)->Ok_0.contains(port));
        assert(clash(ps[i], ps[j]));
    }
}

/// A configuration is accepted exactly where its schema is the first one, its profiles
/// have names, no two of them the same, each of them keeps the rules, and no two of them
/// listen on the same address with the same protocol on the same port.
pub proof fn law_configuration_is_accepted_exactly_where_it_keeps_the_rules(c: ConfigView)
    ensures
        config::config_fault(c) is None <==> config_ok(c),
{
    let ps = c.profiles;
    let at = |j: int| config::profile_fault_at(ps, j);
    config::lemma_no_fault(at, ps.len() as int);
    if config::config_fault(c) is None {
        assert forall|i: int| 0 <= i < ps.len() implies !text::is_blank((#[trigger] ps[i]).name)
            && profile_ok(ps[i]) by {
            assert(at(i) is None);
            law_profile_is_accepted_exactly_where_it_keeps_the_rules(ps[i]);
        }
        assert forall|i: int, j: int|
            #![trigger ps[i], ps[j]]
            0 <= i < j < ps.len() implies ps[i].name != ps[j].name && !clash(ps[i], ps[j]) by {
            assert(at(j) is None);
            if ps[i].name == ps[j].name {
                assert(config::name_taken(ps, j));
            }
            assert(forall|m: int| 0 <= m < ps.len() ==> profile_ok(#[trigger] ps[m]));
            lemma_overlap(ps, j);
        }
    }
    if config_ok(c) {
        assert forall|j: int| 0 <= j < ps.len() implies (#[trigger] at(j)) is None by {
            assert(profile_ok(ps[j]));
            law_profile_is_accepted_exactly_where_it_keeps_the_rules(ps[j]);
            if config::name_taken(ps, j) {
                let i = choose|i: int| 0 <= i < j && (#[trigger] ps[i]).name == ps[j].name;
                assert(ps[i].name != ps[j].name);
            }
            assert(forall|m: int| 0 <= m < ps.len() ==> profile_ok(#[trigger] ps[m]));
            lemma_overlap(ps, j);
        }
    }
}

/// The profile has real values: no placeholder, and no documentation address.
pub open spec fn genuine(p: ProfileView) -> bool {
    &&& !text::holds_todo(p.name)
    &&& !text::holds_todo(p.listen_address)
    &&& address::ip_of(p.listen_address) matches Some(ip) ==> !for_documentation(ip)
    &&& forall|i: int|
        0 <= i < config::normalized(p).source_cidrs.len() ==> {
            let source = #[trigger] config::normalized(p).source_cidrs[i];
            &&& !text::holds_todo(source)
            &&& address::ip_of(text::pieces(source, '/')[0]) matches Some(ip)
                ==> !for_documentation(ip)
        }
    &&& p.target matches TargetView::Remote { host, .. } ==> {
        &&& !text::holds_todo(host)
        &&& address::ip_of(host) matches Some(ip) ==> !for_documentation(ip)
    }
}

/// What keeps an accepted profile from being deployed.
proof fn lemma_real(p: ProfileView)
    requires
        config::profile_fault(p) is None,
    ensures
        config::undeployable(config::normalized(p)) is None <==> genuine(p),
{
    let v = config::normalized(p);
    let at = |i: int| config::source_undeployable(p.name, v.source_cidrs[i]);
    let checked = |i: int| config::source_fault_at(p.family, v.source_cidrs, p.name, i);
    config::lemma_no_fault(at, v.source_cidrs.len() as int);
    config::lemma_no_fault(checked, v.source_cidrs.len() as int);
    law_addresses_have_their_classes(v.listen_ip);
    assert forall|i: int| 0 <= i < v.source_cidrs.len() implies ((#[trigger] at(i)) is None <==> {
        let source = v.source_cidrs[i];
        &&& !text::holds_todo(source)
        &&& address::ip_of(text::pieces(source, '/')[0]) matches Some(ip)
            ==> !for_documentation(ip)
    }) by {
        assert(checked(i) is None);
        law_addresses_have_their_classes(config::cidr_address(v.source_cidrs[i])->0);
    }
    if p.target is Remote && address::ip_of(p.target->host) is Some {
        law_addresses_have_their_classes(address::ip_of(p.target->host)->0);
    }
    if config::undeployable(v) is None {
        assert forall|i: int| 0 <= i < v.source_cidrs.len() implies {
            let source = #[trigger] v.source_cidrs[i];
            &&& !text::holds_todo(source)
            &&& address::ip_of(text::pieces(source, '/')[0]) matches Some(ip)
                ==> !for_documentation(ip)
        } by {
            assert(at(i) is None);
        }
    }
    if genuine(p) {
        assert forall|i: int| 0 <= i < v.source_cidrs.len() implies (#[trigger] at(i)) is None by {
            let source = v.source_cidrs[i];
            assert(!text::holds_todo(source));
        }
    }
}

/// A configuration can be deployed exactly where it is accepted, has a profile, and all
/// of its profiles have real values.
pub proof fn law_configuration_is_deployable_exactly_where_it_is_real(c: ConfigView)
    ensures
        config::deployable_fault(c) is None <==> config_ok(c) && c.profiles.len() > 0 && forall|
            i: int,
        |
            0 <= i < c.profiles.len() ==> genuine(#[trigger] c.profiles[i]),
{
    law_configuration_is_accepted_exactly_where_it_keeps_the_rules(c);
    let ps = c.profiles;
    let vs = config::all_normalized(ps);
    let at = |j: int| config::undeployable(vs[j]);
    config::lemma_no_fault(at, ps.len() as int);
    if config::config_fault(c) is None {
        let checked = |j: int| config::profile_fault_at(ps, j);
        config::lemma_no_fault(checked, ps.len() as int);
        assert forall|j: int| 0 <= j < ps.len() implies ((#[trigger] at(j)) is None <==> genuine(
            ps[j],
        )) by {
            assert(checked(j) is None);
            assert(vs[j] == config::normalized(ps[j]));
            lemma_real(ps[j]);
        }
        if forall|j: int| 0 <= j < ps.len() ==> genuine(#[trigger] ps[j]) {
            assert forall|j: int| 0 <= j < ps.len() implies (#[trigger] at(j)) is None by {
                assert(genuine(ps[j]));
            }
        }
        if forall|j: int| 0 <= j < ps.len() ==> (#[trigger] at(j)) is None {
            assert forall|j: int| 0 <= j < ps.len() implies genuine(#[trigger] ps[j]) by {
                assert(at(j) is None);
            }
        }
    }
}

// What is told.

/// The source is not an address, a slash and a number.
pub open spec fn no_range(source: Seq<char>) -> bool {
    let parts = text::pieces(source, '/');
    parts.len() != 2 || address::ip_of(parts[0]) is None || number::unsigned(parts[1], 255) is None
}

/// The profile breaks the rule by itself, and what is told of it names what breaks it.
pub open spec fn breaks(p: ProfileView, f: Fault) -> bool {
    let l = p.listen_ports;
    match f {
        Fault::ListenAddress { name, address: given } => name == p.name && given
            == p.listen_address && address::ip_of(given) is None,
        Fault::ListenFamily { name } => name == p.name && (address::ip_of(
            p.listen_address,
        ) matches Some(ip) && !of_family(ip, p.family)),
        Fault::NoProtocols { name } => name == p.name && p.protocols.len() == 0,
        Fault::DuplicateProtocols { name } => name == p.name && !p.protocols.no_duplicates(),
        Fault::MixedPorts => l.ports is Some && (l.range_start is Some || l.range_end is Some
            || l.suffix is Some),
        Fault::MissingPorts => l.ports is None && l.range_start is None && l.range_end is None
            && l.suffix is None,
        Fault::PartialRange => l.range_start is None || l.range_end is None || l.suffix is None,
        Fault::Range { start, end } => l.range_start == Some(start) && l.range_end == Some(end)
            && !(1 <= start < end <= 65536),
        Fault::NoPortInRange { start, end, suffix } => {
            &&& l.range_start == Some(start) && l.range_end == Some(end) && l.suffix == Some(
                suffix,
            )
            &&& forall|port: int| start <= port < end ==> !#[trigger] has_tail(port, suffix)
        },
        Fault::EmptyPorts => l.ports is Some && l.ports->0.len() == 0,
        Fault::DuplicatePorts => l.ports is Some && !l.ports->0.no_duplicates(),
        Fault::Cidr { name, cidr } => name == p.name && p.source_cidrs.contains(cidr) && no_range(
            cidr,
        ),
        Fault::CidrFamily { name, cidr } => name == p.name && p.source_cidrs.contains(cidr) && (
        address::ip_of(text::pieces(cidr, '/')[0]) matches Some(ip) && !of_family(ip, p.family)),
        Fault::CidrPrefix { name, cidr } => name == p.name && p.source_cidrs.contains(cidr) && (
        number::unsigned(text::pieces(cidr, '/')[1], 255) matches Some(n) && n > bits(p.family)),
        Fault::DuplicateCidrs { name } => name == p.name && !p.source_cidrs.no_duplicates(),
        Fault::BlankHost { name } => name == p.name && (p.target matches TargetView::Remote {
            host,
            ..
        } && text::is_blank(host)),
        Fault::MissingSourceMode { name } => name == p.name && p.family == AddressFamily::Ipv4 && (
        p.target matches TargetView::Remote { source_mode, .. } && source_mode is None),
        Fault::ForbiddenSourceMode { name } => name == p.name && p.family == AddressFamily::Ipv6
            && (p.target matches TargetView::Remote { source_mode, .. } && source_mode is Some),
        Fault::TargetFamily { name, ip } => name == p.name && (p.target matches TargetView::Remote {
            host,
            ..
        } && address::ip_of(host) == Some(ip) && !of_family(ip, p.family)),
        Fault::TargetForbidden { name, ip } => name == p.name && (
        p.target matches TargetView::Remote { host, .. } && address::ip_of(host) == Some(ip)
            && !reachable(ip)),
        Fault::LoopbackFamily { name } => name == p.name && p.target is LoopbackDnat && p.family
            == AddressFamily::Ipv6,
        Fault::LoopbackOptIn { name } => name == p.name && p.target is LoopbackDnat
            && !p.allow_route_localnet,
        _ => false,
    }
}

/// The first fault is at some position.
proof fn lemma_fault_is_somewhere(at: spec_fn(int) -> Option<Fault>, n: int) -> (i: int)
    requires
        config::first_fault(at, n) is Some,
    ensures
        0 <= i < n,
        at(i) == config::first_fault(at, n),
    decreases n,
{
    if config::first_fault(at, n - 1) is Some {
        lemma_fault_is_somewhere(at, n - 1)
    } else {
        n - 1
    }
}

proof fn lemma_ports_break(l: ListenPortsView)
    requires
        config::projected(l) is Err,
    ensures
        forall|p: ProfileView|
            p.listen_ports == l ==> #[trigger] breaks(p, config::projected(l)->Err_0),
{
    if config::projected(l)->Err_0 is NoPortInRange {
        let suffix = l.suffix->0;
        let (start, end) = (l.range_start->0 as int, l.range_end->0 as int);
        let chosen = |p: int| config::ends_in(p as nat, suffix as nat);
        let tail = config::tail_ports(l.range_start->0, l.range_end->0, suffix);
        config::lemma_chosen_ports(start, end, chosen);
        assert forall|port: int| start <= port < end implies !#[trigger] has_tail(port, suffix) by {
            lemma_tail(port, suffix);
            if has_tail(port, suffix) {
                assert(chosen(port));
                assert(tail.contains(port as u16));
            }
        }
    }
}

proof fn lemma_source_breaks(p: ProfileView, f: Fault)
    requires
        config::sources_fault(
            p.family,
            config::effective_sources(p.family, p.source_cidrs),
            p.name,
        ) == Some(f),
    ensures
        breaks(p, f),
{
    let sources = config::effective_sources(p.family, p.source_cidrs);
    let at = |i: int| config::source_fault_at(p.family, sources, p.name, i);
    let i = lemma_fault_is_somewhere(at, sources.len() as int);
    if p.source_cidrs.len() == 0 {
        lemma_any_source(p.family, p.name);
        assert(sources.take(0).len() == 0);
    } else {
        assert(p.source_cidrs.contains(sources[i]));
        if config::cidr_fault(p.family, sources[i], p.name) is None {
            let k = choose|k: int|
                0 <= k < sources.take(i).len() && sources.take(i)[k] == sources[i];
            assert(sources[k] == sources[i] && k != i);
        }
    }
}

proof fn lemma_target_breaks(p: ProfileView, f: Fault)
    requires
        config::target_fault(p) == Some(f),
    ensures
        breaks(p, f),
{
    if p.target is Remote && address::ip_of(p.target->host) is Some {
        law_addresses_have_their_classes(address::ip_of(p.target->host)->0);
    }
}

/// What is told of a profile that is refused is a rule that it breaks.
pub proof fn law_refused_profile_breaks_the_rule_that_is_told(p: ProfileView)
    requires
        config::profile_fault(p) is Some,
    ensures
        breaks(p, config::profile_fault(p)->0),
{
    let f = config::profile_fault(p)->0;
    let ip = address::ip_of(p.listen_address);
    let sources = config::effective_sources(p.family, p.source_cidrs);
    if ip is Some && p.family.spec_matches(ip->0) && p.protocols.len() > 0
        && p.protocols.no_duplicates() {
        if config::projected(p.listen_ports) is Err {
            lemma_ports_break(p.listen_ports);
        } else if config::sources_fault(p.family, sources, p.name) is Some {
            lemma_source_breaks(p, f);
        } else {
            lemma_target_breaks(p, f);
        }
    }
}

/// What is told of a configuration that is refused is its schema, a name that is blank or
/// taken, a listener that is taken, or a rule that one of its profiles breaks by itself.
pub proof fn law_refused_configuration_breaks_the_rule_that_is_told(c: ConfigView)
    requires
        config::config_fault(c) is Some,
    ensures
        match config::config_fault(c)->0 {
            Fault::SchemaVersion { version } => version == c.schema_version && version != 1,
            Fault::BlankName => exists|i: int|
                0 <= i < c.profiles.len() && text::is_blank((#[trigger] c.profiles[i]).name),
            Fault::DuplicateName { name } => exists|i: int, j: int|
                0 <= i < j < c.profiles.len() && (#[trigger] c.profiles[i]).name == name && (
                #[trigger] c.profiles[j]).name == name,
            Fault::Overlap { ip, .. } => exists|j: int|
                0 <= j < c.profiles.len() && address::ip_of(
                    (#[trigger] c.profiles[j]).listen_address,
                ) == Some(ip),
            f => exists|i: int| 0 <= i < c.profiles.len() && breaks(#[trigger] c.profiles[i], f),
        },
{
    let ps = c.profiles;
    if c.schema_version == 1 {
        let at = |j: int| config::profile_fault_at(ps, j);
        let j = lemma_fault_is_somewhere(at, ps.len() as int);
        let f = at(j)->0;
        if text::is_blank(ps[j].name) {
            assert(f is BlankName);
        } else if config::name_taken(ps, j) {
            let i = choose|i: int| 0 <= i < j && (#[trigger] ps[i]).name == ps[j].name;
            assert(ps[i].name == ps[j].name);
        } else if config::profile_fault(ps[j]) is Some {
            law_refused_profile_breaks_the_rule_that_is_told(ps[j]);
        } else {
            let vs = config::all_normalized(ps);
            let outer = |a: int| config::overlap_for(vs, j, a);
            let a = lemma_fault_is_somewhere(outer, vs[j].profile.protocols.len() as int);
            let inner = |b: int| config::overlap_at(vs, j, a, b);
            let b = lemma_fault_is_somewhere(inner, vs[j].listen_ports.len() as int);
            assert(vs[j] == config::normalized(ps[j]));
            law_profile_is_accepted_exactly_where_it_keeps_the_rules(ps[j]);
        }
    }
}

} // verus!
