//! What the addresses and interfaces of the host allow.

use vstd::prelude::*;

use crate::address;
use crate::address::IpAddr;
use crate::host;
use crate::host::{CommandOutput, InterfaceAddress, InterfaceAddressView};
use crate::nft;
use crate::profile;
use crate::profile::{ResolvedProfile, ResolvedProfileView};
use crate::text;

verus! {

/// The interface at position `i` has the address.
pub open spec fn has(addresses: Seq<InterfaceAddressView>, ip: IpAddr, i: int) -> bool {
    0 <= i < addresses.len() && addresses[i].address == ip
}

proof fn lemma_found(addresses: Seq<InterfaceAddressView>, ip: IpAddr)
    ensures
        ({
            let found = nft::interfaces_with(addresses, ip);
            &&& found.len() == 0 <==> forall|i: int| !#[trigger] has(addresses, ip, i)
            &&& found.len() > 1 <==> exists|i: int, j: int|
                i < j && #[trigger] has(addresses, ip, i) && #[trigger] has(addresses, ip, j)
            &&& forall|t: Seq<char>| #[trigger]
                found.contains(t) <==> exists|i: int| #[trigger]
                    has(addresses, ip, i) && addresses[i].interface == t
        }),
    decreases addresses.len(),
{
    let keep = |a: InterfaceAddressView| a.address == ip;
    let found = nft::interfaces_with(addresses, ip);
    reveal(Seq::filter);
    if addresses.len() == 0 {
        assert(found.len() == 0);
        assert forall|t: Seq<char>| #[trigger] found.contains(t) implies exists|i: int|
            #[trigger] has(addresses, ip, i) && addresses[i].interface == t by {}
    } else {
        let front = addresses.drop_last();
        let last = addresses.last();
        let n = addresses.len() - 1;
        let before = nft::interfaces_with(front, ip);
        lemma_found(front, ip);
        assert forall|i: int| 0 <= i < n implies has(front, ip, i) == #[trigger] has(
            addresses,
            ip,
            i,
        ) by {}
        assert forall|i: int| #[trigger] has(front, ip, i) implies has(addresses, ip, i) by {}
        if keep(last) {
            assert(found =~= before.push(last.interface));
            assert(has(addresses, ip, n));
            if before.len() > 0 {
                let i = choose|i: int| #[trigger] has(front, ip, i);
                assert(has(addresses, ip, i) && has(addresses, ip, n));
            }
            if exists|i: int, j: int|
                i < j && #[trigger] has(addresses, ip, i) && #[trigger] has(addresses, ip, j) {
                let (i, j) = choose|i: int, j: int|
                    i < j && #[trigger] has(addresses, ip, i) && #[trigger] has(addresses, ip, j);
                assert(has(front, ip, i));
            }
            assert forall|t: Seq<char>| #[trigger] found.contains(t) <==> exists|i: int|
                #[trigger] has(addresses, ip, i) && addresses[i].interface == t by {
                if before.contains(t) {
                    let k = choose|k: int| 0 <= k < before.len() && before[k] == t;
                    assert(found[k] == t);
                    let i = choose|i: int| #[trigger]
                        has(front, ip, i) && front[i].interface == t;
                    assert(has(addresses, ip, i) && addresses[i].interface == t);
                }
                if t == last.interface {
                    assert(found[before.len() as int] == t);
                    assert(has(addresses, ip, n) && addresses[n].interface == t);
                }
                if found.contains(t) && t != last.interface {
                    let k = choose|k: int| 0 <= k < found.len() && found[k] == t;
                    assert(before[k] == t);
                }
                if exists|i: int| #[trigger]
                    has(addresses, ip, i) && addresses[i].interface == t {
                    let i = choose|i: int| #[trigger]
                        has(addresses, ip, i) && addresses[i].interface == t;
                    if i < n {
                        assert(has(front, ip, i) && front[i].interface == t);
                        assert(before.contains(t));
                        let k = choose|k: int| 0 <= k < before.len() && before[k] == t;
                        assert(found[k] == t);
                    }
                }
            }
        } else {
            assert(found =~= before);
            assert forall|i: int| #[trigger] has(addresses, ip, i) implies has(front, ip, i) by {}
        }
    }
}

/// A profile is refused exactly where no interface has the address that it listens on,
/// or, for a loopback target, where more than one has it. A loopback target needs the
/// setting of the one interface that has it, and no other target needs one.
pub proof fn law_listener_is_on_this_host(
    v: &ResolvedProfile,
    addresses: &Vec<InterfaceAddress>,
    r: Result<Option<String>, String>,
)
    requires
        call_ensures(nft::inspect, (v, addresses), r),
    ensures
        ({
            let all = host::interface_views(addresses@);
            let ip = v@.validated.listen_ip;
            let name = v@.validated.profile.name;
            let loopback = v@.validated.profile.target is LoopbackDnat;
            let present = exists|i: int| #[trigger] has(all, ip, i);
            let twice = exists|i: int, j: int|
                i < j && #[trigger] has(all, ip, i) && #[trigger] has(all, ip, j);
            &&& r is Err <==> !present || (loopback && twice)
            &&& !present ==> r->Err_0@ == "profile "@ + text::quoted(name) + (" listen_address "@
                + address::shown(ip) + " is not assigned to this host"@)
            &&& present && loopback && twice ==> r->Err_0@ == "profile "@ + text::quoted(name) + (
            " listen_address "@ + address::shown(ip)
                + " is on more than one interface; loopback-dnat needs exactly one"@)
            &&& r is Ok && !loopback ==> r->Ok_0 is None
            &&& r is Ok && loopback ==> r->Ok_0 is Some && exists|i: int| #[trigger]
                has(all, ip, i) && all[i].interface == r->Ok_0->0@
        }),
{
    let all = host::interface_views(addresses@);
    let ip = v@.validated.listen_ip;
    lemma_found(all, ip);
    let found = nft::interfaces_with(all, ip);
    if found.len() > 0 {
        assert(found.contains(found[0]));
    }
}

/// The interface is needed by one of the first `n` profiles.
pub open spec fn wanted(
    vs: Seq<ResolvedProfileView>,
    addresses: Seq<InterfaceAddressView>,
    n: int,
    interface: Seq<char>,
) -> bool {
    exists|i: int|
        0 <= i < n && nft::inspected(#[trigger] vs[i], addresses)
            == Ok::<Option<Seq<char>>, Seq<char>>(Some(interface))
}

proof fn lemma_needed(
    vs: Seq<ResolvedProfileView>,
    addresses: Seq<InterfaceAddressView>,
    n: int,
)
    requires
        0 <= n <= vs.len(),
    ensures
        nft::needed(vs, addresses, n) is Ok <==> forall|i: int|
            0 <= i < n ==> nft::inspected(#[trigger] vs[i], addresses) is Ok,
        nft::needed(vs, addresses, n) matches Ok(list) ==> list.no_duplicates() && forall|
            t: Seq<char>,
        | #[trigger] list.contains(t) <==> wanted(vs, addresses, n, t),
        nft::needed(vs, addresses, n) matches Err(e) ==> exists|i: int|
            0 <= i < n && nft::inspected(#[trigger] vs[i], addresses)
                == Err::<Option<Seq<char>>, Seq<char>>(e),
    decreases n,
{
    if n > 0 {
        lemma_needed(vs, addresses, n - 1);
        let before = nft::needed(vs, addresses, n - 1);
        let one = nft::inspected(vs[n - 1], addresses);
        if before is Ok && one is Ok {
            let front = before->Ok_0;
            let list = nft::needed(vs, addresses, n)->Ok_0;
            assert forall|t: Seq<char>| #[trigger] list.contains(t) <==> wanted(
                vs,
                addresses,
                n,
                t,
            ) by {
                if wanted(vs, addresses, n - 1, t) {
                    let i = choose|i: int|
                        0 <= i < n - 1 && nft::inspected(#[trigger] vs[i], addresses)
                            == Ok::<Option<Seq<char>>, Seq<char>>(Some(t));
                    assert(nft::inspected(vs[i], addresses)
                        == Ok::<Option<Seq<char>>, Seq<char>>(Some(t)));
                }
                if wanted(vs, addresses, n, t) && one != Ok::<
                    Option<Seq<char>>,
                    Seq<char>,
                >(Some(t)) {
                    let i = choose|i: int|
                        0 <= i < n && nft::inspected(#[trigger] vs[i], addresses)
                            == Ok::<Option<Seq<char>>, Seq<char>>(Some(t));
                    assert(i < n - 1);
                    assert(wanted(vs, addresses, n - 1, t));
                }
                if front.contains(t) {
                    let k = choose|k: int| 0 <= k < front.len() && front[k] == t;
                    assert(list[k] == t);
                }
                if one == Ok::<Option<Seq<char>>, Seq<char>>(Some(t)) {
                    assert(wanted(vs, addresses, n, t)) by {
                        assert(nft::inspected(vs[n - 1], addresses)
                            == Ok::<Option<Seq<char>>, Seq<char>>(Some(t)));
                    }
                    if !front.contains(t) {
                        assert(list[front.len() as int] == t);
                    }
                }
                if list.contains(t) && !front.contains(t) {
                    let k = choose|k: int| 0 <= k < list.len() && list[k] == t;
                    if k < front.len() {
                        assert(front[k] == t);
                    }
                }
            }
            assert(list.no_duplicates()) by {
                assert forall|a: int, b: int|
                    0 <= a < list.len() && 0 <= b < list.len() && a != b implies list[a]
                    != list[b] by {
                    if a < front.len() && b < front.len() {
                        assert(front[a] != front[b]);
                    } else if a < front.len() {
                        assert(front.contains(front[a]));
                    } else if b < front.len() {
                        assert(front.contains(front[b]));
                    }
                }
            }
        }
        if before is Err {
            let i = choose|i: int|
                0 <= i < n - 1 && nft::inspected(#[trigger] vs[i], addresses)
                    == Err::<Option<Seq<char>>, Seq<char>>(before->Err_0);
            assert(nft::inspected(vs[i], addresses) is Err);
        }
    }
}

/// The network is refused exactly where a profile is, with what is told of that profile;
/// else the interfaces that are needed are those that a profile needs, each once.
pub proof fn law_network_serves_every_profile(
    profiles: &Vec<ResolvedProfile>,
    addresses: &Vec<InterfaceAddress>,
    r: Result<Vec<String>, String>,
)
    requires
        call_ensures(nft::preflight, (profiles, addresses), r),
    ensures
        ({
            let vs = profile::resolved_views(profiles@);
            let all = host::interface_views(addresses@);
            &&& r is Ok <==> forall|i: int|
                0 <= i < vs.len() ==> nft::inspected(#[trigger] vs[i], all) is Ok
            &&& r matches Ok(list) ==> text::texts(list@).no_duplicates() && forall|t: Seq<char>|
                #[trigger]
                text::texts(list@).contains(t) <==> wanted(vs, all, vs.len() as int, t)
            &&& r matches Err(e) ==> exists|i: int|
                0 <= i < vs.len() && nft::inspected(#[trigger] vs[i], all)
                    == Err::<Option<Seq<char>>, Seq<char>>(e@)
        }),
{
    lemma_needed(
        profile::resolved_views(profiles@),
        host::interface_views(addresses@),
        profiles@.len() as int,
    );
}

/// The profile at position `i` sends to the address.
pub open spec fn sends_to(vs: Seq<ResolvedProfileView>, i: int, ip: IpAddr) -> bool {
    &&& 0 <= i < vs.len()
    &&& vs[i].validated.profile.target is Remote
    &&& vs[i].destination == Some(ip)
}

proof fn lemma_routes(vs: Seq<ResolvedProfileView>, n: int, ip: IpAddr)
    requires
        0 <= n <= vs.len(),
    ensures
        nft::routes(vs, n).contains(ip) <==> ip is V6 && exists|i: int|
            i < n && #[trigger] sends_to(vs, i, ip),
    decreases n,
{
    if n > 0 {
        lemma_routes(vs, n - 1, ip);
        let before = nft::routes(vs, n - 1);
        let all = nft::routes(vs, n);
        if before.contains(ip) {
            let k = choose|k: int| 0 <= k < before.len() && before[k] == ip;
            assert(all[k] == ip);
        }
        if sends_to(vs, n - 1, ip) && ip is V6 {
            assert(all[before.len() as int] == ip);
        }
        if all.contains(ip) && !before.contains(ip) {
            let k = choose|k: int| 0 <= k < all.len() && all[k] == ip;
            if k < before.len() {
                assert(before[k] == ip);
            }
            assert(sends_to(vs, n - 1, ip));
        }
    }
}

/// A route is asked for exactly for the IPv6 addresses that a remote profile sends to.
pub proof fn law_routes_are_asked_for_ipv6_targets(
    profiles: &Vec<ResolvedProfile>,
    r: Vec<IpAddr>,
    ip: IpAddr,
)
    requires
        call_ensures(nft::route_targets, (profiles,), r),
    ensures
        r@.contains(ip) <==> ip is V6 && exists|i: int| #[trigger]
            sends_to(profile::resolved_views(profiles@), i, ip),
{
    lemma_routes(profile::resolved_views(profiles@), profiles@.len() as int, ip);
    let vs = profile::resolved_views(profiles@);
    if exists|i: int| #[trigger] sends_to(vs, i, ip) {
        let i = choose|i: int| #[trigger] sends_to(vs, i, ip);
        assert(i < vs.len() && sends_to(vs, i, ip));
    }
}

// The listing of the interfaces.

/// The word `k` of the line gives the address `ip`, with or without a number of bits.
pub open spec fn gives(line: Seq<char>, k: int, ip: IpAddr) -> bool {
    &&& 2 <= k < text::words(line).len()
    &&& address::ip_of(text::pieces(text::words(line)[k], '/')[0]) == Some(ip)
    &&& match ip {
        IpAddr::V4(v) => v != (address::Ipv4Addr { a: 0, b: 0, c: 0, d: 0 }),
        IpAddr::V6(v) => v != (address::Ipv6Addr {
            g0: 0,
            g1: 0,
            g2: 0,
            g3: 0,
            g4: 0,
            g5: 0,
            g6: 0,
            g7: 0,
        }),
    }
}

proof fn lemma_unspecified(ip: IpAddr)
    ensures
        ip.spec_unspecified() <==> match ip {
            IpAddr::V4(v) => v == (address::Ipv4Addr { a: 0, b: 0, c: 0, d: 0 }),
            IpAddr::V6(v) => v == (address::Ipv6Addr {
                g0: 0,
                g1: 0,
                g2: 0,
                g3: 0,
                g4: 0,
                g5: 0,
                g6: 0,
                g7: 0,
            }),
        },
{
    match ip {
        IpAddr::V4(v) => {},
        IpAddr::V6(v) => {
            let g = v.groups();
            assert(g[0] == v.g0 && g[1] == v.g1 && g[2] == v.g2 && g[3] == v.g3 && g[4] == v.g4
                && g[5] == v.g5 && g[6] == v.g6 && g[7] == v.g7);
        },
    }
}

/// The field at position `k` gives the entry.
#[verifier::opaque]
spec fn tells(fields: Seq<Seq<char>>, k: int, a: InterfaceAddressView) -> bool {
    2 <= k < fields.len() && host::field_address(fields[k]) == Some(a.address) && a.interface
        == fields[0]
}

proof fn lemma_tells(line: Seq<char>, k: int, a: InterfaceAddressView)
    ensures
        tells(text::words(line), k, a) <==> gives(line, k, a.address) && a.interface
            == text::words(line)[0],
{
    reveal(tells);
    let fields = text::words(line);
    if 2 <= k < fields.len() && address::ip_of(text::pieces(fields[k], '/')[0]) is Some {
        lemma_unspecified(address::ip_of(text::pieces(fields[k], '/')[0])->0);
    }
}

proof fn lemma_last_field(fields: Seq<Seq<char>>, n: int, a: InterfaceAddressView)
    requires
        2 < n <= fields.len(),
    ensures
        host::field_addresses(fields, n).contains(a) <==> host::field_addresses(
            fields,
            n - 1,
        ).contains(a) || tells(fields, n - 1, a),
{
    reveal(tells);
    let before = host::field_addresses(fields, n - 1);
    let all = host::field_addresses(fields, n);
    if before.contains(a) {
        let k = choose|k: int| 0 <= k < before.len() && before[k] == a;
        assert(all[k] == a);
    }
    if tells(fields, n - 1, a) {
        assert(all[before.len() as int] == a);
    }
    if all.contains(a) && !before.contains(a) {
        let k = choose|k: int| 0 <= k < all.len() && all[k] == a;
        if k < before.len() {
            assert(before[k] == a);
        }
    }
}

proof fn lemma_fields(fields: Seq<Seq<char>>, n: int, a: InterfaceAddressView)
    requires
        n <= fields.len(),
    ensures
        host::field_addresses(fields, n).contains(a) <==> exists|k: int|
            k < n && #[trigger] tells(fields, k, a),
    decreases n,
{
    if n > 2 {
        lemma_fields(fields, n - 1, a);
        lemma_last_field(fields, n, a);
    } else {
        reveal(tells);
    }
}

proof fn lemma_last_line(lines: Seq<Seq<char>>, n: int, a: InterfaceAddressView)
    requires
        0 < n <= lines.len(),
    ensures
        host::addresses_of(lines, n).contains(a) <==> host::addresses_of(lines, n - 1).contains(a)
            || exists|k: int| #[trigger] tells(text::words(lines[n - 1]), k, a),
{
    let before = host::addresses_of(lines, n - 1);
    let fields = text::words(lines[n - 1]);
    let own = host::field_addresses(fields, fields.len() as int);
    lemma_fields(fields, fields.len() as int, a);
    if before.contains(a) {
        let k = choose|k: int| 0 <= k < before.len() && before[k] == a;
        assert((before + own)[k] == a);
    }
    if own.contains(a) {
        let k = choose|k: int| 0 <= k < own.len() && own[k] == a;
        assert((before + own)[before.len() + k] == a);
    }
    if exists|k: int| #[trigger] tells(fields, k, a) {
        let k = choose|k: int| #[trigger] tells(fields, k, a);
        assert(k < fields.len()) by {
            reveal(tells);
        }
    }
}

proof fn lemma_lines(lines: Seq<Seq<char>>, n: int, a: InterfaceAddressView)
    requires
        0 <= n <= lines.len(),
    ensures
        host::addresses_of(lines, n).contains(a) <==> exists|i: int, k: int|
            0 <= i < n && #[trigger] tells(text::words(lines[i]), k, a),
    decreases n,
{
    if n > 0 {
        lemma_lines(lines, n - 1, a);
        lemma_last_line(lines, n, a);
    }
}

/// The addresses of a listing are those that stand in its lines from the third word on,
/// each with the first word of its line for its interface, without those that are
/// unspecified.
pub proof fn law_listing_gives_the_addresses(
    output: &str,
    r: Vec<InterfaceAddress>,
    a: InterfaceAddressView,
)
    requires
        call_ensures(host::parse_addresses, (output,), r),
    ensures
        host::interface_views(r@).contains(a) <==> exists|i: int, k: int|
            {
                let line = text::pieces(output@, '\n')[i];
                &&& 0 <= i < text::pieces(output@, '\n').len()
                &&& #[trigger] gives(text::pieces(output@, '\n')[i], k, a.address)
                &&& a.interface == text::words(line)[0]
            },
{
    let lines = text::pieces(output@, '\n');
    lemma_lines(lines, lines.len() as int, a);
    assert forall|i: int, k: int| #[trigger]
        tells(text::words(lines[i]), k, a) <==> gives(lines[i], k, a.address) && a.interface
            == text::words(lines[i])[0] by {
        lemma_tells(lines[i], k, a);
    }
    if exists|i: int, k: int|
        0 <= i < lines.len() && #[trigger] gives(lines[i], k, a.address) && a.interface
            == text::words(lines[i])[0] {
        let (i, k) = choose|i: int, k: int|
            0 <= i < lines.len() && #[trigger] gives(lines[i], k, a.address) && a.interface
                == text::words(lines[i])[0];
        assert(tells(text::words(lines[i]), k, a));
    }
    if exists|i: int, k: int|
        0 <= i < lines.len() && #[trigger] tells(text::words(lines[i]), k, a) {
        let (i, k) = choose|i: int, k: int|
            0 <= i < lines.len() && #[trigger] tells(text::words(lines[i]), k, a);
        assert(gives(lines[i], k, a.address));
    }
}

/// The addresses of this host are those of the listing, where the command ran and
/// succeeded; else what is told says why there are none.
pub proof fn law_addresses_need_the_listing(
    outcome: Result<CommandOutput, String>,
    r: Result<Vec<InterfaceAddress>, String>,
)
    requires
        call_ensures(host::local_interface_addresses, (outcome,), r),
    ensures
        r is Ok <==> outcome is Ok && outcome->Ok_0.success,
        r matches Ok(v) ==> host::interface_views(v@) == host::listed_addresses(
            outcome->Ok_0.stdout@,
        ),
        outcome matches Err(error) ==> r->Err_0@ == "无法执行 ip -brief address: "@ + error@,
        outcome matches Ok(output) ==> !output.success ==> r->Err_0@
            == "ip -brief address 失败："@ + text::trim(output.stderr@),
{
}

/// The process is root exactly where the first line that begins with `Uid:` has a zero
/// for its second number.
pub proof fn law_root_is_told_by_the_effective_user(
    status: &str,
    r: bool,
    i: int,
)
    requires
        call_ensures(host::effective_root, (status,), r),
        0 <= i < text::pieces(status@, '\n').len(),
        host::begins_with(text::pieces(status@, '\n')[i], "Uid:"@),
        forall|j: int|
            0 <= j < i ==> !host::begins_with(#[trigger] text::pieces(status@, '\n')[j], "Uid:"@),
    ensures
        r <==> text::words(text::pieces(status@, '\n')[i]).len() > 2 && text::words(
            text::pieces(status@, '\n')[i],
        )[2] == "0"@,
{
    lemma_first(text::pieces(status@, '\n'), "Uid:"@, i);
}

proof fn lemma_first(lines: Seq<Seq<char>>, prefix: Seq<char>, i: int)
    requires
        0 <= i < lines.len(),
        host::begins_with(lines[i], prefix),
        forall|j: int| 0 <= j < i ==> !host::begins_with(#[trigger] lines[j], prefix),
    ensures
        host::first_with_prefix(lines, prefix) == Some(lines[i]),
    decreases lines.len(),
{
    if i > 0 {
        let rest = lines.drop_first();
        assert(!host::begins_with(lines[0], prefix));
        assert(rest[i - 1] == lines[i]);
        assert forall|j: int| 0 <= j < i - 1 implies !host::begins_with(
            #[trigger] rest[j],
            prefix,
        ) by {
            assert(rest[j] == lines[j + 1]);
        }
        lemma_first(rest, prefix, i - 1);
    }
}

/// A text begins with another one exactly where something follows that one.
pub proof fn law_text_begins_with_its_front(s: Seq<char>, front: Seq<char>)
    ensures
        host::begins_with(s, front) <==> exists|rest: Seq<char>| s == #[trigger] (front + rest),
{
    if host::begins_with(s, front) {
        assert(s =~= front + s.skip(front.len() as int));
    }
    if exists|rest: Seq<char>| s == #[trigger] (front + rest) {
        let rest = choose|rest: Seq<char>| s == #[trigger] (front + rest);
        assert(s.take(front.len() as int) =~= front);
    }
}

} // verus!
