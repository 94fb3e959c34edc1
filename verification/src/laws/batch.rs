//! What a batch holds, and which chains of others are in its way.

use vstd::prelude::*;

use crate::address;
use crate::address::IpAddr;
use crate::config::{AddressFamily, Protocol, SourceMode, TargetView};
use crate::nft;
use crate::nft::{BaseChainView, Hook, OwnTables};
use crate::number;
use crate::profile;
use crate::profile::{ActiveProfileView, ResolvedProfileView};
use crate::state;
use crate::text;

verus! {

/// The rules of a table, chain by chain.
pub struct Chains {
    pub prerouting: Seq<Seq<char>>,
    pub forward: Seq<Seq<char>>,
    pub postrouting: Seq<Seq<char>>,
}

/// The lines of a number of rules.
pub open spec fn lines(rules: Seq<Seq<char>>) -> Seq<char>
    decreases rules.len(),
{
    if rules.len() == 0 {
        Seq::empty()
    } else {
        lines(rules.drop_last()) + "\t\t"@ + rules.last() + "\n"@
    }
}

/// The chains of a table as they are written.
pub open spec fn written(c: Chains) -> Seq<char> {
    "\tchain prerouting {\n\t\ttype nat hook prerouting priority -100; policy accept;\n"@ + lines(
        c.prerouting,
    ) + "\t}\n"@
        + ("\tchain forward {\n\t\ttype filter hook forward priority 0; policy accept;\n\t\tct state established,related accept\n"@
        + lines(c.forward) + "\t}\n"@)
        + ("\tchain postrouting {\n\t\ttype nat hook postrouting priority 100; policy accept;\n"@
        + lines(c.postrouting) + "\t}\n"@) + "}\n"@
}

/// The address family in a rule.
pub open spec fn family_word(family: AddressFamily) -> Seq<char> {
    if family == AddressFamily::Ipv4 {
        "ip"@
    } else {
        "ip6"@
    }
}

/// The protocol in a rule.
pub open spec fn protocol_word(protocol: Protocol) -> Seq<char> {
    if protocol == Protocol::Tcp {
        "tcp"@
    } else {
        "udp"@
    }
}

/// Packets for the listener of the profile, from its sources.
pub open spec fn arriving(v: ResolvedProfileView, protocol: Protocol) -> Seq<char> {
    let f = family_word(v.validated.profile.family);
    f + " daddr "@ + address::shown(v.validated.listen_ip) + " "@ + f + " saddr { "@
        + text::joined(v.validated.source_cidrs, ", "@) + " } "@ + protocol_word(protocol)
        + " dport { "@ + text::joined(
        v.validated.listen_ports.map_values(|p: u16| number::decimal(p as nat)),
        ", "@,
    ) + " } "@
}

/// Packets that a rule has sent on to the target.
pub open spec fn departing(
    family: AddressFamily,
    ip: IpAddr,
    protocol: Protocol,
    port: u16,
) -> Seq<char> {
    family_word(family) + " daddr "@ + address::shown(ip) + " "@ + protocol_word(protocol)
        + " dport "@ + number::decimal(port as nat) + " ct status dnat "@
}

/// `r` sends what arrives for the profile on to its target.
pub open spec fn sends_on(v: ResolvedProfileView, protocol: Protocol, r: Seq<char>) -> bool {
    match v.validated.profile.target {
        TargetView::Redirect { port } => r == arriving(v, protocol) + "redirect to :"@
            + number::decimal(port as nat),
        TargetView::LoopbackDnat { port } => r == arriving(v, protocol) + "dnat to 127.0.0.1:"@
            + number::decimal(port as nat),
        TargetView::Remote { port, .. } => match v.destination {
            Some(IpAddr::V4(ip)) => r == arriving(v, protocol) + "dnat to "@ + (address::shown(
                IpAddr::V4(ip),
            ) + ":"@ + number::decimal(port as nat)),
            Some(IpAddr::V6(ip)) => r == arriving(v, protocol) + "dnat to "@ + ("["@
                + address::shown(IpAddr::V6(ip)) + "]:"@ + number::decimal(port as nat)),
            None => false,
        },
    }
}

/// `r` lets pass what is on its way to the remote target of the profile.
pub open spec fn lets_pass(v: ResolvedProfileView, protocol: Protocol, r: Seq<char>) -> bool {
    v.validated.profile.target matches TargetView::Remote { port, .. } && v.destination is Some && r
        == departing(v.validated.profile.family, v.destination->0, protocol, port) + "accept"@
}

/// `r` hides the source of what is on its way to the remote target of the profile, which
/// asks for that.
pub open spec fn hides_source(v: ResolvedProfileView, protocol: Protocol, r: Seq<char>) -> bool {
    v.validated.profile.target matches TargetView::Remote { port, source_mode, .. }
        && v.destination is Some && source_mode == Some(SourceMode::Masquerade) && r == departing(
        v.validated.profile.family,
        v.destination->0,
        protocol,
        port,
    ) + "masquerade"@
}

/// What the rule `r` of a chain does for the profile.
pub open spec fn serves(hook: Hook, v: ResolvedProfileView, protocol: Protocol, r: Seq<char>) -> bool {
    match hook {
        Hook::Prerouting => sends_on(v, protocol, r),
        Hook::Forward => lets_pass(v, protocol, r),
        Hook::Postrouting => hides_source(v, protocol, r),
    }
}

/// `r` serves the profile at position `i`, of the family, for its protocol `k`.
pub open spec fn serves_at(
    hook: Hook,
    family: AddressFamily,
    vs: Seq<ResolvedProfileView>,
    i: int,
    k: int,
    r: Seq<char>,
) -> bool {
    &&& 0 <= i < vs.len()
    &&& vs[i].validated.profile.family == family
    &&& 0 <= k < vs[i].validated.profile.protocols.len()
    &&& serves(hook, vs[i], vs[i].validated.profile.protocols[k], r)
}

/// The rules are those that serve a profile of the family for one of its protocols, and
/// no others.
pub open spec fn exact(
    hook: Hook,
    family: AddressFamily,
    vs: Seq<ResolvedProfileView>,
    rules: Seq<Seq<char>>,
) -> bool {
    &&& forall|r: Seq<char>| #[trigger]
        rules.contains(r) ==> exists|i: int, k: int| #[trigger]
            serves_at(hook, family, vs, i, k, r)
    &&& forall|i: int, k: int, r: Seq<char>| #[trigger]
        serves_at(hook, family, vs, i, k, r) ==> rules.contains(r)
}

// The proofs.

/// The rules that a profile has for its first `n` protocols.
spec fn profile_rules(hook: Hook, v: ResolvedProfileView, n: int) -> Seq<Seq<char>>
    decreases n,
{
    if n <= 0 {
        Seq::empty()
    } else {
        match nft::rule(hook, v, v.validated.profile.protocols[n - 1]) {
            Some(r) => profile_rules(hook, v, n - 1).push(r),
            None => profile_rules(hook, v, n - 1),
        }
    }
}

/// The rules of those of the first `n` profiles that are of the family.
spec fn family_rules(
    hook: Hook,
    family: AddressFamily,
    vs: Seq<ResolvedProfileView>,
    n: int,
) -> Seq<Seq<char>>
    decreases n,
{
    if n <= 0 {
        Seq::empty()
    } else if vs[n - 1].validated.profile.family == family {
        family_rules(hook, family, vs, n - 1) + profile_rules(
            hook,
            vs[n - 1],
            vs[n - 1].validated.profile.protocols.len() as int,
        )
    } else {
        family_rules(hook, family, vs, n - 1)
    }
}

proof fn lemma_lines_add(a: Seq<Seq<char>>, b: Seq<Seq<char>>)
    ensures
        lines(a + b) == lines(a) + lines(b),
    decreases b.len(),
{
    if b.len() == 0 {
        assert(a + b =~= a);
        assert(lines(a) + lines(b) =~= lines(a));
    } else {
        lemma_lines_add(a, b.drop_last());
        assert((a + b).drop_last() =~= a + b.drop_last());
        assert(lines(a + b) =~= lines(a) + lines(b));
    }
}

proof fn lemma_profile_lines(hook: Hook, v: ResolvedProfileView, n: int)
    ensures
        nft::profile_lines(hook, v, n) == lines(profile_rules(hook, v, n)),
    decreases n,
{
    if n > 0 {
        lemma_profile_lines(hook, v, n - 1);
        match nft::rule(hook, v, v.validated.profile.protocols[n - 1]) {
            Some(r) => {
                let all = profile_rules(hook, v, n);
                assert(all.drop_last() =~= profile_rules(hook, v, n - 1));
                assert(all.last() == r);
            },
            None => {},
        }
    }
}

proof fn lemma_family_lines(
    hook: Hook,
    family: AddressFamily,
    vs: Seq<ResolvedProfileView>,
    n: int,
)
    ensures
        nft::rule_lines(hook, family, vs, n) == lines(family_rules(hook, family, vs, n)),
    decreases n,
{
    if n > 0 {
        let v = vs[n - 1];
        let count = v.validated.profile.protocols.len() as int;
        lemma_family_lines(hook, family, vs, n - 1);
        lemma_profile_lines(hook, v, count);
        lemma_lines_add(family_rules(hook, family, vs, n - 1), profile_rules(hook, v, count));
    }
}

/// A rule is what its chain is for.
proof fn lemma_rule(hook: Hook, v: ResolvedProfileView, protocol: Protocol, r: Seq<char>)
    ensures
        nft::rule(hook, v, protocol) == Some(r) <==> serves(hook, v, protocol, r),
{
    let ports = v.validated.listen_ports;
    assert(state::port_texts(ports) =~= ports.map_values(|p: u16| number::decimal(p as nat)));
}

proof fn lemma_profile_rules(hook: Hook, v: ResolvedProfileView, n: int, r: Seq<char>)
    requires
        n <= v.validated.profile.protocols.len(),
    ensures
        profile_rules(hook, v, n).contains(r) <==> exists|k: int|
            0 <= k < n && serves(hook, v, #[trigger] v.validated.profile.protocols[k], r),
    decreases n,
{
    if n > 0 {
        let protocols = v.validated.profile.protocols;
        let front = profile_rules(hook, v, n - 1);
        lemma_profile_rules(hook, v, n - 1, r);
        lemma_rule(hook, v, protocols[n - 1], r);
        match nft::rule(hook, v, protocols[n - 1]) {
            Some(last) => {
                assert(front.push(last).contains(r) <==> front.contains(r) || r == last) by {
                    if front.contains(r) {
                        let at = choose|at: int| 0 <= at < front.len() && front[at] == r;
                        assert(front.push(last)[at] == r);
                    }
                    assert(front.push(last)[front.len() as int] == last);
                }
            },
            None => {},
        }
    }
}

proof fn lemma_family_rules(
    hook: Hook,
    family: AddressFamily,
    vs: Seq<ResolvedProfileView>,
    n: int,
    r: Seq<char>,
)
    requires
        n <= vs.len(),
    ensures
        family_rules(hook, family, vs, n).contains(r) <==> exists|i: int, k: int|
            i < n && #[trigger] serves_at(hook, family, vs, i, k, r),
    decreases n,
{
    if n > 0 {
        let v = vs[n - 1];
        let protocols = v.validated.profile.protocols;
        let front = family_rules(hook, family, vs, n - 1);
        let own = profile_rules(hook, v, protocols.len() as int);
        lemma_family_rules(hook, family, vs, n - 1, r);
        lemma_profile_rules(hook, v, protocols.len() as int, r);
        if v.validated.profile.family == family {
            assert((front + own).contains(r) <==> front.contains(r) || own.contains(r)) by {
                if front.contains(r) {
                    let at = choose|at: int| 0 <= at < front.len() && front[at] == r;
                    assert((front + own)[at] == r);
                }
                if own.contains(r) {
                    let at = choose|at: int| 0 <= at < own.len() && own[at] == r;
                    assert((front + own)[front.len() + at] == r);
                }
            }
            if own.contains(r) {
                let k = choose|k: int|
                    0 <= k < protocols.len() && serves(hook, v, #[trigger] protocols[k], r);
                assert(serves_at(hook, family, vs, n - 1, k, r));
            }
        }
        if exists|i: int, k: int| i < n && #[trigger] serves_at(hook, family, vs, i, k, r) {
            let (i, k) = choose|i: int, k: int|
                i < n && #[trigger] serves_at(hook, family, vs, i, k, r);
            if i == n - 1 {
                assert(serves(hook, v, protocols[k], r));
            }
        }
    }
}

/// The chains of a family.
spec fn chains_of(family: AddressFamily, vs: Seq<ResolvedProfileView>) -> Chains {
    let n = vs.len() as int;
    Chains {
        prerouting: family_rules(Hook::Prerouting, family, vs, n),
        forward: family_rules(Hook::Forward, family, vs, n),
        postrouting: family_rules(Hook::Postrouting, family, vs, n),
    }
}

proof fn lemma_exact(hook: Hook, family: AddressFamily, vs: Seq<ResolvedProfileView>)
    ensures
        exact(hook, family, vs, family_rules(hook, family, vs, vs.len() as int)),
{
    let n = vs.len() as int;
    let rules = family_rules(hook, family, vs, n);
    assert forall|r: Seq<char>| #[trigger] rules.contains(r) implies exists|i: int, k: int|
        #[trigger] serves_at(hook, family, vs, i, k, r) by {
        lemma_family_rules(hook, family, vs, n, r);
    }
    assert forall|i: int, k: int, r: Seq<char>| #[trigger]
        serves_at(hook, family, vs, i, k, r) implies rules.contains(r) by {
        lemma_family_rules(hook, family, vs, n, r);
    }
}

proof fn lemma_table(family: AddressFamily, vs: Seq<ResolvedProfileView>)
    ensures
        nft::table(family, vs) == "table "@ + nft::spec_nft_family(family) + " "@
            + nft::spec_table_name(family) + " {\n"@ + written(chains_of(family, vs)),
{
    let n = vs.len() as int;
    lemma_family_lines(Hook::Prerouting, family, vs, n);
    lemma_family_lines(Hook::Forward, family, vs, n);
    lemma_family_lines(Hook::Postrouting, family, vs, n);
    assert(nft::table(family, vs) =~= "table "@ + nft::spec_nft_family(family) + " "@
        + nft::spec_table_name(family) + " {\n"@ + written(chains_of(family, vs)));
}

/// A batch makes the table `port_forward_v4` of family `ip` and the table
/// `port_forward_v6` of family `ip6`, each with a chain at the hooks `prerouting`,
/// `forward` and `postrouting`. For every profile and each of its protocols, the chain
/// `prerouting` of its family sends on what arrives, the chain `forward` lets pass what is
/// on its way to a remote target, and the chain `postrouting` masquerades it where the
/// profile asks for that. The chains hold no other rules.
pub proof fn law_batch_serves_exactly_its_profiles(
    vs: Seq<ResolvedProfileView>,
    own: OwnTables,
) -> (r: (Seq<char>, Chains, Chains))
    ensures
        nft::batch(vs, own) == r.0 + ("table "@ + "ip"@ + " "@ + "port_forward_v4"@ + " {\n"@
            + written(r.1)) + ("table "@ + "ip6"@ + " "@ + "port_forward_v6"@ + " {\n"@ + written(
            r.2,
        )),
        r.0 == (if own.ipv4 {
            "delete table "@ + "ip"@ + " "@ + "port_forward_v4"@ + "\n"@
        } else {
            Seq::empty()
        }) + (if own.ipv6 {
            "delete table "@ + "ip6"@ + " "@ + "port_forward_v6"@ + "\n"@
        } else {
            Seq::empty()
        }),
        exact(Hook::Prerouting, AddressFamily::Ipv4, vs, r.1.prerouting),
        exact(Hook::Forward, AddressFamily::Ipv4, vs, r.1.forward),
        exact(Hook::Postrouting, AddressFamily::Ipv4, vs, r.1.postrouting),
        exact(Hook::Prerouting, AddressFamily::Ipv6, vs, r.2.prerouting),
        exact(Hook::Forward, AddressFamily::Ipv6, vs, r.2.forward),
        exact(Hook::Postrouting, AddressFamily::Ipv6, vs, r.2.postrouting),
{
    lemma_table(AddressFamily::Ipv4, vs);
    lemma_table(AddressFamily::Ipv6, vs);
    lemma_exact(Hook::Prerouting, AddressFamily::Ipv4, vs);
    lemma_exact(Hook::Forward, AddressFamily::Ipv4, vs);
    lemma_exact(Hook::Postrouting, AddressFamily::Ipv4, vs);
    lemma_exact(Hook::Prerouting, AddressFamily::Ipv6, vs);
    lemma_exact(Hook::Forward, AddressFamily::Ipv6, vs);
    lemma_exact(Hook::Postrouting, AddressFamily::Ipv6, vs);
    let deletions = nft::deletion(AddressFamily::Ipv4, own.ipv4) + nft::deletion(
        AddressFamily::Ipv6,
        own.ipv6,
    );
    (deletions, chains_of(AddressFamily::Ipv4, vs), chains_of(AddressFamily::Ipv6, vs))
}

/// For every protocol of a profile in force with a remote target, tcp and udp alike, the
/// batch lets the packets to its destination and target port pass, and masquerades them
/// exactly where the profile asks for that: each in the chain of the profile's family.
pub proof fn law_remote_profile_is_served_for_each_protocol(
    active: Seq<ActiveProfileView>,
    own: OwnTables,
    i: int,
    k: int,
    host: Seq<char>,
    port: u16,
    source_mode: Option<SourceMode>,
) -> (r: Chains)
    requires
        0 <= i < active.len(),
        profile::routed(active[i]),
        active[i].resolved.validated.profile.target == (TargetView::Remote {
            host,
            port,
            source_mode,
        }),
        0 <= k < active[i].resolved.validated.profile.protocols.len(),
    ensures
        ({
            let v = active[i].resolved;
            let family = v.validated.profile.family;
            let packets = departing(
                family,
                v.destination->0,
                v.validated.profile.protocols[k],
                port,
            );
            &&& v.destination is Some
            &&& text::occurs(nft::batch(profile::resolved_of(active), own), written(r))
            &&& exact(Hook::Postrouting, family, profile::resolved_of(active), r.postrouting)
            &&& r.forward.contains(packets + "accept"@)
            &&& source_mode == Some(SourceMode::Masquerade) ==> r.postrouting.contains(
                packets + "masquerade"@,
            )
            &&& source_mode != Some(SourceMode::Masquerade) ==> forall|one: Seq<char>|
                !serves_at(
                    Hook::Postrouting,
                    family,
                    profile::resolved_of(active),
                    i,
                    k,
                    one,
                )
        }),
{
    let vs = profile::resolved_of(active);
    let v = active[i].resolved;
    let family = v.validated.profile.family;
    assert(vs[i] == v);
    let (deletions, four, six) = law_batch_serves_exactly_its_profiles(vs, own);
    let packets = departing(family, v.destination->0, v.validated.profile.protocols[k], port);
    assert(serves_at(Hook::Forward, family, vs, i, k, packets + "accept"@));
    if source_mode == Some(SourceMode::Masquerade) {
        assert(serves_at(Hook::Postrouting, family, vs, i, k, packets + "masquerade"@));
    }
    let head4 = "table "@ + "ip"@ + " "@ + "port_forward_v4"@ + " {\n"@;
    let head6 = "table "@ + "ip6"@ + " "@ + "port_forward_v6"@ + " {\n"@;
    let table4 = head4 + written(four);
    let table6 = head6 + written(six);
    let batch = nft::batch(vs, own);
    match family {
        AddressFamily::Ipv4 => {
            let text = written(four);
            assert(text.subrange(0, text.len() as int) =~= text);
            assert(text::occurs_at(text, text, 0));
            text::lemma_occurs_within(deletions + head4, text, table6, text);
            assert(deletions + head4 + text + table6 =~= batch);
            four
        },
        AddressFamily::Ipv6 => {
            let text = written(six);
            assert(text.subrange(0, text.len() as int) =~= text);
            assert(text::occurs_at(text, text, 0));
            text::lemma_occurs_within(deletions + table4 + head6, text, Seq::empty(), text);
            assert(deletions + table4 + head6 + text + Seq::<char>::empty() =~= batch);
            six
        },
    }
}

// Chains of others.

/// A base chain of the host is told of as a conflict exactly where it lies outside of the
/// table `port_forward_v4` of family `ip` and the table `port_forward_v6` of family `ip6`
/// and hangs at `prerouting`, `forward` or `postrouting`: the hooks of the chains that a
/// batch makes.
pub proof fn law_conflicts_are_chains_of_others_at_our_hooks(
    chains: Seq<BaseChainView>,
    t: Seq<char>,
)
    ensures
        nft::conflict_texts(chains).contains(t) <==> exists|i: int|
            {
                let c = #[trigger] chains[i];
                &&& 0 <= i < chains.len()
                &&& !(c.family == "ip"@ && c.table == "port_forward_v4"@)
                &&& !(c.family == "ip6"@ && c.table == "port_forward_v6"@)
                &&& exists|h: Hook| #[trigger] hook_word(h) == c.hook
                &&& t == c.family + "/"@ + c.table + "/"@ + c.hook
            },
{
    let keep = |c: BaseChainView| nft::conflicting(c);
    let kept = chains.filter(keep);
    let shown = |c: BaseChainView| nft::chain_text(c);
    assert forall|c: BaseChainView|
        nft::conflicting(c) <==> !(c.family == "ip"@ && c.table == "port_forward_v4"@) && !(c.family
            == "ip6"@ && c.table == "port_forward_v6"@) && exists|h: Hook| #[trigger]
            hook_word(h) == c.hook by {
        assert(hook_word(Hook::Prerouting) == "prerouting"@);
        assert(hook_word(Hook::Forward) == "forward"@);
        assert(hook_word(Hook::Postrouting) == "postrouting"@);
    }
    if nft::conflict_texts(chains).contains(t) {
        let j = choose|j: int| 0 <= j < kept.len() && nft::conflict_texts(chains)[j] == t;
        chains.lemma_filter_contains_rev(keep, kept[j]);
        chains.lemma_filter_pred(keep, j);
        let i = choose|i: int| 0 <= i < chains.len() && chains[i] == kept[j];
        assert(chains[i] == kept[j]);
    }
    if exists|i: int|
        {
            let c = #[trigger] chains[i];
            &&& 0 <= i < chains.len()
            &&& !(c.family == "ip"@ && c.table == "port_forward_v4"@)
            &&& !(c.family == "ip6"@ && c.table == "port_forward_v6"@)
            &&& exists|h: Hook| #[trigger] hook_word(h) == c.hook
            &&& t == c.family + "/"@ + c.table + "/"@ + c.hook
        } {
        let i = choose|i: int|
            {
                let c = #[trigger] chains[i];
                &&& 0 <= i < chains.len()
                &&& !(c.family == "ip"@ && c.table == "port_forward_v4"@)
                &&& !(c.family == "ip6"@ && c.table == "port_forward_v6"@)
                &&& exists|h: Hook| #[trigger] hook_word(h) == c.hook
                &&& t == c.family + "/"@ + c.table + "/"@ + c.hook
            };
        assert(keep(chains[i]));
        chains.lemma_filter_contains(keep, i);
        let j = choose|j: int| 0 <= j < kept.len() && kept[j] == chains[i];
        assert(nft::conflict_texts(chains)[j] == t);
    }
}

/// The hook in the text of a chain.
pub open spec fn hook_word(h: Hook) -> Seq<char> {
    match h {
        Hook::Prerouting => "prerouting"@,
        Hook::Forward => "forward"@,
        Hook::Postrouting => "postrouting"@,
    }
}

} // verus!
