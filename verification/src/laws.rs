//! What holds of the library as a whole.

use vstd::prelude::*;

pub mod batch;
pub mod daemon;
pub mod dialogue;
pub mod lookups;
pub mod network;
pub mod operations;
pub mod rules;
pub mod service;
pub mod status;
pub mod values;

use crate::address;
use crate::address::IpAddr;
use crate::commit;
use crate::commit::{CommitView, OutcomeView, Reported, StepView};
use crate::config;
use crate::config::{
    AddressFamily, Config, ConfigView, ListenPortsView, ProfileView, Protocol, TargetView, ValidatedView,
};
use crate::control::{LogEventView, NoteView};
use crate::dns;
use crate::dns::{DnsAnswerView, DnsStatusView, Health};
use crate::doctor;
use crate::doctor::Findings;
use crate::host::InterfaceAddressView;
use crate::nft;
use crate::nft::{Hook, OwnTables};
use crate::profile;
use crate::profile::{ActiveProfileView, Finding, ResolvedProfileView};
use crate::refresh;
use crate::runtime;
use crate::runtime::DaemonDataView;
use crate::settings;
use crate::settings::AdjustmentView;
use crate::state;
use crate::state::{ProfileStatusView, RuntimeStateView};
use crate::text;
use crate::wizard;
use crate::wizard::{Question, WizardView};

verus! {

// The configuration.

/// No profile of an accepted configuration breaks a rule.
proof fn lemma_accepted(c: ConfigView, j: int)
    requires
        config::config_fault(c) is None,
        0 <= j < c.profiles.len(),
    ensures
        config::profile_fault_at(c.profiles, j) is None,
        config::profile_fault(c.profiles[j]) is None,
        config::all_normalized(c.profiles)[j] == config::normalized(c.profiles[j]),
{
    let at = |j: int| config::profile_fault_at(c.profiles, j);
    config::lemma_no_fault(at, c.profiles.len() as int);
    assert(at(j) is None);
}

/// The names of the profiles of an accepted configuration are not blank, and no two
/// of them are the same.
pub proof fn law_names_are_unique(c: ConfigView, i: int, j: int)
    requires
        config::config_fault(c) is None,
        0 <= i < j < c.profiles.len(),
    ensures
        c.profiles[i].name != c.profiles[j].name,
        !text::is_blank(c.profiles[i].name),
        !text::is_blank(c.profiles[j].name),
{
    lemma_accepted(c, i);
    lemma_accepted(c, j);
    if c.profiles[i].name == c.profiles[j].name {
        assert(config::name_taken(c.profiles, j));
    }
}

/// No address, protocol and port is listened on by two profiles of an accepted
/// configuration, whatever their sources are.
pub proof fn law_listeners_are_disjoint(
    c: ConfigView,
    i: int,
    j: int,
    ip: IpAddr,
    protocol: Protocol,
    port: u16,
)
    requires
        config::config_fault(c) is None,
        0 <= i < c.profiles.len(),
        0 <= j < c.profiles.len(),
        i != j,
    ensures
        !(config::listens(config::all_normalized(c.profiles)[i], ip, protocol, port)
            && config::listens(config::all_normalized(c.profiles)[j], ip, protocol, port)),
{
    let vs = config::all_normalized(c.profiles);
    if config::listens(vs[i], ip, protocol, port) && config::listens(vs[j], ip, protocol, port) {
        let first = if i < j {
            i
        } else {
            j
        };
        let second = if i < j {
            j
        } else {
            i
        };
        let v = vs[second];
        lemma_accepted(c, second);
        let a = choose|a: int|
            0 <= a < v.profile.protocols.len() && v.profile.protocols[a] == protocol;
        let b = choose|b: int| 0 <= b < v.listen_ports.len() && v.listen_ports[b] == port;
        let for_protocol = |a: int| config::overlap_for(vs, second, a);
        let at_port = |b: int| config::overlap_at(vs, second, a, b);
        config::lemma_no_fault(for_protocol, v.profile.protocols.len() as int);
        assert(for_protocol(a) is None);
        config::lemma_no_fault(at_port, v.listen_ports.len() as int);
        assert(at_port(b) is None);
        assert(config::listens(vs[first], v.listen_ip, protocol, port));
        assert(config::occupied(vs, second, protocol, port));
    }
}

/// A range with a suffix projects to exactly those of its ports whose decimal digits
/// end in the suffix; the end of the range does not belong to it.
pub proof fn law_range_projects_to_ports_that_end_in_the_suffix(l: ListenPortsView, port: u16)
    requires
        config::projected(l) is Ok,
        l.ports is None,
    ensures
        config::projected(l)->Ok_0.contains(port) <==> (l.range_start->0 <= port < l.range_end->0
            && config::ends_in(port as nat, l.suffix->0 as nat)),
{
    let suffix = l.suffix->0;
    config::lemma_chosen_ports(
        l.range_start->0 as int,
        l.range_end->0 as int,
        |p: int| config::ends_in(p as nat, suffix as nat),
    );
}

/// A list of ports projects to exactly its ports.
pub proof fn law_list_projects_to_its_ports(l: ListenPortsView, port: u16)
    requires
        config::projected(l) is Ok,
        l.ports is Some,
    ensures
        config::projected(l)->Ok_0.contains(port) <==> l.ports->0.contains(port),
{
    let listed = l.ports->0;
    config::lemma_chosen_ports(0, 65536, |p: int| listed.contains(p as u16));
}

/// Projected ports are not empty, in ascending order and each one once.
pub proof fn law_projected_ports_ascend(l: ListenPortsView)
    requires
        config::projected(l) is Ok,
    ensures
        config::projected(l)->Ok_0.len() > 0,
        config::ascending(config::projected(l)->Ok_0),
        config::projected(l)->Ok_0.no_duplicates(),
{
    config::lemma_projected_ascending(l);
    let ports = config::projected(l)->Ok_0;
    assert forall|i: int, j: int| 0 <= i < j < ports.len() implies ports[i] != ports[j] by {
        assert(ports[i] < ports[j]);
    }
}

/// An accepted profile listens on an address of its family, with at least one
/// protocol and on at least one port.
pub proof fn law_accepted_profile_listens(p: ProfileView)
    requires
        config::profile_fault(p) is None,
    ensures
        p.family.spec_matches(config::normalized(p).listen_ip),
        p.protocols.len() > 0,
        p.protocols.no_duplicates(),
        config::normalized(p).listen_ports.len() > 0,
        config::ascending(config::normalized(p).listen_ports),
{
    config::lemma_projected_ascending(p.listen_ports);
}

/// The sources of an accepted profile are CIDRs of its family, each one once; one
/// that configures none accepts every source of its family.
pub proof fn law_sources_are_of_the_family(p: ProfileView, i: int, j: int)
    requires
        config::profile_fault(p) is None,
        0 <= i < j < config::normalized(p).source_cidrs.len() || (i == j && 0 <= i
            < config::normalized(p).source_cidrs.len()),
    ensures
        config::cidr_address(config::normalized(p).source_cidrs[i]) is Some,
        p.family.spec_matches(config::cidr_address(config::normalized(p).source_cidrs[i])->0),
        i < j ==> config::normalized(p).source_cidrs[i] != config::normalized(p).source_cidrs[j],
        p.source_cidrs.len() == 0 ==> config::normalized(p).source_cidrs
            == seq![p.family.spec_any_source()],
{
    let sources = config::normalized(p).source_cidrs;
    let at = |k: int| config::source_fault_at(p.family, sources, p.name, k);
    config::lemma_no_fault(at, sources.len() as int);
    assert(at(i) is None);
    assert(at(j) is None);
    if i < j && sources[i] == sources[j] {
        assert(sources.take(j)[i] == sources[j]);
    }
}

/// A profile that configures no sources is shown as public, whatever it resolves to.
pub proof fn law_profile_without_sources_is_public(
    p: ProfileView,
    destination: Option<IpAddr>,
    dns: Option<DnsStatusView>,
)
    requires
        p.source_cidrs.len() == 0,
    ensures
        profile::status_of(
            ActiveProfileView {
                resolved: ResolvedProfileView {
                    validated: config::normalized(p),
                    destination,
                },
                dns,
            },
        ).publicly_exposed,
{
    let any = p.family.spec_any_source();
    assert(config::normalized(p).source_cidrs[0] == any);
}

/// An accepted remote target has a source mode exactly where it is IPv4: IPv6 is
/// never translated at its source.
pub proof fn law_source_mode_is_for_ipv4(p: ProfileView)
    requires
        config::profile_fault(p) is None,
        p.target is Remote,
    ensures
        p.target->source_mode is Some <==> p.family == AddressFamily::Ipv4,
{
}

/// An accepted remote target that is a literal address is of the profile's family,
/// and neither loopback, unspecified, multicast, broadcast nor link-local.
pub proof fn law_literal_target_is_allowed(p: ProfileView)
    requires
        config::profile_fault(p) is None,
        p.target is Remote,
        address::ip_of(p.target->host) is Some,
    ensures
        p.family.spec_matches(address::ip_of(p.target->host)->0),
        config::allowed_target(address::ip_of(p.target->host)->0),
{
}

/// An accepted loopback target is IPv4 and was opted into.
pub proof fn law_loopback_is_ipv4_and_opted_into(p: ProfileView)
    requires
        config::profile_fault(p) is None,
        p.target is LoopbackDnat,
    ensures
        p.family == AddressFamily::Ipv4,
        p.allow_route_localnet,
{
}

/// A configuration that can be deployed is accepted and has a profile; no listener,
/// source or literal target of it is a documentation address, and no placeholder is
/// left in it.
pub proof fn law_deployable_is_complete(c: ConfigView, j: int, k: int)
    requires
        config::deployable_fault(c) is None,
        0 <= j < c.profiles.len(),
        0 <= k < config::normalized(c.profiles[j]).source_cidrs.len(),
    ensures
        config::config_fault(c) is None,
        c.profiles.len() > 0,
        !config::documentation_address(config::normalized(c.profiles[j]).listen_ip),
        ({
            let source = config::normalized(c.profiles[j]).source_cidrs[k];
            !config::documentation_address(config::cidr_address(source)->0)
                && !text::holds_todo(source)
        }),
        !text::holds_todo(c.profiles[j].name),
        !text::holds_todo(c.profiles[j].listen_address),
        c.profiles[j].target matches TargetView::Remote { host, .. } ==> !text::holds_todo(host)
            && (address::ip_of(host) matches Some(ip) ==> !config::documentation_address(ip)),
{
    lemma_accepted(c, j);
    let v = config::all_normalized(c.profiles)[j];
    let at = |j: int| config::undeployable(config::all_normalized(c.profiles)[j]);
    config::lemma_no_fault(at, c.profiles.len() as int);
    assert(at(j) is None);
    let name = v.profile.name;
    let source_at = |i: int| config::source_undeployable(name, v.source_cidrs[i]);
    config::lemma_no_fault(source_at, v.source_cidrs.len() as int);
    assert(source_at(k) is None);
}

// Addresses of host names.

/// Some candidate comes first where there is a candidate.
proof fn lemma_leader_exists(family: AddressFamily, answer: Seq<IpAddr>)
    requires
        dns::has_candidate(family, answer),
    ensures
        dns::leads(dns::leader(family, answer), family, answer),
    decreases answer.len(),
{
    let some = choose|ip: IpAddr| dns::candidate(ip, family, answer);
    let front = answer.drop_last();
    let last = answer.last();
    assert forall|ip: IpAddr| #[trigger] dns::candidate(ip, family, answer) implies dns::candidate(
        ip,
        family,
        front,
    ) || ip == last by {
        let k = choose|k: int| 0 <= k < answer.len() && answer[k] == ip;
        if k < front.len() {
            assert(front[k] == ip);
        }
    }
    assert forall|ip: IpAddr| #[trigger] dns::candidate(ip, family, front) implies dns::candidate(
        ip,
        family,
        answer,
    ) by {
        let k = choose|k: int| 0 <= k < front.len() && front[k] == ip;
        assert(answer[k] == ip);
    }
    assert(answer[answer.len() - 1] == last);
    let winner = if dns::has_candidate(family, front) {
        lemma_leader_exists(family, front);
        let old_leader = dns::leader(family, front);
        if dns::candidate(last, family, answer) && text::precedes(
            address::shown(last),
            address::shown(old_leader),
        ) {
            last
        } else {
            old_leader
        }
    } else {
        some
    };
    assert forall|other: IpAddr| #[trigger]
        dns::candidate(other, family, answer) && other != winner implies text::precedes(
        address::shown(winner),
        address::shown(other),
    ) by {
        if dns::has_candidate(family, front) {
            let old_leader = dns::leader(family, front);
            if winner != old_leader {
                if other != old_leader {
                    text::lemma_precedes_transitive(
                        address::shown(last),
                        address::shown(old_leader),
                        address::shown(other),
                    );
                }
            } else if other == last {
                if address::shown(last) == address::shown(old_leader) {
                    address::law_shown_is_injective(last, old_leader);
                }
                text::lemma_precedes_total(address::shown(last), address::shown(old_leader));
            }
        } else {
            assert(!dns::candidate(other, family, front));
            assert(!dns::candidate(winner, family, front));
        }
    }
    assert(dns::leads(winner, family, answer));
}

/// The active address stays while the answers still hold it as a candidate.
pub proof fn law_active_address_is_stable(
    s: DnsStatusView,
    family: AddressFamily,
    answer: DnsAnswerView,
    now: u64,
    jitter: u64,
)
    requires
        s.active_address is Some,
        dns::candidate(s.active_address->0, family, answer.addresses),
    ensures
        s.accepted(family, answer, now, jitter).active_address == s.active_address,
{
}

/// Where the active address is gone, the candidate whose text comes first replaces
/// it: an address of the answer, of the family, and allowed as a target.
pub proof fn law_replacement_is_the_first_candidate(
    s: DnsStatusView,
    family: AddressFamily,
    answer: DnsAnswerView,
    now: u64,
    jitter: u64,
)
    requires
        dns::has_candidate(family, answer.addresses),
        s.active_address is Some ==> !dns::candidate(
            s.active_address->0,
            family,
            answer.addresses,
        ),
    ensures
        s.accepted(family, answer, now, jitter).active_address is Some,
        dns::leads(
            s.accepted(family, answer, now, jitter).active_address->0,
            family,
            answer.addresses,
        ),
        s.accepted(family, answer, now, jitter).active_address != s.active_address,
{
    lemma_leader_exists(family, answer.addresses);
}

/// The address that an answer makes active is one of its own, of the family, and
/// allowed as a target.
pub proof fn law_active_address_is_allowed(
    s: DnsStatusView,
    family: AddressFamily,
    answer: DnsAnswerView,
    now: u64,
    jitter: u64,
)
    requires
        dns::has_candidate(family, answer.addresses),
    ensures
        ({
            let ip = s.accepted(family, answer, now, jitter).active_address->0;
            answer.addresses.contains(ip) && family.spec_matches(ip) && config::allowed_target(ip)
        }),
{
    lemma_leader_exists(family, answer.addresses);
}

/// The order in which an answer lists its addresses does not matter, nor does it
/// matter how often it lists one.
pub proof fn law_order_of_answer_does_not_matter(
    s: DnsStatusView,
    family: AddressFamily,
    a: DnsAnswerView,
    b: DnsAnswerView,
    now: u64,
    jitter: u64,
)
    requires
        a.ttl == b.ttl,
        forall|ip: IpAddr| #[trigger] a.addresses.contains(ip) <==> b.addresses.contains(ip),
    ensures
        dns::has_candidate(family, a.addresses) <==> dns::has_candidate(family, b.addresses),
        dns::has_candidate(family, a.addresses) ==> s.accepted(family, a, now, jitter)
            == s.accepted(family, b, now, jitter),
{
    assert forall|ip: IpAddr| #[trigger]
        dns::candidate(ip, family, a.addresses) <==> dns::candidate(ip, family, b.addresses) by {
        assert(a.addresses.contains(ip) <==> b.addresses.contains(ip));
    }
    if dns::has_candidate(family, b.addresses) {
        let ip = choose|ip: IpAddr| dns::candidate(ip, family, b.addresses);
        assert(dns::candidate(ip, family, a.addresses));
    }
    if dns::has_candidate(family, a.addresses) {
        let ip = choose|ip: IpAddr| dns::candidate(ip, family, a.addresses);
        assert(dns::candidate(ip, family, b.addresses));
        lemma_leader_exists(family, a.addresses);
        lemma_leader_exists(family, b.addresses);
        let first = dns::leader(family, a.addresses);
        assert forall|other: IpAddr| #[trigger]
            dns::candidate(other, family, b.addresses) && other != first implies text::precedes(
            address::shown(first),
            address::shown(other),
        ) by {
            assert(dns::candidate(other, family, a.addresses));
        }
        assert(dns::leads(first, family, b.addresses));
        dns::lemma_leader_unique(
            first,
            dns::leader(family, b.addresses),
            family,
            b.addresses,
        );
    }
}

/// The next lookup is at least one minute and at most 15 minutes away; without
/// jitter it is half of the lifetime away, where that lies between the two.
pub proof fn law_refresh_is_half_the_lifetime_within_bounds(ttl: u64, jitter: u64)
    ensures
        dns::MIN_REFRESH <= dns::delay_seconds(ttl, jitter) <= dns::MAX_REFRESH,
        dns::MIN_REFRESH <= ttl / 2 <= dns::MAX_REFRESH ==> dns::delay_seconds(ttl, 0) == ttl / 2,
        dns::delay_seconds(ttl, 0) <= dns::delay_seconds(ttl, jitter) <= dns::delay_seconds(ttl, 0)
            + dns::MAX_JITTER,
{
}

/// A failed refresh keeps the active address; the state is degraded where there is
/// one and failed where there is none.
pub proof fn law_failure_keeps_the_active_address(s: DnsStatusView, reason: Seq<char>, now: u64)
    ensures
        s.failed(reason, now).active_address == s.active_address,
        s.failed(reason, now).cache_written_unix == s.cache_written_unix,
        s.failed(reason, now).failure_reason == Some(reason),
        s.active_address is Some <==> s.failed(reason, now).status == Health::Degraded,
        s.active_address is None <==> s.failed(reason, now).status == Health::Failed,
{
}

/// A cached address may be restored for one hour after the lookup that gave it.
pub proof fn law_cache_lives_for_one_hour(
    s: DnsStatusView,
    family: AddressFamily,
    answer: DnsAnswerView,
    now: u64,
    jitter: u64,
    later: u64,
)
    requires
        now <= later,
    ensures
        s.accepted(family, answer, now, jitter).restorable(later) <==> later - now
            <= dns::MAX_CACHE_AGE,
{
}

/// Behind a failed lookup a host starts with its cached address, degraded, while the
/// cache is fresh and of this host; else it does not start.
pub proof fn law_failed_first_lookup_needs_a_fresh_cache(
    host: Seq<char>,
    family: AddressFamily,
    cached: Option<DnsStatusView>,
    error: Seq<char>,
    jitter: u64,
    now: u64,
)
    ensures
        ({
            let r = dns::first_state(host, family, cached, Err(error), jitter, now);
            let usable = cached is Some && cached->0.host == host && cached->0.restorable(now);
            &&& r is Ok <==> usable
            &&& r is Ok ==> r->Ok_0.active_address == cached->0.active_address
                && r->Ok_0.status == Health::Degraded
        }),
{
}

// Transactions.

/// The position of the network inspection in a transaction: behind the look at the
/// hooks, where that is made.
pub open spec fn inspection(c: CommitView) -> int {
    if c.allow_external_chains {
        0
    } else {
        1
    }
}

/// The outcome at position `k` is no failure.
pub open spec fn passed(reports: Seq<Reported>, k: int) -> bool {
    !(reports[k].outcome is Failed)
}

/// The outcomes in front of position `n` are no failures.
pub open spec fn all_passed(reports: Seq<Reported>, n: int) -> bool {
    forall|k: int| 0 <= k < n ==> #[trigger] passed(reports, k)
}

/// `c` is a transaction at its start.
pub open spec fn at_start(c: CommitView) -> bool {
    c == CommitView::start(c.candidates, c.prior, c.reason, c.allow_external_chains)
}

/// Where a transaction stands says how many outcomes there were, and which of them
/// passed.
proof fn lemma_trace(c: CommitView, reports: Seq<Reported>)
    requires
        at_start(c),
        commit::fitting(c, reports),
    ensures
        ({
            let n = reports.len();
            let first = inspection(c);
            let now_at = commit::run(c, reports);
            &&& now_at.candidates == c.candidates
            &&& now_at.prior == c.prior
            &&& now_at.allow_external_chains == c.allow_external_chains
            &&& match now_at.step {
                StepView::CheckHooks => n == 0 && first == 1,
                StepView::Preflight => n == first && all_passed(reports, n as int),
                StepView::ListTables { .. } => n == first + 1 && all_passed(reports, n as int),
                StepView::CheckBatch { .. } => n == first + 2 && all_passed(reports, n as int),
                StepView::Enable { .. } => n == first + 3 && all_passed(reports, n as int),
                StepView::Apply { .. } => n == first + 4 && all_passed(reports, n as int),
                StepView::RollBack { .. } => n == first + 5 && all_passed(reports, first + 4)
                    && !passed(reports, first + 4),
                StepView::RestoreStale { .. } => n == first + 5 && all_passed(reports, n as int),
                StepView::Save { .. } => n == first + 6 && all_passed(reports, first + 5),
                StepView::Finished { outcome } => outcome is Ok ==> n == first + 7 && all_passed(
                    reports,
                    first + 5,
                ) && passed(reports, first + 6),
            }
        }),
    decreases reports.len(),
{
    if reports.len() > 0 {
        let front = reports.drop_last();
        lemma_trace(c, front);
        let n = reports.len() as int;
        assert forall|k: int| 0 <= k < n - 1 implies #[trigger] passed(reports, k) == passed(
            front,
            k,
        ) by {
            assert(front[k] == reports[k]);
        }
        assert forall|m: int| m <= n - 1 && all_passed(front, m) implies #[trigger] all_passed(
            reports,
            m,
        ) by {
            assert forall|k: int| 0 <= k < m implies #[trigger] passed(reports, k) by {
                assert(passed(front, k));
            }
        }
        if passed(reports, n - 1) && all_passed(front, n - 1) {
            assert(all_passed(reports, n - 1));
            assert(all_passed(reports, n));
        }
    }
}

/// A transaction does nothing to the host before the look at the hooks, unless
/// coexistence is allowed, the inspection of the network, the listing of our own
/// tables and the check of the batch have all passed.
pub proof fn law_host_is_unchanged_until_the_checks_pass(c: CommitView, reports: Seq<Reported>)
    requires
        at_start(c),
        commit::fitting(c, reports),
        commit::run(c, reports).step.changes_host(),
    ensures
        reports.len() >= inspection(c) + 3,
        all_passed(reports, inspection(c) + 3),
{
    lemma_trace(c, reports);
}

/// A transaction ends well only where every check, the adjustment of the host, the
/// batch and the state file all passed.
pub proof fn law_success_means_that_every_step_passed(c: CommitView, reports: Seq<Reported>)
    requires
        at_start(c),
        commit::fitting(c, reports),
        commit::run(c, reports).step == (StepView::Finished { outcome: Ok(()) }),
    ensures
        all_passed(reports, inspection(c) + 5),
        passed(reports, inspection(c) + 6),
{
    lemma_trace(c, reports);
}

/// The state file is written only once the batch was applied.
pub proof fn law_state_is_saved_behind_the_batch(c: CommitView, reports: Seq<Reported>)
    requires
        at_start(c),
        commit::fitting(c, reports),
        commit::run(c, reports).step is Save,
    ensures
        reports.len() > inspection(c) + 4,
        all_passed(reports, inspection(c) + 5),
{
    lemma_trace(c, reports);
}

/// Unless the batch was applied, a transaction leaves the state and the active
/// profiles as they were.
pub proof fn law_failed_transaction_keeps_the_data(
    d: DaemonDataView,
    c: CommitView,
    reports: Seq<Reported>,
)
    requires
        at_start(c),
        commit::fitting(c, reports),
        !(reports.len() > inspection(c) + 4 && all_passed(reports, inspection(c) + 5)),
    ensures
        runtime::run_data(d, c, reports).state == d.state,
        runtime::run_data(d, c, reports).active == d.active,
        runtime::run_data(d, c, reports).allow_external_chains == d.allow_external_chains,
    decreases reports.len(),
{
    if reports.len() > 0 {
        let front = reports.drop_last();
        if front.len() > inspection(c) + 4 && all_passed(front, inspection(c) + 5) {
            assert forall|k: int| 0 <= k < inspection(c) + 5 implies #[trigger] passed(
                reports,
                k,
            ) by {
                assert(passed(front, k));
                assert(front[k] == reports[k]);
            }
        }
        law_failed_transaction_keeps_the_data(d, c, front);
        lemma_trace(c, front);
    }
}

/// A transaction that ended well put exactly its candidates in force, with one more
/// on both version counters.
pub proof fn law_success_puts_the_candidates_in_force(
    d: DaemonDataView,
    c: CommitView,
    reports: Seq<Reported>,
)
    requires
        at_start(c),
        commit::fitting(c, reports),
        commit::run(c, reports).step == (StepView::Finished { outcome: Ok(()) }),
    ensures
        ({
            let after = runtime::run_data(d, c, reports);
            &&& after.active == c.candidates
            &&& after.state.profiles == profile::statuses(c.candidates)
            &&& after.state.config_version == commit::counted_up(c.prior.config_version)
            &&& after.state.nft_rules_version == commit::counted_up(c.prior.nft_rules_version)
            &&& after.allow_external_chains == c.allow_external_chains
        }),
{
    lemma_trace(c, reports);
    let saving = reports.drop_last();
    assert(commit::fitting(c, saving));
    lemma_trace(c, saving);
    let restoring = saving.drop_last();
    assert(commit::fitting(c, restoring));
    lemma_trace(c, restoring);
}

/// The batch of a transaction: that of its candidates, with a deletion of each of our
/// own tables that its listing found.
pub open spec fn batch_of(c: CommitView, reports: Seq<Reported>) -> Seq<char> {
    nft::batch(
        profile::resolved_of(c.candidates),
        reports[inspection(c) + 1].outcome->Listed_own,
    )
}

/// The batch that is applied is the one that was checked, and it is that of the
/// candidates and of the tables that were found.
pub proof fn law_applied_batch_is_the_checked_one(c: CommitView, reports: Seq<Reported>)
    requires
        at_start(c),
        commit::fitting(c, reports),
    ensures
        commit::run(c, reports).step matches StepView::CheckBatch { batch, .. } ==> batch
            == batch_of(c, reports),
        commit::run(c, reports).step matches StepView::Enable { batch, .. } ==> batch
            == batch_of(c, reports),
        commit::run(c, reports).step matches StepView::Apply { batch, .. } ==> {
            &&& batch == batch_of(c, reports)
            &&& commit::run(c, reports.take(inspection(c) + 2)).step matches StepView::CheckBatch {
                batch: checked,
                ..
            }
            &&& checked == batch
        },
    decreases reports.len(),
{
    if reports.len() > 0 {
        let front = reports.drop_last();
        assert(commit::fitting(c, front));
        law_applied_batch_is_the_checked_one(c, front);
        lemma_trace(c, front);
        let step = commit::run(c, front).step;
        if step is CheckBatch || step is Enable {
            assert(front[inspection(c) + 1] == reports[inspection(c) + 1]);
        }
        if step is Enable {
            let checking = front.drop_last();
            assert(commit::fitting(c, checking));
            lemma_trace(c, checking);
            law_applied_batch_is_the_checked_one(c, checking);
            assert(checking[inspection(c) + 1] == reports[inspection(c) + 1]);
            assert(checking =~= reports.take(inspection(c) + 2));
        }
    }
}

/// A failed look at the hooks, a failed inspection of the network, and a listing, a
/// check and an application of the batch that failed are each kept as an error, which
/// tells of the failure.
pub proof fn law_failed_check_or_batch_is_an_error(
    d: DaemonDataView,
    c: CommitView,
    error: Seq<char>,
    now: u64,
)
    requires
        c.step is CheckHooks || c.step is Preflight || c.step is ListTables
            || c.step is CheckBatch || c.step is Apply,
    ensures
        ({
            let outcome = OutcomeView::Failed { error };
            let event = c.note(outcome, now);
            &&& event is Some
            &&& event->0.level == "error"@
            &&& event->0.timestamp_unix == now
            &&& event->0.message == "configuration reload failed ("@ + c.reason + "): "@
                + commit::failure_text(c.step, error)
            &&& d.noting(event).logs.len() > 0
            &&& d.noting(event).logs.last() == event->0
        }),
{
}

/// A failed batch puts back only settings that it newly changed: those of loopback
/// profiles that were in force before stay enabled.
pub proof fn law_rollback_spares_settings_in_use(
    adjusted: Seq<AdjustmentView>,
    prior: Map<Seq<char>, bool>,
    i: int,
)
    requires
        0 <= i < settings::fresh(adjusted, prior).len(),
    ensures
        !prior.contains_key(settings::fresh(adjusted, prior)[i].interface),
        adjusted.contains(settings::fresh(adjusted, prior)[i]),
{
    let keep = |a: AdjustmentView| !prior.contains_key(a.interface);
    adjusted.lemma_filter_contains_rev(keep, settings::fresh(adjusted, prior)[i]);
    adjusted.lemma_filter_pred(keep, i);
}

/// The entries of a merged list have the remembered values.
proof fn lemma_merged_map(
    adjustments: Seq<AdjustmentView>,
    prior: Map<Seq<char>, bool>,
    interface: Seq<char>,
)
    ensures
        ({
            let m = settings::adjustment_map(settings::merged(adjustments, prior));
            &&& m.contains_key(interface) <==> settings::lists(adjustments, interface)
            &&& m.contains_key(interface) && prior.contains_key(interface) ==> m[interface]
                == prior[interface]
        }),
    decreases adjustments.len(),
{
    let all = settings::merged(adjustments, prior);
    if adjustments.len() > 0 {
        let front = adjustments.drop_last();
        lemma_merged_map(front, prior, interface);
        assert(all.drop_last() =~= settings::merged(front, prior));
        if settings::lists(adjustments, interface) && adjustments.last().interface != interface {
            let i = choose|i: int|
                0 <= i < adjustments.len() && (#[trigger] adjustments[i]).interface == interface;
            assert(front[i].interface == interface);
        }
        if settings::lists(front, interface) {
            let i = choose|i: int|
                0 <= i < front.len() && (#[trigger] front[i]).interface == interface;
            assert(adjustments[i].interface == interface);
        }
        assert(adjustments[adjustments.len() - 1] == adjustments.last());
    }
}

/// The value that an interface had before the first change is kept across reloads,
/// whatever a later inspection finds.
pub proof fn law_original_value_is_kept_across_reloads(
    prior: RuntimeStateView,
    candidates: Seq<ActiveProfileView>,
    adjustments: Seq<AdjustmentView>,
    now: u64,
    interface: Seq<char>,
)
    requires
        prior.route_localnet_original.contains_key(interface),
        settings::lists(adjustments, interface),
    ensures
        ({
            let known = prior.route_localnet_original;
            let next = commit::committed_state(
                prior,
                candidates,
                settings::merged(adjustments, known),
                now,
            );
            &&& next.route_localnet_original.contains_key(interface)
            &&& next.route_localnet_original[interface] == known[interface]
        }),
{
    lemma_merged_map(adjustments, prior.route_localnet_original, interface);
}

/// No remembered value is lost: an interface is either remembered on, or put back to
/// the value that it had, and never both.
pub proof fn law_remembered_values_are_kept_or_put_back(
    prior: RuntimeStateView,
    candidates: Seq<ActiveProfileView>,
    adjustments: Seq<AdjustmentView>,
    now: u64,
    interface: Seq<char>,
)
    requires
        prior.route_localnet_original.contains_key(interface),
    ensures
        ({
            let known = prior.route_localnet_original;
            let adjusted = settings::merged(adjustments, known);
            let put_back = settings::stale(known, adjusted);
            let next = commit::committed_state(prior, candidates, adjusted, now);
            &&& put_back.contains_key(interface)
                <==> !next.route_localnet_original.contains_key(interface)
            &&& put_back.contains_key(interface) ==> put_back[interface] == known[interface]
        }),
{
    let known = prior.route_localnet_original;
    let adjusted = settings::merged(adjustments, known);
    lemma_merged_map(adjustments, known, interface);
    if settings::lists(adjustments, interface) {
        let i = choose|i: int|
            0 <= i < adjustments.len() && (#[trigger] adjustments[i]).interface == interface;
        assert(adjusted[i].interface == interface);
    }
    if settings::lists(adjusted, interface) {
        let i = choose|i: int|
            0 <= i < adjusted.len() && (#[trigger] adjusted[i]).interface == interface;
        assert(adjustments[i].interface == interface);
    }
}

// Activating and refreshing.

/// Where the profiles of a configuration were built, there is one for each, as its
/// resolution makes it.
pub proof fn lemma_built(
    vs: Seq<ValidatedView>,
    prior: RuntimeStateView,
    findings: Seq<Finding>,
    now: u64,
    i: int,
)
    requires
        profile::built(vs, prior, findings, now) is Ok,
        0 <= i < findings.len(),
    ensures
        ({
            let all = profile::built(vs, prior, findings, now)->Ok_0;
            &&& all.len() == findings.len()
            &&& profile::activated(
                vs[i],
                profile::resolution_of(vs[i], prior, findings[i], now),
            ) == Ok::<ActiveProfileView, Seq<char>>(all[i])
        }),
    decreases findings.len(),
{
    let front = findings.drop_last();
    if i < front.len() {
        lemma_built(vs, prior, front, now, i);
        assert(front[i] == findings[i]);
    } else if front.len() > 0 {
        lemma_built(vs, prior, front, now, 0);
    }
}

/// One host name that cannot be resolved refuses all profiles of a configuration.
pub proof fn law_one_unresolved_host_refuses_all(
    vs: Seq<ValidatedView>,
    prior: RuntimeStateView,
    findings: Seq<Finding>,
    now: u64,
    i: int,
)
    requires
        0 <= i < findings.len(),
        profile::host_name(vs[i]) is Some,
        profile::resolution_of(vs[i], prior, findings[i], now)->0 is Err,
    ensures
        profile::built(vs, prior, findings, now) is Err,
{
    if profile::built(vs, prior, findings, now) is Ok {
        lemma_built(vs, prior, findings, now, i);
    }
}

/// Each profile that fell back to a cached address is among the notes.
proof fn lemma_fallback_is_noted(all: Seq<ActiveProfileView>, i: int)
    requires
        0 <= i < all.len(),
        profile::fell_back(all[i]),
    ensures
        profile::fallbacks(all).contains(profile::fallback_note(all[i])),
    decreases all.len(),
{
    let front = profile::fallbacks(all.drop_last());
    let note = profile::fallback_note(all[i]);
    if i == all.len() - 1 {
        assert(front.push(note).last() == note);
    } else {
        lemma_fallback_is_noted(all.drop_last(), i);
        let k = choose|k: int| 0 <= k < front.len() && front[k] == note;
        assert(profile::fallbacks(all)[k] == note);
    }
}

/// A profile is activated with a cached address exactly where the lookup of its host
/// name failed; that is noted as a warning which names the profile and the failure.
pub proof fn law_cache_fallback_is_a_warning(
    vs: Seq<ValidatedView>,
    prior: RuntimeStateView,
    findings: Seq<Finding>,
    now: u64,
    i: int,
)
    requires
        profile::built(vs, prior, findings, now) is Ok,
        0 <= i < findings.len(),
    ensures
        ({
            let all = profile::built(vs, prior, findings, now)->Ok_0;
            let fell_back = profile::host_name(vs[i]) is Some && findings[i].lookup is Err;
            &&& profile::fell_back(all[i]) <==> fell_back
            &&& fell_back ==> all[i].dns->0.failure_reason is Some
            &&& fell_back ==> profile::fallbacks(all).contains(
                NoteView {
                    level: "warn"@,
                    message: "DNS cache fallback for profile "@ + vs[i].profile.name + ": "@
                        + all[i].dns->0.failure_reason->0,
                },
            )
        }),
{
    lemma_built(vs, prior, findings, now, i);
    let all = profile::built(vs, prior, findings, now)->Ok_0;
    if profile::fell_back(all[i]) {
        lemma_fallback_is_noted(all, i);
    }
}

/// A literal target is taken as it is; a host name is taken with the address that is
/// active for it.
pub proof fn law_destination_is_the_active_address(
    vs: Seq<ValidatedView>,
    prior: RuntimeStateView,
    findings: Seq<Finding>,
    now: u64,
    i: int,
)
    requires
        profile::built(vs, prior, findings, now) is Ok,
        0 <= i < findings.len(),
    ensures
        ({
            let p = profile::built(vs, prior, findings, now)->Ok_0[i];
            &&& p.resolved.validated == vs[i]
            &&& p.dns is Some <==> profile::host_name(vs[i]) is Some
            &&& p.dns is Some ==> p.resolved.destination == p.dns->0.active_address
            &&& p.dns is None ==> p.resolved.destination == profile::literal_target(vs[i])
        }),
{
    lemma_built(vs, prior, findings, now, i);
}

/// Where the profiles of a configuration were built, each remote one has a destination,
/// and each host name has an active address.
pub proof fn law_built_profiles_have_destinations(
    vs: Seq<ValidatedView>,
    prior: RuntimeStateView,
    findings: Seq<Finding>,
    now: u64,
    i: int,
)
    requires
        profile::built(vs, prior, findings, now) is Ok,
        0 <= i < findings.len(),
    ensures
        ({
            let all = profile::built(vs, prior, findings, now)->Ok_0;
            &&& vs[i].profile.target is Remote ==> all[i].resolved.destination is Some
            &&& all[i].dns is Some ==> all[i].dns->0.active_address is Some
            &&& profile::all_routed(all)
        }),
{
    let all = profile::built(vs, prior, findings, now)->Ok_0;
    lemma_built(vs, prior, findings, now, i);
    assert forall|j: int| 0 <= j < all.len() implies profile::routed(#[trigger] all[j]) by {
        lemma_built(vs, prior, findings, now, j);
    }
    assert(profile::routed(all[i]));
}

/// Profiles that have their destinations have them behind a refresh too, whatever was
/// found.
pub proof fn law_refresh_leaves_no_profile_without_destination(
    active: Seq<ActiveProfileView>,
    findings: Seq<Finding>,
    now: u64,
)
    requires
        findings.len() == active.len(),
        profile::all_routed(active),
    ensures
        profile::all_routed(refresh::cycle(active, findings, now).active),
        refresh::cycle(active, findings, now).active.len() == active.len(),
{
    let all = refresh::cycle(active, findings, now).active;
    if active.len() > 0 {
        lemma_cycle(active, findings, now, 0);
    }
    assert forall|i: int| 0 <= i < all.len() implies profile::routed(#[trigger] all[i]) by {
        lemma_cycle(active, findings, now, i);
        assert(profile::routed(active[i]));
    }
}

/// Profiles that have their destinations have them behind a switch that failed too.
pub proof fn law_failed_switch_leaves_no_profile_without_destination(
    before: Seq<ActiveProfileView>,
    after: Seq<ActiveProfileView>,
    error: Seq<char>,
    now: u64,
)
    requires
        profile::all_routed(before),
    ensures
        profile::all_routed(refresh::degraded(before, after, error, now)),
        refresh::degraded(before, after, error, now).len() == before.len(),
{
    let all = refresh::degraded(before, after, error, now);
    assert forall|i: int| 0 <= i < all.len() implies profile::routed(#[trigger] all[i]) by {
        assert(profile::routed(before[i]));
    }
}

/// However a transaction goes, the active profiles have their destinations where they
/// had them before and the candidates have them.
pub proof fn law_transaction_leaves_no_profile_without_destination(
    d: DaemonDataView,
    c: CommitView,
    reports: Seq<Reported>,
)
    requires
        at_start(c),
        commit::fitting(c, reports),
        profile::all_routed(d.active),
        profile::all_routed(c.candidates),
    ensures
        profile::all_routed(runtime::run_data(d, c, reports).active),
    decreases reports.len(),
{
    if reports.len() > 0 {
        let front = reports.drop_last();
        assert(commit::fitting(c, front));
        law_transaction_leaves_no_profile_without_destination(d, c, front);
        lemma_trace(c, front);
    }
}

/// The profiles behind a refresh, one for each.
proof fn lemma_cycle(active: Seq<ActiveProfileView>, findings: Seq<Finding>, now: u64, i: int)
    requires
        0 <= i < findings.len(),
    ensures
        refresh::cycle(active, findings, now).active.len() == findings.len(),
        refresh::cycle(active, findings, now).active[i] == if refresh::due(active[i], now) {
            refresh::refreshed(active[i], findings[i], now).profile
        } else {
            active[i]
        },
    decreases findings.len(),
{
    let front = findings.drop_last();
    if i < front.len() {
        lemma_cycle(active, front, now, i);
        assert(front[i] == findings[i]);
    } else if front.len() > 0 {
        lemma_cycle(active, front, now, 0);
    }
}

/// A refresh leaves a profile as it is whose refresh is not due, and one without a
/// host name.
pub proof fn law_refresh_leaves_the_others_alone(
    active: Seq<ActiveProfileView>,
    findings: Seq<Finding>,
    now: u64,
    i: int,
)
    requires
        0 <= i < findings.len(),
        !refresh::due(active[i], now),
    ensures
        refresh::cycle(active, findings, now).active[i] == active[i],
{
    lemma_cycle(active, findings, now, i);
}

/// A lookup that fails, or whose answer holds no candidate, leaves the destination
/// and the active address as they are and tells of the failure.
pub proof fn law_failed_refresh_keeps_the_destination(
    p: ActiveProfileView,
    finding: Finding,
    now: u64,
)
    requires
        p.dns is Some,
        finding.lookup matches Ok(answer) ==> !dns::has_candidate(
            p.resolved.validated.profile.family,
            answer.addresses,
        ),
    ensures
        ({
            let r = refresh::refreshed(p, finding, now);
            &&& !r.switched
            &&& r.profile.resolved == p.resolved
            &&& r.profile.dns->0.active_address == p.dns->0.active_address
            &&& r.profile.dns->0.failure_reason is Some
            &&& r.profile.dns->0.status != Health::Healthy
            &&& r.note is Some
        }),
{
}

/// The destination behind an answer that is taken over is an address of the answer, of
/// the profile's family, and allowed as a target.
pub proof fn law_refreshed_destination_is_allowed(
    p: ActiveProfileView,
    answer: DnsAnswerView,
    jitter: u64,
    now: u64,
)
    requires
        p.dns is Some,
        dns::has_candidate(p.resolved.validated.profile.family, answer.addresses),
    ensures
        ({
            let r = refresh::refreshed(p, (Finding { lookup: Ok(answer), jitter }), now);
            let ip = r.profile.resolved.destination->0;
            &&& r.profile.resolved.destination is Some
            &&& answer.addresses.contains(ip)
            &&& p.resolved.validated.profile.family.spec_matches(ip)
            &&& config::allowed_target(ip)
        }),
{
    law_active_address_is_allowed(
        p.dns->0,
        p.resolved.validated.profile.family,
        answer,
        now,
        jitter,
    );
}

/// A refresh asks for a transaction exactly where an active address changed.
pub proof fn law_switch_is_asked_for_where_an_address_changed(
    active: Seq<ActiveProfileView>,
    findings: Seq<Finding>,
    now: u64,
)
    requires
        findings.len() == active.len(),
    ensures
        refresh::planned(refresh::cycle(active, findings, now)) is Switch <==> exists|i: int|
            0 <= i < active.len() && refresh::due(#[trigger] active[i], now)
                && refresh::refreshed(active[i], findings[i], now).switched,
{
    lemma_switched(active, findings, now);
}

/// Whether an active address changed among the profiles that were looked at.
proof fn lemma_switched(active: Seq<ActiveProfileView>, findings: Seq<Finding>, now: u64)
    requires
        findings.len() <= active.len(),
    ensures
        refresh::cycle(active, findings, now).switched <==> exists|i: int|
            0 <= i < findings.len() && refresh::due(#[trigger] active[i], now)
                && refresh::refreshed(active[i], findings[i], now).switched,
    decreases findings.len(),
{
    if findings.len() > 0 {
        let front = findings.drop_last();
        let n = front.len() as int;
        lemma_switched(active, front, now);
        if refresh::cycle(active, front, now).switched {
            let i = choose|i: int|
                0 <= i < front.len() && refresh::due(#[trigger] active[i], now)
                    && refresh::refreshed(active[i], front[i], now).switched;
            assert(findings[i] == front[i]);
            assert(refresh::due(active[i], now));
        }
        if exists|i: int|
            0 <= i < findings.len() && refresh::due(#[trigger] active[i], now)
                && refresh::refreshed(active[i], findings[i], now).switched {
            let i = choose|i: int|
                0 <= i < findings.len() && refresh::due(#[trigger] active[i], now)
                    && refresh::refreshed(active[i], findings[i], now).switched;
            if i < n {
                assert(findings[i] == front[i]);
                assert(refresh::due(active[i], now));
            }
        }
    }
}

/// Behind a switch that failed every profile keeps its destination and its active
/// address; one that was to be switched tells of the failure.
pub proof fn law_failed_switch_keeps_the_destinations(
    before: Seq<ActiveProfileView>,
    after: Seq<ActiveProfileView>,
    error: Seq<char>,
    now: u64,
    i: int,
)
    requires
        0 <= i < before.len(),
    ensures
        ({
            let r = refresh::degraded(before, after, error, now);
            &&& r.len() == before.len()
            &&& r[i].resolved == before[i].resolved
            &&& before[i].dns is Some ==> r[i].dns is Some && r[i].dns->0.active_address
                == before[i].dns->0.active_address
            &&& i < after.len() && before[i].dns is Some && before[i].dns->0.active_address is Some
                && after[i].resolved.destination != before[i].resolved.destination
                ==> r[i].dns->0.status == Health::Degraded
            &&& i < after.len() && after[i].resolved.destination == before[i].resolved.destination
                ==> r[i] == before[i]
        }),
{
}

// Events.

/// Nothing but the last events is kept, and they are kept in order.
pub proof fn law_log_holds_the_last_events(notes: Seq<LogEventView>)
    ensures
        runtime::logged_all(Seq::empty(), notes) == if notes.len() <= runtime::MAX_LOG_EVENTS {
            notes
        } else {
            notes.skip(notes.len() - runtime::MAX_LOG_EVENTS)
        },
    decreases notes.len(),
{
    if notes.len() > 0 {
        let front = notes.drop_last();
        law_log_holds_the_last_events(front);
        assert(front.push(notes.last()) =~= notes);
        if front.len() >= runtime::MAX_LOG_EVENTS {
            let kept = runtime::logged_all(Seq::empty(), front);
            assert(kept.drop_first().push(notes.last()) =~= notes.skip(
                notes.len() - runtime::MAX_LOG_EVENTS,
            ));
        }
    } else {
        assert(notes =~= Seq::empty());
    }
}

/// No more events are kept than the limit, where no more were there before.
pub proof fn law_log_stays_within_its_limit(logs: Seq<LogEventView>, e: LogEventView)
    requires
        logs.len() <= runtime::MAX_LOG_EVENTS,
    ensures
        runtime::logged(logs, e).len() <= runtime::MAX_LOG_EVENTS,
        runtime::logged(logs, e).last() == e,
{
}

// Rules.

/// An accepted IPv6 profile has no rule behind routing.
proof fn lemma_ipv6_profile_is_not_masqueraded(v: ResolvedProfileView, n: int)
    requires
        config::profile_fault(v.validated.profile) is None,
        v.validated.profile.family == AddressFamily::Ipv6,
    ensures
        nft::profile_lines(Hook::Postrouting, v, n) == Seq::<char>::empty(),
    decreases n,
{
    if n > 0 {
        lemma_ipv6_profile_is_not_masqueraded(v, n - 1);
    }
}

/// No rule translates the source of IPv6 packets: the IPv6 table has no rule behind
/// routing, whatever accepted profiles there are.
pub proof fn law_ipv6_is_never_masqueraded(vs: Seq<ResolvedProfileView>, n: int)
    requires
        0 <= n <= vs.len(),
        forall|i: int|
            0 <= i < vs.len() ==> config::profile_fault(
                (#[trigger] vs[i]).validated.profile,
            ) is None,
    ensures
        nft::rule_lines(Hook::Postrouting, AddressFamily::Ipv6, vs, n) == Seq::<char>::empty(),
    decreases n,
{
    if n > 0 {
        law_ipv6_is_never_masqueraded(vs, n - 1);
        let v = vs[n - 1];
        assert(config::profile_fault(v.validated.profile) is None);
        if v.validated.profile.family == AddressFamily::Ipv6 {
            lemma_ipv6_profile_is_not_masqueraded(
                v,
                v.validated.profile.protocols.len() as int,
            );
        }
    }
}

/// A batch deletes a table only where it exists.
pub proof fn law_batch_deletes_only_tables_that_exist(vs: Seq<ResolvedProfileView>)
    ensures
        nft::batch(vs, (OwnTables { ipv4: false, ipv6: false })) == nft::table(
            AddressFamily::Ipv4,
            vs,
        ) + nft::table(AddressFamily::Ipv6, vs),
{
    let own = OwnTables { ipv4: false, ipv6: false };
    assert(nft::batch(vs, own) =~= nft::table(AddressFamily::Ipv4, vs) + nft::table(
        AddressFamily::Ipv6,
        vs,
    ));
}

/// The rule of a profile stands among its lines.
proof fn lemma_rule_in_profile_lines(hook: Hook, v: ResolvedProfileView, n: int, k: int)
    requires
        0 <= k < n,
        nft::rule(hook, v, v.validated.profile.protocols[k]) is Some,
    ensures
        text::occurs(
            nft::profile_lines(hook, v, n),
            nft::rule(hook, v, v.validated.profile.protocols[k])->0,
        ),
    decreases n,
{
    let rule = nft::rule(hook, v, v.validated.profile.protocols[k])->0;
    let before = nft::profile_lines(hook, v, n - 1);
    if k == n - 1 {
        assert(rule.subrange(0, rule.len() as int) =~= rule);
        assert(text::occurs_at(rule, rule, 0));
        text::lemma_occurs_within(before + "\t\t"@, rule, "\n"@, rule);
    } else {
        lemma_rule_in_profile_lines(hook, v, n - 1, k);
        match nft::rule(hook, v, v.validated.profile.protocols[n - 1]) {
            Some(last) => {
                let behind = "\t\t"@ + last + "\n"@;
                text::lemma_occurs_within(Seq::empty(), before, behind, rule);
                assert(Seq::<char>::empty() + before + behind =~= before + "\t\t"@ + last
                    + "\n"@);
            },
            None => {},
        }
    }
}

/// What stands among the lines of a profile stands among the lines of its family.
proof fn lemma_lines_in_rule_lines(
    hook: Hook,
    vs: Seq<ResolvedProfileView>,
    n: int,
    i: int,
    rule: Seq<char>,
)
    requires
        0 <= i < n,
        text::occurs(
            nft::profile_lines(hook, vs[i], vs[i].validated.profile.protocols.len() as int),
            rule,
        ),
    ensures
        text::occurs(nft::rule_lines(hook, vs[i].validated.profile.family, vs, n), rule),
    decreases n,
{
    let family = vs[i].validated.profile.family;
    let last = vs[n - 1];
    let before = nft::rule_lines(hook, family, vs, n - 1);
    let lines = nft::profile_lines(hook, last, last.validated.profile.protocols.len() as int);
    if i == n - 1 {
        text::lemma_occurs_within(before, lines, Seq::empty(), rule);
        assert(before + lines + Seq::<char>::empty() =~= before + lines);
    } else {
        lemma_lines_in_rule_lines(hook, vs, n - 1, i, rule);
        if last.validated.profile.family == family {
            text::lemma_occurs_within(Seq::empty(), before, lines, rule);
            assert(Seq::<char>::empty() + before + lines =~= before + lines);
        }
    }
}

/// What stands among the lines of a family at the first hook stands in the batch.
proof fn lemma_lines_in_batch(
    family: AddressFamily,
    vs: Seq<ResolvedProfileView>,
    own: OwnTables,
    rule: Seq<char>,
)
    requires
        text::occurs(nft::rule_lines(Hook::Prerouting, family, vs, vs.len() as int), rule),
    ensures
        text::occurs(nft::batch(vs, own), rule),
{
    let lines = nft::rule_lines(Hook::Prerouting, family, vs, vs.len() as int);
    let chain = nft::chain(Hook::Prerouting, family, vs);
    text::lemma_occurs_within(nft::chain_opening(Hook::Prerouting), lines, "\t}\n"@, rule);
    let opening = "table "@ + nft::spec_nft_family(family) + " "@ + nft::spec_table_name(family)
        + " {\n"@;
    let forward = nft::chain(Hook::Forward, family, vs);
    let postrouting = nft::chain(Hook::Postrouting, family, vs);
    let behind = forward + postrouting + "}\n"@;
    let table = nft::table(family, vs);
    text::lemma_occurs_within(opening, chain, behind, rule);
    assert(opening + chain + behind =~= table);
    let deletions = nft::deletion(AddressFamily::Ipv4, own.ipv4) + nft::deletion(
        AddressFamily::Ipv6,
        own.ipv6,
    );
    let other = nft::table(AddressFamily::Ipv6, vs);
    match family {
        AddressFamily::Ipv4 => {
            text::lemma_occurs_within(deletions, table, other, rule);
        },
        AddressFamily::Ipv6 => {
            let before = deletions + nft::table(AddressFamily::Ipv4, vs);
            text::lemma_occurs_within(before, table, Seq::empty(), rule);
            assert(before + table + Seq::<char>::empty() =~= nft::batch(vs, own));
        },
    }
}

/// No profile that has its destination is left out of the batch: for each of its
/// protocols the batch holds the rule that sends what comes in to the target.
pub proof fn law_every_profile_is_in_the_batch(
    active: Seq<ActiveProfileView>,
    own: OwnTables,
    i: int,
    k: int,
)
    requires
        0 <= i < active.len(),
        0 <= k < active[i].resolved.validated.profile.protocols.len(),
        profile::routed(active[i]),
    ensures
        ({
            let v = active[i].resolved;
            let rule = nft::rule(Hook::Prerouting, v, v.validated.profile.protocols[k]);
            &&& rule is Some
            &&& text::occurs(nft::batch(profile::resolved_of(active), own), rule->0)
        }),
{
    let vs = profile::resolved_of(active);
    let v = active[i].resolved;
    let protocols = v.validated.profile.protocols;
    let rule = nft::rule(Hook::Prerouting, v, protocols[k])->0;
    assert(vs[i] == v);
    lemma_rule_in_profile_lines(Hook::Prerouting, v, protocols.len() as int, k);
    lemma_lines_in_rule_lines(Hook::Prerouting, vs, vs.len() as int, i, rule);
    lemma_lines_in_batch(v.validated.profile.family, vs, own, rule);
}

// The command line.

/// However the wizard is answered, the answers that it takes are real values that fit
/// together: a local listener that is no documentation address, ports that are not
/// zero, no placeholders, loopback only for IPv4, and no remote target that is a
/// documentation address.
pub proof fn law_wizard_takes_sound_answers_only(
    addresses: Seq<InterfaceAddressView>,
    lines: Seq<Seq<char>>,
)
    requires
        WizardView::start(addresses).told_all(lines) is Ok,
    ensures
        WizardView::start(addresses).told_all(lines)->Ok_0.sound(),
        WizardView::start(addresses).told_all(lines)->Ok_0.addresses == addresses,
    decreases lines.len(),
{
    if lines.len() > 0 {
        let front = lines.drop_last();
        law_wizard_takes_sound_answers_only(addresses, front);
        let before = WizardView::start(addresses).told_all(front)->Ok_0;
        let value = wizard::answer_of(
            lines.last(),
            wizard::spec_default(before.question, before.draft.listen_ip),
        )->Ok_0;
        if before.question == Question::Protocols {
            assert(wizard::protocol_list(value) is Some);
        }
        text::lemma_trimmed_is_not_blank(lines.last());
        if before.question == Question::Name {
            reveal_strlit("first-forward");
            assert(!text::is_white_space("first-forward"@[0]));
        }
    }
}

/// A profile alone is not in the way of itself.
proof fn lemma_no_overlap_alone(vs: Seq<ValidatedView>)
    ensures
        config::overlap_fault(vs, 0) is None,
{
    let outer = |a: int| config::overlap_for(vs, 0, a);
    assert forall|a: int| (#[trigger] outer(a)) is None by {
        let inner = |b: int| config::overlap_at(vs, 0, a, b);
        assert forall|b: int| (#[trigger] inner(b)) is None by {}
        config::lemma_no_fault(inner, vs[0].listen_ports.len() as int);
    }
    config::lemma_no_fault(outer, vs[0].profile.protocols.len() as int);
}

/// A configuration of one profile with a name keeps the rules where its profile does.
proof fn lemma_one_profile(c: ConfigView)
    requires
        c.schema_version == 1,
        c.profiles.len() == 1,
        !text::is_blank(c.profiles[0].name),
    ensures
        config::config_fault(c) == config::profile_fault(c.profiles[0]),
{
    let at = |j: int| config::profile_fault_at(c.profiles, j);
    assert(config::first_fault(at, 0) is None);
    assert(config::first_fault(at, 1) == at(0));
    assert(!config::name_taken(c.profiles, 0));
    lemma_no_overlap_alone(config::all_normalized(c.profiles));
}

/// A source alone keeps the rules where it is a range of the family.
proof fn lemma_one_source(family: AddressFamily, source: Seq<char>, name: Seq<char>)
    ensures
        config::sources_fault(family, seq![source], name) == config::cidr_fault(
            family,
            source,
            name,
        ),
{
    let sources = seq![source];
    let at = |i: int| config::source_fault_at(family, sources, name, i);
    assert(config::first_fault(at, 0) is None);
    assert(config::first_fault(at, 1) == at(0));
    assert(sources.take(0).len() == 0);
}

/// The protocols of a draft are some, each once.
proof fn lemma_drafted_protocols(written: Seq<char>)
    ensures
        wizard::drafted_protocols(written).len() > 0,
        wizard::drafted_protocols(written).no_duplicates(),
{
    let p = wizard::drafted_protocols(written);
    assert forall|i: int, j: int| 0 <= i < p.len() && 0 <= j < p.len() && i != j implies p[i]
        != p[j] by {}
}

/// A port alone is a list of ports.
proof fn lemma_one_port(l: ListenPortsView, port: u16)
    requires
        l.range_start is None,
        l.range_end is None,
        l.suffix is None,
        l.ports == Some(seq![port]),
    ensures
        config::projected(l) is Ok,
{
    assert(seq![port].no_duplicates());
}

/// The profile of a draft keeps the rules unless its source or its literal target
/// breaks one.
proof fn lemma_drafted_profile(w: WizardView)
    requires
        w.sound(),
        w.question == Question::Nothing,
    ensures
        ({
            let p = wizard::drafted(w.draft).profiles[0];
            config::profile_fault(p) == match config::cidr_fault(
                p.family,
                w.draft.source_cidr,
                p.name,
            ) {
                Some(f) => Some(f),
                None => config::target_fault(p),
            }
        }),
{
    let d = w.draft;
    let p = wizard::drafted(d).profiles[0];
    assert(p.family.spec_matches(d.listen_ip));
    lemma_drafted_protocols(d.protocols);
    lemma_one_port(p.listen_ports, d.listen_port);
    assert(config::effective_sources(p.family, p.source_cidrs) == seq![d.source_cidr]);
    lemma_one_source(p.family, d.source_cidr, p.name);
}

/// Where the configuration that the wizard wrote is parsed back with the drafted
/// values, it has one profile, on a local address that is no documentation address,
/// with ports that are not zero and without a placeholder in its name, and it does not
/// coexist with the chains of others. It keeps every rule, and is then handed on,
/// unless its source is no range of the family, or its remote target is a literal
/// address that no target may be.
pub proof fn law_wizard_writes_one_profile_that_keeps_the_rules(w: WizardView, parsed: Config)
    requires
        w.sound(),
        w.question == Question::Nothing,
        parsed@ == wizard::drafted(w.draft),
    ensures
        ({
            let c = parsed@;
            let p = c.profiles[0];
            let literal = match p.target {
                TargetView::Remote { host, .. } => address::ip_of(host),
                _ => None,
            };
            &&& c.profiles.len() == 1
            &&& !c.allow_external_chains
            &&& address::ip_of(p.listen_address) == Some(w.draft.listen_ip)
            &&& wizard::local(w.addresses, w.draft.listen_ip)
            &&& !config::documentation_address(w.draft.listen_ip)
            &&& p.listen_ports.ports == Some(seq![w.draft.listen_port])
            &&& w.draft.listen_port > 0
            &&& p.target == wizard::drafted_target(w.draft)
            &&& w.draft.target_port > 0
            &&& !text::holds_todo(p.name)
            &&& config::parsed_fault(Ok(parsed)) is None <==> {
                &&& config::cidr_fault(p.family, w.draft.source_cidr, p.name) is None
                &&& literal is Some ==> config::target_address_fault(
                    p.family,
                    literal->0,
                    p.name,
                ) is None
            }
        }),
{
    lemma_one_profile(parsed@);
    lemma_drafted_profile(w);
}

/// The fourth check is that for the configuration.
proof fn lemma_configuration_is_checked(f: Findings)
    ensures
        doctor::checks_of(f).len() > 3,
        doctor::checks_of(f)[3] == doctor::config_check(f.config_path@, f.config),
{
    let general = doctor::general_checks(f);
    assert(general.len() == 6);
    assert(general[3] == doctor::config_check(f.config_path@, f.config));
    assert(doctor::checks_of(f)[3] == general[3]);
}

/// A configuration that cannot be loaded or deployed is diagnosed as an error.
pub proof fn law_bad_configuration_is_diagnosed(f: Findings)
    requires
        config::loading_fault(f.config) is Some,
    ensures
        exists|i: int|
            0 <= i < doctor::checks_of(f).len() && (#[trigger] doctor::checks_of(f)[i]).name
                == "配置"@ && doctor::checks_of(f)[i].status == "error"@,
{
    lemma_configuration_is_checked(f);
    let check = doctor::checks_of(f)[3];
    assert(check.name == "配置"@ && check.status == "error"@);
}

/// The line break that a frame adds is no part of the payload that is read from it.
pub proof fn law_payload_survives_its_frame(payload: Seq<char>)
    requires
        payload.len() > 0 ==> !text::is_white_space(payload.last()),
    ensures
        text::trim_end(payload.push('\n')) == payload,
{
    let line = payload.push('\n');
    assert(line.drop_last() =~= payload);
    assert(text::is_white_space('\n'));
    assert(text::trim_end(line) == text::trim_end(payload));
}

/// Marking overdue refreshes twice is marking them once.
pub proof fn law_marking_twice_is_marking_once(p: ProfileStatusView, now: u64)
    ensures
        state::unattended(state::unattended(p, now), now) == state::unattended(p, now),
{
}

} // verus!
