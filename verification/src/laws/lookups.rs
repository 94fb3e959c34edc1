//! Which address a host name has, for how long, and when it is looked up again.

use vstd::prelude::*;

use crate::address;
use crate::address::IpAddr;
use crate::config::AddressFamily;
use crate::control::NoteView;
use crate::dns;
use crate::dns::{DnsAnswer, DnsAnswerView, DnsStatusView, Health, NameResolver};
use crate::laws;
use crate::laws::rules;
use crate::profile;
use crate::profile::{ActiveProfileView, Finding};
use crate::refresh;
use crate::refresh::{CycleView, PlanView};
use crate::state::RuntimeStateView;
use crate::text;

verus! {

/// The answer holds the address, it is of the family, and packets may be sent on to it.
pub open spec fn usable(ip: IpAddr, family: AddressFamily, answer: Seq<IpAddr>) -> bool {
    answer.contains(ip) && rules::of_family(ip, family) && rules::reachable(ip)
}

/// The answer holds a usable address.
pub open spec fn any_usable(family: AddressFamily, answer: Seq<IpAddr>) -> bool {
    exists|ip: IpAddr| #[trigger] usable(ip, family, answer)
}

/// The address that an answer gives a host: the one that it had, while that is usable, and
/// else the usable one whose text comes first.
pub open spec fn chosen(
    ip: IpAddr,
    had: Option<IpAddr>,
    family: AddressFamily,
    answer: Seq<IpAddr>,
) -> bool {
    &&& usable(ip, family, answer)
    &&& had != Some(ip) ==> {
        &&& had matches Some(other) ==> !usable(other, family, answer)
        &&& forall|other: IpAddr| #[trigger]
            usable(other, family, answer) && other != ip ==> text::precedes(
                address::shown(ip),
                address::shown(other),
            )
    }
}

/// What is told of an answer without a usable address.
pub open spec fn nothing_usable(host: Seq<char>, family: AddressFamily) -> Seq<char> {
    "DNS answer for "@ + host + " has no allowed "@ + (if family == AddressFamily::Ipv4 {
        "IPv4"@
    } else {
        "IPv6"@
    }) + " address"@
}

proof fn lemma_candidate(ip: IpAddr, family: AddressFamily, answer: Seq<IpAddr>)
    ensures
        dns::candidate(ip, family, answer) <==> usable(ip, family, answer),
{
    rules::law_addresses_have_their_classes(ip);
    rules::law_families_are_told_apart(family, ip);
}

/// An answer is taken over exactly where it holds a usable address.
pub proof fn law_answer_needs_a_usable_address(family: AddressFamily, answer: Seq<IpAddr>)
    ensures
        dns::has_candidate(family, answer) <==> any_usable(family, answer),
{
    if dns::has_candidate(family, answer) {
        let ip = choose|ip: IpAddr| dns::candidate(ip, family, answer);
        lemma_candidate(ip, family, answer);
        assert(usable(ip, family, answer));
    }
    if any_usable(family, answer) {
        let ip = choose|ip: IpAddr| #[trigger] usable(ip, family, answer);
        lemma_candidate(ip, family, answer);
        assert(dns::candidate(ip, family, answer));
    }
}

/// The delay to the next lookup in seconds: half of the lifetime with at most 15 seconds
/// of jitter, at least 60 and at most 900.
pub proof fn law_delay_is_half_the_lifetime_in_seconds(ttl: u64, jitter: u64)
    ensures
        ({
            let added = if jitter > 15 {
                15
            } else {
                jitter as int
            };
            let delay = dns::delay_seconds(ttl, jitter) as int;
            &&& ttl < 120 ==> delay == 60 + added
            &&& 120 <= ttl && ttl / 2 + added <= 900 ==> delay == ttl / 2 + added
            &&& ttl / 2 + added > 900 ==> delay == 900
        }),
{
}

/// Behind an answer with a usable address a host is healthy: its address is usable, it is
/// the one that it had where the answer still holds that one, and it was looked up and
/// written to the cache now; the next lookup is one delay away.
pub proof fn law_answer_makes_healthy(
    s: DnsStatusView,
    family: AddressFamily,
    answer: DnsAnswerView,
    now: u64,
    jitter: u64,
)
    requires
        any_usable(family, answer.addresses),
        now + 900 <= u64::MAX,
    ensures
        ({
            let r = s.accepted(family, answer, now, jitter);
            &&& r.host == s.host
            &&& r.active_address matches Some(ip) && chosen(
                ip,
                s.active_address,
                family,
                answer.addresses,
            )
            &&& r.last_success_unix == Some(now)
            &&& r.cache_written_unix == Some(now)
            &&& r.next_refresh_unix matches Some(at) && at - now == dns::delay_seconds(
                answer.ttl,
                jitter,
            )
            &&& r.status == Health::Healthy
            &&& r.failure_reason is None
        }),
{
    law_answer_needs_a_usable_address(family, answer.addresses);
    laws::law_active_address_is_allowed(s, family, answer, now, jitter);
    let r = s.accepted(family, answer, now, jitter);
    let ip = r.active_address->0;
    lemma_candidate(ip, family, answer.addresses);
    rules::law_addresses_have_their_classes(ip);
    rules::law_families_are_told_apart(family, ip);
    if s.active_address is Some {
        lemma_candidate(s.active_address->0, family, answer.addresses);
    }
    if !(s.active_address matches Some(ip) && usable(ip, family, answer.addresses)) {
        laws::law_replacement_is_the_first_candidate(s, family, answer, now, jitter);
        assert forall|other: IpAddr| #[trigger]
            usable(other, family, answer.addresses) && Some(other)
                != r.active_address implies text::precedes(
            address::shown(ip),
            address::shown(other),
        ) by {
            lemma_candidate(other, family, answer.addresses);
            assert(dns::candidate(other, family, answer.addresses));
        }
    }
}

/// Behind a failure a host keeps its address, its last success and its cache; it is
/// degraded where it has an address and failed where it has none, and it is looked up
/// again in 60 seconds.
pub proof fn law_failure_is_retried_in_a_minute(s: DnsStatusView, reason: Seq<char>, now: u64)
    requires
        now + 60 <= u64::MAX,
    ensures
        ({
            let r = s.failed(reason, now);
            &&& r.host == s.host
            &&& r.active_address == s.active_address
            &&& r.last_success_unix == s.last_success_unix
            &&& r.cache_written_unix == s.cache_written_unix
            &&& r.next_refresh_unix matches Some(at) && at == now + 60
            &&& r.failure_reason == Some(reason)
            &&& r.status == if s.active_address is Some {
                Health::Degraded
            } else {
                Health::Failed
            }
        }),
{
}

/// A cached address may be used for 3600 seconds from the time at which it was written.
pub proof fn law_cache_is_used_for_an_hour(s: DnsStatusView, now: u64)
    ensures
        s.restorable(now) <==> s.active_address is Some && (s.cache_written_unix matches Some(at)
            && now - at <= 3600),
{
}

/// The first state of a host name: an answer with a usable address makes it healthy, from
/// the cached state of the same host where there is one; a failed lookup restores that
/// state, degraded, where its address may still be used; else the host has no state.
pub proof fn law_first_state_of_a_host(
    host: Seq<char>,
    family: AddressFamily,
    cached: Option<DnsStatusView>,
    lookup: Result<DnsAnswerView, Seq<char>>,
    jitter: u64,
    now: u64,
)
    requires
        now + 900 <= u64::MAX,
    ensures
        ({
            let r = dns::first_state(host, family, cached, lookup, jitter, now);
            let same = cached is Some && cached->0.host == host;
            match lookup {
                Ok(answer) => if any_usable(family, answer.addresses) {
                    &&& r matches Ok(s)
                    &&& s.host == host
                    &&& s.status == Health::Healthy
                    &&& s.failure_reason is None
                    &&& s.active_address matches Some(ip)
                    &&& chosen(
                        ip,
                        if same {
                            cached->0.active_address
                        } else {
                            None
                        },
                        family,
                        answer.addresses,
                    )
                    &&& s.cache_written_unix == Some(now)
                    &&& s.last_success_unix == Some(now)
                    &&& s.next_refresh_unix matches Some(at)
                    &&& at - now == dns::delay_seconds(answer.ttl, jitter)
                } else {
                    r == Err::<DnsStatusView, Seq<char>>(nothing_usable(host, family))
                },
                Err(error) => if same && cached->0.active_address is Some && (
                cached->0.cache_written_unix matches Some(at) && now - at <= 3600) {
                    &&& r matches Ok(s)
                    &&& s.host == host
                    &&& s.status == Health::Degraded
                    &&& s.active_address == cached->0.active_address
                    &&& s.cache_written_unix == cached->0.cache_written_unix
                    &&& s.last_success_unix == cached->0.last_success_unix
                    &&& s.next_refresh_unix == Some((now + 60) as u64)
                    &&& s.failure_reason == Some("DNS lookup failed; restored cache: "@ + error)
                } else {
                    r == Err::<DnsStatusView, Seq<char>>(
                        "initial DNS lookup for "@ + host
                            + " failed and no fresh cache exists: "@ + error,
                    )
                },
            }
        }),
{
    let base = if cached is Some && cached->0.host == host {
        cached->0
    } else {
        DnsStatusView::fresh(host)
    };
    match lookup {
        Ok(answer) => {
            law_answer_needs_a_usable_address(family, answer.addresses);
            if any_usable(family, answer.addresses) {
                law_answer_makes_healthy(base, family, answer, now, jitter);
            }
        },
        Err(error) => {},
    }
}

/// A literal host has its own address, at once and for 450 seconds, exactly where that is
/// of the family and packets may be sent on to it.
pub proof fn law_literal_host_has_its_address(
    host: Seq<char>,
    family: AddressFamily,
    ip: IpAddr,
    now: u64,
)
    requires
        now + 900 <= u64::MAX,
    ensures
        ({
            let r = dns::literal_state(host, family, ip, now);
            &&& r is Ok <==> rules::of_family(ip, family) && rules::reachable(ip)
            &&& r matches Ok(s) ==> s.host == host && s.active_address == Some(ip) && s.status
                == Health::Healthy && s.next_refresh_unix == Some((now + 450) as u64)
        }),
{
    rules::law_addresses_have_their_classes(ip);
    rules::law_families_are_told_apart(family, ip);
    let answer = seq![ip];
    assert(answer[0] == ip);
    assert(usable(ip, family, answer) <==> rules::of_family(ip, family) && rules::reachable(ip));
    if rules::of_family(ip, family) && rules::reachable(ip) {
        assert(any_usable(family, answer));
        law_answer_makes_healthy(
            DnsStatusView::fresh(host),
            family,
            DnsAnswerView { addresses: answer, ttl: 900 },
            now,
            0,
        );
    }
}

// Refreshing.

/// The profile has a host name that was never to be looked up later than now.
pub open spec fn overdue(p: ActiveProfileView, now: u64) -> bool {
    p.dns matches Some(d) && (d.next_refresh_unix matches Some(at) ==> at <= now)
}

/// Behind a failure the destination stays and the reason is told.
pub open spec fn kept_with(
    p: ActiveProfileView,
    q: ActiveProfileView,
    reason: Seq<char>,
    now: u64,
) -> bool {
    &&& q.resolved == p.resolved
    &&& q.dns matches Some(d)
    &&& d.host == p.dns->0.host
    &&& d.active_address == p.dns->0.active_address
    &&& d.cache_written_unix == p.dns->0.cache_written_unix
    &&& d.last_success_unix == p.dns->0.last_success_unix
    &&& d.failure_reason == Some(reason)
    &&& d.next_refresh_unix == Some((now + 60) as u64)
    &&& d.status == if p.dns->0.active_address is Some {
        Health::Degraded
    } else {
        Health::Failed
    }
}

/// The profile took over an address of the answer.
pub open spec fn renewed_with(
    p: ActiveProfileView,
    q: ActiveProfileView,
    answer: DnsAnswerView,
    jitter: u64,
    now: u64,
) -> bool {
    let family = p.resolved.validated.profile.family;
    &&& q.resolved.validated == p.resolved.validated
    &&& q.dns matches Some(d)
    &&& d.host == p.dns->0.host
    &&& d.status == Health::Healthy
    &&& d.failure_reason is None
    &&& d.last_success_unix == Some(now)
    &&& d.cache_written_unix == Some(now)
    &&& d.next_refresh_unix matches Some(at)
    &&& at - now == dns::delay_seconds(answer.ttl, jitter)
    &&& q.resolved.destination == d.active_address
    &&& d.active_address matches Some(ip)
    &&& chosen(ip, p.dns->0.active_address, family, answer.addresses)
}

/// What a refresh makes of one profile, and what it tells of it.
pub open spec fn refreshed_as(
    p: ActiveProfileView,
    q: ActiveProfileView,
    finding: Finding,
    now: u64,
    notes: Seq<NoteView>,
) -> bool {
    let name = p.resolved.validated.profile.name;
    let family = p.resolved.validated.profile.family;
    if !overdue(p, now) {
        q == p
    } else {
        match finding.lookup {
            Ok(answer) => if any_usable(family, answer.addresses) {
                &&& renewed_with(p, q, answer, finding.jitter, now)
                &&& q.dns->0.active_address != p.dns->0.active_address ==> notes.contains(
                    NoteView {
                        level: "info"@,
                        message: "DNS address switched for profile "@ + name + " to "@
                            + address::shown(q.dns->0.active_address->0),
                    },
                )
            } else {
                let reason = nothing_usable(p.dns->0.host, family);
                &&& kept_with(p, q, reason, now)
                &&& notes.contains(
                    NoteView {
                        level: "warn"@,
                        message: "DNS answer rejected for profile "@ + name + ": "@ + reason,
                    },
                )
            },
            Err(error) => {
                &&& kept_with(p, q, "DNS refresh failed: "@ + error, now)
                &&& notes.contains(
                    NoteView {
                        level: "warn"@,
                        message: "DNS refresh failed for profile "@ + name + ": "@ + error,
                    },
                )
            },
        }
    }
}

/// What a refresh makes of a profile that is due.
pub proof fn lemma_refreshed_alone(p: ActiveProfileView, finding: Finding, now: u64)
    requires
        now + 900 <= u64::MAX,
        refresh::due(p, now),
    ensures
        ({
            let r = refresh::refreshed(p, finding, now);
            let notes = match r.note {
                Some(n) => seq![n],
                None => Seq::empty(),
            };
            refreshed_as(p, r.profile, finding, now, notes)
        }),
{
    let r = refresh::refreshed(p, finding, now);
    let family = p.resolved.validated.profile.family;
    if r.note is Some {
        assert(seq![r.note->0][0] == r.note->0);
    }
    match finding.lookup {
        Ok(answer) => {
            law_answer_needs_a_usable_address(family, answer.addresses);
            if any_usable(family, answer.addresses) {
                law_answer_makes_healthy(p.dns->0, family, answer, now, finding.jitter);
            }
        },
        Err(_) => {},
    }
}

proof fn lemma_more_notes(
    p: ActiveProfileView,
    q: ActiveProfileView,
    finding: Finding,
    now: u64,
    few: Seq<NoteView>,
    many: Seq<NoteView>,
)
    requires
        refreshed_as(p, q, finding, now, few),
        forall|n: NoteView| #[trigger] few.contains(n) ==> many.contains(n),
    ensures
        refreshed_as(p, q, finding, now, many),
{
}

/// A refresh looks up exactly the host names whose next lookup is due, whatever their
/// health: there is none set, or its time has come. It takes over a usable address of the
/// answer; else it keeps the destination and tells of the failure. It leaves every other
/// profile as it is.
pub proof fn law_refresh_looks_up_exactly_what_is_due(
    active: Seq<ActiveProfileView>,
    findings: Seq<Finding>,
    now: u64,
    i: int,
)
    requires
        0 <= i < findings.len() <= active.len(),
        now + 900 <= u64::MAX,
    ensures
        refresh::cycle(active, findings, now).active.len() == findings.len(),
        refreshed_as(
            active[i],
            refresh::cycle(active, findings, now).active[i],
            findings[i],
            now,
            refresh::cycle(active, findings, now).notes,
        ),
        overdue(active[i], now) ==> refresh::cycle(active, findings, now).attempted,
    decreases findings.len(),
{
    let n = findings.len() - 1;
    let front = findings.drop_last();
    let before = refresh::cycle(active, front, now);
    let all = refresh::cycle(active, findings, now);
    let r = refresh::refreshed(active[n], findings[n], now);
    if n > 0 {
        law_refresh_looks_up_exactly_what_is_due(active, front, now, if i < n {
            i
        } else {
            0
        });
    }
    assert forall|note: NoteView| #[trigger]
        before.notes.contains(note) implies all.notes.contains(note) by {
        let k = choose|k: int| 0 <= k < before.notes.len() && before.notes[k] == note;
        assert(all.notes[k] == note);
    }
    if i < n {
        assert(front[i] == findings[i]);
        lemma_more_notes(
            active[i],
            all.active[i],
            findings[i],
            now,
            before.notes,
            all.notes,
        );
    } else if refresh::due(active[n], now) {
        lemma_refreshed_alone(active[n], findings[n], now);
        let few = match r.note {
            Some(note) => seq![note],
            None => Seq::empty(),
        };
        assert forall|note: NoteView| #[trigger]
            few.contains(note) implies all.notes.contains(note) by {
            assert(all.notes.last() == note);
        }
        lemma_more_notes(active[n], r.profile, findings[n], now, few, all.notes);
    }
}

/// A refresh that looked nothing up asks for nothing; one that changed an address asks
/// for a switch to what it found, and any other one to keep what it found.
pub proof fn law_plan_follows_what_changed(
    active: Seq<ActiveProfileView>,
    findings: Seq<Finding>,
    now: u64,
)
    requires
        findings.len() == active.len(),
        now + 900 <= u64::MAX,
    ensures
        ({
            let c = refresh::cycle(active, findings, now);
            let due = exists|i: int| 0 <= i < active.len() && overdue(#[trigger] active[i], now);
            let changed = exists|i: int|
                0 <= i < active.len() && #[trigger] moved(active, c.active, i);
            &&& changed ==> refresh::planned(c) == (PlanView::Switch { active: c.active })
            &&& !changed && due ==> refresh::planned(c) == (PlanView::Keep { active: c.active })
            &&& !due ==> refresh::planned(c) == PlanView::Idle && c.notes.len() == 0
        }),
{
    lemma_flags(active, findings, now);
    let c = refresh::cycle(active, findings, now);
    if exists|i: int| 0 <= i < active.len() && overdue(#[trigger] active[i], now) {
        let i = choose|i: int| 0 <= i < active.len() && overdue(#[trigger] active[i], now);
        assert(refresh::due(active[i], now));
    }
    if c.attempted {
        let i = choose|i: int| 0 <= i < active.len() && refresh::due(#[trigger] active[i], now);
        assert(overdue(active[i], now));
    }
}

/// The active address of the profile at position `i` changed.
pub open spec fn moved(before: Seq<ActiveProfileView>, after: Seq<ActiveProfileView>, i: int) -> bool {
    &&& before[i].dns is Some
    &&& after[i].dns is Some
    &&& before[i].dns->0.active_address != after[i].dns->0.active_address
}

pub proof fn lemma_flags(active: Seq<ActiveProfileView>, findings: Seq<Finding>, now: u64)
    requires
        findings.len() <= active.len(),
    ensures
        ({
            let c = refresh::cycle(active, findings, now);
            &&& c.active.len() == findings.len()
            &&& c.attempted <==> exists|i: int|
                0 <= i < findings.len() && refresh::due(#[trigger] active[i], now)
            &&& c.switched <==> exists|i: int|
                0 <= i < findings.len() && #[trigger] moved(active, c.active, i)
            &&& !c.attempted ==> c.notes.len() == 0 && !c.switched
        }),
    decreases findings.len(),
{
    if findings.len() > 0 {
        let n = findings.len() - 1;
        let front = findings.drop_last();
        let before = refresh::cycle(active, front, now);
        let c = refresh::cycle(active, findings, now);
        lemma_flags(active, front, now);
        assert forall|i: int| 0 <= i < n implies moved(active, before.active, i) == #[trigger] moved(
            active,
            c.active,
            i,
        ) by {
            assert(before.active[i] == c.active[i]);
        }
        if before.switched {
            let i = choose|i: int|
                0 <= i < front.len() && #[trigger] moved(active, before.active, i);
            assert(moved(active, c.active, i));
        }
        if exists|i: int| 0 <= i < findings.len() && #[trigger] moved(active, c.active, i) {
            let i = choose|i: int|
                0 <= i < findings.len() && #[trigger] moved(active, c.active, i);
            if i < n {
                assert(moved(active, before.active, i));
            }
        }
        assert(moved(active, c.active, n) == (refresh::due(active[n], now) && refresh::refreshed(
            active[n],
            findings[n],
            now,
        ).switched));
        if refresh::due(active[n], now) {
            assert(exists|i: int|
                0 <= i < findings.len() && refresh::due(#[trigger] active[i], now));
        }
        if before.attempted {
            let i = choose|i: int|
                0 <= i < front.len() && refresh::due(#[trigger] active[i], now);
            assert(refresh::due(active[i], now));
        }
    }
}

/// A host whose lookup failed is due again from one minute behind the failure on, at
/// every time.
pub proof fn law_failed_host_is_due_again(
    p: ActiveProfileView,
    s: DnsStatusView,
    reason: Seq<char>,
    at: u64,
    now: u64,
)
    requires
        p.dns == Some(s.failed(reason, at)),
        at + 60 <= u64::MAX,
    ensures
        refresh::due(p, now) <==> at + 60 <= now,
        overdue(p, now) <==> at + 60 <= now,
{
}

/// For each profile that is due, the resolver is asked for its host name, and what it
/// answered is what was found.
pub proof fn law_due_host_is_asked_for<R: NameResolver + ?Sized>(
    resolver: &R,
    active: Seq<ActiveProfileView>,
    findings: Seq<Finding>,
    now: u64,
    r: CycleView,
    i: int,
)
    requires
        refresh::cycled_from(resolver, active, findings, now, r),
        0 <= i < active.len(),
        overdue(active[i], now),
    ensures
        findings[i].jitter <= 15,
        exists|asked: &str, lookup: Result<DnsAnswer, String>| #[trigger]
            call_ensures(R::lookup, (resolver, asked), lookup) && asked@ == active[i].dns->0.host
                && dns::lookup_view(lookup) == findings[i].lookup,
{
    assert(refresh::due(active[i], now));
    let finding = findings[i];
    assert(profile::found_by(resolver, active[i].dns->0.host, finding));
    let (asked, lookup) = choose|asked: &str, lookup: Result<DnsAnswer, String>|
        {
            &&& asked@ == active[i].dns->0.host
            &&& #[trigger] dns::answers(resolver, asked, lookup)
            &&& dns::lookup_view(lookup) == finding.lookup
        };
    assert(call_ensures(R::lookup, (resolver, asked), lookup));
}

/// Behind a switch that failed every profile keeps what it forwards to. One whose
/// destination was to change tells of the failure and is looked up again in 60 seconds;
/// every other one stays as it is.
pub proof fn law_failed_switch_is_told_and_retried(
    before: Seq<ActiveProfileView>,
    after: Seq<ActiveProfileView>,
    error: Seq<char>,
    now: u64,
    i: int,
)
    requires
        0 <= i < before.len(),
        before.len() == after.len(),
    ensures
        ({
            let r = refresh::degraded(before, after, error, now);
            let meant = before[i].dns is Some && after[i].resolved.destination
                != before[i].resolved.destination;
            &&& r.len() == before.len()
            &&& meant ==> kept_with(
                before[i],
                r[i],
                "nft target switch failed: "@ + error,
                now,
            )
            &&& !meant ==> r[i] == before[i]
        }),
{
}

/// What is saved behind a refresh: the time, the statuses of the profiles, and the rest
/// as it was.
pub proof fn law_refresh_saves_only_the_profiles(
    prior: RuntimeStateView,
    active: Seq<ActiveProfileView>,
    now: u64,
)
    ensures
        ({
            let r = refresh::kept_state(prior, active, now);
            &&& r.updated_unix == now
            &&& r.profiles.len() == active.len()
            &&& forall|i: int|
                0 <= i < active.len() ==> #[trigger] r.profiles[i] == profile::status_of(active[i])
            &&& r.schema_version == prior.schema_version
            &&& r.config_version == prior.config_version
            &&& r.nft_rules_version == prior.nft_rules_version
            &&& r.daemon_started_unix == prior.daemon_started_unix
            &&& r.route_localnet_original == prior.route_localnet_original
        }),
{
}

} // verus!
