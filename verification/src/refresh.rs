//! Refreshing the DNS targets of the active profiles.

use vstd::prelude::*;

use crate::address;
use crate::control;
use crate::control::{Note, NoteView};
use crate::dns;
use crate::dns::{DnsAnswer, NameResolver};
use crate::profile;
use crate::profile::{ActiveProfile, ActiveProfileView, Finding, ResolvedProfileView};
use crate::state::{RuntimeState, RuntimeStateView};

verus! {

/// A profile behind a lookup of its host name.
#[derive(Debug, PartialEq, Eq)]
pub struct Refreshed {
    pub profile: ActiveProfile,
    /// The active address changed.
    pub switched: bool,
    /// The event to log.
    pub note: Option<Note>,
}

/// The active profiles behind a refresh of those that were due.
#[derive(Debug, PartialEq, Eq)]
pub struct Cycle {
    pub active: Vec<ActiveProfile>,
    /// An active address changed.
    pub switched: bool,
    /// A lookup was made.
    pub attempted: bool,
    /// The events to log, in order.
    pub notes: Vec<Note>,
}

/// What a refresh asks for.
#[derive(Debug, PartialEq, Eq)]
pub enum Plan {
    /// Nothing was due.
    Idle,
    /// An address changed: the profiles are to be committed.
    Switch { active: Vec<ActiveProfile> },
    /// No address changed: the profiles are to be saved.
    Keep { active: Vec<ActiveProfile> },
}

#[verifier::ext_equal]
pub struct RefreshedView {
    pub profile: ActiveProfileView,
    pub switched: bool,
    pub note: Option<NoteView>,
}

#[verifier::ext_equal]
pub struct CycleView {
    pub active: Seq<ActiveProfileView>,
    pub switched: bool,
    pub attempted: bool,
    pub notes: Seq<NoteView>,
}

#[verifier::ext_equal]
pub enum PlanView {
    Idle,
    Switch { active: Seq<ActiveProfileView> },
    Keep { active: Seq<ActiveProfileView> },
}

impl View for Refreshed {
    type V = RefreshedView;

    open spec fn view(&self) -> RefreshedView {
        RefreshedView {
            profile: self.profile@,
            switched: self.switched,
            note: control::option_note(self.note),
        }
    }
}

impl View for Cycle {
    type V = CycleView;

    open spec fn view(&self) -> CycleView {
        CycleView {
            active: profile::active_views(self.active@),
            switched: self.switched,
            attempted: self.attempted,
            notes: control::note_views(self.notes@),
        }
    }
}

impl View for Plan {
    type V = PlanView;

    open spec fn view(&self) -> PlanView {
        match *self {
            Plan::Idle => PlanView::Idle,
            Plan::Switch { active } => PlanView::Switch { active: profile::active_views(active@) },
            Plan::Keep { active } => PlanView::Keep { active: profile::active_views(active@) },
        }
    }
}

/// The profile has a host name whose refresh is due.
pub open spec fn due(p: ActiveProfileView, now: u64) -> bool {
    match p.dns {
        Some(dns) => match dns.next_refresh_unix {
            Some(at) => at <= now,
            None => true,
        },
        None => false,
    }
}

/// A note of the level.
pub open spec fn note(level: Seq<char>, message: Seq<char>) -> NoteView {
    NoteView { level, message }
}

/// The profile with the DNS state behind a failure; the destination stays.
pub open spec fn set_back(p: ActiveProfileView, reason: Seq<char>, now: u64) -> ActiveProfileView {
    ActiveProfileView { dns: Some(p.dns->0.failed(reason, now)), ..p }
}

/// A profile behind what was found for its host name: an address is taken over, a
/// failure leaves the destination as it is. One without a host name stays.
pub open spec fn refreshed(p: ActiveProfileView, finding: Finding, now: u64) -> RefreshedView {
    match p.dns {
        Some(_) => looked_up(p, finding, now),
        None => RefreshedView { profile: p, switched: false, note: None },
    }
}

/// A profile with a host name behind what was found for it.
pub open spec fn looked_up(p: ActiveProfileView, finding: Finding, now: u64) -> RefreshedView {
    let status = p.dns->0;
    let name = p.resolved.validated.profile.name;
    let family = p.resolved.validated.profile.family;
    match finding.lookup {
        Ok(answer) => if dns::has_candidate(family, answer.addresses) {
            let next = status.accepted(family, answer, now, finding.jitter);
            RefreshedView {
                profile: ActiveProfileView {
                    resolved: ResolvedProfileView {
                        destination: next.active_address,
                        ..p.resolved
                    },
                    dns: Some(next),
                },
                switched: status.active_address != next.active_address,
                note: if status.active_address != next.active_address {
                    Some(
                        note("info"@,
                            "DNS address switched for profile "@ + name + " to "@ + address::shown(
                                next.active_address->0,
                            ),
                        ),
                    )
                } else {
                    None
                },
            }
        } else {
            let reason = dns::no_candidate_text(status.host, family);
            RefreshedView {
                profile: set_back(p, reason, now),
                switched: false,
                note: Some(
                    note("warn"@,
                        "DNS answer rejected for profile "@ + name + ": "@ + reason,
                    ),
                ),
            }
        },
        Err(error) => RefreshedView {
            profile: set_back(p, "DNS refresh failed: "@ + error, now),
            switched: false,
            note: Some(
                note("warn"@, "DNS refresh failed for profile "@ + name + ": "@ + error),
            ),
        },
    }
}

/// The first `findings.len()` profiles behind what was found for those of them that
/// were due.
pub open spec fn cycle(active: Seq<ActiveProfileView>, findings: Seq<Finding>, now: u64) -> CycleView
    decreases findings.len(),
{
    if findings.len() == 0 {
        CycleView {
            active: Seq::empty(),
            switched: false,
            attempted: false,
            notes: Seq::empty(),
        }
    } else {
        let n = findings.len() - 1;
        let front = cycle(active, findings.drop_last(), now);
        if due(active[n], now) {
            let r = refreshed(active[n], findings[n], now);
            CycleView {
                active: front.active.push(r.profile),
                switched: front.switched || r.switched,
                attempted: true,
                notes: match r.note {
                    Some(e) => front.notes.push(e),
                    None => front.notes,
                },
            }
        } else {
            CycleView { active: front.active.push(active[n]), ..front }
        }
    }
}

/// `r` comes of the findings, one for each profile, which may have come from the
/// resolver for those that were due.
pub open spec fn cycled_from<R: NameResolver + ?Sized>(
    resolver: &R,
    active: Seq<ActiveProfileView>,
    findings: Seq<Finding>,
    now: u64,
    r: CycleView,
) -> bool {
    &&& findings.len() == active.len()
    &&& forall|i: int|
        0 <= i < active.len() && due(active[i], now) ==> profile::found_by(
            resolver,
            active[i].dns->0.host,
            #[trigger] findings[i],
        )
    &&& r == cycle(active, findings, now)
}

/// The profile behind the lookup of its host name.
pub fn refresh_profile(
    profile: ActiveProfile,
    lookup: Result<DnsAnswer, String>,
    jitter_seconds: u64,
    now: u64,
) -> (r: Refreshed)
    requires
        now + dns::MAX_REFRESH <= u64::MAX,
    ensures
        r@ == refreshed(
            profile@,
            (Finding { lookup: dns::lookup_view(lookup), jitter: jitter_seconds }),
            now,
        ),
{
    let ActiveProfile { resolved, dns } = profile;
    let mut resolved = resolved;
    let name = resolved.validated.profile.name.clone();
    match dns {
        None => Refreshed {
            profile: ActiveProfile { resolved, dns: None },
            switched: false,
            note: None,
        },
        Some(status) => {
            let mut status = status;
            match lookup {
                Ok(answer) => {
                    let family = resolved.validated.profile.family;
                    match status.accept_answer(family, answer, now, jitter_seconds) {
                        Ok(switched) => {
                            resolved.destination = status.active_address;
                            let note = match status.active_address {
                                Some(ip) => {
                                    if switched {
                                        Some(
                                            Note {
                                                level: "info".to_owned(),
                                                message:
                                                    "DNS address switched for profile ".to_owned().concat(
                                                name.as_str()).concat(" to ").concat(
                                                    ip.to_text().as_str(),
                                                ),
                                            },
                                        )
                                    } else {
                                        None
                                    }
                                },
                                None => None,
                            };
                            Refreshed {
                                profile: ActiveProfile { resolved, dns: Some(status) },
                                switched,
                                note,
                            }
                        },
                        Err(error) => {
                            let message = "DNS answer rejected for profile ".to_owned().concat(
                                name.as_str(),
                            ).concat(": ").concat(error.as_str());
                            status.record_failure(error, now);
                            Refreshed {
                                profile: ActiveProfile { resolved, dns: Some(status) },
                                switched: false,
                                note: Some(
                                    Note {
                                        level: "warn".to_owned(),
                                        message,
                                    },
                                ),
                            }
                        },
                    }
                },
                Err(error) => {
                    let message = "DNS refresh failed for profile ".to_owned().concat(
                        name.as_str(),
                    ).concat(": ").concat(error.as_str());
                    status.record_failure(
                        "DNS refresh failed: ".to_owned().concat(error.as_str()),
                        now,
                    );
                    Refreshed {
                        profile: ActiveProfile { resolved, dns: Some(status) },
                        switched: false,
                        note: Some(
                            Note { level: "warn".to_owned(), message },
                        ),
                    }
                },
            }
        },
    }
}

/// The host whose refresh is due.
fn due_host(profile: &ActiveProfile, now: u64) -> (r: Option<String>)
    ensures
        match r {
            Some(host) => due(profile@, now) && host@ == profile@.dns->0.host,
            None => !due(profile@, now),
        },
{
    match &profile.dns {
        None => None,
        Some(status) => {
            match status.next_refresh_unix {
                Some(at) => {
                    if at > now {
                        return None;
                    }
                },
                None => {},
            }
            Some(status.host.clone())
        },
    }
}

/// Refreshes the profiles that are due.
pub fn refresh_profiles<R: NameResolver + ?Sized>(
    active: &Vec<ActiveProfile>,
    resolver: &R,
    now: u64,
) -> (r: Cycle)
    requires
        now + dns::MAX_REFRESH <= u64::MAX,
    ensures
        exists|findings: Seq<Finding>| #[trigger]
            cycled_from(resolver, profile::active_views(active@), findings, now, r@),
{
    let ghost all = profile::active_views(active@);
    let ghost mut findings: Seq<Finding> = Seq::empty();
    let mut r = Cycle { active: Vec::new(), switched: false, attempted: false, notes: Vec::new() };
    let mut i: usize = 0;
    proof {
        assert(r@ =~= cycle(all, findings, now));
    }
    while i < active.len()
        invariant
            i <= active.len(),
            now + dns::MAX_REFRESH <= u64::MAX,
            all == profile::active_views(active@),
            findings.len() == i,
            forall|k: int|
                0 <= k < i && due(all[k], now) ==> profile::found_by(
                    resolver,
                    all[k].dns->0.host,
                    #[trigger] findings[k],
                ),
            r@ == cycle(all, findings, now),
        decreases active.len() - i,
    {
        let current = active[i].clone();
        let ghost before = r@;
        let ghost mut finding = Finding { lookup: Err(Seq::empty()), jitter: 0 };
        proof {
            assert(all[i as int] == current@);
        }
        match due_host(&current, now) {
            None => {
                let ghost held = r.active@;
                r.active.push(current);
                proof {
                    assert(profile::active_views(r.active@) =~= profile::active_views(held).push(
                        current@,
                    ));
                }
            },
            Some(host) => {
                let asked = host.as_str();
                let lookup = resolver.lookup(asked);
                let jitter = dns::random_jitter_seconds();
                proof {
                    finding = Finding { lookup: dns::lookup_view(lookup), jitter };
                    assert(dns::answers(resolver, asked, lookup));
                    assert(profile::found_by(resolver, all[i as int].dns->0.host, finding));
                }
                let one = refresh_profile(current, lookup, jitter, now);
                let ghost held = r.active@;
                let ghost noted = r.notes@;
                r.active.push(one.profile);
                r.switched = r.switched || one.switched;
                r.attempted = true;
                match one.note {
                    Some(e) => {
                        r.notes.push(e);
                        proof {
                            assert(control::note_views(r.notes@) =~= control::note_views(
                                noted,
                            ).push(e@));
                        }
                    },
                    None => {},
                }
                proof {
                    assert(profile::active_views(r.active@) =~= profile::active_views(held).push(
                        one.profile@,
                    ));
                }
            },
        }
        proof {
            let more = findings.push(finding);
            assert(more.drop_last() =~= findings);
            assert forall|k: int|
                0 <= k < more.len() && due(all[k], now) implies profile::found_by(
                resolver,
                all[k].dns->0.host,
                #[trigger] more[k],
            ) by {
                if k < i {
                    assert(more[k] == findings[k]);
                }
            }
            findings = more;
            assert(r@ =~= cycle(all, findings, now));
        }
        i = i + 1;
    }
    proof {
        assert(cycled_from(resolver, all, findings, now, r@));
    }
    r
}

/// What a refresh asks for.
pub open spec fn planned(c: CycleView) -> PlanView {
    if c.switched {
        PlanView::Switch { active: c.active }
    } else if c.attempted {
        PlanView::Keep { active: c.active }
    } else {
        PlanView::Idle
    }
}

/// What a refresh asks for: a switched target is another full transaction.
pub fn plan(cycle: Cycle) -> (r: Plan)
    ensures
        r@ == planned(cycle@),
{
    if cycle.switched {
        Plan::Switch { active: cycle.active }
    } else if cycle.attempted {
        Plan::Keep { active: cycle.active }
    } else {
        Plan::Idle
    }
}

/// A profile whose switch failed, or one that was not to be switched.
pub open spec fn after_failed_switch(
    old_profile: ActiveProfileView,
    new_profile: ActiveProfileView,
    error: Seq<char>,
    now: u64,
) -> ActiveProfileView {
    if new_profile.resolved.destination != old_profile.resolved.destination
        && old_profile.dns is Some {
        set_back(old_profile, "nft target switch failed: "@ + error, now)
    } else {
        old_profile
    }
}

/// The profiles behind a switch that failed: they keep their destinations, and
/// those that were to be switched tell of the failure.
pub open spec fn degraded(
    before: Seq<ActiveProfileView>,
    after: Seq<ActiveProfileView>,
    error: Seq<char>,
    now: u64,
) -> Seq<ActiveProfileView> {
    Seq::new(
        before.len(),
        |i: int|
            if i < after.len() {
                after_failed_switch(before[i], after[i], error, now)
            } else {
                before[i]
            },
    )
}

/// The profiles behind a switch that failed: they keep their destinations, and
/// those that were to be switched tell of the failure.
pub fn degrade(
    before: Vec<ActiveProfile>,
    after: &Vec<ActiveProfile>,
    error: &str,
    now: u64,
) -> (r: Vec<ActiveProfile>)
    requires
        now + dns::MIN_REFRESH <= u64::MAX,
    ensures
        profile::active_views(r@) == degraded(
            profile::active_views(before@),
            profile::active_views(after@),
            error@,
            now,
        ),
{
    let ghost want = degraded(
        profile::active_views(before@),
        profile::active_views(after@),
        error@,
        now,
    );
    let mut r: Vec<ActiveProfile> = Vec::new();
    let mut i: usize = 0;
    while i < before.len()
        invariant
            i <= before.len(),
            now + dns::MIN_REFRESH <= u64::MAX,
            want == degraded(
                profile::active_views(before@),
                profile::active_views(after@),
                error@,
                now,
            ),
            r@.len() == i,
            forall|j: int| 0 <= j < i ==> (#[trigger] r@[j])@ == want[j],
        decreases before.len() - i,
    {
        let kept = before[i].clone();
        let switched = i < after.len() && after[i].resolved.destination
            != kept.resolved.destination;
        let ActiveProfile { resolved, dns } = kept;
        let dns = match dns {
            Some(status) => {
                let mut status = status;
                if switched {
                    status.record_failure(
                        "nft target switch failed: ".to_owned().concat(error),
                        now,
                    );
                }
                Some(status)
            },
            None => None,
        };
        r.push(ActiveProfile { resolved, dns });
        proof {
            assert(r@[i as int]@ =~= want[i as int]);
        }
        i = i + 1;
    }
    proof {
        assert(profile::active_views(r@) =~= want);
    }
    r
}

/// The state behind a refresh that switched nothing.
pub open spec fn kept_state(
    prior: RuntimeStateView,
    active: Seq<ActiveProfileView>,
    now: u64,
) -> RuntimeStateView {
    RuntimeStateView { updated_unix: now, profiles: profile::statuses(active), ..prior }
}

/// The state behind a refresh that switched nothing.
pub fn refreshed_state(prior: &RuntimeState, active: &Vec<ActiveProfile>, now: u64) -> (r:
    RuntimeState)
    ensures
        r@ == kept_state(prior@, profile::active_views(active@), now),
{
    let mut next = prior.clone();
    next.updated_unix = now;
    next.profiles = profile::profile_statuses(active);
    next
}

} // verus!
