//! The daemon's data: what is in force, what is answered to a client, and how a
//! reload begins.

use std::collections::VecDeque;

use vstd::prelude::*;

use crate::commit;
use crate::commit::{Commit, CommitView, Outcome, Reported, Step, StepView};
use crate::config;
use crate::config::{Config, ConfigView, ValidatedProfile};
use crate::control;
use crate::control::{LogEvent, LogEventView, Request, Response, ResponseView};
use crate::dns;
use crate::dns::NameResolver;
use crate::profile;
use crate::profile::{ActiveProfile, ActiveProfileView, Finding};
use crate::refresh;
use crate::refresh::{Cycle, Plan};
use crate::state;
use crate::state::{LoadFailure, RuntimeState, RuntimeStateView};

verus! {

/// The most events that the daemon keeps.
pub const MAX_LOG_EVENTS: usize = 256;

/// The files of the daemon.
#[derive(Debug, PartialEq, Eq)]
pub struct DaemonPaths {
    pub config: String,
    pub socket: String,
    pub state: String,
}

impl Clone for DaemonPaths {
    fn clone(&self) -> (r: Self)
        ensures
            r == *self,
    {
        DaemonPaths {
            config: self.config.clone(),
            socket: self.socket.clone(),
            state: self.state.clone(),
        }
    }
}

impl DaemonPaths {
    /// The files of an installed daemon.
    #[must_use]
    pub fn defaults() -> (r: Self)
        ensures
            r.config@ == crate::DEFAULT_CONFIG_PATH@,
            r.socket@ == crate::DEFAULT_SOCKET_PATH@,
            r.state@ == crate::DEFAULT_STATE_PATH@,
    {
        DaemonPaths {
            config: crate::DEFAULT_CONFIG_PATH.to_owned(),
            socket: crate::DEFAULT_SOCKET_PATH.to_owned(),
            state: crate::DEFAULT_STATE_PATH.to_owned(),
        }
    }
}

/// What the daemon holds in memory.
#[derive(Debug)]
pub struct DaemonData {
    pub state: RuntimeState,
    pub active: Vec<ActiveProfile>,
    pub logs: VecDeque<LogEvent>,
    /// The configuration in force allows coexistence with external chains.
    pub allow_external_chains: bool,
}

#[verifier::ext_equal]
pub struct DaemonDataView {
    pub state: RuntimeStateView,
    pub active: Seq<ActiveProfileView>,
    pub logs: Seq<LogEventView>,
    pub allow_external_chains: bool,
}

impl View for DaemonData {
    type V = DaemonDataView;

    open spec fn view(&self) -> DaemonDataView {
        DaemonDataView {
            state: self.state@,
            active: profile::active_views(self.active@),
            logs: control::event_views(self.logs@),
            allow_external_chains: self.allow_external_chains,
        }
    }
}

/// The events with one more; where there are as many as are kept, the oldest goes.
pub open spec fn logged(logs: Seq<LogEventView>, e: LogEventView) -> Seq<LogEventView> {
    if logs.len() == MAX_LOG_EVENTS {
        logs.drop_first().push(e)
    } else {
        logs.push(e)
    }
}

/// The events with more of them, one behind the other.
pub open spec fn logged_all(logs: Seq<LogEventView>, notes: Seq<LogEventView>) -> Seq<LogEventView>
    decreases notes.len(),
{
    if notes.len() == 0 {
        logs
    } else {
        logged(logged_all(logs, notes.drop_last()), notes.last())
    }
}

impl DaemonDataView {
    /// The data of a daemon that starts with `state`.
    pub open spec fn start(state: RuntimeStateView) -> DaemonDataView {
        DaemonDataView {
            state,
            active: Seq::empty(),
            logs: Seq::empty(),
            allow_external_chains: false,
        }
    }

    /// The data with an event logged, where there is one.
    pub open spec fn noting(self, e: Option<LogEventView>) -> DaemonDataView {
        match e {
            Some(e) => DaemonDataView { logs: logged(self.logs, e), ..self },
            None => self,
        }
    }

    /// The data with events logged, one behind the other.
    pub open spec fn noting_all(self, events: Seq<LogEventView>) -> DaemonDataView {
        DaemonDataView { logs: logged_all(self.logs, events), ..self }
    }

    /// The data with what a transaction puts in force: the state to save and the
    /// candidates, once the state file was written or could not be written.
    pub open spec fn committing(self, commit: CommitView) -> DaemonDataView {
        match commit.step {
            StepView::Save { next } => DaemonDataView {
                state: next,
                active: commit.candidates,
                allow_external_chains: commit.allow_external_chains,
                ..self
            },
            _ => self,
        }
    }
}

impl DaemonData {
    /// The data of a daemon that starts with `state`.
    #[must_use]
    pub fn new(state: RuntimeState) -> (r: Self)
        ensures
            r@ == DaemonDataView::start(state@),
    {
        let r = DaemonData {
            state,
            active: Vec::new(),
            logs: VecDeque::new(),
            allow_external_chains: false,
        };
        proof {
            assert(r@ =~= DaemonDataView::start(state@));
        }
        r
    }

    /// Keeps an event.
    pub fn log(&mut self, event: LogEvent)
        ensures
            final(self)@ == old(self)@.noting(Some(event@)),
    {
        let ghost before = self.logs@;
        if self.logs.len() == MAX_LOG_EVENTS {
            let _ = self.logs.pop_front();
        }
        self.logs.push_back(event);
        proof {
            assert(control::event_views(self.logs@) =~= logged(
                control::event_views(before),
                event@,
            ));
        }
    }

    /// Keeps events, one behind the other.
    fn log_all(&mut self, events: &Vec<LogEvent>)
        ensures
            final(self)@ == old(self)@.noting_all(control::event_views(events@)),
    {
        let ghost start = self@;
        let ghost all = control::event_views(events@);
        let mut i: usize = 0;
        proof {
            assert(all.take(0) =~= Seq::empty());
        }
        while i < events.len()
            invariant
                i <= events.len(),
                all == control::event_views(events@),
                self@ == start.noting_all(all.take(i as int)),
            decreases events.len() - i,
        {
            proof {
                assert(all.take(i + 1).drop_last() =~= all.take(i as int));
                assert(all.take(i + 1).last() == events@[i as int]@);
            }
            self.log(events[i].clone());
            i = i + 1;
        }
        proof {
            assert(all.take(all.len() as int) =~= all);
        }
    }

    /// Takes the outcome of a transaction's step: the transaction goes on, an event
    /// is kept and returned where there is one, and what the transaction put in
    /// force replaces the state and the active profiles.
    pub fn advance(&mut self, commit: &mut Commit, outcome: Outcome, now: u64) -> (r: Option<
        LogEvent,
    >)
        ensures
            final(commit)@ == old(commit)@.after(outcome@, now),
            control::option_event(r) == old(commit)@.note(outcome@, now),
            final(self)@ == old(self)@.committing(old(commit)@).noting(
                old(commit)@.note(outcome@, now),
            ),
    {
        match &commit.step {
            Step::Save { next } => {
                self.state = next.clone();
                self.active = profile::clone_active(&commit.candidates);
                self.allow_external_chains = commit.allow_external_chains;
            },
            _ => {},
        }
        let note = commit.advance(outcome, now);
        match &note {
            Some(event) => {
                self.log(event.clone());
            },
            None => {},
        }
        note
    }

    /// Puts in force what a refresh without a switch has saved.
    pub fn adopt(&mut self, active: Vec<ActiveProfile>, next: RuntimeState)
        ensures
            final(self)@ == (DaemonDataView {
                state: next@,
                active: profile::active_views(active@),
                ..old(self)@
            }),
    {
        self.active = active;
        self.state = next;
    }
}

/// The data behind a number of outcomes of a transaction.
pub open spec fn run_data(d: DaemonDataView, c: CommitView, reports: Seq<Reported>) -> DaemonDataView
    decreases reports.len(),
{
    if reports.len() == 0 {
        d
    } else {
        let before = commit::run(c, reports.drop_last());
        run_data(d, c, reports.drop_last()).committing(before).noting(
            before.note(reports.last().outcome, reports.last().now),
        )
    }
}

/// The state that a daemon starts with, and the line that it prints where the state
/// file is ignored.
pub fn initial_state(loaded: Result<RuntimeState, LoadFailure>, now: u64) -> (r: (
    RuntimeState,
    Option<String>,
))
    ensures
        match loaded {
            Ok(state) => r.0 == state && r.1 is None,
            Err(failure) => r.0@ == RuntimeStateView::empty(now) && if failure.not_found {
                r.1 is None
            } else {
                r.1 matches Some(line) && line@ == "port-forwardd: state cache ignored: "@
                    + failure.reason@
            },
        },
{
    match state::load_optional(loaded, now) {
        Ok(state) => (state, None),
        Err(error) => (
            RuntimeState::empty(now),
            Some("port-forwardd: state cache ignored: ".to_owned().concat(error.as_str())),
        ),
    }
}

// Reloading.

/// What keeps a reload from going on to the host names: the file cannot be read, it
/// is not a configuration, each told with its cause, or it cannot be deployed.
pub open spec fn reload_fault(
    path: Seq<char>,
    content: Result<Result<Config, String>, String>,
) -> Option<Seq<char>> {
    match content {
        Err(reason) => Some(
            "cannot read configuration "@ + path + ": "@ + reason@ + ": "@ + reason@,
        ),
        Ok(Err(reason)) => Some("invalid TOML: "@ + reason@ + ": "@ + reason@),
        Ok(Ok(config)) => match config::deployable_fault(config@) {
            Some(f) => Some("configuration error: "@ + config::fault_text(f)),
            None => None,
        },
    }
}

/// Takes the outcome of reading the configuration file at `path` and of parsing what
/// was read; a configuration that can be deployed is returned with its profiles.
fn load_deployable(path: &str, content: Result<Result<Config, String>, String>) -> (r: Result<
    (bool, Vec<ValidatedProfile>),
    String,
>)
    ensures
        match reload_fault(path@, content) {
            Some(text) => r matches Err(e) && e@ == text,
            None => r matches Ok(v) && v.0 == content->Ok_0->Ok_0.allow_external_chains
                && config::validated_views(v.1@) == config::all_normalized(
                content->Ok_0->Ok_0@.profiles,
            ),
        },
{
    let config = match Config::from_path(path, content) {
        Ok(config) => config,
        Err(e) => {
            return Err(e.chain());
        },
    };
    match config.validate_deployable() {
        Ok(profiles) => Ok((config.allow_external_chains, profiles)),
        Err(e) => Err(e.chain()),
    }
}

/// The model of a transaction or of the text of a failure.
pub open spec fn commit_view(r: Result<Commit, String>) -> Result<CommitView, Seq<char>> {
    match r {
        Ok(c) => Ok(c@),
        Err(e) => Err(e@),
    }
}

/// The transaction that puts the profiles in force, or the text of the failure to
/// build them.
pub open spec fn begun(
    candidates: Result<Seq<ActiveProfileView>, Seq<char>>,
    prior: RuntimeStateView,
    reason: Seq<char>,
    allow_external_chains: bool,
) -> Result<CommitView, Seq<char>> {
    match candidates {
        Ok(candidates) => Ok(
            CommitView::start(candidates, prior, reason, allow_external_chains),
        ),
        Err(e) => Err(e),
    }
}

/// `r` is the reload of `config` with what the resolver may have found.
pub open spec fn reloads_with<R: NameResolver + ?Sized>(
    resolver: &R,
    config: ConfigView,
    prior: RuntimeStateView,
    reason: Seq<char>,
    findings: Seq<Finding>,
    now: u64,
    r: Result<CommitView, Seq<char>>,
) -> bool {
    let vs = config::all_normalized(config.profiles);
    let candidates = profile::built(vs, prior, findings, now);
    &&& profile::built_from(resolver, vs, prior, findings, now, candidates)
    &&& r == begun(candidates, prior, reason, config.allow_external_chains)
}

impl DaemonData {
    /// Begins a reload: takes the outcome of reading the configuration file at `path`
    /// and of parsing what was read, checks that the configuration can be deployed,
    /// resolves the host names, and returns the transaction that puts the profiles
    /// in force. Each profile that took a cached address is kept as a warning, and a
    /// host name that refuses the reload as an error. The events are returned in front
    /// of the transaction; nothing else is changed.
    pub fn begin_reload<R: NameResolver + ?Sized>(
        &mut self,
        path: &str,
        content: Result<Result<Config, String>, String>,
        resolver: &R,
        reason: &str,
        now: u64,
    ) -> (r: (Vec<LogEvent>, Result<Commit, String>))
        requires
            now + dns::MAX_REFRESH <= u64::MAX,
        ensures
            match reload_fault(path@, content) {
                Some(text) => r.1 matches Err(e) && e@ == text,
                None => exists|findings: Seq<Finding>| #[trigger]
                    reloads_with(
                        resolver,
                        content->Ok_0->Ok_0@,
                        old(self)@.state,
                        reason@,
                        findings,
                        now,
                        commit_view(r.1),
                    ),
            },
            match r.1 {
                Ok(commit) => {
                    let events = control::events_at(profile::fallbacks(commit@.candidates), now);
                    &&& control::event_views(r.0@) == events
                    &&& final(self)@ == old(self)@.noting_all(events)
                },
                Err(e) => if reload_fault(path@, content) is None {
                    let event = commit::reload_failure(reason@, e@, now);
                    &&& control::event_views(r.0@) == seq![event]
                    &&& final(self)@ == old(self)@.noting(Some(event))
                } else {
                    &&& r.0@.len() == 0
                    &&& final(self)@ == old(self)@
                },
            },
    {
        let (allow_external_chains, validated) = match load_deployable(path, content) {
            Ok(v) => v,
            Err(e) => {
                return (Vec::new(), Err(e));
            },
        };
        let ghost config = content->Ok_0->Ok_0@;
        let ghost vs = config::validated_views(validated@);
        let ghost prior = self@.state;
        let built = profile::build_active_profiles(validated, &self.state, resolver, now);
        let ghost findings = choose|findings: Seq<Finding>| #[trigger]
            profile::built_from(resolver, vs, prior, findings, now, profile::build_view(built));
        let r = match built {
            Ok(candidates) => {
                let events = control::stamp(&profile::cache_fallbacks(&candidates), now);
                let commit = Commit::new(
                    candidates,
                    self.state.clone(),
                    reason.to_owned(),
                    allow_external_chains,
                );
                self.log_all(&events);
                (events, Ok(commit))
            },
            Err(e) => {
                let event = commit::failed_reload(reason, e.as_str(), now);
                self.log(event.clone());
                let events = vec![event];
                proof {
                    assert(control::event_views(events@) =~= seq![event@]);
                }
                (events, Err(e))
            },
        };
        proof {
            assert(reloads_with(
                resolver,
                config,
                prior,
                reason@,
                findings,
                now,
                commit_view(r.1),
            ));
        }
        r
    }
}

// Refreshing.

impl DaemonData {
    /// Refreshes the profiles that are due, as of the time `now`. The data stays as it
    /// is.
    #[must_use]
    pub fn begin_refresh<R: NameResolver + ?Sized>(&self, resolver: &R, now: u64) -> (r: Cycle)
        requires
            now + dns::MAX_REFRESH <= u64::MAX,
        ensures
            exists|findings: Seq<Finding>| #[trigger]
                refresh::cycled_from(resolver, self@.active, findings, now, r@),
    {
        let r = refresh::refresh_profiles(&self.active, resolver, now);
        proof {
            let findings = choose|findings: Seq<Finding>| #[trigger]
                refresh::cycled_from(
                    resolver,
                    profile::active_views(self.active@),
                    findings,
                    now,
                    r@,
                );
            assert(refresh::cycled_from(resolver, self@.active, findings, now, r@));
        }
        r
    }

    /// Takes the profiles behind a refresh: keeps its events, which get the time `now`,
    /// and returns them with what is to be done. The state and the active profiles stay
    /// as they are.
    pub fn settle_refresh(&mut self, cycle: Cycle, now: u64) -> (r: (Plan, Vec<LogEvent>))
        ensures
            r.0@ == refresh::planned(cycle@),
            control::event_views(r.1@) == control::events_at(cycle@.notes, now),
            final(self)@ == old(self)@.noting_all(control::events_at(cycle@.notes, now)),
    {
        let events = control::stamp(&cycle.notes, now);
        self.log_all(&events);
        (refresh::plan(cycle), events)
    }

    /// The transaction that switches DNS targets.
    #[must_use]
    pub fn begin_switch(&self, active: Vec<ActiveProfile>) -> (r: Commit)
        ensures
            r@ == CommitView::start(
                profile::active_views(active@),
                self@.state,
                "DNS target switch"@,
                self@.allow_external_chains,
            ),
    {
        Commit::new(
            active,
            self.state.clone(),
            "DNS target switch".to_owned(),
            self.allow_external_chains,
        )
    }
}

/// What is saved behind a switch that failed: `before` with the failure told by the
/// profiles that were to be switched, and the state of it. The failure counts from
/// `began`, the time at which the refresh began; the state is of the time `now`.
pub fn give_up_switch(
    before: Vec<ActiveProfile>,
    commit: &Commit,
    error: &str,
    began: u64,
    now: u64,
) -> (r: (Vec<ActiveProfile>, RuntimeState))
    requires
        began + dns::MIN_REFRESH <= u64::MAX,
    ensures
        profile::active_views(r.0@) == refresh::degraded(
            profile::active_views(before@),
            commit@.candidates,
            error@,
            began,
        ),
        r.1@ == refresh::kept_state(commit@.prior, profile::active_views(r.0@), now),
{
    let degraded = refresh::degrade(before, &commit.candidates, error, began);
    let next = refresh::refreshed_state(&commit.prior, &degraded, now);
    (degraded, next)
}

// Answering clients.

/// What the daemon does about a request.
#[derive(Debug, PartialEq, Eq)]
pub enum Reaction {
    /// Reload the configuration.
    Reload,
    /// Send the response.
    Reply { response: Response },
}

impl DaemonData {
    /// Turns away a peer that is not root: the response to it, where its request is not
    /// to be read, and an event of that. A peer whose user is not known is let in.
    pub fn turn_away(&mut self, uid: Option<u32>, now: u64) -> (r: Option<Response>)
        ensures
            uid matches Some(n) && n != 0 ==> (r matches Some(response) && response@
                == ResponseView::plain(false, "control socket accepts root peers only"@)
                && final(self)@ == old(self)@.noting(
                Some(
                    LogEventView {
                        timestamp_unix: now,
                        level: "warn"@,
                        message: "rejected non-root Unix socket peer"@,
                    },
                ),
            )),
            !(uid matches Some(n) && n != 0) ==> r is None && final(self)@ == old(self)@,
    {
        match uid {
            Some(n) => {
                if n != 0 {
                    self.log(
                        LogEvent {
                            timestamp_unix: now,
                            level: "warn".to_owned(),
                            message: "rejected non-root Unix socket peer".to_owned(),
                        },
                    );
                    Some(Response::failure("control socket accepts root peers only".to_owned()))
                } else {
                    None
                }
            },
            None => None,
        }
    }
}

/// The response to a reload that was asked for.
#[must_use]
pub fn apply_response(outcome: Result<(), String>) -> (r: Response)
    ensures
        r@ == match outcome {
            Ok(_) => ResponseView::plain(true, "full reload applied"@),
            Err(error) => ResponseView::plain(
                false,
                "full reload rejected; existing rules retained: "@ + error@,
            ),
        },
{
    match outcome {
        Ok(_) => Response::success("full reload applied".to_owned()),
        Err(error) => Response::failure(
            "full reload rejected; existing rules retained: ".to_owned().concat(error.as_str()),
        ),
    }
}

impl DaemonDataView {
    /// The response that tells of the state.
    pub open spec fn status_response(self) -> ResponseView {
        ResponseView { ok: true, message: "ok"@, state: Some(self.state), logs: None }
    }

    /// The response that tells of the events.
    pub open spec fn logs_response(self) -> ResponseView {
        ResponseView {
            ok: true,
            message: "in-memory daemon event stream; durable logs are journald/syslog"@,
            state: None,
            logs: Some(self.logs),
        }
    }
}

impl DaemonData {
    /// What the daemon does about what it received: a request, or the text of the
    /// failure to receive one.
    #[must_use]
    pub fn react(&self, received: Result<Request, String>) -> (r: Reaction)
        ensures
            match received {
                Ok(Request::Apply) => r is Reload,
                Ok(Request::Status) => r matches Reaction::Reply { response } && response@
                    == self@.status_response(),
                Ok(Request::Logs) => r matches Reaction::Reply { response } && response@
                    == self@.logs_response(),
                Err(error) => r matches Reaction::Reply { response } && response@
                    == ResponseView::plain(false, error@),
            },
    {
        match received {
            Ok(Request::Apply) => Reaction::Reload,
            Ok(Request::Status) => Reaction::Reply {
                response: Response {
                    ok: true,
                    message: "ok".to_owned(),
                    state: Some(self.state.clone()),
                    logs: None,
                },
            },
            Ok(Request::Logs) => {
                let mut logs: Vec<LogEvent> = Vec::new();
                let mut i: usize = 0;
                while i < self.logs.len()
                    invariant
                        i <= self.logs@.len(),
                        logs@.len() == i,
                        forall|j: int| 0 <= j < i ==> #[trigger] logs@[j] == self.logs@[j],
                    decreases self.logs@.len() - i,
                {
                    logs.push(self.logs[i].clone());
                    i = i + 1;
                }
                proof {
                    assert(control::event_views(logs@) =~= self@.logs);
                }
                Reaction::Reply {
                    response: Response {
                        ok: true,
                        message:
                            "in-memory daemon event stream; durable logs are journald/syslog".to_owned(),
                        state: None,
                        logs: Some(logs),
                    },
                }
            },
            Err(error) => Reaction::Reply { response: Response::failure(error) },
        }
    }
}

} // verus!
