//! The transaction that puts candidate profiles in force.
//!
//! A [`Commit`] says which step comes next; whoever performs it hands the outcome
//! back. Nothing is changed on the host before the read-only steps have all passed.

use vstd::prelude::*;

use crate::control;
use crate::control::{LogEvent, LogEventView};
use crate::nft;
use crate::nft::OwnTables;
use crate::profile;
use crate::profile::{ActiveProfile, ActiveProfileView};
use crate::settings;
use crate::settings::{AdjustmentView, OriginalValues, RouteLocalnetAdjustment};
use crate::state::{RuntimeState, RuntimeStateView};

verus! {

/// What is to be done next.
#[derive(Debug, PartialEq, Eq)]
pub enum Step {
    /// Look for conflicting hooks of external nftables chains.
    CheckHooks,
    /// Inspect the network for the candidates.
    Preflight,
    /// Ask nftables which of our own tables exist.
    ListTables { adjusted: Vec<RouteLocalnetAdjustment> },
    /// Let nftables check the batch without applying it.
    CheckBatch { adjusted: Vec<RouteLocalnetAdjustment>, batch: String },
    /// Enable `route_localnet` on the interfaces.
    Enable { adjusted: Vec<RouteLocalnetAdjustment>, batch: String },
    /// Apply the batch, the one that was checked.
    Apply { adjusted: Vec<RouteLocalnetAdjustment>, batch: String },
    /// Put back the values that were newly changed for a batch that failed.
    RollBack { fresh: Vec<RouteLocalnetAdjustment>, error: String },
    /// Put back the values of interfaces that are no longer adjusted.
    RestoreStale { adjusted: Vec<RouteLocalnetAdjustment>, stale: OriginalValues },
    /// Write the state file.
    Save { next: RuntimeState },
    /// Nothing: the transaction is over.
    Finished { outcome: Result<(), String> },
}

/// How a step went.
#[derive(Debug, PartialEq, Eq)]
pub enum Outcome {
    /// The step passed.
    Done,
    /// The inspection passed and asks for these adjustments.
    Inspected { adjustments: Vec<RouteLocalnetAdjustment> },
    /// These of our own tables exist.
    Listed { own: OwnTables },
    /// The step failed, with the text of the failure.
    Failed { error: String },
}

/// A transaction under way.
#[derive(Debug, PartialEq, Eq)]
pub struct Commit {
    pub candidates: Vec<ActiveProfile>,
    pub prior: RuntimeState,
    pub reason: String,
    /// The candidates allow coexistence with external chains.
    pub allow_external_chains: bool,
    pub step: Step,
}

#[verifier::ext_equal]
pub enum StepView {
    CheckHooks,
    Preflight,
    ListTables { adjusted: Seq<AdjustmentView> },
    CheckBatch { adjusted: Seq<AdjustmentView>, batch: Seq<char> },
    Enable { adjusted: Seq<AdjustmentView>, batch: Seq<char> },
    Apply { adjusted: Seq<AdjustmentView>, batch: Seq<char> },
    RollBack { fresh: Seq<AdjustmentView>, error: Seq<char> },
    RestoreStale { adjusted: Seq<AdjustmentView>, stale: Map<Seq<char>, bool> },
    Save { next: RuntimeStateView },
    Finished { outcome: Result<(), Seq<char>> },
}

#[verifier::ext_equal]
pub enum OutcomeView {
    Done,
    Inspected { adjustments: Seq<AdjustmentView> },
    Listed { own: OwnTables },
    Failed { error: Seq<char> },
}

#[verifier::ext_equal]
pub struct CommitView {
    pub candidates: Seq<ActiveProfileView>,
    pub prior: RuntimeStateView,
    pub reason: Seq<char>,
    pub allow_external_chains: bool,
    pub step: StepView,
}

/// The model of a result without a value.
pub open spec fn plain_outcome(r: Result<(), String>) -> Result<(), Seq<char>> {
    match r {
        Ok(_) => Ok(()),
        Err(e) => Err(e@),
    }
}

impl View for Step {
    type V = StepView;

    open spec fn view(&self) -> StepView {
        match *self {
            Step::CheckHooks => StepView::CheckHooks,
            Step::Preflight => StepView::Preflight,
            Step::ListTables { adjusted } => StepView::ListTables {
                adjusted: settings::adjustment_views(adjusted@),
            },
            Step::CheckBatch { adjusted, batch } => StepView::CheckBatch {
                adjusted: settings::adjustment_views(adjusted@),
                batch: batch@,
            },
            Step::Enable { adjusted, batch } => StepView::Enable {
                adjusted: settings::adjustment_views(adjusted@),
                batch: batch@,
            },
            Step::Apply { adjusted, batch } => StepView::Apply {
                adjusted: settings::adjustment_views(adjusted@),
                batch: batch@,
            },
            Step::RollBack { fresh, error } => StepView::RollBack {
                fresh: settings::adjustment_views(fresh@),
                error: error@,
            },
            Step::RestoreStale { adjusted, stale } => StepView::RestoreStale {
                adjusted: settings::adjustment_views(adjusted@),
                stale: stale@,
            },
            Step::Save { next } => StepView::Save { next: next@ },
            Step::Finished { outcome } => StepView::Finished { outcome: plain_outcome(outcome) },
        }
    }
}

impl View for Outcome {
    type V = OutcomeView;

    open spec fn view(&self) -> OutcomeView {
        match *self {
            Outcome::Done => OutcomeView::Done,
            Outcome::Inspected { adjustments } => OutcomeView::Inspected {
                adjustments: settings::adjustment_views(adjustments@),
            },
            Outcome::Listed { own } => OutcomeView::Listed { own },
            Outcome::Failed { error } => OutcomeView::Failed { error: error@ },
        }
    }
}

impl View for Commit {
    type V = CommitView;

    open spec fn view(&self) -> CommitView {
        CommitView {
            candidates: profile::active_views(self.candidates@),
            prior: self.prior@,
            reason: self.reason@,
            allow_external_chains: self.allow_external_chains,
            step: self.step@,
        }
    }
}

/// `n` plus one, or `n` where that is the largest number.
pub open spec fn counted_up(n: u64) -> u64 {
    if n < u64::MAX {
        (n + 1) as u64
    } else {
        n
    }
}

/// The state behind a transaction.
pub open spec fn committed_state(
    prior: RuntimeStateView,
    candidates: Seq<ActiveProfileView>,
    adjusted: Seq<AdjustmentView>,
    now: u64,
) -> RuntimeStateView {
    RuntimeStateView {
        schema_version: 1,
        config_version: counted_up(prior.config_version),
        nft_rules_version: counted_up(prior.nft_rules_version),
        daemon_started_unix: if prior.daemon_started_unix == 0 {
            now
        } else {
            prior.daemon_started_unix
        },
        updated_unix: now,
        profiles: profile::statuses(candidates),
        route_localnet_original: settings::adjustment_map(adjusted),
    }
}

/// The state behind a transaction.
pub fn next_state(
    prior: &RuntimeState,
    candidates: &Vec<ActiveProfile>,
    adjusted: &Vec<RouteLocalnetAdjustment>,
    now: u64,
) -> (r: RuntimeState)
    ensures
        r@ == committed_state(
            prior@,
            profile::active_views(candidates@),
            settings::adjustment_views(adjusted@),
            now,
        ),
{
    RuntimeState {
        schema_version: 1,
        config_version: prior.config_version.saturating_add(1),
        nft_rules_version: prior.nft_rules_version.saturating_add(1),
        daemon_started_unix: if prior.daemon_started_unix == 0 {
            now
        } else {
            prior.daemon_started_unix
        },
        updated_unix: now,
        profiles: profile::profile_statuses(candidates),
        route_localnet_original: settings::remembered(adjusted),
    }
}

impl StepView {
    /// The step can go in the way that the outcome tells.
    pub open spec fn fits(self, outcome: OutcomeView) -> bool {
        match self {
            StepView::Finished { .. } => false,
            StepView::Preflight => outcome is Inspected || outcome is Failed,
            StepView::ListTables { .. } => outcome is Listed || outcome is Failed,
            _ => outcome is Done || outcome is Failed,
        }
    }

    /// The step changes something on the host.
    pub open spec fn changes_host(self) -> bool {
        match self {
            StepView::CheckHooks | StepView::Preflight | StepView::ListTables { .. }
            | StepView::CheckBatch { .. } | StepView::Finished { .. } => false,
            _ => true,
        }
    }
}

/// The text of a failure of `step`.
pub open spec fn failure_text(step: StepView, error: Seq<char>) -> Seq<char> {
    match step {
        StepView::CheckHooks => "nft hook conflict preflight: "@ + error,
        StepView::Preflight => "network preflight: "@ + error,
        _ => error,
    }
}

/// The event that tells of a reload that failed.
pub open spec fn reload_failure(reason: Seq<char>, error: Seq<char>, now: u64) -> LogEventView {
    LogEventView {
        timestamp_unix: now,
        level: "error"@,
        message: "configuration reload failed ("@ + reason + "): "@ + error,
    }
}

/// The event that tells of a reload that failed.
#[must_use]
pub fn failed_reload(reason: &str, error: &str, now: u64) -> (r: LogEvent)
    ensures
        r@ == reload_failure(reason@, error@, now),
{
    LogEvent {
        timestamp_unix: now,
        level: "error".to_owned(),
        message: "configuration reload failed (".to_owned().concat(reason).concat("): ").concat(
            error,
        ),
    }
}

/// The step that ends the transaction with a failure of `step`.
pub open spec fn ended(step: StepView, error: Seq<char>) -> StepView {
    StepView::Finished { outcome: Err(failure_text(step, error)) }
}

/// The step behind an outcome of `step`: the batch is made once, of the candidates and
/// of the tables that exist, and goes through the check on to its application.
pub open spec fn step_after(
    prior: RuntimeStateView,
    candidates: Seq<ActiveProfileView>,
    step: StepView,
    outcome: OutcomeView,
    now: u64,
) -> StepView {
    let known = prior.route_localnet_original;
    match step {
        StepView::CheckHooks => match outcome {
            OutcomeView::Failed { error } => ended(step, error),
            _ => StepView::Preflight,
        },
        StepView::Preflight => match outcome {
            OutcomeView::Failed { error } => ended(step, error),
            OutcomeView::Inspected { adjustments } => StepView::ListTables {
                adjusted: settings::merged(adjustments, known),
            },
            _ => step,
        },
        StepView::ListTables { adjusted } => match outcome {
            OutcomeView::Failed { error } => ended(step, error),
            OutcomeView::Listed { own } => StepView::CheckBatch {
                adjusted,
                batch: nft::batch(profile::resolved_of(candidates), own),
            },
            _ => step,
        },
        StepView::CheckBatch { adjusted, batch } => match outcome {
            OutcomeView::Failed { error } => ended(step, error),
            _ => StepView::Enable { adjusted, batch },
        },
        StepView::Enable { adjusted, batch } => match outcome {
            OutcomeView::Failed { error } => ended(step, error),
            _ => StepView::Apply { adjusted, batch },
        },
        StepView::Apply { adjusted, batch } => match outcome {
            OutcomeView::Failed { error } => StepView::RollBack {
                fresh: settings::fresh(adjusted, known),
                error,
            },
            _ => StepView::RestoreStale { adjusted, stale: settings::stale(known, adjusted) },
        },
        StepView::RollBack { fresh, error } => StepView::Finished { outcome: Err(error) },
        StepView::RestoreStale { adjusted, stale } => StepView::Save {
            next: committed_state(prior, candidates, adjusted, now),
        },
        StepView::Save { next } => match outcome {
            OutcomeView::Failed { error } => StepView::Finished { outcome: Err(error) },
            _ => StepView::Finished { outcome: Ok(()) },
        },
        StepView::Finished { .. } => step,
    }
}

impl CommitView {
    /// The transaction at its start; the hooks are looked at unless coexistence with
    /// external chains is allowed.
    pub open spec fn start(
        candidates: Seq<ActiveProfileView>,
        prior: RuntimeStateView,
        reason: Seq<char>,
        allow_external_chains: bool,
    ) -> CommitView {
        CommitView {
            candidates,
            prior,
            reason,
            allow_external_chains,
            step: if allow_external_chains {
                StepView::Preflight
            } else {
                StepView::CheckHooks
            },
        }
    }

    /// The transaction behind an outcome of the present step.
    pub open spec fn after(self, outcome: OutcomeView, now: u64) -> CommitView {
        CommitView {
            step: step_after(self.prior, self.candidates, self.step, outcome, now),
            ..self
        }
    }

    /// The event that is logged for an outcome of the present step: one for a failed
    /// check, a batch that failed and a restoration that failed, and one for a
    /// transaction that was committed.
    pub open spec fn note(self, outcome: OutcomeView, now: u64) -> Option<LogEventView> {
        match (self.step, outcome) {
            (
                StepView::CheckHooks | StepView::Preflight | StepView::ListTables { .. }
                | StepView::CheckBatch { .. } | StepView::Apply { .. },
                OutcomeView::Failed { error },
            ) => Some(reload_failure(self.reason, failure_text(self.step, error), now)),
            (StepView::RestoreStale { .. }, OutcomeView::Failed { error }) => Some(
                LogEventView {
                    timestamp_unix: now,
                    level: "error"@,
                    message:
                        "nft commit succeeded but stale route_localnet restoration failed: "@
                        + error,
                },
            ),
            (StepView::Save { .. }, OutcomeView::Done) => Some(
                LogEventView {
                    timestamp_unix: now,
                    level: "info"@,
                    message: "configuration reload committed ("@ + self.reason + ")"@,
                },
            ),
            _ => None,
        }
    }
}

/// An outcome and the time at which it was handed back.
pub struct Reported {
    pub outcome: OutcomeView,
    pub now: u64,
}

/// The transaction behind a number of outcomes.
pub open spec fn run(c: CommitView, reports: Seq<Reported>) -> CommitView
    decreases reports.len(),
{
    if reports.len() == 0 {
        c
    } else {
        run(c, reports.drop_last()).after(reports.last().outcome, reports.last().now)
    }
}

/// Each outcome is one that the step at hand can have.
pub open spec fn fitting(c: CommitView, reports: Seq<Reported>) -> bool
    decreases reports.len(),
{
    if reports.len() == 0 {
        true
    } else {
        fitting(c, reports.drop_last()) && run(c, reports.drop_last()).step.fits(
            reports.last().outcome,
        )
    }
}

/// The step behind an inspection of the network.
fn inspected(adjustments: Vec<RouteLocalnetAdjustment>, prior: &RuntimeState) -> (r: Step)
    ensures
        r@ == (StepView::ListTables {
            adjusted: settings::merged(
                settings::adjustment_views(adjustments@),
                prior@.route_localnet_original,
            ),
        }),
{
    Step::ListTables {
        adjusted: settings::merge_adjustments(adjustments, &prior.route_localnet_original),
    }
}

/// The step behind a listing of our own tables.
fn listed(
    candidates: &Vec<ActiveProfile>,
    adjusted: Vec<RouteLocalnetAdjustment>,
    own: OwnTables,
) -> (r: Step)
    ensures
        r@ == (StepView::CheckBatch {
            adjusted: settings::adjustment_views(adjusted@),
            batch: nft::batch(
                profile::resolved_of(profile::active_views(candidates@)),
                own,
            ),
        }),
{
    let resolved = profile::resolved_profiles(candidates);
    Step::CheckBatch { adjusted, batch: nft::generate_batch(&resolved, own) }
}

/// A step that ends the transaction with a failure.
fn failed(error: String) -> (r: Step)
    ensures
        r@ == (StepView::Finished { outcome: Err(error@) }),
{
    Step::Finished { outcome: Err(error) }
}

/// The text of a failure of `step`.
fn write_failure(step: &Step, error: &str) -> (r: String)
    ensures
        r@ == failure_text(step@, error@),
{
    match step {
        Step::CheckHooks => "nft hook conflict preflight: ".to_owned().concat(error),
        Step::Preflight => "network preflight: ".to_owned().concat(error),
        _ => error.to_owned(),
    }
}

/// The step behind an outcome of `step`.
fn step_behind(
    prior: &RuntimeState,
    candidates: &Vec<ActiveProfile>,
    step: Step,
    outcome: Outcome,
    now: u64,
) -> (r: Step)
    ensures
        r@ == step_after(
            prior@,
            profile::active_views(candidates@),
            step@,
            outcome@,
            now,
        ),
{
    match (step, outcome) {
        (Step::CheckHooks, Outcome::Failed { error }) => failed(
            write_failure(&Step::CheckHooks, error.as_str()),
        ),
        (Step::CheckHooks, _) => Step::Preflight,
        (Step::Preflight, Outcome::Failed { error }) => failed(
            write_failure(&Step::Preflight, error.as_str()),
        ),
        (Step::Preflight, Outcome::Inspected { adjustments }) => inspected(
            adjustments,
            prior,
        ),
        (Step::Preflight, _) => Step::Preflight,
        (Step::ListTables { .. }, Outcome::Failed { error }) => failed(error),
        (Step::ListTables { adjusted }, Outcome::Listed { own }) => listed(
            candidates,
            adjusted,
            own,
        ),
        (Step::ListTables { adjusted }, _) => Step::ListTables { adjusted },
        (Step::CheckBatch { .. }, Outcome::Failed { error }) => failed(error),
        (Step::CheckBatch { adjusted, batch }, _) => Step::Enable { adjusted, batch },
        (Step::Enable { .. }, Outcome::Failed { error }) => failed(error),
        (Step::Enable { adjusted, batch }, _) => Step::Apply { adjusted, batch },
        (Step::Apply { adjusted, .. }, Outcome::Failed { error }) => Step::RollBack {
            fresh: settings::fresh_adjustments(
                &adjusted,
                &prior.route_localnet_original,
            ),
            error,
        },
        (Step::Apply { adjusted, .. }, _) => {
            let stale = settings::stale_values(
                &prior.route_localnet_original,
                &adjusted,
            );
            Step::RestoreStale { adjusted, stale }
        },
        (Step::RollBack { error, .. }, _) => failed(error),
        (Step::RestoreStale { adjusted, .. }, _) => Step::Save {
            next: next_state(prior, candidates, &adjusted, now),
        },
        (Step::Save { .. }, Outcome::Failed { error }) => failed(error),
        (Step::Save { .. }, _) => Step::Finished { outcome: Ok(()) },
        (Step::Finished { outcome }, _) => Step::Finished { outcome },
    }
}

impl Commit {
    /// The transaction at its start; the hooks are looked at unless coexistence with
    /// external chains is allowed.
    #[must_use]
    pub fn new(
        candidates: Vec<ActiveProfile>,
        prior: RuntimeState,
        reason: String,
        allow_external_chains: bool,
    ) -> (r: Self)
        ensures
            r@ == CommitView::start(
                profile::active_views(candidates@),
                prior@,
                reason@,
                allow_external_chains,
            ),
    {
        let step = if allow_external_chains {
            Step::Preflight
        } else {
            Step::CheckHooks
        };
        Commit { candidates, prior, reason, allow_external_chains, step }
    }

    /// The event that is logged for an outcome of the present step.
    fn note_of(&self, outcome: &Outcome, now: u64) -> (r: Option<LogEvent>)
        ensures
            control::option_event(r) == self@.note(outcome@, now),
    {
        match (&self.step, outcome) {
            (
                Step::CheckHooks | Step::Preflight | Step::ListTables { .. }
                | Step::CheckBatch { .. } | Step::Apply { .. },
                Outcome::Failed { error },
            ) => {
                let text = write_failure(&self.step, error.as_str());
                Some(failed_reload(self.reason.as_str(), text.as_str(), now))
            },
            (Step::RestoreStale { .. }, Outcome::Failed { error }) => Some(
                LogEvent {
                    timestamp_unix: now,
                    level: "error".to_owned(),
                    message:
                        "nft commit succeeded but stale route_localnet restoration failed: ".to_owned().concat(
                    error.as_str()),
                },
            ),
            (Step::Save { .. }, Outcome::Done) => Some(
                LogEvent {
                    timestamp_unix: now,
                    level: "info".to_owned(),
                    message: "configuration reload committed (".to_owned().concat(
                        self.reason.as_str(),
                    ).concat(")"),
                },
            ),
            _ => None,
        }
    }

    /// Takes the outcome of the present step and goes on to the next one; returns
    /// the event to log, if there is one.
    pub fn advance(&mut self, outcome: Outcome, now: u64) -> (r: Option<LogEvent>)
        ensures
            final(self)@ == old(self)@.after(outcome@, now),
            control::option_event(r) == old(self)@.note(outcome@, now),
    {
        let note = self.note_of(&outcome, now);
        let mut step = Step::CheckHooks;
        std::mem::swap(&mut step, &mut self.step);
        self.step = step_behind(&self.prior, &self.candidates, step, outcome, now);
        note
    }
}

} // verus!
