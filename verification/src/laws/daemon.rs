//! How the daemon goes through a reload, and what it answers.

use vstd::prelude::*;
use vstd::string::StringSliceAdditionalSpecFns;

use crate::commit::{Commit, CommitView, OutcomeView, StepView};
use crate::config;
use crate::config::Config;
use crate::control;
use crate::control::{LogEvent, LogEventView, NoteView, Request, Response, SocketPath};
use crate::dns;
use crate::dns::Health;
use crate::laws::values;
use crate::profile;
use crate::profile::{ActiveProfile, ActiveProfileView};
use crate::refresh;
use crate::runtime;
use crate::runtime::{DaemonData, DaemonDataView, DaemonPaths, Reaction};
use crate::settings;
use crate::settings::{AdjustmentView, OriginalValues, RouteLocalnetAdjustment};
use crate::state;
use crate::state::{LoadFailure, RuntimeState, RuntimeStateView, StateFile};
use crate::text;

verus! {

// Reloads.

/// A reload looks at the hooks of others first, unless coexistence with them is allowed;
/// it has the candidates, the state before it and its reason.
pub proof fn law_reload_begins_with_the_hooks(
    candidates: Vec<ActiveProfile>,
    prior: RuntimeState,
    reason: String,
    allow: bool,
    r: Commit,
)
    requires
        call_ensures(Commit::new, (candidates, prior, reason, allow), r),
    ensures
        r@.candidates == profile::active_views(candidates@),
        r@.prior == prior@,
        r@.reason == reason@,
        r@.allow_external_chains == allow,
        allow ==> r@.step == StepView::Preflight,
        !allow ==> r@.step == StepView::CheckHooks,
{
}

/// A failure ends a reload, with its text; that of a look at the hooks and that of the
/// inspection of the network say so. Behind a batch that could not be applied, what was
/// newly changed is put back first. What could not be put back ends no reload.
pub proof fn law_failure_ends_the_reload(c: CommitView, error: Seq<char>, now: u64)
    ensures
        ({
            let next = c.after(OutcomeView::Failed { error }, now);
            let refused = |text: Seq<char>| StepView::Finished { outcome: Err(text) };
            match c.step {
                StepView::CheckHooks => next.step == refused(
                    "nft hook conflict preflight: "@ + error,
                ),
                StepView::Preflight => next.step == refused("network preflight: "@ + error),
                StepView::ListTables { .. } => next.step == refused(error),
                StepView::CheckBatch { .. } => next.step == refused(error),
                StepView::Enable { .. } => next.step == refused(error),
                StepView::Apply { .. } => next.step is RollBack && next.step->RollBack_error
                    == error,
                StepView::RollBack { error: first, .. } => next.step == refused(first),
                StepView::RestoreStale { .. } => next.step is Save,
                StepView::Save { .. } => next.step == refused(error),
                StepView::Finished { .. } => next.step == c.step,
            }
        }),
{
}

/// What a step that passed leads to: the look at the hooks, the inspection, the listing
/// of our tables, the check of the batch, the adjustment of the host, the batch itself,
/// what is no longer adjusted, and the state file come one behind the other.
pub proof fn law_steps_come_one_behind_the_other(c: CommitView, outcome: OutcomeView, now: u64)
    requires
        c.step.fits(outcome),
        !(outcome is Failed),
    ensures
        ({
            let next = c.after(outcome, now).step;
            match c.step {
                StepView::CheckHooks => next == StepView::Preflight,
                StepView::Preflight => next is ListTables,
                StepView::ListTables { adjusted } => next matches StepView::CheckBatch {
                    adjusted: same,
                    ..
                } && same == adjusted,
                StepView::CheckBatch { adjusted, batch } => next == (StepView::Enable {
                    adjusted,
                    batch,
                }),
                StepView::Enable { adjusted, batch } => next == (StepView::Apply {
                    adjusted,
                    batch,
                }),
                StepView::Apply { adjusted, .. } => next matches StepView::RestoreStale {
                    adjusted: same,
                    ..
                } && same == adjusted,
                StepView::RollBack { error, .. } => next == (StepView::Finished {
                    outcome: Err(error),
                }),
                StepView::RestoreStale { .. } => next is Save,
                StepView::Save { .. } => next == (StepView::Finished { outcome: Ok(()) }),
                StepView::Finished { .. } => false,
            }
        }),
        c.after(outcome, now).candidates == c.candidates,
        c.after(outcome, now).prior == c.prior,
        c.after(outcome, now).reason == c.reason,
        c.after(outcome, now).allow_external_chains == c.allow_external_chains,
{
}

/// An inspection is taken over as it is, except that the value that an interface had
/// before the first change is the one that is remembered for it.
pub proof fn law_inspection_keeps_remembered_values(
    c: CommitView,
    adjustments: Seq<AdjustmentView>,
    now: u64,
    i: int,
)
    requires
        c.step is Preflight,
        0 <= i < adjustments.len(),
    ensures
        ({
            let known = c.prior.route_localnet_original;
            let next = c.after(OutcomeView::Inspected { adjustments }, now).step;
            &&& next matches StepView::ListTables { adjusted }
            &&& adjusted.len() == adjustments.len()
            &&& adjusted[i].interface == adjustments[i].interface
            &&& known.contains_key(adjustments[i].interface) ==> adjusted[i].original
                == known[adjustments[i].interface]
            &&& !known.contains_key(adjustments[i].interface) ==> adjusted[i].original
                == adjustments[i].original
        }),
{
}

/// Behind a batch that could not be applied exactly those settings are put back that were
/// not adjusted before.
pub proof fn law_failed_batch_puts_back_what_is_new(
    c: CommitView,
    adjusted: Seq<AdjustmentView>,
    batch: Seq<char>,
    error: Seq<char>,
    now: u64,
    a: AdjustmentView,
)
    requires
        c.step == (StepView::Apply { adjusted, batch }),
    ensures
        ({
            let next = c.after(OutcomeView::Failed { error }, now).step;
            &&& next matches StepView::RollBack { fresh, .. }
            &&& fresh.contains(a) <==> adjusted.contains(a)
                && !c.prior.route_localnet_original.contains_key(a.interface)
        }),
{
    let known = c.prior.route_localnet_original;
    let keep = |a: AdjustmentView| !known.contains_key(a.interface);
    let kept = settings::fresh(adjusted, known);
    if kept.contains(a) {
        let j = choose|j: int| 0 <= j < kept.len() && kept[j] == a;
        adjusted.lemma_filter_contains_rev(keep, a);
        adjusted.lemma_filter_pred(keep, j);
    }
    if adjusted.contains(a) && keep(a) {
        let i = choose|i: int| 0 <= i < adjusted.len() && adjusted[i] == a;
        adjusted.lemma_filter_contains(keep, i);
    }
}

/// Behind a batch that was applied exactly the remembered values of the interfaces that
/// are no longer adjusted are put back.
pub proof fn law_applied_batch_puts_back_what_is_no_longer_adjusted(
    c: CommitView,
    adjusted: Seq<AdjustmentView>,
    batch: Seq<char>,
    now: u64,
    interface: Seq<char>,
)
    requires
        c.step == (StepView::Apply { adjusted, batch }),
    ensures
        ({
            let known = c.prior.route_localnet_original;
            let listed = lists(adjusted, interface);
            let next = c.after(OutcomeView::Done, now).step;
            &&& next matches StepView::RestoreStale { stale, .. }
            &&& stale.contains_key(interface) <==> known.contains_key(interface) && !listed
            &&& stale.contains_key(interface) ==> stale[interface] == known[interface]
        }),
{
}

/// The interface is listed.
pub open spec fn lists(v: Seq<AdjustmentView>, interface: Seq<char>) -> bool {
    exists|i: int| 0 <= i < v.len() && (#[trigger] v[i]).interface == interface
}

/// The entry at position `i` is the last one for the interface.
pub open spec fn last_for(v: Seq<AdjustmentView>, interface: Seq<char>, i: int) -> bool {
    &&& 0 <= i < v.len()
    &&& v[i].interface == interface
    &&& forall|j: int| i < j < v.len() ==> (#[trigger] v[j]).interface != interface
}

/// Exactly the listed interfaces are remembered.
proof fn lemma_remembered(v: Seq<AdjustmentView>, interface: Seq<char>)
    ensures
        settings::adjustment_map(v).contains_key(interface) <==> lists(v, interface),
    decreases v.len(),
{
    if v.len() > 0 {
        let front = v.drop_last();
        lemma_remembered(front, interface);
        assert(v[v.len() - 1] == v.last());
        if lists(front, interface) {
            let i = choose|i: int|
                0 <= i < front.len() && (#[trigger] front[i]).interface == interface;
            assert(v[i].interface == interface);
        }
        if lists(v, interface) {
            let i = choose|i: int| 0 <= i < v.len() && (#[trigger] v[i]).interface == interface;
            if i < front.len() {
                assert(front[i].interface == interface);
            }
        }
    }
}

/// The last value that is listed for an interface is the one that is remembered for it.
proof fn lemma_last_value(v: Seq<AdjustmentView>, interface: Seq<char>, i: int)
    requires
        last_for(v, interface, i),
    ensures
        settings::adjustment_map(v)[interface] == v[i].original,
    decreases v.len(),
{
    let front = v.drop_last();
    if i < front.len() {
        assert(v[v.len() - 1].interface != interface);
        assert forall|j: int| i < j < front.len() implies (#[trigger] front[j]).interface
            != interface by {
            assert(v[j].interface != interface);
        }
        assert(front[i] == v[i]);
        lemma_last_value(front, interface, i);
    }
}

/// The state that a reload saves counts both versions up by one, keeps the start of the
/// daemon where there is one, is of the time, tells of the candidates, and remembers
/// exactly the interfaces that are adjusted.
pub proof fn law_saved_state_tells_of_the_candidates(
    c: CommitView,
    adjusted: Seq<AdjustmentView>,
    stale: Map<Seq<char>, bool>,
    outcome: OutcomeView,
    now: u64,
    interface: Seq<char>,
)
    requires
        c.step == (StepView::RestoreStale { adjusted, stale }),
    ensures
        ({
            let prior = c.prior;
            let step = c.after(outcome, now).step;
            &&& step matches StepView::Save { next }
            &&& next.schema_version == 1
            &&& prior.config_version < u64::MAX ==> next.config_version == prior.config_version + 1
            &&& prior.config_version == u64::MAX ==> next.config_version == u64::MAX
            &&& prior.nft_rules_version < u64::MAX ==> next.nft_rules_version
                == prior.nft_rules_version + 1
            &&& prior.nft_rules_version == u64::MAX ==> next.nft_rules_version == u64::MAX
            &&& prior.daemon_started_unix != 0 ==> next.daemon_started_unix
                == prior.daemon_started_unix
            &&& prior.daemon_started_unix == 0 ==> next.daemon_started_unix == now
            &&& next.updated_unix == now
            &&& next.profiles.len() == c.candidates.len()
            &&& forall|i: int|
                0 <= i < c.candidates.len() ==> #[trigger] next.profiles[i] == profile::status_of(
                    c.candidates[i],
                )
            &&& next.route_localnet_original.contains_key(interface) <==> lists(
                adjusted,
                interface,
            )
            &&& forall|i: int| #[trigger]
                last_for(adjusted, interface, i) ==> next.route_localnet_original[interface]
                    == adjusted[i].original
        }),
{
    lemma_remembered(adjusted, interface);
    assert forall|i: int| #[trigger]
        last_for(adjusted, interface, i) implies settings::adjustment_map(adjusted)[interface]
        == adjusted[i].original by {
        lemma_last_value(adjusted, interface, i);
    }
}

/// The daemon takes over the candidates and the state at the step that saves the state,
/// and at no other one.
pub proof fn law_data_changes_with_the_saving(
    d: DaemonDataView,
    c: CommitView,
)
    ensures
        d.committing(c).logs == d.logs,
        c.step matches StepView::Save { next } ==> d.committing(c).state == next && d.committing(
            c,
        ).active == c.candidates && d.committing(c).allow_external_chains
            == c.allow_external_chains,
        !(c.step is Save) ==> d.committing(c) == d,
{
}

/// Of a reload that was saved, and of nothing else that passed, there is an event.
pub proof fn law_committed_reload_is_told(c: CommitView, outcome: OutcomeView, now: u64)
    requires
        !(outcome is Failed),
    ensures
        c.note(outcome, now) == (if c.step is Save && outcome is Done {
            Some(
                LogEventView {
                    timestamp_unix: now,
                    level: "info"@,
                    message: "configuration reload committed ("@ + c.reason + ")"@,
                },
            )
        } else {
            None
        }),
{
}

/// Of what could not be put back behind a batch that was applied there is an error.
pub proof fn law_failed_restoration_is_an_error(c: CommitView, error: Seq<char>, now: u64)
    requires
        c.step is RestoreStale,
    ensures
        c.note(OutcomeView::Failed { error }, now) == Some(
            LogEventView {
                timestamp_unix: now,
                level: "error"@,
                message: "nft commit succeeded but stale route_localnet restoration failed: "@
                    + error,
            },
        ),
{
}

// Events.

/// An event is kept behind the others; of 256 the oldest one leaves.
pub proof fn law_event_is_kept(d: &mut DaemonData, event: LogEvent, r: ())
    requires
        call_ensures(DaemonData::log, (d, event), r),
    ensures
        ({
            let before = old(d)@.logs;
            let after = final(d)@.logs;
            &&& after.len() > 0
            &&& after.last() == event@
            &&& before.len() != 256 ==> after.drop_last() == before
            &&& before.len() == 256 ==> after.drop_last() == before.drop_first()
            &&& final(d)@.state == old(d)@.state
            &&& final(d)@.active == old(d)@.active
            &&& final(d)@.allow_external_chains == old(d)@.allow_external_chains
        }),
{
    let before = old(d)@.logs;
    assert(before.push(event@).drop_last() =~= before);
    assert(before.drop_first().push(event@).drop_last() =~= before.drop_first());
}

// Clients.

/// A peer whose user is known and is not root is refused, whoever it is; that is kept as
/// a warning and changes nothing else. No other peer is refused.
pub proof fn law_only_root_is_served(
    d: &mut DaemonData,
    uid: Option<u32>,
    now: u64,
    r: Option<Response>,
)
    requires
        call_ensures(DaemonData::turn_away, (d, uid, now), r),
    ensures
        r is Some <==> uid is Some && uid != Some(0u32),
        r matches Some(response) ==> !response.ok && response.message@
            == "control socket accepts root peers only"@ && response.state is None
            && response.logs is None,
        r is Some ==> final(d)@.logs.last() == (LogEventView {
            timestamp_unix: now,
            level: "warn"@,
            message: "rejected non-root Unix socket peer"@,
        }),
        r is None ==> final(d)@.logs == old(d)@.logs,
        final(d)@.state == old(d)@.state,
        final(d)@.active == old(d)@.active,
{
}

/// A request for a reload is carried out; one for the status is answered with the state,
/// one for the events with the events that are kept, and what is no request with the
/// reason.
pub proof fn law_requests_are_answered(
    d: &DaemonData,
    received: Result<Request, String>,
    r: Reaction,
)
    requires
        call_ensures(DaemonData::react, (d, received), r),
    ensures
        r is Reload <==> received == Ok::<Request, String>(Request::Apply),
        r matches Reaction::Reply { response } ==> {
            &&& received matches Ok(Request::Status) ==> response@.ok && response@.message == "ok"@
                && response@.state == Some(d@.state) && response@.logs is None
            &&& received matches Ok(Request::Logs) ==> response@.ok && response@.message
                == "in-memory daemon event stream; durable logs are journald/syslog"@
                && response@.logs == Some(d@.logs) && response@.state is None
            &&& received matches Err(error) ==> !response@.ok && response@.message == error@
                && response@.state is None && response@.logs is None
        },
{
}

/// A reload that was asked for is answered with its outcome.
pub proof fn law_reload_is_answered_with_its_outcome(outcome: Result<(), String>, r: Response)
    requires
        call_ensures(runtime::apply_response, (outcome,), r),
    ensures
        r.ok <==> outcome is Ok,
        outcome is Ok ==> r.message@ == "full reload applied"@,
        outcome matches Err(error) ==> r.message@
            == "full reload rejected; existing rules retained: "@ + error@,
        r.state is None,
        r.logs is None,
{
}

/// A request line has at least one byte and at most 16384 of them.
pub proof fn law_request_line_is_bounded(line: &str, r: Result<String, String>)
    requires
        call_ensures(control::receive_request, (line,), r),
        line.spec_bytes().len() <= usize::MAX,
    ensures
        r is Ok <==> 0 < line.spec_bytes().len() <= 16384,
        r matches Ok(payload) ==> payload@ == text::trim_end(line@),
        r matches Err(e) ==> e@ == "invalid control request length"@,
{
}

/// A line that was received holds its message and, behind it, nothing but white
/// space.
pub proof fn law_message_is_the_line_up_to_white_space(line: &str, r: String)
    requires
        call_ensures(control::payload_of, (line,), r),
    ensures
        r@.len() <= line@.len(),
        r@ == line@.take(r@.len() as int),
        text::is_blank(line@.skip(r@.len() as int)),
        r@.len() > 0 ==> !text::is_white_space(r@.last()),
{
    let behind = values::lemma_trim_end(line@);
    assert(line@.take(r@.len() as int) =~= r@);
    assert(line@.skip(r@.len() as int) =~= behind);
}

/// What is no request is refused.
pub proof fn law_request_is_taken_as_it_is(
    parsed: Result<Request, String>,
    r: Result<Request, String>,
)
    requires
        call_ensures(control::decode_request, (parsed,), r),
    ensures
        parsed matches Ok(request) ==> r == Ok::<Request, String>(request),
        parsed is Err ==> (r matches Err(e) && e@ == "invalid control request JSON"@),
{
}

/// A line that is sent ends in a line feed and holds nothing else of its own.
pub proof fn law_sent_line_is_the_message_and_a_line_feed(encoded: Vec<u8>, r: Vec<u8>)
    requires
        call_ensures(control::frame_line, (encoded,), r),
    ensures
        r@.len() == encoded@.len() + 1,
        r@.last() == 10,
        r@.drop_last() == encoded@,
{
    assert(encoded@.push(10).drop_last() =~= encoded@);
}

/// A response is taken exactly where the daemon says that it is well.
pub proof fn law_refused_request_is_a_failure(response: Response, r: Result<Response, String>)
    requires
        call_ensures(control::accept_response, (response,), r),
    ensures
        r is Ok <==> response.ok,
        r matches Ok(same) ==> same == response,
        r matches Err(e) ==> e@ == "daemon rejected request: "@ + response.message@,
{
}

/// Only a socket is removed from the control path, and anything else there is refused.
pub proof fn law_only_a_socket_is_replaced(
    path: &str,
    found: SocketPath,
    r: Result<bool, String>,
)
    requires
        call_ensures(control::bind_socket, (path, found), r),
    ensures
        r == Ok::<bool, String>(true) <==> found is Socket,
        r == Ok::<bool, String>(false) <==> found is Missing,
        found is SomethingElse ==> (r matches Err(e) && e@
            == "refusing to replace non-socket control path "@ + path@),
        found matches SocketPath::Unknown { error } ==> (r matches Err(e) && e@
            == "cannot inspect socket "@ + path@ + ": "@ + error@),
{
}

// The state file.

/// A missing state file is an empty state; one that cannot be read or parsed is ignored
/// at the start, with a line that says so; any other one is the state.
pub proof fn law_daemon_starts_with_its_state(
    loaded: Result<RuntimeState, LoadFailure>,
    now: u64,
    r: (RuntimeState, Option<String>),
)
    requires
        call_ensures(runtime::initial_state, (loaded, now), r),
    ensures
        loaded matches Ok(given) ==> r.0 == given && r.1 is None,
        loaded matches Err(f) ==> r.0@ == RuntimeStateView::empty(now) && (r.1 is None
            <==> f.not_found),
        loaded matches Err(f) ==> (r.1 matches Some(line) ==> line@
            == "port-forwardd: state cache ignored: "@ + f.reason@),
{
}

/// What is read of the state file is the state, or says why it is none, and whether the
/// file is missing.
pub proof fn law_state_file_is_read_as_it_is(
    path: &str,
    read: StateFile,
    r: Result<RuntimeState, LoadFailure>,
)
    requires
        call_ensures(state::load, (path, read), r),
    ensures
        r is Ok <==> read is State,
        read matches StateFile::State { state: given } ==> r->Ok_0 == given,
        read matches StateFile::Unreadable { not_found, error } ==> r->Err_0.not_found == not_found
            && r->Err_0.reason@ == "cannot read state "@ + path@ + ": "@ + error@,
        read matches StateFile::Invalid { error } ==> !r->Err_0.not_found && r->Err_0.reason@
            == "invalid state JSON in "@ + path@ + ": "@ + error@,
{
}

/// Only a missing state file stands for an empty state.
pub proof fn law_only_a_missing_state_is_empty(
    loaded: Result<RuntimeState, LoadFailure>,
    now: u64,
    r: Result<RuntimeState, String>,
)
    requires
        call_ensures(state::load_optional, (loaded, now), r),
    ensures
        loaded matches Ok(given) ==> r == Ok::<RuntimeState, String>(given),
        loaded matches Err(f) ==> if f.not_found {
            r matches Ok(given) && given@ == RuntimeStateView::empty(now)
        } else {
            r == Err::<RuntimeState, String>(f.reason)
        },
{
}

/// Profiles that are adopted are in force, with the state, and nothing else changes.
pub proof fn law_adopted_profiles_are_in_force(
    d: &mut DaemonData,
    active: Vec<ActiveProfile>,
    next: RuntimeState,
    r: (),
)
    requires
        call_ensures(DaemonData::adopt, (d, active, next), r),
    ensures
        final(d)@.active == profile::active_views(active@),
        final(d)@.state == next@,
        final(d)@.logs == old(d)@.logs,
        final(d)@.allow_external_chains == old(d)@.allow_external_chains,
{
}

/// A switch goes through a whole reload of what was found, with the state as it is and
/// under the coexistence that is in force.
pub proof fn law_switch_is_a_whole_reload(d: &DaemonData, active: Vec<ActiveProfile>, r: Commit)
    requires
        call_ensures(DaemonData::begin_switch, (d, active), r),
    ensures
        r@.candidates == profile::active_views(active@),
        r@.prior == d@.state,
        r@.reason == "DNS target switch"@,
        r@.allow_external_chains == d@.allow_external_chains,
        r@.step == (if d@.allow_external_chains {
            StepView::Preflight
        } else {
            StepView::CheckHooks
        }),
{
}

/// A switch that failed is saved with the profiles as they were, the failure told by those
/// that were to be switched, from the time at which the refresh began, and the state of
/// the present time.
pub proof fn law_given_up_switch_is_saved(
    before: Vec<ActiveProfile>,
    c: &Commit,
    error: &str,
    began: u64,
    now: u64,
    r: (Vec<ActiveProfile>, RuntimeState),
)
    requires
        call_ensures(runtime::give_up_switch, (before, c, error, began, now), r),
    ensures
        profile::active_views(r.0@) == refresh::degraded(
            profile::active_views(before@),
            c@.candidates,
            error@,
            began,
        ),
        r.1@.updated_unix == now,
        r.1@.config_version == c@.prior.config_version,
        r.1@.nft_rules_version == c@.prior.nft_rules_version,
        r.1@.profiles == profile::statuses(profile::active_views(r.0@)),
        r.1@.route_localnet_original == c@.prior.route_localnet_original,
{
}

/// Of what could not be adjusted, saved or put back behind a failure there is no event;
/// the answer to the client tells of it.
pub proof fn law_other_failures_are_only_answered(c: CommitView, error: Seq<char>, now: u64)
    requires
        c.step is Enable || c.step is Save || c.step is RollBack || c.step is Finished,
    ensures
        c.note(OutcomeView::Failed { error }, now) is None,
{
}

/// The steps that change something on the host are the adjustment, the batch, what is put
/// back and the state file.
pub proof fn law_steps_that_change_the_host(s: StepView)
    ensures
        s.changes_host() <==> s is Enable || s is Apply || s is RollBack || s is RestoreStale
            || s is Save,
{
}

/// The profiles that a batch is made of are those of the candidates, in order.
pub proof fn law_batch_is_made_of_the_candidates(v: Seq<ActiveProfileView>, i: int)
    requires
        0 <= i < v.len(),
    ensures
        profile::resolved_of(v).len() == v.len(),
        profile::resolved_of(v)[i] == v[i].resolved,
{
}

/// A daemon starts without profiles and events, with its state, and does not coexist with
/// chains of others.
pub proof fn law_new_daemon_has_only_its_state(given: RuntimeState, r: DaemonData)
    requires
        call_ensures(DaemonData::new, (given,), r),
    ensures
        r@.state == given@,
        r@.active.len() == 0,
        r@.logs.len() == 0,
        !r@.allow_external_chains,
{
}

/// A remembered value is the one that was put in last.
pub proof fn law_remembered_value_is_the_last_one(
    v: &mut OriginalValues,
    interface: String,
    original: bool,
    done: (),
    asked: &str,
    other: Option<bool>,
    known: bool,
    r: Option<bool>,
)
    requires
        call_ensures(OriginalValues::insert, (v, interface, original), done),
        call_ensures(OriginalValues::get, (&*final(v), asked), r),
        call_ensures(OriginalValues::get, (&*old(v), asked), other),
        call_ensures(OriginalValues::contains_key, (&*final(v), asked), known),
    ensures
        asked@ == interface@ ==> r == Some(original) && known,
        asked@ != interface@ ==> r == other && known == (other is Some),
{
}

/// What keeps a reload from being begun is told with its cause.
pub proof fn law_refused_configuration_is_told(
    path: Seq<char>,
    content: Result<Result<Config, String>, String>,
)
    ensures
        runtime::reload_fault(path, content) is None <==> (content matches Ok(Ok(c))
            && config::deployable_fault(c@) is None),
        content matches Err(cause) ==> runtime::reload_fault(path, content) == Some(
            "cannot read configuration "@ + path + ": "@ + cause@ + ": "@ + cause@,
        ),
        content matches Ok(Err(cause)) ==> runtime::reload_fault(path, content) == Some(
            "invalid TOML: "@ + cause@ + ": "@ + cause@,
        ),
        content matches Ok(Ok(c)) ==> (config::deployable_fault(c@) matches Some(f)
            ==> runtime::reload_fault(path, content) == Some(
            "configuration error: "@ + config::fault_text(f),
        )),
{
}

/// A note of a fallback is that of a profile that fell back.
pub proof fn law_only_fallbacks_are_noted(v: Seq<ActiveProfileView>, note: NoteView)
    requires
        profile::fallbacks(v).contains(note),
    ensures
        exists|i: int|
            0 <= i < v.len() && (#[trigger] v[i]).dns is Some && v[i].dns->0.status
                == Health::Degraded && note.level == "warn"@,
    decreases v.len(),
{
    let front = profile::fallbacks(v.drop_last());
    let all = profile::fallbacks(v);
    let k = choose|k: int| 0 <= k < all.len() && all[k] == note;
    if v.len() == 0 {
    } else if k < front.len() {
        assert(front[k] == note);
        law_only_fallbacks_are_noted(v.drop_last(), note);
        let i = choose|i: int|
            0 <= i < v.drop_last().len() && (#[trigger] v.drop_last()[i]).dns is Some
                && v.drop_last()[i].dns->0.status == Health::Degraded && note.level == "warn"@;
        assert(v[i] == v.drop_last()[i]);
    } else {
        assert(v[v.len() - 1] == v.last());
    }
}

/// The remembered values are listed in the order of their interfaces, each once.
pub proof fn law_remembered_values_are_listed_in_order(
    v: &OriginalValues,
    r: Vec<RouteLocalnetAdjustment>,
    i: int,
    j: int,
)
    requires
        call_ensures(OriginalValues::to_list, (v,), r),
        0 <= i < j < r@.len(),
    ensures
        text::precedes(r@[i].interface@, r@[j].interface@),
        v@.contains_key(r@[i].interface@),
        v@[r@[i].interface@] == r@[i].original,
{
    let all = settings::adjustment_views(r@);
    assert(all[i] == r@[i]@ && all[j] == r@[j]@);
    lemma_remembered(all, all[i].interface);
    assert(all[i].interface == all[i].interface);
    assert(lists(all, all[i].interface));
    assert forall|k: int| i < k < all.len() implies (#[trigger] all[k]).interface
        != all[i].interface by {
        assert(text::precedes(all[i].interface, all[k].interface));
        text::lemma_precedes_irreflexive(all[i].interface);
    }
    lemma_last_value(all, all[i].interface, i);
}

/// The jitter of a refresh is at most 15 seconds.
pub proof fn law_jitter_is_short(r: u64)
    requires
        call_ensures(dns::random_jitter_seconds, (), r),
    ensures
        r <= 15,
{
}

/// The files of an installed daemon.
pub proof fn law_installed_daemon_has_its_files(r: DaemonPaths)
    requires
        call_ensures(DaemonPaths::defaults, (), r),
    ensures
        r.config@ == "/etc/port-forward/config.toml"@,
        r.socket@ == "/run/port-forwardd.sock"@,
        r.state@ == "/var/lib/port-forward/state.json"@,
{
}

} // verus!
