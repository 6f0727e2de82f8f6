//! What holds of every control session, whatever the outside world answers.

use crate::control::config::ControlConfig;
use crate::control::enforcer::{ActionView, EventView};
use crate::control::enforcer_laws::{self, EnforceRun};
use crate::control::estimator::{self, Sample};
use crate::control::fault::{self, FaultView, IoFault};
use crate::control::marshal::{self, Band, Marshal, Pursuit};
use crate::control::recon::{self, BsdInfo, ResolveError};
use crate::control::reporter::{Report, Reporter};
use crate::control::session::{
    self, ControlLoop, ControlSession, LoopAction, LoopEnd, LoopEvent, LoopStage, SessionError,
    Units,
};
use crate::control::span::{self, Span};
use crate::control::state::{self, ControlState};
use crate::control::text;
use crate::control::types::{
    ActiveTarget, ControlDecision, JobSignal, RawObservation, TargetGroup,
};
use vstd::prelude::*;

verus! {

/// A session that is refused leaves the shared state as it was: the target under control
/// stays, and so does a stop that was requested.
pub proof fn law_refused_session_changes_nothing<V>(
    before: ControlState,
    resolution: Result<TargetGroup, ResolveError>,
    current_pgid: i32,
    throttle: V,
    units: Units<V>,
    period: Span,
    reporter: Reporter,
    after: ControlState,
    error: SessionError,
)
    requires
        session::entered(
            before,
            resolution,
            current_pgid,
            throttle,
            units,
            period,
            reporter,
            after,
            Err(error),
        ),
    ensures
        after == before,
{
}

/// A session that begins controls the target's group, which is not this process's own,
/// with nothing stopped and no stop requested; and while it runs, no other session begins.
pub proof fn law_one_session_at_a_time<V>(
    before: ControlState,
    resolution: Result<TargetGroup, ResolveError>,
    current_pgid: i32,
    throttle: V,
    units: Units<V>,
    period: Span,
    reporter: Reporter,
    after: ControlState,
    begun: ControlSession<V>,
    next_resolution: Result<TargetGroup, ResolveError>,
    next_pgid: i32,
)
    requires
        session::entered(
            before,
            resolution,
            current_pgid,
            throttle,
            units,
            period,
            reporter,
            after,
            Ok(begun),
        ),
    ensures
        begun.target.pgid != current_pgid,
        after.active_target == Some(
            ActiveTarget { pgid: begun.target.pgid, stopped_pgid: None },
        ),
        !after.stop_signal,
        session::entry_error(after, next_resolution, next_pgid) is Some,
{
}

/// Once three measurements in a row are missing, the target is no longer stopped.
pub proof fn law_timeout_stops_nothing<
    V,
    B: FnOnce(V, V) -> Band,
    A: FnOnce(V, V, V, Span) -> V,
    P: FnOnce(Pursuit<V>) -> V,
    L: FnOnce(V, V) -> V,
    H: FnOnce(Span, V) -> Span,
>(
    control_period: Span,
    zero: V,
    samples: Seq<Option<Sample<V>>>,
    marshal: Marshal<V>,
    place: B,
    accrue: A,
    pursue: P,
    limit_step: L,
    stop_for: H,
    after: Marshal<V>,
    decision: ControlDecision,
)
    requires
        samples.len() <= usize::MAX,
        estimator::missed_at_end(samples) >= 3,
        marshal::decided(
            marshal,
            estimator::last_estimate(estimator::fresh(control_period, zero), samples),
            place,
            accrue,
            pursue,
            limit_step,
            stop_for,
            after,
            decision,
        ),
    ensures
        decision.stop_duration.nanos == 0,
{
    estimator::law_when_an_estimate_is_valid(control_period, zero, samples);
}

/// A control loop together with the action it has asked for.
pub struct LoopRun<V> {
    pub control_loop: ControlLoop,
    pub action: LoopAction<V>,
}

/// The loop after these events.
pub open spec fn loop_after<V>(control_period: Span, events: Seq<LoopEvent<V>>) -> LoopRun<V>
    decreases events.len(),
{
    if events.len() == 0 {
        let start = session::loop_start::<V>(control_period);
        LoopRun { control_loop: start.0, action: start.1 }
    } else {
        let next = session::loop_next(
            loop_after(control_period, events.drop_last()).control_loop,
            events.last(),
        );
        LoopRun { control_loop: next.0, action: next.1 }
    }
}

/// Whether each event answers the action that was asked for.
pub open spec fn loop_answers<V>(control_period: Span, events: Seq<LoopEvent<V>>) -> bool
    decreases events.len(),
{
    events.len() > 0 ==> {
        &&& loop_answers(control_period, events.drop_last())
        &&& session::loop_awaits(
            loop_after(control_period, events.drop_last()).control_loop.stage,
            events.last(),
        )
    }
}

/// Whether the event is a reason for this end.
pub open spec fn is_reason<V>(event: LoopEvent<V>, end: LoopEnd) -> bool {
    match end {
        LoopEnd::StopRequested => event matches LoopEvent::StopPolled(true, _),
        LoopEnd::TargetGone => event == LoopEvent::<V>::Validated(Ok(false)),
        LoopEnd::Failed(fault) => {
            ||| event == LoopEvent::<V>::Validated(Err(fault))
            ||| event == LoopEvent::<V>::Observed(Err(fault))
            ||| event matches LoopEvent::Applied(Err(why), _) && why == fault
        },
    }
}

/// The event that came `back` events before the end, counted from one.
pub open spec fn event_back<V>(events: Seq<LoopEvent<V>>, back: int) -> LoopEvent<V> {
    events[events.len() - back]
}

/// Whether the period began `back` events before the end, at `start`, with no stop
/// requested.
pub open spec fn period_began<V>(events: Seq<LoopEvent<V>>, back: int, start: Span) -> bool {
    events.len() >= back && event_back(events, back) == LoopEvent::<V>::StopPolled(false, start)
}

/// What every point of a loop has in common.
spec fn loop_sound<V>(control_period: Span, events: Seq<LoopEvent<V>>) -> bool {
    let run = loop_after(control_period, events);
    &&& run.control_loop.control_period == control_period
    &&& match run.control_loop.stage {
        LoopStage::Polling => run.action is PollStop,
        LoopStage::Validating(start) => run.action is Validate && period_began(events, 1, start),
        LoopStage::Observing(start) => {
            &&& run.action is Observe
            &&& period_began(events, 2, start)
            &&& event_back(events, 1) == LoopEvent::<V>::Validated(Ok(true))
        },
        LoopStage::Deciding(start) => {
            &&& run.action matches LoopAction::Decide(observation)
            &&& period_began(events, 3, start)
            &&& event_back(events, 2) == LoopEvent::<V>::Validated(Ok(true))
            &&& event_back(events, 1) == LoopEvent::<V>::Observed(Ok(observation))
        },
        LoopStage::Applying(start) => {
            &&& run.action matches LoopAction::Apply(decision)
            &&& period_began(events, 4, start)
            &&& event_back(events, 3) == LoopEvent::<V>::Validated(Ok(true))
            &&& event_back(events, 2) matches LoopEvent::Observed(Ok(_))
            &&& event_back(events, 1) == LoopEvent::<V>::Decided(decision)
        },
        LoopStage::Pausing => {
            &&& run.action matches LoopAction::Pause(pause)
            &&& event_back(events, 5) matches LoopEvent::StopPolled(false, start)
            &&& period_began(events, 5, start)
            &&& event_back(events, 1) matches LoopEvent::Applied(Ok(_), now)
            &&& 0 < pause.nanos
            &&& pause.nanos + span::remainder(now, start).nanos == control_period.nanos
        },
        LoopStage::Resuming(end) => {
            &&& run.action is Resume
            &&& events.len() >= 1
            &&& is_reason(events.last(), end)
        },
        LoopStage::Finished => {
            &&& run.action matches LoopAction::Finish(end)
            &&& events.len() >= 2
            &&& events.last() is Resumed
            &&& is_reason(event_back(events, 2), end)
        },
    }
}

proof fn lemma_loop_sound<V>(control_period: Span, events: Seq<LoopEvent<V>>)
    requires
        loop_answers(control_period, events),
    ensures
        loop_sound(control_period, events),
    decreases events.len(),
{
    if events.len() > 0 {
        let before = events.drop_last();
        lemma_loop_sound(control_period, before);
        assert forall|back: int| 1 <= back <= before.len() implies #[trigger] event_back(
            before,
            back,
        ) == event_back(events, back + 1) by {}
    }
}

/// A decision is only applied in a period in which no stop was requested, the target was
/// found alive and it could be measured; and it is the decision that was made on that.
pub proof fn law_application_follows_validation<V>(
    control_period: Span,
    events: Seq<LoopEvent<V>>,
    decision: ControlDecision,
)
    requires
        loop_answers(control_period, events),
        loop_after(control_period, events).action == LoopAction::<V>::Apply(decision),
    ensures
        events.len() >= 4,
        event_back(events, 4) matches LoopEvent::StopPolled(false, _),
        event_back(events, 3) == LoopEvent::<V>::Validated(Ok(true)),
        event_back(events, 2) matches LoopEvent::Observed(Ok(_)),
        event_back(events, 1) == LoopEvent::<V>::Decided(decision),
{
    lemma_loop_sound(control_period, events);
}

/// The pause at the end of a period is what is left of it, so that a period that was not
/// overrun takes as long as it should.
pub proof fn law_pause_fills_the_period<V>(
    control_period: Span,
    events: Seq<LoopEvent<V>>,
    pause: Span,
)
    requires
        loop_answers(control_period, events),
        loop_after(control_period, events).action == LoopAction::<V>::Pause(pause),
    ensures
        events.len() >= 5,
        event_back(events, 5) matches LoopEvent::StopPolled(false, start) && event_back(
            events,
            1,
        ) matches LoopEvent::Applied(Ok(_), now) && pause.nanos + span::remainder(now, start).nanos
            == control_period.nanos,
        pause.nanos > 0,
{
    lemma_loop_sound(control_period, events);
}

/// A loop ends for a reason: a requested stop, a target that is gone or a failure, which it
/// passes on. The target is resumed after that and before the end.
pub proof fn law_loop_ends_with_resumption<V>(
    control_period: Span,
    events: Seq<LoopEvent<V>>,
    end: LoopEnd,
)
    requires
        loop_answers(control_period, events),
        loop_after(control_period, events).action == LoopAction::<V>::Finish(end),
    ensures
        events.len() >= 2,
        is_reason(event_back(events, 2), end),
        event_back(events, 1) is Resumed,
        loop_after(control_period, events.drop_last()).action is Resume,
{
    lemma_loop_sound(control_period, events);
    lemma_loop_sound(control_period, events.drop_last());
}

/// A reason to end ends the loop: what follows is the resumption of the target, and then
/// the end for that reason.
pub proof fn law_reason_ends_the_loop<V>(
    control_period: Span,
    events: Seq<LoopEvent<V>>,
    end: LoopEnd,
)
    requires
        loop_answers(control_period, events),
        events.len() > 0,
        is_reason(events.last(), end),
    ensures
        loop_after(control_period, events).action is Resume,
        loop_after(control_period, events.push(LoopEvent::Resumed)).action matches
            LoopAction::Finish(ended) && (ended == end),
{
    lemma_loop_sound(control_period, events);
    lemma_loop_sound(control_period, events.drop_last());
    assert(events.push(LoopEvent::Resumed).drop_last() =~= events);
}

/// The shared state after the action of an application led to the event.
pub open spec fn control_next(
    control: ControlState,
    action: ActionView,
    event: EventView,
) -> ControlState {
    match (action, event) {
        (
            ActionView::RecordStopped(pgid),
            EventView::Recorded(Ok(_)),
        ) => state::with_stopped_group(control, Some(pgid)),
        (ActionView::ClearStopped, EventView::Cleared) => state::with_stopped_group(control, None),
        _ => control,
    }
}

/// The shared state after these events of an application.
pub open spec fn control_after(
    control: ControlState,
    start: EnforceRun,
    events: Seq<EventView>,
) -> ControlState
    decreases events.len(),
{
    if events.len() == 0 {
        control
    } else {
        control_next(
            control_after(control, start, events.drop_last()),
            enforcer_laws::run_after(start, events.drop_last()).action,
            events.last(),
        )
    }
}

proof fn lemma_record_is_in_shared_state(
    control: ControlState,
    target: ActiveTarget,
    stop_duration: Span,
    events: Seq<EventView>,
)
    requires
        control.active_target == Some(target),
        enforcer_laws::answers(
            enforcer_laws::run_start(target.pgid, stop_duration, target.stopped_pgid),
            events,
        ),
    ensures
        ({
            let start = enforcer_laws::run_start(target.pgid, stop_duration, target.stopped_pgid);
            control_after(control, start, events) == state::with_stopped_group(
                control,
                enforcer_laws::run_after(start, events).host.recorded,
            )
        }),
    decreases events.len(),
{
    if events.len() > 0 {
        lemma_record_is_in_shared_state(control, target, stop_duration, events.drop_last());
    }
}

/// A target that an application stopped and did not resume is on record as stopped in the
/// shared state, at every point of the application and after it. So the resumption that
/// follows the loop, or that precedes a forced exit, is of that very group.
pub proof fn law_stopped_target_will_be_resumed(
    control: ControlState,
    target: ActiveTarget,
    stop_duration: Span,
    events: Seq<EventView>,
)
    requires
        control.active_target == Some(target),
        enforcer_laws::answers(
            enforcer_laws::run_start(target.pgid, stop_duration, target.stopped_pgid),
            events,
        ),
    ensures
        ({
            let start = enforcer_laws::run_start(target.pgid, stop_duration, target.stopped_pgid);
            enforcer_laws::run_after(start, events).host.stopped ==> control_after(
                control,
                start,
                events,
            ) == (ControlState {
                active_target: Some(
                    ActiveTarget { pgid: target.pgid, stopped_pgid: Some(target.pgid) },
                ),
                ..control
            })
        }),
{
    lemma_record_is_in_shared_state(control, target, stop_duration, events);
    enforcer_laws::law_stopped_group_is_on_record(
        target.pgid,
        stop_duration,
        target.stopped_pgid,
        events,
    );
}

/// What came of applying the decisions of a loop, in order.
pub open spec fn applied_outcomes<V>(events: Seq<LoopEvent<V>>) -> Seq<Result<(), FaultView>>
    decreases events.len(),
{
    if events.len() == 0 {
        seq![]
    } else {
        let before = applied_outcomes(events.drop_last());
        match events.last() {
            LoopEvent::Applied(outcome, _) => before.push(fault::outcome_view(outcome)),
            _ => before,
        }
    }
}

/// Whether the loop ends, or has ended, with a failure.
pub open spec fn has_failed<V>(run: LoopRun<V>) -> bool {
    ||| run.control_loop.stage matches LoopStage::Resuming(LoopEnd::Failed(_))
    ||| run.action matches LoopAction::Finish(LoopEnd::Failed(_))
}

/// In a loop that has not failed, every application so far ended well.
pub proof fn law_failed_application_fails_the_loop<V>(
    control_period: Span,
    events: Seq<LoopEvent<V>>,
)
    requires
        loop_answers(control_period, events),
        !has_failed(loop_after(control_period, events)),
    ensures
        forall|i: int|
            0 <= i < applied_outcomes(events).len() ==> (#[trigger] applied_outcomes(events)[i])
                is Ok,
    decreases events.len(),
{
    if events.len() > 0 {
        lemma_loop_sound(control_period, events.drop_last());
        law_failed_application_fails_the_loop(control_period, events.drop_last());
    }
}

/// An application of a decision, with the answers that it got.
pub struct Application {
    pub stop_duration: Span,
    pub events: Seq<EventView>,
}

/// The group that the shared state has on record as stopped.
pub open spec fn recorded_in(control: ControlState) -> Option<i32> {
    match control.active_target {
        Some(active_target) => active_target.stopped_pgid,
        None => None,
    }
}

/// The start of an application to the group in this state.
pub open spec fn application_start(
    control: ControlState,
    pgid: i32,
    application: Application,
) -> EnforceRun {
    enforcer_laws::run_start(pgid, application.stop_duration, recorded_in(control))
}

/// The shared state after these applications to the group, one after the other.
pub open spec fn control_through(
    control: ControlState,
    pgid: i32,
    applications: Seq<Application>,
) -> ControlState
    decreases applications.len(),
{
    if applications.len() == 0 {
        control
    } else {
        let before = control_through(control, pgid, applications.drop_last());
        control_after(
            before,
            application_start(before, pgid, applications.last()),
            applications.last().events,
        )
    }
}

/// Whether the applications to the group, one after the other, ended so.
pub open spec fn applications_ended(
    control: ControlState,
    pgid: i32,
    applications: Seq<Application>,
    outcomes: Seq<Result<(), FaultView>>,
) -> bool
    decreases applications.len(),
{
    &&& applications.len() == outcomes.len()
    &&& applications.len() > 0 ==> {
        let start = application_start(
            control_through(control, pgid, applications.drop_last()),
            pgid,
            applications.last(),
        );
        let events = applications.last().events;
        &&& applications_ended(control, pgid, applications.drop_last(), outcomes.drop_last())
        &&& enforcer_laws::answers(start, events)
        &&& enforcer_laws::run_after(start, events).action == ActionView::Finish(outcomes.last())
    }
}

proof fn lemma_successful_applications_leave_no_record(
    control: ControlState,
    pgid: i32,
    applications: Seq<Application>,
    outcomes: Seq<Result<(), FaultView>>,
)
    requires
        control.active_target == Some(ActiveTarget { pgid, stopped_pgid: None }),
        applications_ended(control, pgid, applications, outcomes),
        forall|i: int| 0 <= i < outcomes.len() ==> (#[trigger] outcomes[i]) is Ok,
    ensures
        control_through(control, pgid, applications) == control,
    decreases applications.len(),
{
    if applications.len() > 0 {
        let earlier = outcomes.drop_last();
        assert forall|i: int| 0 <= i < earlier.len() implies (#[trigger] earlier[i]) is Ok by {
            assert(earlier[i] == outcomes[i]);
        }
        lemma_successful_applications_leave_no_record(
            control,
            pgid,
            applications.drop_last(),
            earlier,
        );
        let application = applications.last();
        let start = application_start(control, pgid, application);
        assert(outcomes[outcomes.len() - 1] is Ok);
        lemma_record_is_in_shared_state(
            control,
            ActiveTarget { pgid, stopped_pgid: None },
            application.stop_duration,
            application.events,
        );
        enforcer_laws::law_success_leaves_group_running(
            pgid,
            application.stop_duration,
            None,
            application.events,
        );
        assert(enforcer_laws::run_after(start, application.events).host.recorded is None);
    }
}

/// A run that does not fail leaves nothing under control. A session begins, its loop applies
/// decisions and comes to an end other than a failure; then the resumption that the loop
/// asks for succeeds without a signal, whatever the system would say, and releases the
/// target.
pub proof fn law_run_without_failure_leaves_nothing_under_control<
    V,
    W,
    G: FnOnce(W, i32, JobSignal) -> (Result<(), IoFault>, W),
    L: FnOnce(u32, u32) -> Result<Vec<i32>, IoFault>,
    P: FnMut(W, i32, JobSignal) -> (Result<(), IoFault>, W),
>(
    before: ControlState,
    resolution: Result<TargetGroup, ResolveError>,
    current_pgid: i32,
    throttle: V,
    units: Units<V>,
    period: Span,
    reporter: Reporter,
    entered: ControlState,
    begun: ControlSession<V>,
    events: Seq<LoopEvent<V>>,
    applications: Seq<Application>,
    stop_signal: bool,
    world: W,
    send_group: G,
    list_pids: L,
    send_process: P,
    after: ControlState,
    resumption: (Result<(), IoFault>, W),
)
    requires
        session::entered(
            before,
            resolution,
            current_pgid,
            throttle,
            units,
            period,
            reporter,
            entered,
            Ok(begun),
        ),
        loop_answers(period, events),
        loop_after(period, events).action is Resume,
        !has_failed(loop_after(period, events)),
        applications_ended(entered, begun.target.pgid, applications, applied_outcomes(events)),
        state::target_resumed(
            ControlState {
                stop_signal,
                ..control_through(entered, begun.target.pgid, applications)
            },
            world,
            send_group,
            list_pids,
            send_process,
            after,
            resumption,
        ),
    ensures
        resumption == (Ok::<(), IoFault>(()), world),
        after == (ControlState { stop_signal, active_target: None }),
{
    law_failed_application_fails_the_loop(period, events);
    lemma_successful_applications_leave_no_record(
        entered,
        begun.target.pgid,
        applications,
        applied_outcomes(events),
    );
}

/// Whether the event is an answer to the action.
pub open spec fn is_loop_answer<V>(action: LoopAction<V>, event: LoopEvent<V>) -> bool {
    match action {
        LoopAction::PollStop => event is StopPolled,
        LoopAction::Validate => event is Validated,
        LoopAction::Observe => event is Observed,
        LoopAction::Decide(_) => event is Decided,
        LoopAction::Apply(_) => event is Applied,
        LoopAction::Pause(_) => event is Paused,
        LoopAction::Resume => event is Resumed,
        LoopAction::Finish(_) => false,
    }
}

/// Whatever the action that was asked for leads to is taken in, and nothing else.
pub proof fn law_every_loop_answer_is_taken_in<V>(
    control_period: Span,
    events: Seq<LoopEvent<V>>,
    event: LoopEvent<V>,
)
    requires
        loop_answers(control_period, events),
    ensures
        loop_answers(control_period, events.push(event)) <==> is_loop_answer(
            loop_after(control_period, events).action,
            event,
        ),
{
    assert(events.push(event).drop_last() =~= events);
    lemma_loop_sound(control_period, events);
}

/// What comes next in a loop, told from outside: from the last answer and, after an
/// application, from when the period began. `events` ends with that answer.
pub open spec fn leads_to<V>(
    control_period: Span,
    events: Seq<LoopEvent<V>>,
    next: LoopAction<V>,
) -> bool {
    match events.last() {
        LoopEvent::StopPolled(stop, _) => if stop {
            next is Resume
        } else {
            next is Validate
        },
        LoopEvent::Validated(Ok(alive)) => if alive {
            next is Observe
        } else {
            next is Resume
        },
        LoopEvent::Observed(Ok(observation)) => next == LoopAction::Decide(observation),
        LoopEvent::Decided(decision) => next == LoopAction::<V>::Apply(decision),
        LoopEvent::Applied(Ok(_), now) => {
            &&& events.len() >= 5
            &&& events[events.len() - 5] matches LoopEvent::StopPolled(false, start)
            // A clock that went back used nothing up.
            &&& if start.nanos > now.nanos && control_period.nanos > 0 {
                next matches LoopAction::Pause(pause) && pause == control_period
            } else if start.nanos <= now.nanos && now.nanos - start.nanos < control_period.nanos {
                next matches LoopAction::Pause(pause) && pause.nanos == control_period.nanos - (
                now.nanos - start.nanos)
            } else {
                next is PollStop
            }
        },
        LoopEvent::Validated(Err(_))
        | LoopEvent::Observed(Err(_))
        | LoopEvent::Applied(Err(_), _) => next is Resume,
        LoopEvent::Paused => next is PollStop,
        LoopEvent::Resumed => next is Finish,
    }
}

/// A loop begins with a poll, and each answer leads to the action that the outside world can
/// expect of it. In particular a period that is not used up is always paused, for what is
/// left of it, and one that is used up is not.
pub proof fn law_each_loop_answer_leads_on<V>(control_period: Span, events: Seq<LoopEvent<V>>)
    requires
        loop_answers(control_period, events),
    ensures
        if events.len() == 0 {
            loop_after(control_period, events).action is PollStop
        } else {
            leads_to(control_period, events, loop_after(control_period, events).action)
        },
{
    lemma_loop_sound(control_period, events);
    if events.len() > 0 {
        let before = events.drop_last();
        lemma_loop_sound(control_period, before);
        assert forall|back: int| 1 <= back <= before.len() implies #[trigger] event_back(
            before,
            back,
        ) == event_back(events, back + 1) by {}
        if events.last() is Applied {
            assert(event_back(before, 4) == event_back(events, 5));
        }
    }
}

/// Two periods begin at least a control period apart, where the clock does not go back and
/// a pause takes at least its time: the second poll finds the first period used up.
pub proof fn law_periods_are_a_control_period_apart<V>(
    control_period: Span,
    events: Seq<LoopEvent<V>>,
    first: Span,
    applied: Span,
    second: Span,
)
    requires
        loop_answers(control_period, events),
        events.len() >= 5,
        period_began(events, 5, first),
        event_back(events, 1) matches LoopEvent::Applied(Ok(_), now) && now == applied,
        first.nanos <= applied.nanos,
        match loop_after(control_period, events).action {
            LoopAction::Pause(pause) => applied.nanos + pause.nanos <= second.nanos,
            _ => applied.nanos <= second.nanos,
        },
    ensures
        first.nanos + control_period.nanos <= second.nanos,
        match loop_after(control_period, events).action {
            LoopAction::Pause(_) => loop_after(
                control_period,
                events.push(LoopEvent::Paused),
            ).action is PollStop,
            action => action is PollStop,
        },
{
    lemma_loop_sound(control_period, events);
    lemma_loop_sound(control_period, events.drop_last());
    assert(event_back(events.drop_last(), 4) == event_back(events, 5));
    assert(events.push(LoopEvent::Paused).drop_last() =~= events);
}

/// A session begins whenever the process was found, its group is not this process's own and
/// no session runs: a stop that was requested before does not hinder it. It controls that
/// group, with the throttle as its setpoint and nothing estimated or decided yet. Each of the
/// reasons against it is told apart.
pub proof fn law_when_a_session_begins<V>(
    before: ControlState,
    resolution: Result<TargetGroup, ResolveError>,
    current_pgid: i32,
    throttle: V,
    units: Units<V>,
    period: Span,
    reporter: Reporter,
    after: ControlState,
    result: Result<ControlSession<V>, SessionError>,
)
    requires
        session::entered(
            before,
            resolution,
            current_pgid,
            throttle,
            units,
            period,
            reporter,
            after,
            result,
        ),
    ensures
        result is Ok <==> resolution is Ok && resolution->Ok_0.pgid != current_pgid
            && before.active_target is None,
        result matches Ok(begun) ==> {
            &&& begun.target == resolution->Ok_0
            &&& begun.throttle == throttle
            &&& begun.marshal.setpoint == throttle
            &&& begun.marshal.prev_output == units.zero
            &&& begun.marshal.integral == units.zero
            &&& begun.marshal.zero == units.zero
            &&& begun.marshal.kp == units.kp
            &&& begun.marshal.ki == units.ki
            &&& begun.marshal.control_period == period
            &&& begun.estimator.control_period == period
            &&& begun.estimator.zero == units.zero
            &&& begun.estimator.warm_up_samples == 0
            &&& begun.estimator.missed_cycles == 0
            &&& begun.estimator.last_good_normalized is None
            &&& begun.estimator.prev_timestamp is None
            &&& !begun.recon.cpu_primed
            &&& begun.reporter == reporter
            &&& !after.stop_signal
            &&& after.active_target == Some(
                ActiveTarget { pgid: begun.target.pgid, stopped_pgid: None },
            )
        },
        result matches Err(error) ==> {
            &&& after == before
            &&& match error {
                SessionError::Resolve(reason) => resolution == Err::<TargetGroup, ResolveError>(
                    reason,
                ),
                SessionError::OwnGroup => resolution is Ok && resolution->Ok_0.pgid
                    == current_pgid,
                SessionError::Control(reason) => {
                    &&& reason is ActiveTargetAlreadySet
                    &&& resolution is Ok
                    &&& resolution->Ok_0.pgid != current_pgid
                    &&& before.active_target is Some
                },
            }
        },
{
}

/// Every period is decided on what was observed in it: an observation always counts, the
/// decision rests on the estimate that came of it, and a report is given exactly when one is
/// due. The target, the throttle and what was primed stay as they are.
pub proof fn law_every_period_is_decided_on_its_observation<
    V,
    A: FnMut(V, V) -> V,
    J: FnOnce(V, V) -> V,
    F: FnOnce(Span, V, V) -> V,
    B: FnOnce(V, V) -> Band,
    C: FnOnce(V, V, V, Span) -> V,
    P: FnOnce(Pursuit<V>) -> V,
    L: FnOnce(V, V) -> V,
    H: FnOnce(Span, V) -> Span,
>(
    before: ControlSession<V>,
    now: Span,
    observation: Option<&RawObservation<V>>,
    accumulate: A,
    limit_jump: J,
    low_pass: F,
    place: B,
    accrue: C,
    pursue: P,
    limit_step: L,
    stop_for: H,
    after: ControlSession<V>,
    decided: (ControlDecision, Option<Report<V>>),
)
    requires
        session::period_decided(
            before,
            now,
            observation,
            accumulate,
            limit_jump,
            low_pass,
            place,
            accrue,
            pursue,
            limit_step,
            stop_for,
            after,
            decided,
        ),
    ensures
        after.target == before.target,
        after.throttle == before.throttle,
        after.recon == before.recon,
        after.enforcer == before.enforcer,
        after.reporter.enabled == before.reporter.enabled,
        decided.1 is Some <==> before.reporter.enabled && now.nanos
            >= before.reporter.last_emit_at.nanos + 1_000_000_000,
        after.reporter.last_emit_at == if decided.1 is Some {
            now
        } else {
            before.reporter.last_emit_at
        },
        exists|sample: Option<Sample<V>>|
            {
                let estimated = estimator::estimate_next(before.estimator, sample);
                &&& #[trigger] estimator::taken_in(
                    before.estimator,
                    observation,
                    accumulate,
                    limit_jump,
                    low_pass,
                    sample,
                )
                &&& observation is Some <==> sample is Some
                &&& after.estimator == estimator::estimator_next(before.estimator, sample)
                &&& marshal::decided(
                    before.marshal,
                    estimated,
                    place,
                    accrue,
                    pursue,
                    limit_step,
                    stop_for,
                    after.marshal,
                    decided.0,
                )
                &&& decided.1 matches Some(report) ==> {
                    &&& report.pid == before.target.root.pid
                    &&& report.pgid == before.target.pgid
                    &&& report.normalized_cpu == estimated.normalized_cpu
                    &&& report.filtered_cpu == estimated.filtered_cpu
                    &&& report.valid == estimated.valid
                    &&& report.stop_duration == decided.0.stop_duration
                }
            },
{
}

/// The own group is refused as a target, and no other.
pub proof fn law_only_the_own_group_is_refused(
    current_pgid: i32,
    target_pgid: i32,
    result: Result<(), SessionError>,
)
    requires
        session::guard_group.ensures((current_pgid, target_pgid), result),
    ensures
        result is Err <==> current_pgid == target_pgid,
        result matches Err(error) ==> error is OwnGroup,
{
}

/// A target that is gone is named.
pub proof fn law_gone_target_is_named(pgid: i32)
    ensures
        session::gone_text(pgid) == "target pgid "@ + text::signed_decimal(pgid as int)
            + " has no live processes; stopping control loop"@,
{
}

/// The session that a configuration asks for is that of its process and its throttle, and it
/// is refused for no other reasons than a session can be refused for: the process is looked
/// up, by its own pid, for the user that runs this process.
pub proof fn law_session_is_the_one_asked_for<V, I: FnOnce(i32) -> Result<BsdInfo, IoFault>>(
    before: ControlState,
    config: ControlConfig<V>,
    units: Units<V>,
    reporter: Reporter,
    bsd_info: I,
    after: ControlState,
    result: Result<ControlSession<V>, SessionError>,
)
    requires
        session::begun(before, config, units, reporter, bsd_info, after, result),
    ensures
        result matches Ok(begun) ==> {
            &&& begun.throttle == config.throttle
            &&& begun.marshal.setpoint == config.throttle
            &&& exists|own: i32| #[trigger]
                session::is_current_pgid(own) && own != begun.target.pgid
            &&& exists|info: BsdInfo, uid: u32|
                {
                    &&& #[trigger] bsd_info.ensures((config.pid,), Ok(info))
                    &&& #[trigger] recon::is_current_uid(uid)
                    &&& info.uid == uid
                    &&& begun.target.pgid == info.pgid
                    &&& 0 < begun.target.pgid
                }
            &&& before.active_target is None
            &&& after.active_target == Some(
                ActiveTarget { pgid: begun.target.pgid, stopped_pgid: None },
            )
            &&& !after.stop_signal
        },
        result matches Err(error) ==> after == before && (error matches SessionError::Control(
            reason,
        ) ==> reason is ActiveTargetAlreadySet && before.active_target is Some),
{
    let (resolution, current_pgid, period) = choose|
        resolution: Result<TargetGroup, ResolveError>,
        current_pgid: i32,
        period: Span,
    |
        {
            &&& #[trigger] session::resolves(config.pid, bsd_info, resolution)
            &&& session::is_current_pgid(current_pgid)
            &&& session::is_control_period(period)
            &&& session::is_sampling_interval(period)
            &&& #[trigger] session::entered(
                before,
                resolution,
                current_pgid,
                config.throttle,
                units,
                period,
                reporter,
                after,
                result,
            )
        };
    law_when_a_session_begins(
        before,
        resolution,
        current_pgid,
        config.throttle,
        units,
        period,
        reporter,
        after,
        result,
    );
    if result is Ok {
        let (lookup, uid) = choose|lookup: Result<BsdInfo, IoFault>, uid: u32| #[trigger]
            bsd_info.ensures((config.pid,), lookup) && recon::is_current_uid(uid)
                && #[trigger] recon::resolved(config.pid, lookup, uid, resolution);
        recon::law_when_a_target_is_found(config.pid, lookup, uid, resolution);
        assert(bsd_info.ensures((config.pid,), Ok(lookup->Ok_0)));
    }
}

} // verus!
