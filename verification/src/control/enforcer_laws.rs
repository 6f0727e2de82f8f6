//! What holds of every application of a decision, whatever the outside world answers.

use crate::control::enforcer::{self, ActionView, EnforceModel, EventView, StageView};
use crate::control::fault::{FaultKind, FaultView};
use crate::control::span::Span;
use crate::control::types::JobSignal;
use vstd::prelude::*;

verus! {

/// The outside world as far as an application changes it.
pub struct Host {
    /// The group that the shared state records as stopped.
    pub recorded: Option<i32>,
    /// Whether the target was stopped and not yet resumed, as a whole or member by member.
    pub stopped: bool,
    /// The listed members that were not resumed yet.
    pub unresumed: Seq<i32>,
    /// The time slept so far.
    pub slept: nat,
    /// The stop signals for the group that were answered well.
    pub stop_signals: nat,
    /// The last fault that a signal for the group was answered with.
    pub group_fault: Option<FaultView>,
}

/// The world after the action led to the event.
pub open spec fn host_next(host: Host, action: ActionView, event: EventView) -> Host {
    match (action, event) {
        (ActionView::RecordStopped(pgid), EventView::Recorded(Ok(_))) => Host {
            recorded: Some(pgid),
            ..host
        },
        (ActionView::ClearStopped, EventView::Cleared) => Host { recorded: None, ..host },
        (ActionView::SendGroup(_, JobSignal::Stop), EventView::Sent(Ok(_))) => Host {
            stopped: true,
            stop_signals: host.stop_signals + 1,
            ..host
        },
        (ActionView::SendGroup(_, JobSignal::Continue), EventView::Sent(Ok(_))) => Host {
            stopped: false,
            ..host
        },
        (ActionView::SendGroup(_, _), EventView::Sent(Err(fault))) => Host {
            group_fault: Some(fault),
            ..host
        },
        (ActionView::ListMembers(_), EventView::Members(Ok(pids))) => Host {
            unresumed: pids,
            stopped: host.stopped && pids.len() > 0,
            ..host
        },
        (ActionView::SendProcess(_, JobSignal::Continue), EventView::Sent(Ok(_))) => Host {
            unresumed: host.unresumed.drop_first(),
            stopped: host.stopped && host.unresumed.len() > 1,
            ..host
        },
        (ActionView::Sleep(slice), EventView::Slept) => Host {
            slept: host.slept + slice.nanos as nat,
            ..host
        },
        _ => host,
    }
}

/// An application together with the action it has asked for and the world.
pub struct EnforceRun {
    pub model: EnforceModel,
    pub action: ActionView,
    pub host: Host,
}

/// The start of an application with `recorded` in the shared state.
pub open spec fn run_start(pgid: i32, stop_duration: Span, recorded: Option<i32>) -> EnforceRun {
    EnforceRun {
        model: enforcer::enforce_start(pgid, stop_duration).0,
        action: enforcer::enforce_start(pgid, stop_duration).1,
        host: Host {
            recorded,
            stopped: false,
            unresumed: seq![],
            slept: 0,
            stop_signals: 0,
            group_fault: None,
        },
    }
}

pub open spec fn run_next(run: EnforceRun, event: EventView) -> EnforceRun {
    EnforceRun {
        model: enforcer::enforce_next(run.model, event).0,
        action: enforcer::enforce_next(run.model, event).1,
        host: host_next(run.host, run.action, event),
    }
}

/// The application after these events.
pub open spec fn run_after(start: EnforceRun, events: Seq<EventView>) -> EnforceRun
    decreases events.len(),
{
    if events.len() == 0 {
        start
    } else {
        run_next(run_after(start, events.drop_last()), events.last())
    }
}

/// Whether each event answers the action that was asked for.
pub open spec fn answers(start: EnforceRun, events: Seq<EventView>) -> bool
    decreases events.len(),
{
    events.len() > 0 ==> {
        &&& answers(start, events.drop_last())
        &&& enforcer::awaits(run_after(start, events.drop_last()).model.stage, events.last())
    }
}

/// What every point of an application has in common.
spec fn sound(pgid: i32, stop_duration: Span, recorded: Option<i32>, run: EnforceRun) -> bool {
    let host = run.host;
    let remaining = run.model.remaining;
    let before_stop = !host.stopped && host.stop_signals == 0 && host.slept == 0;
    let held = host.stopped && host.stop_signals == 1 && host.recorded == Some(pgid);
    &&& run.model.pgid == pgid
    &&& match run.model.stage {
        StageView::Deciding => {
            &&& run.action == ActionView::PollStop
            &&& before_stop
            &&& host.recorded == recorded
            &&& host.group_fault is None
            &&& remaining.nanos > 0
        },
        StageView::Recording => {
            &&& run.action == ActionView::RecordStopped(pgid)
            &&& before_stop
            &&& host.recorded == recorded
            &&& host.group_fault is None
            &&& remaining.nanos > 0
        },
        StageView::Stopping => {
            &&& run.action == ActionView::SendGroup(pgid, JobSignal::Stop)
            &&& before_stop
            &&& host.recorded == Some(pgid)
            &&& host.group_fault is None
            &&& remaining.nanos > 0
        },
        StageView::Undoing(fault) => {
            &&& run.action == ActionView::ClearStopped
            &&& before_stop
            &&& host.recorded == Some(pgid)
            &&& host.group_fault == Some(fault)
        },
        StageView::Polling => {
            &&& run.action == ActionView::PollStop
            &&& held
            &&& host.group_fault is None
            &&& remaining.nanos > 0
        },
        StageView::Sleeping => {
            &&& run.action matches ActionView::Sleep(slice)
            &&& held
            &&& host.group_fault is None
            &&& host.slept + slice.nanos + remaining.nanos == stop_duration.nanos
        },
        StageView::Resuming => {
            &&& run.action == ActionView::SendGroup(pgid, JobSignal::Continue)
            &&& held
            &&& host.group_fault is None
        },
        StageView::Listing(fault) => {
            &&& run.action == ActionView::ListMembers(pgid)
            &&& held
            &&& host.group_fault == Some(fault)
        },
        StageView::ResumingMember(fault, pids, next) => {
            &&& 0 <= next < pids.len()
            &&& run.action == ActionView::SendProcess(pids[next], JobSignal::Continue)
            &&& held
            &&& host.group_fault == Some(fault)
            &&& host.unresumed == pids.skip(next)
        },
        StageView::Clearing => {
            &&& run.action == ActionView::ClearStopped
            &&& host.recorded == Some(pgid)
            &&& !host.stopped
            &&& host.stop_signals == 1
        },
        StageView::Finished => {
            &&& run.action matches ActionView::Finish(outcome)
            &&& host.stopped ==> host.recorded == Some(pgid)
            &&& outcome is Ok ==> !host.stopped && (host.recorded == recorded || host.recorded
                == None::<i32>)
            &&& host.stop_signals <= 1
            &&& host.slept > 0 ==> host.stop_signals == 1
        },
    }
    &&& !(run.model.stage is Sleeping) ==> host.slept + remaining.nanos == stop_duration.nanos
}

proof fn lemma_next_sound(
    pgid: i32,
    stop_duration: Span,
    recorded: Option<i32>,
    run: EnforceRun,
    event: EventView,
)
    requires
        sound(pgid, stop_duration, recorded, run),
        enforcer::awaits(run.model.stage, event),
    ensures
        sound(pgid, stop_duration, recorded, run_next(run, event)),
{
    match (run.model.stage, event) {
        (StageView::Listing(_), EventView::Members(Ok(pids))) => {
            assert(pids.skip(0) =~= pids);
        },
        (StageView::ResumingMember(_, pids, next), EventView::Sent(Ok(_))) => {
            assert(pids.skip(next).drop_first() =~= pids.skip(next + 1));
        },
        _ => {},
    }
}

proof fn lemma_run_sound(
    pgid: i32,
    stop_duration: Span,
    recorded: Option<i32>,
    events: Seq<EventView>,
)
    requires
        answers(run_start(pgid, stop_duration, recorded), events),
    ensures
        sound(
            pgid,
            stop_duration,
            recorded,
            run_after(run_start(pgid, stop_duration, recorded), events),
        ),
    decreases events.len(),
{
    if events.len() > 0 {
        lemma_run_sound(pgid, stop_duration, recorded, events.drop_last());
        lemma_next_sound(
            pgid,
            stop_duration,
            recorded,
            run_after(run_start(pgid, stop_duration, recorded), events.drop_last()),
            events.last(),
        );
    }
}

/// A group that was stopped and not resumed is on record as stopped, at every point of an
/// application and after it, so that it can be resumed later.
pub proof fn law_stopped_group_is_on_record(
    pgid: i32,
    stop_duration: Span,
    recorded: Option<i32>,
    events: Seq<EventView>,
)
    requires
        answers(run_start(pgid, stop_duration, recorded), events),
    ensures
        ({
            let host = run_after(run_start(pgid, stop_duration, recorded), events).host;
            host.stopped ==> host.recorded == Some(pgid)
        }),
{
    lemma_run_sound(pgid, stop_duration, recorded, events);
}

/// The group is on record as stopped before the stop signal is sent.
pub proof fn law_record_precedes_stop(
    pgid: i32,
    stop_duration: Span,
    recorded: Option<i32>,
    events: Seq<EventView>,
)
    requires
        answers(run_start(pgid, stop_duration, recorded), events),
    ensures
        ({
            let run = run_after(run_start(pgid, stop_duration, recorded), events);
            run.action == ActionView::SendGroup(pgid, JobSignal::Stop) ==> run.host.recorded
                == Some(pgid)
        }),
{
    lemma_run_sound(pgid, stop_duration, recorded, events);
}

/// An application that succeeds leaves the group running, and leaves no record of a
/// stopped group that it found none of.
pub proof fn law_success_leaves_group_running(
    pgid: i32,
    stop_duration: Span,
    recorded: Option<i32>,
    events: Seq<EventView>,
)
    requires
        answers(run_start(pgid, stop_duration, recorded), events),
    ensures
        ({
            let run = run_after(run_start(pgid, stop_duration, recorded), events);
            run.action matches ActionView::Finish(Ok(_)) ==> !run.host.stopped && (
            run.host.recorded == recorded || run.host.recorded == None::<i32>)
        }),
{
    lemma_run_sound(pgid, stop_duration, recorded, events);
}

/// Signals go to the target group and its listed members alone, and no member is ever
/// stopped by itself.
pub proof fn law_only_the_target_is_signalled(
    pgid: i32,
    stop_duration: Span,
    recorded: Option<i32>,
    events: Seq<EventView>,
)
    requires
        answers(run_start(pgid, stop_duration, recorded), events),
    ensures
        ({
            let run = run_after(run_start(pgid, stop_duration, recorded), events);
            &&& run.action matches ActionView::SendGroup(signalled, _) ==> signalled == pgid
            &&& run.action matches ActionView::SendProcess(pid, signal) ==> signal
                == JobSignal::Continue && run.host.unresumed.len() > 0 && pid
                == run.host.unresumed.first()
        }),
{
    lemma_run_sound(pgid, stop_duration, recorded, events);
}

/// The time slept with the group stopped never exceeds the time decided on.
pub proof fn law_stop_is_no_longer_than_decided(
    pgid: i32,
    stop_duration: Span,
    recorded: Option<i32>,
    events: Seq<EventView>,
)
    requires
        answers(run_start(pgid, stop_duration, recorded), events),
    ensures
        run_after(run_start(pgid, stop_duration, recorded), events).host.slept
            <= stop_duration.nanos,
{
    lemma_run_sound(pgid, stop_duration, recorded, events);
}

/// Whether no poll was answered with a request to stop.
pub open spec fn never_told_to_stop(events: Seq<EventView>) -> bool {
    forall|i: int| 0 <= i < events.len() ==> #[trigger] events[i] != EventView::StopPolled(true)
}

proof fn lemma_resumes_when_time_is_up(
    pgid: i32,
    stop_duration: Span,
    recorded: Option<i32>,
    events: Seq<EventView>,
)
    requires
        answers(run_start(pgid, stop_duration, recorded), events),
        never_told_to_stop(events),
    ensures
        ({
            let run = run_after(run_start(pgid, stop_duration, recorded), events);
            match run.model.stage {
                StageView::Resuming
                | StageView::Listing(_)
                | StageView::ResumingMember(_, _, _)
                | StageView::Clearing => run.model.remaining.nanos == 0,
                StageView::Finished => run.action matches ActionView::Finish(Ok(_))
                    ==> run.model.remaining.nanos == 0,
                _ => true,
            }
        }),
    decreases events.len(),
{
    if events.len() > 0 {
        let before = events.drop_last();
        assert forall|i: int| 0 <= i < before.len() implies #[trigger] before[i]
            != EventView::StopPolled(true) by {
            assert(before[i] == events[i]);
        }
        lemma_resumes_when_time_is_up(pgid, stop_duration, recorded, before);
        lemma_run_sound(pgid, stop_duration, recorded, before);
        assert(events[events.len() - 1] != EventView::StopPolled(true));
    }
}

/// An application that is never told to stop has slept for exactly the time decided on
/// when it lets the group run again, and when it ends well.
pub proof fn law_uninterrupted_stop_is_as_long_as_decided(
    pgid: i32,
    stop_duration: Span,
    recorded: Option<i32>,
    events: Seq<EventView>,
)
    requires
        answers(run_start(pgid, stop_duration, recorded), events),
        never_told_to_stop(events),
    ensures
        ({
            let run = run_after(run_start(pgid, stop_duration, recorded), events);
            match run.action {
                ActionView::SendGroup(_, JobSignal::Continue)
                | ActionView::Finish(Ok(_)) => run.host.slept == stop_duration.nanos,
                _ => true,
            }
        }),
{
    lemma_resumes_when_time_is_up(pgid, stop_duration, recorded, events);
    lemma_run_sound(pgid, stop_duration, recorded, events);
}

/// A decision not to stop sends nothing and changes nothing.
pub proof fn law_zero_decision_does_nothing(pgid: i32, recorded: Option<i32>)
    ensures
        ({
            let run = run_start(pgid, Span { nanos: 0 }, recorded);
            &&& run.action == ActionView::Finish(Ok(()))
            &&& forall|events: Seq<EventView>| #[trigger] answers(run, events) ==> events.len() == 0
        }),
{
    let run = run_start(pgid, Span { nanos: 0 }, recorded);
    assert forall|events: Seq<EventView>| #[trigger] answers(run, events) implies events.len()
        == 0 by {
        lemma_finished_stays(run, events);
    }
}

proof fn lemma_finished_stays(run: EnforceRun, events: Seq<EventView>)
    requires
        run.model.stage is Finished,
        answers(run, events),
    ensures
        events.len() == 0,
    decreases events.len(),
{
    if events.len() > 0 {
        lemma_finished_stays(run, events.drop_last());
        assert(events.drop_last().len() == 0);
    }
}

/// How far a stage is from the end.
pub open spec fn stage_rank(stage: StageView) -> nat {
    match stage {
        StageView::Deciding => 8,
        StageView::Recording => 7,
        StageView::Stopping => 6,
        StageView::Polling | StageView::Sleeping => 5,
        StageView::Resuming => 4,
        StageView::Listing(_) => 3,
        StageView::ResumingMember(_, _, _) => 2,
        StageView::Undoing(_) | StageView::Clearing => 1,
        StageView::Finished => 0,
    }
}

/// What is left to do within a stage.
pub open spec fn stage_rest(model: EnforceModel) -> int {
    match model.stage {
        StageView::Polling => 2 * model.remaining.nanos + 1,
        StageView::Sleeping => 2 * model.remaining.nanos + 2,
        StageView::ResumingMember(_, pids, next) => pids.len() - next,
        _ => 0,
    }
}

/// Every answer brings an application nearer to its end, so it always ends.
pub proof fn law_application_ends(
    pgid: i32,
    stop_duration: Span,
    recorded: Option<i32>,
    events: Seq<EventView>,
    event: EventView,
)
    requires
        answers(run_start(pgid, stop_duration, recorded), events.push(event)),
    ensures
        ({
            let start = run_start(pgid, stop_duration, recorded);
            let before = run_after(start, events).model;
            let after = run_after(start, events.push(event)).model;
            ||| stage_rank(after.stage) < stage_rank(before.stage)
            ||| stage_rank(after.stage) == stage_rank(before.stage) && 0 <= stage_rest(after)
                < stage_rest(before)
        }),
{
    assert(events.push(event).drop_last() =~= events);
    lemma_run_sound(pgid, stop_duration, recorded, events);
}

/// The group is only slept on while it is stopped: whenever the program is told to sleep, the
/// stop signal was sent and answered well, once, the group was not resumed since, and it is
/// on record as stopped.
pub proof fn law_sleeps_only_while_the_group_is_stopped(
    pgid: i32,
    stop_duration: Span,
    recorded: Option<i32>,
    events: Seq<EventView>,
    slice: Span,
)
    requires
        answers(run_start(pgid, stop_duration, recorded), events),
        run_after(run_start(pgid, stop_duration, recorded), events).action == ActionView::Sleep(
            slice,
        ),
    ensures
        ({
            let host = run_after(run_start(pgid, stop_duration, recorded), events).host;
            &&& host.stopped
            &&& host.stop_signals == 1
            &&& host.recorded == Some(pgid)
            &&& 0 < slice.nanos <= 10_000_000
            &&& host.slept + slice.nanos <= stop_duration.nanos
        }),
{
    lemma_run_sound(pgid, stop_duration, recorded, events);
    lemma_run_sound(pgid, stop_duration, recorded, events.drop_last());
}

/// The group is never stopped twice. A decision to stop that is carried out without a request
/// to stop sends the stop signal once; a decision not to stop sends none.
pub proof fn law_the_group_is_stopped_once(
    pgid: i32,
    stop_duration: Span,
    recorded: Option<i32>,
    events: Seq<EventView>,
)
    requires
        answers(run_start(pgid, stop_duration, recorded), events),
    ensures
        ({
            let run = run_after(run_start(pgid, stop_duration, recorded), events);
            &&& run.host.stop_signals <= 1
            &&& run.host.slept > 0 ==> run.host.stop_signals == 1
            &&& stop_duration.nanos == 0 ==> run.host.stop_signals == 0
            &&& run.action matches ActionView::Finish(Ok(_)) ==> (stop_duration.nanos > 0
                && never_told_to_stop(events) ==> run.host.stop_signals == 1)
        }),
{
    lemma_run_sound(pgid, stop_duration, recorded, events);
    if stop_duration.nanos == 0 {
        lemma_finished_stays(run_start(pgid, stop_duration, recorded), events);
    }
    if never_told_to_stop(events) {
        law_uninterrupted_stop_is_as_long_as_decided(pgid, stop_duration, recorded, events);
    }
}

/// The fault of a group that was refused the signal to run again, where one of its members
/// was too: it names both.
pub open spec fn names_both(
    fault: FaultView,
    group_fault: FaultView,
    member_fault: FaultView,
) -> bool {
    &&& fault.kind == FaultKind::Other
    &&& fault.message == "failed to resume target group: "@ + group_fault.message
        + "; fallback resume by pid failed: "@ + member_fault.message
}

/// What comes next, told from outside: from the action that was asked for, what it led to,
/// and what happened to the group before.
pub open spec fn follows(
    pgid: i32,
    stop_duration: Span,
    action: ActionView,
    event: EventView,
    host: Host,
    next: ActionView,
) -> bool {
    match (action, event) {
        // Nothing is done any more once a stop is requested, but to let the group run.
        (ActionView::PollStop, EventView::StopPolled(true)) => if host.stop_signals == 0 {
            next == ActionView::Finish(Ok(()))
        } else {
            next == ActionView::SendGroup(pgid, JobSignal::Continue)
        },
        (ActionView::PollStop, EventView::StopPolled(false)) => if host.stop_signals == 0 {
            next == ActionView::RecordStopped(pgid)
        } else {
            &&& next matches ActionView::Sleep(slice)
            &&& slice.nanos == if stop_duration.nanos - host.slept <= 10_000_000 {
                stop_duration.nanos - host.slept
            } else {
                10_000_000
            }
        },
        (ActionView::RecordStopped(_), EventView::Recorded(Ok(_))) => next
            == ActionView::SendGroup(pgid, JobSignal::Stop),
        (ActionView::RecordStopped(_), EventView::Recorded(Err(fault))) => next
            == ActionView::Finish(Err(fault)),
        (ActionView::SendGroup(_, JobSignal::Stop), EventView::Sent(Ok(_))) => next
            == ActionView::PollStop,
        (ActionView::SendGroup(_, JobSignal::Stop), EventView::Sent(Err(_))) => next
            == ActionView::ClearStopped,
        (ActionView::Sleep(slice), EventView::Slept) => if host.slept + slice.nanos
            < stop_duration.nanos {
            next == ActionView::PollStop
        } else {
            next == ActionView::SendGroup(pgid, JobSignal::Continue)
        },
        (ActionView::SendGroup(_, JobSignal::Continue), EventView::Sent(Ok(_))) => next
            == ActionView::ClearStopped,
        (ActionView::SendGroup(_, JobSignal::Continue), EventView::Sent(Err(_))) => next
            == ActionView::ListMembers(pgid),
        (ActionView::ListMembers(_), EventView::Members(Err(fault))) => next
            == ActionView::Finish(Err(fault)),
        (ActionView::ListMembers(_), EventView::Members(Ok(pids))) => if pids.len() == 0 {
            next == ActionView::ClearStopped
        } else {
            next == ActionView::SendProcess(pids[0], JobSignal::Continue)
        },
        (ActionView::SendProcess(_, _), EventView::Sent(Ok(_))) => if host.unresumed.len() == 1 {
            next == ActionView::ClearStopped
        } else {
            next == ActionView::SendProcess(host.unresumed[1], JobSignal::Continue)
        },
        (ActionView::SendProcess(_, _), EventView::Sent(Err(fault))) => {
            &&& next matches ActionView::Finish(Err(both))
            &&& host.group_fault matches Some(group_fault)
            &&& names_both(both, group_fault, fault)
        },
        // The record is cleared when the group runs again, or when it could not be stopped.
        (ActionView::ClearStopped, EventView::Cleared) => if host.stop_signals == 1 {
            next == ActionView::Finish(Ok(()))
        } else {
            &&& host.group_fault matches Some(group_fault)
            &&& next == ActionView::Finish(Err(group_fault))
        },
        _ => false,
    }
}

/// An application goes its way step by step: it begins with a poll, unless there is nothing
/// to do, and each answer leads to the action that the outside world can expect of it.
pub proof fn law_each_answer_leads_on(
    pgid: i32,
    stop_duration: Span,
    recorded: Option<i32>,
    events: Seq<EventView>,
    event: EventView,
)
    requires
        answers(run_start(pgid, stop_duration, recorded), events.push(event)),
    ensures
        ({
            let start = run_start(pgid, stop_duration, recorded);
            let before = run_after(start, events);
            let after = run_after(start, events.push(event));
            &&& start.action == ActionView::PollStop
            &&& stop_duration.nanos > 0
            &&& follows(pgid, stop_duration, before.action, event, before.host, after.action)
        }),
{
    let start = run_start(pgid, stop_duration, recorded);
    assert(events.push(event).drop_last() =~= events);
    lemma_run_sound(pgid, stop_duration, recorded, events);
    if stop_duration.nanos == 0 {
        lemma_finished_stays(start, events.push(event));
    }
    match (run_after(start, events).model.stage, event) {
        (StageView::ResumingMember(_, pids, next), EventView::Sent(Ok(_))) => {
            assert(pids.skip(next).len() == pids.len() - next);
            if next + 1 < pids.len() {
                assert(pids.skip(next)[1] == pids[next + 1]);
            }
        },
        _ => {},
    }
}

/// A decision to stop begins with a poll, however short the stop; one not to stop ends at
/// once.
pub proof fn law_every_stop_is_begun(pgid: i32, stop_duration: Span, recorded: Option<i32>)
    ensures
        run_start(pgid, stop_duration, recorded).action == if stop_duration.nanos > 0 {
            ActionView::PollStop
        } else {
            ActionView::Finish(Ok(()))
        },
{
}

/// Whether the event is an answer to the action.
pub open spec fn is_answer(action: ActionView, event: EventView) -> bool {
    match action {
        ActionView::PollStop => event is StopPolled,
        ActionView::RecordStopped(_) => event is Recorded,
        ActionView::SendGroup(_, _) | ActionView::SendProcess(_, _) => event is Sent,
        ActionView::Sleep(_) => event is Slept,
        ActionView::ListMembers(_) => event is Members,
        ActionView::ClearStopped => event is Cleared,
        ActionView::Finish(_) => false,
    }
}

/// Whatever the action that was asked for leads to is taken in, and nothing else.
pub proof fn law_every_answer_is_taken_in(
    pgid: i32,
    stop_duration: Span,
    recorded: Option<i32>,
    events: Seq<EventView>,
    event: EventView,
)
    requires
        answers(run_start(pgid, stop_duration, recorded), events),
    ensures
        ({
            let start = run_start(pgid, stop_duration, recorded);
            answers(start, events.push(event)) <==> is_answer(
                run_after(start, events).action,
                event,
            )
        }),
{
    assert(events.push(event).drop_last() =~= events);
    lemma_run_sound(pgid, stop_duration, recorded, events);
}

} // verus!
