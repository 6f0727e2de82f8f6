//! Stopping the target for part of a period and letting it run again.
//!
//! An application of a decision alternates with the outside world: it records, signals,
//! sleeps and lists. [`Enforcement`] decides what comes next; the program performs each
//! [`EnforceAction`] and hands back the [`EnforceEvent`] it led to.

use crate::control::fault::{self, join_faults, FaultKind, FaultView, IoFault};
use crate::control::span::{self, Span};
use crate::control::types::{ControlDecision, JobSignal, TargetGroup};
use crate::control::wait::{self, PollWait};
use vstd::prelude::*;

verus! {

/// Why a signal was not delivered.
#[derive(Debug, PartialEq, Eq)]
pub enum SendFault {
    /// Nothing is left to signal.
    NoSuchProcess,
    /// The system refused; it says why.
    Refused(String),
}

/// What an attempt to signal comes to: a target that is gone needs no signal.
pub open spec fn sent_view(attempt: Result<(), SendFault>) -> Result<(), FaultView> {
    match attempt {
        Ok(_) => Ok(()),
        Err(SendFault::NoSuchProcess) => Ok(()),
        Err(SendFault::Refused(reason)) => Err(fault::other_fault(reason@)),
    }
}

/// Judges an attempt to signal.
pub fn forgive_missing(attempt: Result<(), SendFault>) -> (outcome: Result<(), IoFault>)
    ensures
        fault::outcome_view(outcome) == sent_view(attempt),
{
    match attempt {
        Ok(()) => Ok(()),
        Err(SendFault::NoSuchProcess) => Ok(()),
        Err(SendFault::Refused(reason)) => Err(IoFault::other(reason.as_str())),
    }
}

/// Calls `nix::sys::signal::killpg`. Whether the signal is delivered is up to the system,
/// so nothing is claimed of the answer.
#[verifier::external_body]
fn system_killpg(pgid: i32, signal: JobSignal) -> (attempt: Result<(), SendFault>) {
    let signal = match signal {
        JobSignal::Stop => nix::sys::signal::Signal::SIGSTOP,
        JobSignal::Continue => nix::sys::signal::Signal::SIGCONT,
    };
    match nix::sys::signal::killpg(nix::unistd::Pid::from_raw(pgid), signal) {
        Ok(()) => Ok(()),
        Err(nix::errno::Errno::ESRCH) => Err(SendFault::NoSuchProcess),
        Err(errno) => Err(SendFault::Refused(errno.to_string())),
    }
}

/// Calls `nix::sys::signal::kill`. Whether the signal is delivered is up to the system, so
/// nothing is claimed of the answer.
#[verifier::external_body]
fn system_kill(pid: i32, signal: JobSignal) -> (attempt: Result<(), SendFault>) {
    let signal = match signal {
        JobSignal::Stop => nix::sys::signal::Signal::SIGSTOP,
        JobSignal::Continue => nix::sys::signal::Signal::SIGCONT,
    };
    match nix::sys::signal::kill(nix::unistd::Pid::from_raw(pid), signal) {
        Ok(()) => Ok(()),
        Err(nix::errno::Errno::ESRCH) => Err(SendFault::NoSuchProcess),
        Err(errno) => Err(SendFault::Refused(errno.to_string())),
    }
}

/// Whether this is an answer of the system to the signal for the group.
pub closed spec fn killpg_answers(
    pgid: i32,
    signal: JobSignal,
    attempt: Result<(), SendFault>,
) -> bool {
    system_killpg.ensures((pgid, signal), attempt)
}

/// Whether this is an answer of the system to the signal for the process.
pub closed spec fn kill_answers(
    pid: i32,
    signal: JobSignal,
    attempt: Result<(), SendFault>,
) -> bool {
    system_kill.ensures((pid, signal), attempt)
}

/// Signals a process group.
pub fn send_group_signal(pgid: i32, signal: JobSignal) -> (outcome: Result<(), IoFault>)
    ensures
        exists|attempt: Result<(), SendFault>| #[trigger]
            killpg_answers(pgid, signal, attempt) && fault::outcome_view(outcome) == sent_view(
                attempt,
            ),
{
    let attempt = system_killpg(pgid, signal);
    assert(killpg_answers(pgid, signal, attempt));
    forgive_missing(attempt)
}

/// Signals a process.
pub fn send_process_signal(pid: i32, signal: JobSignal) -> (outcome: Result<(), IoFault>)
    ensures
        exists|attempt: Result<(), SendFault>| #[trigger]
            kill_answers(pid, signal, attempt) && fault::outcome_view(outcome) == sent_view(
                attempt,
            ),
{
    let attempt = system_kill(pid, signal);
    assert(kill_answers(pid, signal, attempt));
    forgive_missing(attempt)
}

/// The fault of a group that could be resumed neither as a whole nor member by member.
pub open spec fn resume_fault(group_fault: FaultView, pid_fault: FaultView) -> FaultView {
    fault::double_fault(
        "failed to resume target group: "@,
        group_fault,
        "; fallback resume by pid failed: "@,
        pid_fault,
    )
}

pub fn combine_resume_errors(group_fault: &IoFault, pid_fault: &IoFault) -> (fault: IoFault)
    ensures
        fault@ == resume_fault(group_fault@, pid_fault@),
{
    join_faults(
        "failed to resume target group: ",
        group_fault,
        "; fallback resume by pid failed: ",
        pid_fault,
    )
}

/// The world when so many signals were answered.
pub open spec fn world_at<W>(before: W, worlds: Seq<W>, count: int) -> W {
    if count <= 0 {
        before
    } else {
        worlds[count - 1]
    }
}

/// What resuming processes one by one did from the world `before` on, call by call: it
/// signalled each of `pids` once, in order, and stopped at the first that could not be
/// signalled. `worlds` are the worlds after the signals that were answered well.
pub open spec fn members_signalled<
    W,
    S: FnMut(W, i32, JobSignal) -> (Result<(), IoFault>, W),
>(
    pids: Seq<i32>,
    before: W,
    send_process: S,
    worlds: Seq<W>,
    resumption: (Result<(), IoFault>, W),
) -> bool {
    let count = worlds.len() as int;
    let last = world_at(before, worlds, count);
    &&& count <= pids.len()
    &&& forall|i: int|
        0 <= i < count ==> send_process.ensures(
            (world_at(before, worlds, i), pids[i], JobSignal::Continue),
            (Ok(()), #[trigger] worlds[i]),
        )
    &&& if count == pids.len() {
        resumption == (Ok::<(), IoFault>(()), last)
    } else {
        &&& resumption.0 is Err
        &&& send_process.ensures((last, pids[count], JobSignal::Continue), resumption)
    }
}

/// Whether resuming the processes one by one can come to this.
pub open spec fn members_resumed<W, S: FnMut(W, i32, JobSignal) -> (Result<(), IoFault>, W)>(
    pids: Seq<i32>,
    before: W,
    send_process: S,
    resumption: (Result<(), IoFault>, W),
) -> bool {
    exists|worlds: Seq<W>| #[trigger]
        members_signalled(pids, before, send_process, worlds, resumption)
}

/// Whether `send_process` can be called to resume each of the processes.
pub open spec fn can_resume_members<W, S: FnMut(W, i32, JobSignal) -> (Result<(), IoFault>, W)>(
    pids: Seq<i32>,
    send_process: S,
) -> bool {
    forall|world: W, i: int|
        0 <= i < pids.len() ==> #[trigger] send_process.requires(
            (world, pids[i], JobSignal::Continue),
        )
}

/// Applies decisions to the target.
#[derive(Clone, Copy, Debug, Default, PartialEq, Eq, Structural)]
pub struct Enforcer {}

impl Enforcer {
    pub fn new() -> (enforcer: Enforcer)
        ensures
            enforcer == (Enforcer {  }),
    {
        Enforcer {  }
    }

    /// Lets the group run again.
    pub fn resume_group<W, S: FnOnce(W, i32, JobSignal) -> (Result<(), IoFault>, W)>(
        &self,
        pgid: i32,
        world: W,
        send_group: S,
    ) -> (resumption: (Result<(), IoFault>, W))
        requires
            send_group.requires((world, pgid, JobSignal::Continue)),
        ensures
            send_group.ensures((world, pgid, JobSignal::Continue), resumption),
    {
        send_group(world, pgid, JobSignal::Continue)
    }

    /// Lets the processes run again, up to the first that cannot be signalled. The world is
    /// handed from call to call, which fixes the calls and their order.
    pub fn resume_pids<W, S: FnMut(W, i32, JobSignal) -> (Result<(), IoFault>, W)>(
        &self,
        pids: &[i32],
        world: W,
        send_process: S,
    ) -> (resumption: (Result<(), IoFault>, W))
        requires
            can_resume_members(pids@, send_process),
        ensures
            members_resumed(pids@, world, send_process, resumption),
    {
        broadcast use vstd::function::group_function_axioms;

        let ghost before = world;
        let mut now = world;
        let mut send = send_process;
        let ghost mut worlds: Seq<W> = seq![];
        let mut i: usize = 0;
        while i < pids.len()
            invariant
                before == world,
                send == send_process,
                can_resume_members(pids@, send_process),
                i <= pids.len(),
                worlds.len() == i,
                now == world_at(before, worlds, i as int),
                forall|j: int|
                    0 <= j < i ==> send_process.ensures(
                        (world_at(before, worlds, j), pids@[j], JobSignal::Continue),
                        (Ok(()), #[trigger] worlds[j]),
                    ),
            decreases pids.len() - i,
        {
            let ghost last = now;
            let ghost so_far = worlds;
            let resumption = send(now, pids[i], JobSignal::Continue);
            assert(send_process.ensures((last, pids@[i as int], JobSignal::Continue), resumption));
            if resumption.0.is_err() {
                assert(members_signalled(pids@, before, send_process, worlds, resumption));
                return resumption;
            }
            assert(resumption.0->Ok_0 == ());
            now = resumption.1;
            proof {
                worlds = worlds.push(now);
                assert(send_process.ensures(
                    (last, pids@[i as int], JobSignal::Continue),
                    (Ok(()), now),
                ));
                assert forall|j: int| 0 <= j < worlds.len() implies send_process.ensures(
                    (world_at(before, worlds, j), pids@[j], JobSignal::Continue),
                    (Ok(()), #[trigger] worlds[j]),
                ) by {
                    assert(world_at(before, worlds, j) == world_at(before, so_far, j));
                    if j < so_far.len() {
                        assert(worlds[j] == so_far[j]);
                    }
                }
            }
            i = i + 1;
        }
        let resumption = (Ok(()), now);
        assert(members_signalled(pids@, before, send_process, worlds, resumption));
        resumption
    }
}

/// What the program is to do next.
#[derive(Debug)]
pub enum EnforceAction {
    /// Ask whether a stop of the control loop was requested.
    PollStop,
    /// Record the group as stopped in the shared state.
    RecordStopped(i32),
    /// Signal the group.
    SendGroup(i32, JobSignal),
    /// Sleep.
    Sleep(Span),
    /// List the live members of the group.
    ListMembers(i32),
    /// Signal a process.
    SendProcess(i32, JobSignal),
    /// Record in the shared state that no group is stopped.
    ClearStopped,
    /// Nothing more: this came of it.
    Finish(Result<(), IoFault>),
}

/// What came of an action.
#[derive(Debug)]
pub enum EnforceEvent {
    StopPolled(bool),
    Recorded(Result<(), IoFault>),
    Sent(Result<(), IoFault>),
    Slept,
    Members(Result<Vec<i32>, IoFault>),
    Cleared,
}

/// How far an application of a decision has come.
#[derive(Debug)]
pub enum EnforceStage {
    /// Before anything was done, with the stop request being polled.
    Deciding,
    Recording,
    Stopping,
    /// The group could not be stopped; its record is being undone.
    Undoing(IoFault),
    /// The group is stopped, with the stop request being polled.
    Polling,
    /// The group is stopped, and the program asleep.
    Sleeping,
    Resuming,
    /// The group could not be resumed as a whole.
    Listing(IoFault),
    /// Its members are being resumed one by one, from the index on.
    ResumingMember(IoFault, Vec<i32>, usize),
    Clearing,
    Finished,
}

/// The application of one decision.
#[derive(Debug)]
pub struct Enforcement {
    pub pgid: i32,
    pub wait: PollWait,
    pub stage: EnforceStage,
}

#[verifier::ext_equal]
pub enum ActionView {
    PollStop,
    RecordStopped(i32),
    SendGroup(i32, JobSignal),
    Sleep(Span),
    ListMembers(i32),
    SendProcess(i32, JobSignal),
    ClearStopped,
    Finish(Result<(), FaultView>),
}

#[verifier::ext_equal]
pub enum EventView {
    StopPolled(bool),
    Recorded(Result<(), FaultView>),
    Sent(Result<(), FaultView>),
    Slept,
    Members(Result<Seq<i32>, FaultView>),
    Cleared,
}

#[verifier::ext_equal]
pub enum StageView {
    Deciding,
    Recording,
    Stopping,
    Undoing(FaultView),
    Polling,
    Sleeping,
    Resuming,
    Listing(FaultView),
    ResumingMember(FaultView, Seq<i32>, int),
    Clearing,
    Finished,
}

/// An application of a decision, as mathematical values.
#[verifier::ext_equal]
pub struct EnforceModel {
    pub pgid: i32,
    pub remaining: Span,
    pub stage: StageView,
}

impl View for EnforceAction {
    type V = ActionView;

    open spec fn view(&self) -> ActionView {
        match *self {
            EnforceAction::PollStop => ActionView::PollStop,
            EnforceAction::RecordStopped(pgid) => ActionView::RecordStopped(pgid),
            EnforceAction::SendGroup(pgid, signal) => ActionView::SendGroup(pgid, signal),
            EnforceAction::Sleep(span) => ActionView::Sleep(span),
            EnforceAction::ListMembers(pgid) => ActionView::ListMembers(pgid),
            EnforceAction::SendProcess(pid, signal) => ActionView::SendProcess(pid, signal),
            EnforceAction::ClearStopped => ActionView::ClearStopped,
            EnforceAction::Finish(outcome) => ActionView::Finish(fault::outcome_view(outcome)),
        }
    }
}

impl View for EnforceEvent {
    type V = EventView;

    open spec fn view(&self) -> EventView {
        match *self {
            EnforceEvent::StopPolled(stop) => EventView::StopPolled(stop),
            EnforceEvent::Recorded(outcome) => EventView::Recorded(fault::outcome_view(outcome)),
            EnforceEvent::Sent(outcome) => EventView::Sent(fault::outcome_view(outcome)),
            EnforceEvent::Slept => EventView::Slept,
            EnforceEvent::Members(Ok(pids)) => EventView::Members(Ok(pids@)),
            EnforceEvent::Members(Err(fault)) => EventView::Members(Err(fault@)),
            EnforceEvent::Cleared => EventView::Cleared,
        }
    }
}

impl View for EnforceStage {
    type V = StageView;

    open spec fn view(&self) -> StageView {
        match *self {
            EnforceStage::Deciding => StageView::Deciding,
            EnforceStage::Recording => StageView::Recording,
            EnforceStage::Stopping => StageView::Stopping,
            EnforceStage::Undoing(fault) => StageView::Undoing(fault@),
            EnforceStage::Polling => StageView::Polling,
            EnforceStage::Sleeping => StageView::Sleeping,
            EnforceStage::Resuming => StageView::Resuming,
            EnforceStage::Listing(fault) => StageView::Listing(fault@),
            EnforceStage::ResumingMember(fault, pids, next) => StageView::ResumingMember(
                fault@,
                pids@,
                next as int,
            ),
            EnforceStage::Clearing => StageView::Clearing,
            EnforceStage::Finished => StageView::Finished,
        }
    }
}

impl View for Enforcement {
    type V = EnforceModel;

    open spec fn view(&self) -> EnforceModel {
        EnforceModel { pgid: self.pgid, remaining: self.wait.remaining, stage: self.stage@ }
    }
}

/// The start of an application: a decision not to stop needs nothing done.
pub open spec fn enforce_start(pgid: i32, stop_duration: Span) -> (EnforceModel, ActionView) {
    if stop_duration.nanos == 0 {
        (
            EnforceModel { pgid, remaining: stop_duration, stage: StageView::Finished },
            ActionView::Finish(Ok(())),
        )
    } else {
        (
            EnforceModel { pgid, remaining: stop_duration, stage: StageView::Deciding },
            ActionView::PollStop,
        )
    }
}

/// Whether the event answers the action that the stage has asked for.
pub open spec fn awaits(stage: StageView, event: EventView) -> bool {
    match stage {
        StageView::Deciding | StageView::Polling => event is StopPolled,
        StageView::Recording => event is Recorded,
        StageView::Stopping | StageView::Resuming => event is Sent,
        StageView::ResumingMember(_, pids, next) => event is Sent && 0 <= next < pids.len(),
        StageView::Undoing(_) | StageView::Clearing => event is Cleared,
        StageView::Sleeping => event is Slept,
        StageView::Listing(_) => event is Members,
        StageView::Finished => false,
    }
}

pub open spec fn at(model: EnforceModel, stage: StageView) -> EnforceModel {
    EnforceModel { stage, ..model }
}

/// What follows when the group is still to be waited for: a poll, or its resumption where
/// the time is up.
pub open spec fn wait_on(model: EnforceModel) -> (EnforceModel, ActionView) {
    if model.remaining.nanos == 0 {
        (
            at(model, StageView::Resuming),
            ActionView::SendGroup(model.pgid, JobSignal::Continue),
        )
    } else {
        (at(model, StageView::Polling), ActionView::PollStop)
    }
}

/// What follows when the members from `next` on are still to be resumed.
pub open spec fn resume_on(
    model: EnforceModel,
    group_fault: FaultView,
    pids: Seq<i32>,
    next: int,
) -> (EnforceModel, ActionView) {
    if next < pids.len() {
        (
            at(model, StageView::ResumingMember(group_fault, pids, next)),
            ActionView::SendProcess(pids[next], JobSignal::Continue),
        )
    } else {
        (at(model, StageView::Clearing), ActionView::ClearStopped)
    }
}

/// The end of an application.
pub open spec fn finish_with(model: EnforceModel, outcome: Result<(), FaultView>) -> (
    EnforceModel,
    ActionView,
) {
    (at(model, StageView::Finished), ActionView::Finish(outcome))
}

/// The next state and action, where the event is awaited.
pub open spec fn enforce_next(model: EnforceModel, event: EventView) -> (EnforceModel, ActionView) {
    let pgid = model.pgid;
    match (model.stage, event) {
        (StageView::Deciding, EventView::StopPolled(stop)) => if stop {
            finish_with(model, Ok(()))
        } else {
            (at(model, StageView::Recording), ActionView::RecordStopped(pgid))
        },
        (StageView::Recording, EventView::Recorded(Ok(_))) => (
            at(model, StageView::Stopping),
            ActionView::SendGroup(pgid, JobSignal::Stop),
        ),
        (StageView::Recording, EventView::Recorded(Err(fault))) => finish_with(model, Err(fault)),
        (StageView::Stopping, EventView::Sent(Ok(_))) => wait_on(model),
        (StageView::Stopping, EventView::Sent(Err(fault))) => (
            at(model, StageView::Undoing(fault)),
            ActionView::ClearStopped,
        ),
        (StageView::Undoing(fault), EventView::Cleared) => finish_with(model, Err(fault)),
        (StageView::Polling, EventView::StopPolled(stop)) => if stop {
            (at(model, StageView::Resuming), ActionView::SendGroup(pgid, JobSignal::Continue))
        } else {
            let slice = wait::first_slice(model.remaining);
            (
                EnforceModel {
                    pgid,
                    remaining: span::remainder(model.remaining, slice),
                    stage: StageView::Sleeping,
                },
                ActionView::Sleep(slice),
            )
        },
        (StageView::Sleeping, EventView::Slept) => wait_on(model),
        (StageView::Resuming, EventView::Sent(Ok(_))) => (
            at(model, StageView::Clearing),
            ActionView::ClearStopped,
        ),
        (StageView::Resuming, EventView::Sent(Err(fault))) => (
            at(model, StageView::Listing(fault)),
            ActionView::ListMembers(pgid),
        ),
        (StageView::Listing(group_fault), EventView::Members(Ok(pids))) => resume_on(
            model,
            group_fault,
            pids,
            0,
        ),
        (StageView::Listing(_), EventView::Members(Err(fault))) => finish_with(model, Err(fault)),
        (
            StageView::ResumingMember(group_fault, pids, next),
            EventView::Sent(Ok(_)),
        ) => resume_on(model, group_fault, pids, next + 1),
        (
            StageView::ResumingMember(group_fault, _, _),
            EventView::Sent(Err(fault)),
        ) => finish_with(model, Err(resume_fault(group_fault, fault))),
        (StageView::Clearing, EventView::Cleared) => finish_with(model, Ok(())),
        _ => finish_with(model, Ok(())),
    }
}

impl Enforcer {
    /// Starts to apply a decision to the target.
    pub fn apply(&self, target: &TargetGroup, decision: &ControlDecision) -> (started: (
        Enforcement,
        EnforceAction,
    ))
        ensures
            (started.0@, started.1@) == enforce_start(target.pgid, decision.stop_duration),
    {
        let wait = PollWait::new(decision.stop_duration);
        if wait.is_done() {
            (
                Enforcement { pgid: target.pgid, wait, stage: EnforceStage::Finished },
                EnforceAction::Finish(Ok(())),
            )
        } else {
            (
                Enforcement { pgid: target.pgid, wait, stage: EnforceStage::Deciding },
                EnforceAction::PollStop,
            )
        }
    }
}

impl Enforcement {
    fn wait_further(pgid: i32, wait: PollWait) -> (next: (Enforcement, EnforceAction))
        ensures
            (next.0@, next.1@) == wait_on(
                EnforceModel { pgid, remaining: wait.remaining, stage: StageView::Sleeping },
            ),
    {
        if wait.is_done() {
            (
                Enforcement { pgid, wait, stage: EnforceStage::Resuming },
                EnforceAction::SendGroup(pgid, JobSignal::Continue),
            )
        } else {
            (Enforcement { pgid, wait, stage: EnforceStage::Polling }, EnforceAction::PollStop)
        }
    }

    fn resume_further(
        pgid: i32,
        wait: PollWait,
        group_fault: IoFault,
        pids: Vec<i32>,
        next: usize,
    ) -> (step: (Enforcement, EnforceAction))
        ensures
            (step.0@, step.1@) == resume_on(
                EnforceModel { pgid, remaining: wait.remaining, stage: StageView::Clearing },
                group_fault@,
                pids@,
                next as int,
            ),
    {
        if next < pids.len() {
            let pid: i32 = pids[next];
            (
                Enforcement {
                    pgid,
                    wait,
                    stage: EnforceStage::ResumingMember(group_fault, pids, next),
                },
                EnforceAction::SendProcess(pid, JobSignal::Continue),
            )
        } else {
            (Enforcement { pgid, wait, stage: EnforceStage::Clearing }, EnforceAction::ClearStopped)
        }
    }

    fn finish(pgid: i32, wait: PollWait, outcome: Result<(), IoFault>) -> (last: (
        Enforcement,
        EnforceAction,
    ))
        ensures
            (last.0@, last.1@) == finish_with(
                EnforceModel { pgid, remaining: wait.remaining, stage: StageView::Finished },
                fault::outcome_view(outcome),
            ),
    {
        (
            Enforcement { pgid, wait, stage: EnforceStage::Finished },
            EnforceAction::Finish(outcome),
        )
    }

    /// Takes in what came of the last action and gives the next.
    pub fn step(self, event: EnforceEvent) -> (next: (Enforcement, EnforceAction))
        requires
            awaits(self@.stage, event@),
        ensures
            (next.0@, next.1@) == enforce_next(self@, event@),
    {
        let pgid: i32 = self.pgid;
        let mut wait = self.wait;
        match (self.stage, event) {
            (EnforceStage::Deciding, EnforceEvent::StopPolled(stop)) => {
                if stop {
                    Self::finish(pgid, wait, Ok(()))
                } else {
                    (
                        Enforcement { pgid, wait, stage: EnforceStage::Recording },
                        EnforceAction::RecordStopped(pgid),
                    )
                }
            },
            (EnforceStage::Recording, EnforceEvent::Recorded(Ok(()))) => (
                Enforcement { pgid, wait, stage: EnforceStage::Stopping },
                EnforceAction::SendGroup(pgid, JobSignal::Stop),
            ),
            (EnforceStage::Recording, EnforceEvent::Recorded(Err(fault))) => Self::finish(
                pgid,
                wait,
                Err(fault),
            ),
            (EnforceStage::Stopping, EnforceEvent::Sent(Ok(()))) => Self::wait_further(pgid, wait),
            (EnforceStage::Stopping, EnforceEvent::Sent(Err(fault))) => (
                Enforcement { pgid, wait, stage: EnforceStage::Undoing(fault) },
                EnforceAction::ClearStopped,
            ),
            (EnforceStage::Undoing(fault), EnforceEvent::Cleared) => Self::finish(
                pgid,
                wait,
                Err(fault),
            ),
            (EnforceStage::Polling, EnforceEvent::StopPolled(stop)) => {
                if stop {
                    (
                        Enforcement { pgid, wait, stage: EnforceStage::Resuming },
                        EnforceAction::SendGroup(pgid, JobSignal::Continue),
                    )
                } else {
                    let slice = wait.take_slice();
                    (
                        Enforcement { pgid, wait, stage: EnforceStage::Sleeping },
                        EnforceAction::Sleep(slice),
                    )
                }
            },
            (EnforceStage::Sleeping, EnforceEvent::Slept) => Self::wait_further(pgid, wait),
            (EnforceStage::Resuming, EnforceEvent::Sent(Ok(()))) => (
                Enforcement { pgid, wait, stage: EnforceStage::Clearing },
                EnforceAction::ClearStopped,
            ),
            (EnforceStage::Resuming, EnforceEvent::Sent(Err(fault))) => (
                Enforcement { pgid, wait, stage: EnforceStage::Listing(fault) },
                EnforceAction::ListMembers(pgid),
            ),
            (
                EnforceStage::Listing(group_fault),
                EnforceEvent::Members(Ok(pids)),
            ) => Self::resume_further(pgid, wait, group_fault, pids, 0),
            (EnforceStage::Listing(_), EnforceEvent::Members(Err(fault))) => Self::finish(
                pgid,
                wait,
                Err(fault),
            ),
            (
                EnforceStage::ResumingMember(group_fault, pids, next),
                EnforceEvent::Sent(Ok(())),
            ) => {
                assert(next < pids.len());
                Self::resume_further(pgid, wait, group_fault, pids, next + 1)
            },
            (
                EnforceStage::ResumingMember(group_fault, _, _),
                EnforceEvent::Sent(Err(fault)),
            ) => Self::finish(pgid, wait, Err(combine_resume_errors(&group_fault, &fault))),
            _ => Self::finish(pgid, wait, Ok(())),
        }
    }
}

/// A signal fails only where the system refuses it, for the reason that it gives: a target
/// that is gone needs no signal.
pub proof fn law_only_a_refusal_is_a_fault(attempt: Result<(), SendFault>)
    ensures
        sent_view(attempt) is Err <==> attempt is Err && attempt->Err_0 is Refused,
        sent_view(attempt) matches Err(fault) ==> {
            &&& fault.kind == FaultKind::Other
            &&& attempt->Err_0 matches SendFault::Refused(reason)
            &&& fault.message == reason@
        },
{
}

/// Resuming processes one by one signals each of them, in order, or stops at one that could
/// not be signalled. It ends well exactly when every one of them was told to run again.
pub proof fn law_every_process_is_told_to_run<
    W,
    S: FnMut(W, i32, JobSignal) -> (Result<(), IoFault>, W),
>(pids: Seq<i32>, before: W, send_process: S, resumption: (Result<(), IoFault>, W))
    requires
        members_resumed(pids, before, send_process, resumption),
    ensures
        exists|worlds: Seq<W>|
            {
                &&& #[trigger] told_in_turn(pids, before, send_process, worlds)
                &&& match resumption.0 {
                    Ok(_) => worlds.len() == pids.len() && resumption.1 == if pids.len() == 0 {
                        before
                    } else {
                        worlds.last()
                    },
                    Err(_) => {
                        let last = if worlds.len() == 0 {
                            before
                        } else {
                            worlds.last()
                        };
                        &&& worlds.len() < pids.len()
                        &&& send_process.ensures(
                            (last, pids[worlds.len() as int], JobSignal::Continue),
                            resumption,
                        )
                    },
                }
            },
{
    let worlds = choose|worlds: Seq<W>| #[trigger]
        members_signalled(pids, before, send_process, worlds, resumption);
    assert(told_in_turn(pids, before, send_process, worlds));
}

/// Whether the first of the processes, one for each of the worlds, can have been told to run
/// in turn, the signal for one leaving the world that the signal for the next goes out in.
pub open spec fn told_in_turn<W, S: FnMut(W, i32, JobSignal) -> (Result<(), IoFault>, W)>(
    pids: Seq<i32>,
    before: W,
    send_process: S,
    worlds: Seq<W>,
) -> bool {
    &&& worlds.len() <= pids.len()
    &&& worlds.len() > 0 ==> send_process.ensures(
        (before, pids[0], JobSignal::Continue),
        (Ok(()), worlds[0]),
    )
    &&& forall|i: int|
        1 <= i < worlds.len() ==> send_process.ensures(
            (worlds[i - 1], pids[i], JobSignal::Continue),
            (Ok(()), #[trigger] worlds[i]),
        )
}

} // verus!
