//! The state that the control loop shares with the signal handler: the stop request and
//! the target under control.
//!
//! The program keeps one [`ControlState`] behind a lock. A resumption talks to the system,
//! so the program may run it on a copy of the state, without the lock, and then call
//! [`release_active_target`] on the state itself.

use crate::control::enforcer::{self, combine_resume_errors, Enforcer};
use crate::control::error::ControlError;
use crate::control::fault::{self, join_faults, FaultKind, FaultView, IoFault};
use crate::control::recon::{self, group_pids};
use crate::control::types::{ActiveTarget, JobSignal};
use vstd::prelude::*;

verus! {

/// Whether a stop was requested, and what is under control.
#[derive(Clone, Copy, Debug, PartialEq, Eq, Structural)]
pub struct ControlState {
    pub stop_signal: bool,
    pub active_target: Option<ActiveTarget>,
}

impl ControlState {
    /// No stop requested, nothing under control.
    pub fn new() -> (control: ControlState)
        ensures
            control == (ControlState { stop_signal: false, active_target: None }),
    {
        ControlState { stop_signal: false, active_target: None }
    }
}

/// Requests that the control loop stop.
pub fn stop(control: &mut ControlState)
    ensures
        *final(control) == (ControlState { stop_signal: true, ..*old(control) }),
{
    switch_stop_signal(control);
}

pub fn switch_stop_signal(control: &mut ControlState)
    ensures
        *final(control) == (ControlState { stop_signal: true, ..*old(control) }),
{
    control.stop_signal = true;
}

/// Takes a request to stop back.
pub fn reset_stop_signal(control: &mut ControlState)
    ensures
        *final(control) == (ControlState { stop_signal: false, ..*old(control) }),
{
    control.stop_signal = false;
}

pub fn stop_requested(control: &ControlState) -> (requested: bool)
    ensures
        requested == control.stop_signal,
{
    control.stop_signal
}

/// Puts a target under control, whatever was under control before.
pub fn set_active_target(control: &mut ControlState, active_target: ActiveTarget)
    ensures
        *final(control) == (ControlState { active_target: Some(active_target), ..*old(control) }),
{
    control.active_target = Some(active_target);
}

/// The state with a target newly under control; none where one already is.
pub open spec fn admitted(control: ControlState, active_target: ActiveTarget) -> Option<
    ControlState,
> {
    match control.active_target {
        Some(_) => None,
        None => Some(ControlState { active_target: Some(active_target), ..control }),
    }
}

/// Puts a target under control, unless one already is.
pub fn try_set_active_target(control: &mut ControlState, active_target: ActiveTarget) -> (result:
    Result<(), ControlError>)
    ensures
        match admitted(*old(control), active_target) {
            None => {
                &&& result matches Err(ControlError::ActiveTargetAlreadySet)
                &&& *final(control) == *old(control)
            },
            Some(control_after) => result is Ok && *final(control) == control_after,
        },
{
    if control.active_target.is_some() {
        return Err(ControlError::ActiveTargetAlreadySet);
    }
    control.active_target = Some(active_target);
    Ok(())
}

/// The state with the group recorded as stopped.
pub open spec fn with_stopped_group(control: ControlState, stopped_pgid: Option<i32>) -> ControlState {
    match control.active_target {
        Some(active_target) => ControlState {
            active_target: Some(ActiveTarget { stopped_pgid, ..active_target }),
            ..control
        },
        None => control,
    }
}

/// Records the group as stopped; there has to be a target under control.
pub fn try_set_stopped_group(control: &mut ControlState, pgid: i32) -> (result: Result<
    (),
    IoFault,
>)
    ensures
        match result {
            Ok(_) => {
                &&& old(control).active_target is Some
                &&& *final(control) == with_stopped_group(*old(control), Some(pgid))
            },
            Err(fault) => {
                &&& old(control).active_target is None
                &&& *final(control) == *old(control)
                &&& fault@ == fault::other_fault(
                    "active target must be set before stopping a group"@,
                )
            },
        },
{
    match control.active_target {
        Some(active_target) => {
            control.active_target =
            Some(ActiveTarget { pgid: active_target.pgid, stopped_pgid: Some(pgid) });
            Ok(())
        },
        None => Err(IoFault::other("active target must be set before stopping a group")),
    }
}

/// Records that no group is stopped.
pub fn clear_stopped_group(control: &mut ControlState)
    ensures
        *final(control) == with_stopped_group(*old(control), None),
{
    match control.active_target {
        Some(active_target) => {
            control.active_target =
            Some(ActiveTarget { pgid: active_target.pgid, stopped_pgid: None });
        },
        None => {},
    }
}

/// The target under control, if any.
pub fn current_active_target(control: &ControlState) -> (active_target: Option<ActiveTarget>)
    ensures
        active_target == control.active_target,
{
    control.active_target
}

/// The state after a target was resumed: out of control, unless it changed meanwhile.
pub open spec fn released(control: ControlState, resumed: ActiveTarget) -> ControlState {
    if control.active_target == Some(resumed) {
        ControlState { active_target: None, ..control }
    } else {
        control
    }
}

/// Takes a resumed target out of control, unless it changed while it was resumed.
pub fn release_active_target(control: &mut ControlState, resumed: &ActiveTarget)
    ensures
        *final(control) == released(*old(control), *resumed),
{
    match control.active_target {
        Some(active_target) => {
            if active_target == *resumed {
                control.active_target = None;
            }
        },
        None => {},
    }
}

/// The state after a resumption of the target under control: it is released where that
/// succeeded.
pub open spec fn settled(control: ControlState, resumed: bool) -> ControlState {
    if resumed {
        ControlState { active_target: None, ..control }
    } else {
        control
    }
}

/// Resumes the target under control with `resume`, and releases it where that succeeds.
/// Where nothing is under control, nothing is called: the world stays as it is.
pub fn try_resume_active_target_with<
    W,
    F: FnOnce(W, ActiveTarget) -> (Result<(), IoFault>, W),
>(control: &mut ControlState, world: W, resume: F) -> (resumption: (Result<(), IoFault>, W))
    requires
        old(control).active_target matches Some(active_target) ==> resume.requires(
            (world, active_target),
        ),
    ensures
        match old(control).active_target {
            None => resumption == (Ok::<(), IoFault>(()), world) && *final(control) == *old(
                control,
            ),
            Some(active_target) => {
                &&& resume.ensures((world, active_target), resumption)
                &&& *final(control) == settled(*old(control), resumption.0 is Ok)
            },
        },
{
    let active_target = match current_active_target(control) {
        Some(active_target) => active_target,
        None => {
            return (Ok(()), world);
        },
    };
    let resumption = resume(world, active_target);
    if resumption.0.is_ok() {
        release_active_target(control, &active_target);
    }
    resumption
}

/// The live members of the group.
pub fn current_group_pids<L: FnOnce(u32, u32) -> Result<Vec<i32>, IoFault>>(
    pgid: i32,
    list_pids: L,
) -> (pids: Result<Vec<i32>, IoFault>)
    requires
        list_pids.requires((recon::PROC_PGRP_ONLY, pgid as u32)),
    ensures
        exists|listing: Result<Vec<i32>, IoFault>| #[trigger]
            recon::lists_group(pgid, list_pids, listing) && match pids {
                Ok(pids) => recon::members_of(listing) == Ok::<Seq<i32>, FaultView>(pids@),
                Err(fault) => recon::members_of(listing) == Err::<Seq<i32>, FaultView>(fault@),
            },
{
    group_pids(pgid, list_pids)
}

/// What came of resuming these processes from the world `before` on, after their group could
/// not be resumed.
pub open spec fn resumed_one_by_one<W, P: FnMut(W, i32, JobSignal) -> (Result<(), IoFault>, W)>(
    pids: Seq<i32>,
    group_fault: FaultView,
    before: W,
    send_process: P,
    resumption: (Result<(), IoFault>, W),
) -> bool {
    exists|attempt: (Result<(), IoFault>, W)| #[trigger]
        enforcer::members_resumed(pids, before, send_process, attempt) && resumption.1 == attempt.1
            && match attempt.0 {
            Ok(_) => resumption.0 is Ok,
            Err(pid_fault) => resumption.0 matches Err(returned) && returned@
                == enforcer::resume_fault(group_fault, pid_fault@),
        }
}

/// What resuming the members of the group one by one did, after the group as a whole
/// could not be resumed.
pub open spec fn resumed_by_member<
    W,
    L: FnOnce(u32, u32) -> Result<Vec<i32>, IoFault>,
    P: FnMut(W, i32, JobSignal) -> (Result<(), IoFault>, W),
>(
    pgid: i32,
    group_fault: FaultView,
    before: W,
    list_pids: L,
    send_process: P,
    resumption: (Result<(), IoFault>, W),
) -> bool {
    exists|listing: Result<Vec<i32>, IoFault>| #[trigger]
        recon::lists_group(pgid, list_pids, listing) && match recon::members_of(listing) {
            Err(fault) => {
                &&& resumption.1 == before
                &&& resumption.0 matches Err(returned) && returned@ == fault
            },
            Ok(pids) => resumed_one_by_one(pids, group_fault, before, send_process, resumption),
        }
}

/// What resuming a stopped group did from the world `before` on, signal by signal: as a
/// whole, or else member by member.
pub open spec fn resumed_group<
    W,
    G: FnOnce(W, i32, JobSignal) -> (Result<(), IoFault>, W),
    L: FnOnce(u32, u32) -> Result<Vec<i32>, IoFault>,
    P: FnMut(W, i32, JobSignal) -> (Result<(), IoFault>, W),
>(
    pgid: i32,
    before: W,
    send_group: G,
    list_pids: L,
    send_process: P,
    resumption: (Result<(), IoFault>, W),
) -> bool {
    exists|attempt: (Result<(), IoFault>, W)| #[trigger]
        send_group.ensures((before, pgid, JobSignal::Continue), attempt) && match attempt.0 {
            Ok(_) => resumption.0 is Ok && resumption.1 == attempt.1,
            Err(group_fault) => resumed_by_member(
                pgid,
                group_fault@,
                attempt.1,
                list_pids,
                send_process,
                resumption,
            ),
        }
}

/// Whether the outside calls can be made that resuming the group takes: the list where the
/// group could not be resumed as a whole, and the signals for its members where they were
/// listed. Nothing is asked of any other call.
pub open spec fn can_resume_group<
    W,
    G: FnOnce(W, i32, JobSignal) -> (Result<(), IoFault>, W),
    L: FnOnce(u32, u32) -> Result<Vec<i32>, IoFault>,
    P: FnMut(W, i32, JobSignal) -> (Result<(), IoFault>, W),
>(pgid: i32, before: W, send_group: G, list_pids: L, send_process: P) -> bool {
    &&& send_group.requires((before, pgid, JobSignal::Continue))
    &&& forall|attempt: (Result<(), IoFault>, W)| #[trigger]
        send_group.ensures((before, pgid, JobSignal::Continue), attempt) && attempt.0 is Err
            ==> can_resume_by_member(pgid, list_pids, send_process)
}

/// Whether the outside calls can be made that resuming the group member by member takes.
pub open spec fn can_resume_by_member<
    W,
    L: FnOnce(u32, u32) -> Result<Vec<i32>, IoFault>,
    P: FnMut(W, i32, JobSignal) -> (Result<(), IoFault>, W),
>(pgid: i32, list_pids: L, send_process: P) -> bool {
    &&& list_pids.requires((recon::PROC_PGRP_ONLY, pgid as u32))
    &&& forall|listing: Result<Vec<i32>, IoFault>| #[trigger]
        recon::lists_group(pgid, list_pids, listing) ==> match recon::members_of(listing) {
            Ok(pids) => enforcer::can_resume_members(pids, send_process),
            Err(_) => true,
        }
}

/// What resuming the group on record as stopped did, if one is: where none is, nothing was
/// called.
pub open spec fn tracked_resumed<
    W,
    G: FnOnce(W, i32, JobSignal) -> (Result<(), IoFault>, W),
    L: FnOnce(u32, u32) -> Result<Vec<i32>, IoFault>,
    P: FnMut(W, i32, JobSignal) -> (Result<(), IoFault>, W),
>(
    active_target: ActiveTarget,
    before: W,
    send_group: G,
    list_pids: L,
    send_process: P,
    resumption: (Result<(), IoFault>, W),
) -> bool {
    match active_target.stopped_pgid {
        None => resumption == (Ok::<(), IoFault>(()), before),
        Some(pgid) => resumed_group(
            pgid,
            before,
            send_group,
            list_pids,
            send_process,
            resumption,
        ),
    }
}

/// Resumes the group that the target has on record as stopped, if any: as a whole, or
/// else member by member. The world is handed from signal to signal, which fixes the signals
/// and their order; where no group is on record it stays as it is.
pub fn resume_tracked_members<
    W,
    G: FnOnce(W, i32, JobSignal) -> (Result<(), IoFault>, W),
    L: FnOnce(u32, u32) -> Result<Vec<i32>, IoFault>,
    P: FnMut(W, i32, JobSignal) -> (Result<(), IoFault>, W),
>(
    active_target: ActiveTarget,
    world: W,
    send_group: G,
    list_pids: L,
    send_process: P,
) -> (resumption: (Result<(), IoFault>, W))
    requires
        active_target.stopped_pgid matches Some(pgid) ==> can_resume_group(
            pgid,
            world,
            send_group,
            list_pids,
            send_process,
        ),
    ensures
        tracked_resumed(active_target, world, send_group, list_pids, send_process, resumption),
{
    let stopped_pgid: i32 = match active_target.stopped_pgid {
        Some(pgid) => pgid,
        None => {
            return (Ok(()), world);
        },
    };
    let enforcer = Enforcer::new();
    let attempt = enforcer.resume_group(stopped_pgid, world, send_group);
    assert(send_group.ensures((world, stopped_pgid, JobSignal::Continue), attempt));
    let ghost first = attempt;
    let (outcome, next) = attempt;
    match outcome {
        Ok(()) => {
            let resumption = (Ok(()), next);
            assert(first.0 is Ok && resumption.1 == first.1);
            resumption
        },
        Err(group_fault) => {
            let pids = match current_group_pids(stopped_pgid, list_pids) {
                Ok(pids) => pids,
                Err(fault) => {
                    let resumption = (Err(fault), next);
                    assert(resumed_by_member(
                        stopped_pgid,
                        group_fault@,
                        first.1,
                        list_pids,
                        send_process,
                        resumption,
                    ));
                    return resumption;
                },
            };
            let attempt = enforcer.resume_pids(pids.as_slice(), next, send_process);
            let ghost second = attempt;
            assert(enforcer::members_resumed(pids@, first.1, send_process, second));
            let (outcome, last) = attempt;
            let resumption = match outcome {
                Ok(()) => (Ok(()), last),
                Err(pid_fault) => (Err(combine_resume_errors(&group_fault, &pid_fault)), last),
            };
            assert(resumed_one_by_one(pids@, group_fault@, first.1, send_process, resumption));
            resumption
        },
    }
}

/// Resumes the group, whatever is on record.
pub fn resume_target_group<W, G: FnOnce(W, i32, JobSignal) -> (Result<(), IoFault>, W)>(
    pgid: i32,
    world: W,
    send_group: G,
) -> (resumption: (Result<(), IoFault>, W))
    requires
        send_group.requires((world, pgid, JobSignal::Continue)),
    ensures
        send_group.ensures((world, pgid, JobSignal::Continue), resumption),
{
    Enforcer::new().resume_group(pgid, world, send_group)
}

/// The fault of a target that could not be resumed before a forced exit, neither by what
/// is on record as stopped nor as a whole.
pub open spec fn exit_fault(tracked_fault: FaultView, target_fault: FaultView) -> FaultView {
    fault::double_fault(
        "failed to resume tracked target members: "@,
        tracked_fault,
        "; forced target group resume failed: "@,
        target_fault,
    )
}

/// What resuming the whole target did from the world `before` on, after what is on record
/// as stopped could not be resumed.
pub open spec fn resumed_as_a_whole<W, G: FnOnce(W, i32) -> (Result<(), IoFault>, W)>(
    pgid: i32,
    tracked_fault: FaultView,
    before: W,
    resume_target: G,
    resumption: (Result<(), IoFault>, W),
) -> bool {
    exists|whole: (Result<(), IoFault>, W)| #[trigger]
        resume_target.ensures((before, pgid), whole) && resumption.1 == whole.1 && match whole.0 {
            Ok(_) => resumption.0 is Ok,
            Err(target_fault) => resumption.0 matches Err(returned) && returned@ == exit_fault(
                tracked_fault,
                target_fault@,
            ),
        }
}

/// What the last resumption before a forced exit did from the world `before` on, call by
/// call: what is on record as stopped was resumed; where nothing is, or that failed, the
/// whole target was.
pub open spec fn resumed_for_exit<
    W,
    F: FnOnce(W, ActiveTarget) -> (Result<(), IoFault>, W),
    G: FnOnce(W, i32) -> (Result<(), IoFault>, W),
>(
    active_target: ActiveTarget,
    before: W,
    resume_tracked: F,
    resume_target: G,
    resumption: (Result<(), IoFault>, W),
) -> bool {
    if active_target.stopped_pgid is None {
        resume_target.ensures((before, active_target.pgid), resumption)
    } else {
        exists|attempt: (Result<(), IoFault>, W)| #[trigger]
            resume_tracked.ensures((before, active_target), attempt) && match attempt.0 {
                Ok(_) => resumption.0 is Ok && resumption.1 == attempt.1,
                Err(tracked_fault) => resumed_as_a_whole(
                    active_target.pgid,
                    tracked_fault@,
                    attempt.1,
                    resume_target,
                    resumption,
                ),
            }
    }
}

/// Whether the calls can be made that the last resumption before a forced exit takes:
/// `resume_tracked` where a group is on record as stopped, and `resume_target` where none
/// is or that failed. Nothing is asked of either in any other case.
pub open spec fn can_resume_for_exit<
    W,
    F: FnOnce(W, ActiveTarget) -> (Result<(), IoFault>, W),
    G: FnOnce(W, i32) -> (Result<(), IoFault>, W),
>(active_target: ActiveTarget, before: W, resume_tracked: F, resume_target: G) -> bool {
    if active_target.stopped_pgid is None {
        resume_target.requires((before, active_target.pgid))
    } else {
        &&& resume_tracked.requires((before, active_target))
        &&& forall|attempt: (Result<(), IoFault>, W)| #[trigger]
            resume_tracked.ensures((before, active_target), attempt) && attempt.0 is Err
                ==> resume_target.requires((attempt.1, active_target.pgid))
    }
}

/// Resumes the target for the last time before a forced exit.
pub fn resume_for_forced_exit<
    W,
    F: FnOnce(W, ActiveTarget) -> (Result<(), IoFault>, W),
    G: FnOnce(W, i32) -> (Result<(), IoFault>, W),
>(
    active_target: ActiveTarget,
    world: W,
    resume_tracked: F,
    resume_target: G,
) -> (resumption: (Result<(), IoFault>, W))
    requires
        can_resume_for_exit(active_target, world, resume_tracked, resume_target),
    ensures
        resumed_for_exit(active_target, world, resume_tracked, resume_target, resumption),
{
    if active_target.stopped_pgid.is_some() {
        let attempt = resume_tracked(world, active_target);
        assert(resume_tracked.ensures((world, active_target), attempt));
        let ghost first = attempt;
        let (outcome, next) = attempt;
        match outcome {
            Ok(()) => {
                let resumption = (Ok(()), next);
                assert(first.0 is Ok && resumption.1 == first.1);
                resumption
            },
            Err(tracked_fault) => {
                let whole = resume_target(next, active_target.pgid);
                let ghost second = whole;
                assert(resume_target.ensures((first.1, active_target.pgid), second));
                let (outcome, last) = whole;
                let resumption = match outcome {
                    Ok(()) => (Ok(()), last),
                    Err(target_fault) => (
                        Err(
                            join_faults(
                                "failed to resume tracked target members: ",
                                &tracked_fault,
                                "; forced target group resume failed: ",
                                &target_fault,
                            ),
                        ),
                        last,
                    ),
                };
                assert(resumed_as_a_whole(
                    active_target.pgid,
                    tracked_fault@,
                    first.1,
                    resume_target,
                    resumption,
                ));
                resumption
            },
        }
    } else {
        resume_target(world, active_target.pgid)
    }
}

/// Resumes the target under control before a forced exit, and releases it where that
/// succeeds. Where nothing is under control, nothing is called: the world stays as it is.
pub fn try_resume_active_target_before_forced_exit_with<
    W,
    F: FnOnce(W, ActiveTarget) -> (Result<(), IoFault>, W),
    G: FnOnce(W, i32) -> (Result<(), IoFault>, W),
>(
    control: &mut ControlState,
    world: W,
    resume_tracked: F,
    resume_target: G,
) -> (resumption: (Result<(), IoFault>, W))
    requires
        old(control).active_target matches Some(active_target) ==> can_resume_for_exit(
            active_target,
            world,
            resume_tracked,
            resume_target,
        ),
    ensures
        match old(control).active_target {
            None => resumption == (Ok::<(), IoFault>(()), world) && *final(control) == *old(
                control,
            ),
            Some(active_target) => {
                &&& resumed_for_exit(
                    active_target,
                    world,
                    resume_tracked,
                    resume_target,
                    resumption,
                )
                &&& *final(control) == settled(*old(control), resumption.0 is Ok)
            },
        },
{
    let active_target = match current_active_target(control) {
        Some(active_target) => active_target,
        None => {
            return (Ok(()), world);
        },
    };
    let resumption = resume_for_forced_exit(active_target, world, resume_tracked, resume_target);
    if resumption.0.is_ok() {
        release_active_target(control, &active_target);
    }
    resumption
}

/// The result that an error of the control loop stands for: `ResumeFailed` for the fault,
/// and no other error.
pub open spec fn stands_for(
    result: Result<(), ControlError>,
    outcome: Result<(), IoFault>,
) -> bool {
    match outcome {
        Ok(_) => result is Ok,
        Err(fault) => result == Err::<(), ControlError>(ControlError::ResumeFailed(fault)),
    }
}

/// What a resumption before a forced exit did to the state and the world, and what it
/// returned.
pub open spec fn forced_exit_resumed<
    W,
    F: FnOnce(W, ActiveTarget) -> (Result<(), IoFault>, W),
    G: FnOnce(W, i32) -> (Result<(), IoFault>, W),
>(
    before: ControlState,
    world: W,
    resume_tracked: F,
    resume_target: G,
    after: ControlState,
    resumption: (Result<(), ControlError>, W),
) -> bool {
    match before.active_target {
        None => resumption.0 is Ok && resumption.1 == world && after == before,
        Some(active_target) => {
            &&& after == settled(before, resumption.0 is Ok)
            &&& exists|made: (Result<(), IoFault>, W)| #[trigger]
                resumed_for_exit(active_target, world, resume_tracked, resume_target, made)
                    && stands_for(resumption.0, made.0) && resumption.1 == made.1
        },
    }
}

pub fn resume_before_forced_exit_with<
    W,
    F: FnOnce(W, ActiveTarget) -> (Result<(), IoFault>, W),
    G: FnOnce(W, i32) -> (Result<(), IoFault>, W),
>(
    control: &mut ControlState,
    world: W,
    resume_tracked: F,
    resume_target: G,
) -> (resumption: (Result<(), ControlError>, W))
    requires
        old(control).active_target matches Some(active_target) ==> can_resume_for_exit(
            active_target,
            world,
            resume_tracked,
            resume_target,
        ),
    ensures
        forced_exit_resumed(
            *old(control),
            world,
            resume_tracked,
            resume_target,
            *final(control),
            resumption,
        ),
{
    let made = try_resume_active_target_before_forced_exit_with(
        control,
        world,
        resume_tracked,
        resume_target,
    );
    let ghost first = made;
    let (outcome, next) = made;
    let resumption = match outcome {
        Ok(()) => (Ok(()), next),
        Err(fault) => (Err(ControlError::ResumeFailed(fault)), next),
    };
    assert(stands_for(resumption.0, first.0) && resumption.1 == first.1);
    resumption
}

/// What resuming the target under control did to the state and the world, and what it
/// returned.
pub open spec fn target_resumed<
    W,
    G: FnOnce(W, i32, JobSignal) -> (Result<(), IoFault>, W),
    L: FnOnce(u32, u32) -> Result<Vec<i32>, IoFault>,
    P: FnMut(W, i32, JobSignal) -> (Result<(), IoFault>, W),
>(
    before: ControlState,
    world: W,
    send_group: G,
    list_pids: L,
    send_process: P,
    after: ControlState,
    resumption: (Result<(), IoFault>, W),
) -> bool {
    match before.active_target {
        None => resumption == (Ok::<(), IoFault>(()), world) && after == before,
        Some(active_target) => {
            &&& tracked_resumed(
                active_target,
                world,
                send_group,
                list_pids,
                send_process,
                resumption,
            )
            &&& after == settled(before, resumption.0 is Ok)
        },
    }
}

/// Resumes the group that is on record as stopped, if any, and releases the target under
/// control where that succeeds.
pub fn try_resume_active_target<
    W,
    G: FnOnce(W, i32, JobSignal) -> (Result<(), IoFault>, W),
    L: FnOnce(u32, u32) -> Result<Vec<i32>, IoFault>,
    P: FnMut(W, i32, JobSignal) -> (Result<(), IoFault>, W),
>(
    control: &mut ControlState,
    world: W,
    send_group: G,
    list_pids: L,
    send_process: P,
) -> (resumption: (Result<(), IoFault>, W))
    requires
        old(control).active_target matches Some(active_target) ==> (
        active_target.stopped_pgid matches Some(pgid) ==> can_resume_group(
            pgid,
            world,
            send_group,
            list_pids,
            send_process,
        )),
    ensures
        target_resumed(
            *old(control),
            world,
            send_group,
            list_pids,
            send_process,
            *final(control),
            resumption,
        ),
{
    let resume = |world: W, active_target: ActiveTarget| -> (resumed: (Result<(), IoFault>, W))
        requires
            active_target.stopped_pgid matches Some(pgid) ==> can_resume_group(
                pgid,
                world,
                send_group,
                list_pids,
                send_process,
            ),
        ensures
            tracked_resumed(active_target, world, send_group, list_pids, send_process, resumed),
        { resume_tracked_members(active_target, world, send_group, list_pids, send_process) };
    try_resume_active_target_with(control, world, resume)
}

/// What signalling the whole target did from the world `before` on, after the group on
/// record as stopped could not be resumed.
pub open spec fn signalled_as_a_whole<W, G: FnOnce(W, i32, JobSignal) -> (Result<(), IoFault>, W)>(
    pgid: i32,
    tracked_fault: FaultView,
    before: W,
    send_group: G,
    resumption: (Result<(), IoFault>, W),
) -> bool {
    exists|whole: (Result<(), IoFault>, W)| #[trigger]
        send_group.ensures((before, pgid, JobSignal::Continue), whole) && resumption.1 == whole.1
            && match whole.0 {
            Ok(_) => resumption.0 is Ok,
            Err(target_fault) => resumption.0 matches Err(returned) && returned@ == exit_fault(
                tracked_fault,
                target_fault@,
            ),
        }
}

/// What the last resumption before a forced exit did from the world `before` on, signal by
/// signal.
pub open spec fn signalled_for_exit<
    W,
    G: FnOnce(W, i32, JobSignal) -> (Result<(), IoFault>, W),
    L: FnOnce(u32, u32) -> Result<Vec<i32>, IoFault>,
    P: FnMut(W, i32, JobSignal) -> (Result<(), IoFault>, W),
>(
    active_target: ActiveTarget,
    before: W,
    send_group: G,
    list_pids: L,
    send_process: P,
    resumption: (Result<(), IoFault>, W),
) -> bool {
    match active_target.stopped_pgid {
        None => send_group.ensures((before, active_target.pgid, JobSignal::Continue), resumption),
        Some(stopped_pgid) => exists|attempt: (Result<(), IoFault>, W)| #[trigger]
            resumed_group(stopped_pgid, before, send_group, list_pids, send_process, attempt)
                && match attempt.0 {
                Ok(_) => resumption.0 is Ok && resumption.1 == attempt.1,
                Err(tracked_fault) => signalled_as_a_whole(
                    active_target.pgid,
                    tracked_fault@,
                    attempt.1,
                    send_group,
                    resumption,
                ),
            },
    }
}

/// Whether the outside calls can be made that the last resumption before a forced exit
/// takes: those for the group on record as stopped, and the signal for the target's group
/// where none is on record or it could not be resumed.
pub open spec fn can_signal_for_exit<
    W,
    G: FnOnce(W, i32, JobSignal) -> (Result<(), IoFault>, W),
    L: FnOnce(u32, u32) -> Result<Vec<i32>, IoFault>,
    P: FnMut(W, i32, JobSignal) -> (Result<(), IoFault>, W),
>(
    active_target: ActiveTarget,
    before: W,
    send_group: G,
    list_pids: L,
    send_process: P,
) -> bool {
    match active_target.stopped_pgid {
        None => send_group.requires((before, active_target.pgid, JobSignal::Continue)),
        Some(stopped_pgid) => {
            &&& can_resume_group(stopped_pgid, before, send_group, list_pids, send_process)
            &&& forall|attempt: (Result<(), IoFault>, W)| #[trigger]
                resumed_group(stopped_pgid, before, send_group, list_pids, send_process, attempt)
                    && attempt.0 is Err ==> send_group.requires(
                    (attempt.1, active_target.pgid, JobSignal::Continue),
                )
        },
    }
}

/// What the last resumption before a forced exit did to the state and the world, and what it
/// returned.
pub open spec fn exit_signalled<
    W,
    G: FnOnce(W, i32, JobSignal) -> (Result<(), IoFault>, W),
    L: FnOnce(u32, u32) -> Result<Vec<i32>, IoFault>,
    P: FnMut(W, i32, JobSignal) -> (Result<(), IoFault>, W),
>(
    before: ControlState,
    world: W,
    send_group: G,
    list_pids: L,
    send_process: P,
    after: ControlState,
    resumption: (Result<(), ControlError>, W),
) -> bool {
    match before.active_target {
        None => {
            &&& resumption.0 is Ok
            &&& resumption.1 == world
            &&& after == before
        },
        Some(active_target) => {
            &&& after == settled(before, resumption.0 is Ok)
            &&& exists|made: (Result<(), IoFault>, W)| #[trigger]
                signalled_for_exit(
                    active_target,
                    world,
                    send_group,
                    list_pids,
                    send_process,
                    made,
                ) && stands_for(resumption.0, made.0) && resumption.1 == made.1
        },
    }
}

/// Resumes the target under control before a forced exit: the group on record as stopped,
/// or else, also where none is on record, the target's group. Releases it where that
/// succeeds. The world is handed from signal to signal, which fixes the signals and their
/// order; where nothing is under control it stays as it is.
pub fn resume_before_forced_exit<
    W,
    G: FnOnce(W, i32, JobSignal) -> (Result<(), IoFault>, W) + Copy,
    L: FnOnce(u32, u32) -> Result<Vec<i32>, IoFault>,
    P: FnMut(W, i32, JobSignal) -> (Result<(), IoFault>, W),
>(
    control: &mut ControlState,
    world: W,
    send_group: G,
    list_pids: L,
    send_process: P,
) -> (resumption: (Result<(), ControlError>, W))
    requires
        old(control).active_target matches Some(active_target) ==> can_signal_for_exit(
            active_target,
            world,
            send_group,
            list_pids,
            send_process,
        ),
    ensures
        exit_signalled(
            *old(control),
            world,
            send_group,
            list_pids,
            send_process,
            *final(control),
            resumption,
        ),
{
    let resume_tracked = |world: W, active_target: ActiveTarget| -> (resumed: (
        Result<(), IoFault>,
        W,
    ))
        requires
            active_target.stopped_pgid matches Some(pgid) ==> can_resume_group(
                pgid,
                world,
                send_group,
                list_pids,
                send_process,
            ),
        ensures
            tracked_resumed(active_target, world, send_group, list_pids, send_process, resumed),
        { resume_tracked_members(active_target, world, send_group, list_pids, send_process) };
    let resume_target = |world: W, pgid: i32| -> (resumed: (Result<(), IoFault>, W))
        requires
            send_group.requires((world, pgid, JobSignal::Continue)),
        ensures
            send_group.ensures((world, pgid, JobSignal::Continue), resumed),
        { resume_target_group(pgid, world, send_group) };
    let resumption = resume_before_forced_exit_with(control, world, resume_tracked, resume_target);
    proof {
        if let Some(active_target) = old(control).active_target {
            let made = choose|made: (Result<(), IoFault>, W)| #[trigger]
                resumed_for_exit(active_target, world, resume_tracked, resume_target, made)
                    && stands_for(resumption.0, made.0) && resumption.1 == made.1;
            assert(signalled_for_exit(
                active_target,
                world,
                send_group,
                list_pids,
                send_process,
                made,
            ));
        }
    }
    resumption
}

/// A target that was resumed makes room for the next one.
pub proof fn law_release_makes_room(
    control: ControlState,
    resumed: ActiveTarget,
    next: ActiveTarget,
)
    requires
        control.active_target == Some(resumed),
    ensures
        admitted(control, next) is None,
        admitted(released(control, resumed), next) == Some(
            ControlState { active_target: Some(next), ..control },
        ),
{
}

/// A target that changed while it was resumed stays under control, with all that is on
/// record of it.
pub proof fn law_changed_target_is_not_released(control: ControlState, resumed: ActiveTarget)
    requires
        control.active_target != Some(resumed),
    ensures
        released(control, resumed) == control,
{
}

/// Recording a stopped group and clearing the record again leaves a target that had none
/// as it was.
pub proof fn law_clearing_undoes_recording(control: ControlState, pgid: i32)
    requires
        control.active_target matches Some(active_target) ==> active_target.stopped_pgid is None,
    ensures
        with_stopped_group(with_stopped_group(control, Some(pgid)), None) == control,
{
}

/// Whether the group, or every live member of it, can have been told to run again, so that
/// the world became `after`.
pub open spec fn told_to_run<
    W,
    G: FnOnce(W, i32, JobSignal) -> (Result<(), IoFault>, W),
    L: FnOnce(u32, u32) -> Result<Vec<i32>, IoFault>,
    P: FnMut(W, i32, JobSignal) -> (Result<(), IoFault>, W),
>(
    pgid: i32,
    before: W,
    send_group: G,
    list_pids: L,
    send_process: P,
    after: W,
) -> bool {
    ||| send_group.ensures((before, pgid, JobSignal::Continue), (Ok(()), after))
    ||| exists|refused: (Result<(), IoFault>, W), listing: Result<Vec<i32>, IoFault>|
        {
            &&& #[trigger] send_group.ensures((before, pgid, JobSignal::Continue), refused)
            &&& refused.0 is Err
            &&& #[trigger] recon::lists_group(pgid, list_pids, listing)
            &&& match recon::members_of(listing) {
                Ok(pids) => enforcer::members_resumed(
                    pids,
                    refused.1,
                    send_process,
                    (Ok(()), after),
                ),
                Err(_) => false,
            }
        }
}

/// A resumption that succeeds told the whole group to run again, or, where that was refused,
/// every live member of it.
pub proof fn law_resumption_reaches_the_group<
    W,
    G: FnOnce(W, i32, JobSignal) -> (Result<(), IoFault>, W),
    L: FnOnce(u32, u32) -> Result<Vec<i32>, IoFault>,
    P: FnMut(W, i32, JobSignal) -> (Result<(), IoFault>, W),
>(
    pgid: i32,
    before: W,
    send_group: G,
    list_pids: L,
    send_process: P,
    resumption: (Result<(), IoFault>, W),
)
    requires
        resumed_group(pgid, before, send_group, list_pids, send_process, resumption),
        resumption.0 is Ok,
    ensures
        told_to_run(pgid, before, send_group, list_pids, send_process, resumption.1),
{
    let attempt = choose|attempt: (Result<(), IoFault>, W)| #[trigger]
        send_group.ensures((before, pgid, JobSignal::Continue), attempt) && match attempt.0 {
            Ok(_) => resumption.1 == attempt.1,
            Err(group_fault) => resumed_by_member(
                pgid,
                group_fault@,
                attempt.1,
                list_pids,
                send_process,
                resumption,
            ),
        };
    match attempt.0 {
        Ok(unit) => {
            assert(unit == ());
            assert(attempt == (Ok::<(), IoFault>(()), resumption.1));
        },
        Err(group_fault) => {
            let listing = choose|listing: Result<Vec<i32>, IoFault>| #[trigger]
                recon::lists_group(pgid, list_pids, listing) && match recon::members_of(listing) {
                    Err(_) => false,
                    Ok(pids) => resumed_one_by_one(
                        pids,
                        group_fault@,
                        attempt.1,
                        send_process,
                        resumption,
                    ),
                };
            let pids = recon::members_of(listing)->Ok_0;
            assert(resumed_one_by_one(pids, group_fault@, attempt.1, send_process, resumption));
            let made = choose|made: (Result<(), IoFault>, W)| #[trigger]
                enforcer::members_resumed(pids, attempt.1, send_process, made) && made.0 is Ok
                    && made.1 == resumption.1;
            assert(made.0->Ok_0 == ());
            assert(made == (Ok::<(), IoFault>(()), resumption.1));
            assert(enforcer::members_resumed(
                pids,
                attempt.1,
                send_process,
                (Ok::<(), IoFault>(()), resumption.1),
            ));
        },
    }
}

/// A resumption before a forced exit that succeeds told the group on record as stopped to
/// run again, or the whole target.
pub proof fn law_forced_exit_leaves_the_target_running<
    W,
    G: FnOnce(W, i32, JobSignal) -> (Result<(), IoFault>, W),
    L: FnOnce(u32, u32) -> Result<Vec<i32>, IoFault>,
    P: FnMut(W, i32, JobSignal) -> (Result<(), IoFault>, W),
>(
    active_target: ActiveTarget,
    before: W,
    send_group: G,
    list_pids: L,
    send_process: P,
    resumption: (Result<(), IoFault>, W),
)
    requires
        signalled_for_exit(
            active_target,
            before,
            send_group,
            list_pids,
            send_process,
            resumption,
        ),
        resumption.0 is Ok,
    ensures
        (exists|world: W| #[trigger]
            send_group.ensures(
                (world, active_target.pgid, JobSignal::Continue),
                (Ok(()), resumption.1),
            )) || (active_target.stopped_pgid matches Some(stopped_pgid) && told_to_run(
            stopped_pgid,
            before,
            send_group,
            list_pids,
            send_process,
            resumption.1,
        )),
{
    match active_target.stopped_pgid {
        None => {
            assert(resumption.0->Ok_0 == ());
            assert(resumption == (Ok::<(), IoFault>(()), resumption.1));
        },
        Some(stopped_pgid) => {
            let attempt = choose|attempt: (Result<(), IoFault>, W)| #[trigger]
                resumed_group(stopped_pgid, before, send_group, list_pids, send_process, attempt)
                    && match attempt.0 {
                    Ok(_) => resumption.1 == attempt.1,
                    Err(tracked_fault) => signalled_as_a_whole(
                        active_target.pgid,
                        tracked_fault@,
                        attempt.1,
                        send_group,
                        resumption,
                    ),
                };
            match attempt.0 {
                Ok(_) => {
                    law_resumption_reaches_the_group(
                        stopped_pgid,
                        before,
                        send_group,
                        list_pids,
                        send_process,
                        attempt,
                    );
                },
                Err(_) => {
                    let whole = choose|whole: (Result<(), IoFault>, W)| #[trigger]
                        send_group.ensures(
                            (attempt.1, active_target.pgid, JobSignal::Continue),
                            whole,
                        ) && resumption.1 == whole.1 && whole.0 is Ok;
                    assert(whole.0->Ok_0 == ());
                    assert(whole == (Ok::<(), IoFault>(()), resumption.1));
                },
            }
        },
    }
}

/// A target is put under control exactly when none is, as it is, and a stop that was
/// requested stays requested.
pub proof fn law_when_a_target_is_admitted(control: ControlState, active_target: ActiveTarget)
    ensures
        admitted(control, active_target) is Some <==> control.active_target is None,
        admitted(control, active_target) matches Some(after) ==> after.active_target == Some(
            active_target,
        ) && after.stop_signal == control.stop_signal,
{
}

/// Recording a stopped group, or that none is, changes the record of the target under control
/// and nothing else; without such a target it changes nothing.
pub proof fn law_record_is_all_that_changes(control: ControlState, stopped_pgid: Option<i32>)
    ensures
        ({
            let after = with_stopped_group(control, stopped_pgid);
            &&& after.stop_signal == control.stop_signal
            &&& control.active_target is None ==> after == control
            &&& control.active_target matches Some(target) ==> after.active_target == Some(
                ActiveTarget { pgid: target.pgid, stopped_pgid },
            )
        }),
{
}

/// A resumption releases the target exactly when it succeeds; a failed one leaves the state
/// as it was. Either way a stop that was requested stays requested.
pub proof fn law_success_alone_releases_the_target<
    W,
    G: FnOnce(W, i32, JobSignal) -> (Result<(), IoFault>, W),
    L: FnOnce(u32, u32) -> Result<Vec<i32>, IoFault>,
    P: FnMut(W, i32, JobSignal) -> (Result<(), IoFault>, W),
>(
    before: ControlState,
    world: W,
    send_group: G,
    list_pids: L,
    send_process: P,
    after: ControlState,
    resumption: (Result<(), IoFault>, W),
)
    requires
        target_resumed(before, world, send_group, list_pids, send_process, after, resumption),
    ensures
        after.stop_signal == before.stop_signal,
        resumption.0 is Ok ==> after.active_target is None,
        resumption.0 is Err ==> after == before,
        before.active_target is None ==> resumption.0 is Ok && resumption.1 == world,
        before.active_target matches Some(target) ==> (target.stopped_pgid is None
            ==> resumption.0 is Ok && resumption.1 == world),
{
}

/// So does a resumption before a forced exit.
pub proof fn law_success_alone_releases_before_exit<
    W,
    F: FnOnce(W, ActiveTarget) -> (Result<(), IoFault>, W),
    G: FnOnce(W, i32) -> (Result<(), IoFault>, W),
>(
    before: ControlState,
    world: W,
    resume_tracked: F,
    resume_target: G,
    after: ControlState,
    resumption: (Result<(), ControlError>, W),
)
    requires
        forced_exit_resumed(before, world, resume_tracked, resume_target, after, resumption),
    ensures
        after.stop_signal == before.stop_signal,
        resumption.0 is Ok ==> after.active_target is None,
        resumption.0 is Err ==> after == before && resumption.0->Err_0 is ResumeFailed,
        before.active_target is None ==> resumption.0 is Ok && resumption.1 == world,
{
}

/// A group is resumed as a whole where the system lets it, and that is all then. Where it is
/// refused, the group is listed and its members are told to run one by one; what is not found
/// has no members, and a list that cannot be had is the failure that is reported. A member
/// that is refused is reported with the group.
pub proof fn law_how_a_group_is_resumed<
    W,
    G: FnOnce(W, i32, JobSignal) -> (Result<(), IoFault>, W),
    L: FnOnce(u32, u32) -> Result<Vec<i32>, IoFault>,
    P: FnMut(W, i32, JobSignal) -> (Result<(), IoFault>, W),
>(
    pgid: i32,
    before: W,
    send_group: G,
    list_pids: L,
    send_process: P,
    resumption: (Result<(), IoFault>, W),
)
    requires
        resumed_group(pgid, before, send_group, list_pids, send_process, resumption),
    ensures
        exists|attempt: (Result<(), IoFault>, W)|
            {
                &&& #[trigger] send_group.ensures((before, pgid, JobSignal::Continue), attempt)
                &&& match attempt.0 {
                    Ok(_) => resumption.0 is Ok && resumption.1 == attempt.1,
                    Err(group_fault) => exists|listing: Result<Vec<i32>, IoFault>|
                        {
                            &&& #[trigger] list_pids.ensures((2u32, pgid as u32), listing)
                            &&& match recon::members_of(listing) {
                                Err(fault) => {
                                    &&& resumption.0 matches Err(returned)
                                    &&& returned@ == fault
                                    &&& resumption.1 == attempt.1
                                },
                                Ok(members) => resumed_in_turn(
                                    members,
                                    group_fault@,
                                    attempt.1,
                                    send_process,
                                    resumption,
                                ),
                            }
                        },
                }
            },
{
    let attempt = choose|attempt: (Result<(), IoFault>, W)| #[trigger]
        send_group.ensures((before, pgid, JobSignal::Continue), attempt) && match attempt.0 {
            Ok(_) => resumption.0 is Ok && resumption.1 == attempt.1,
            Err(group_fault) => resumed_by_member(
                pgid,
                group_fault@,
                attempt.1,
                list_pids,
                send_process,
                resumption,
            ),
        };
    if let Err(group_fault) = attempt.0 {
        let listing = choose|listing: Result<Vec<i32>, IoFault>| #[trigger]
            recon::lists_group(pgid, list_pids, listing) && match recon::members_of(listing) {
                Err(fault) => {
                    &&& resumption.1 == attempt.1
                    &&& resumption.0 matches Err(returned) && returned@ == fault
                },
                Ok(pids) => resumed_one_by_one(
                    pids,
                    group_fault@,
                    attempt.1,
                    send_process,
                    resumption,
                ),
            };
        assert(list_pids.ensures((2u32, pgid as u32), listing));
        if let Ok(members) = recon::members_of(listing) {
            assert(resumed_one_by_one(
                members,
                group_fault@,
                attempt.1,
                send_process,
                resumption,
            ));
            let made = choose|made: (Result<(), IoFault>, W)| #[trigger]
                enforcer::members_resumed(members, attempt.1, send_process, made) && resumption.1
                    == made.1 && match made.0 {
                    Ok(_) => resumption.0 is Ok,
                    Err(pid_fault) => resumption.0 matches Err(returned) && returned@
                        == enforcer::resume_fault(group_fault@, pid_fault@),
                };
            enforcer::law_every_process_is_told_to_run(members, attempt.1, send_process, made);
            assert(resumed_in_turn(members, group_fault@, attempt.1, send_process, resumption));
        }
    }
}

/// Whether the members can have been told to run one by one, every one of them, or up to one
/// that was refused, whose fault is reported with the group's.
pub open spec fn resumed_in_turn<W, P: FnMut(W, i32, JobSignal) -> (Result<(), IoFault>, W)>(
    members: Seq<i32>,
    group_fault: FaultView,
    before: W,
    send_process: P,
    resumption: (Result<(), IoFault>, W),
) -> bool {
    exists|worlds: Seq<W>|
        {
            &&& #[trigger] enforcer::told_in_turn(members, before, send_process, worlds)
            &&& if worlds.len() == members.len() {
                &&& resumption.0 is Ok
                &&& resumption.1 == last_world(before, worlds)
            } else {
                &&& resumption.0 matches Err(both)
                &&& both.kind == FaultKind::Other
                &&& refused_next(
                    members[worlds.len() as int],
                    group_fault,
                    last_world(before, worlds),
                    send_process,
                    both.message@,
                    resumption.1,
                )
            }
        }
}

/// The last of the worlds, or the one before them all.
pub open spec fn last_world<W>(before: W, worlds: Seq<W>) -> W {
    if worlds.len() == 0 {
        before
    } else {
        worlds.last()
    }
}

/// Whether the process can have been refused the signal, so that the message names its fault
/// with that of its group.
pub open spec fn refused_next<W, P: FnMut(W, i32, JobSignal) -> (Result<(), IoFault>, W)>(
    pid: i32,
    group_fault: FaultView,
    before: W,
    send_process: P,
    message: Seq<char>,
    after: W,
) -> bool {
    exists|refusal: (Result<(), IoFault>, W)|
        {
            &&& #[trigger] send_process.ensures((before, pid, JobSignal::Continue), refusal)
            &&& refusal.1 == after
            &&& refusal.0 matches Err(fault)
            &&& message == "failed to resume target group: "@ + group_fault.message
                + "; fallback resume by pid failed: "@ + fault.message@
        }
}

/// Before a forced exit the target's group is signalled exactly where no group is on record
/// as stopped, or where that one could not be resumed; where both fail, both are reported.
pub proof fn law_how_a_forced_exit_resumes<
    W,
    F: FnOnce(W, ActiveTarget) -> (Result<(), IoFault>, W),
    G: FnOnce(W, i32) -> (Result<(), IoFault>, W),
>(
    active_target: ActiveTarget,
    before: W,
    resume_tracked: F,
    resume_target: G,
    resumption: (Result<(), IoFault>, W),
)
    requires
        resumed_for_exit(active_target, before, resume_tracked, resume_target, resumption),
    ensures
        active_target.stopped_pgid is None ==> resume_target.ensures(
            (before, active_target.pgid),
            resumption,
        ),
        active_target.stopped_pgid is Some ==> exists|attempt: (Result<(), IoFault>, W)|
            {
                &&& #[trigger] resume_tracked.ensures((before, active_target), attempt)
                &&& match attempt.0 {
                    Ok(_) => resumption.0 is Ok && resumption.1 == attempt.1,
                    Err(tracked_fault) => exists|whole: (Result<(), IoFault>, W)|
                        {
                            &&& #[trigger] resume_target.ensures(
                                (attempt.1, active_target.pgid),
                                whole,
                            )
                            &&& resumption.1 == whole.1
                            &&& resumption.0 is Ok <==> whole.0 is Ok
                            &&& resumption.0 matches Err(both) ==> both.message@
                                == "failed to resume tracked target members: "@
                                + tracked_fault.message@
                                + "; forced target group resume failed: "@
                                + whole.0->Err_0.message@
                        },
                }
            },
{
}

/// The signals of a forced exit are those: the group on record as stopped is resumed, and the
/// target's group where none is on record or that failed.
pub proof fn law_which_signals_a_forced_exit_sends<
    W,
    G: FnOnce(W, i32, JobSignal) -> (Result<(), IoFault>, W),
    L: FnOnce(u32, u32) -> Result<Vec<i32>, IoFault>,
    P: FnMut(W, i32, JobSignal) -> (Result<(), IoFault>, W),
>(
    active_target: ActiveTarget,
    before: W,
    send_group: G,
    list_pids: L,
    send_process: P,
    resumption: (Result<(), IoFault>, W),
)
    requires
        signalled_for_exit(
            active_target,
            before,
            send_group,
            list_pids,
            send_process,
            resumption,
        ),
    ensures
        active_target.stopped_pgid is None ==> send_group.ensures(
            (before, active_target.pgid, JobSignal::Continue),
            resumption,
        ),
        active_target.stopped_pgid matches Some(stopped_pgid) ==> exists|attempt: (
            Result<(), IoFault>,
            W,
        )|
            {
                &&& #[trigger] resumed_group(
                    stopped_pgid,
                    before,
                    send_group,
                    list_pids,
                    send_process,
                    attempt,
                )
                &&& match attempt.0 {
                    Ok(_) => resumption.0 is Ok && resumption.1 == attempt.1,
                    Err(_) => exists|whole: (Result<(), IoFault>, W)|
                        {
                            &&& #[trigger] send_group.ensures(
                                (attempt.1, active_target.pgid, JobSignal::Continue),
                                whole,
                            )
                            &&& resumption.1 == whole.1
                            &&& resumption.0 is Ok <==> whole.0 is Ok
                        },
                }
            },
{
}

/// A forced exit signals whenever a target is under control, and only then; it releases the
/// target exactly when that succeeds, and fails with `ResumeFailed` alone.
pub proof fn law_forced_exit_always_tries<
    W,
    G: FnOnce(W, i32, JobSignal) -> (Result<(), IoFault>, W),
    L: FnOnce(u32, u32) -> Result<Vec<i32>, IoFault>,
    P: FnMut(W, i32, JobSignal) -> (Result<(), IoFault>, W),
>(
    before: ControlState,
    world: W,
    send_group: G,
    list_pids: L,
    send_process: P,
    after: ControlState,
    resumption: (Result<(), ControlError>, W),
)
    requires
        exit_signalled(before, world, send_group, list_pids, send_process, after, resumption),
    ensures
        after.stop_signal == before.stop_signal,
        resumption.0 is Ok ==> after.active_target is None,
        resumption.0 is Err ==> after == before && resumption.0->Err_0 is ResumeFailed,
        before.active_target is None ==> resumption.0 is Ok && resumption.1 == world,
        before.active_target matches Some(target) ==> exists|made: (Result<(), IoFault>, W)|
            {
                &&& #[trigger] signalled_for_exit(
                    target,
                    world,
                    send_group,
                    list_pids,
                    send_process,
                    made,
                )
                &&& resumption.0 is Ok <==> made.0 is Ok
                &&& resumption.0 is Err ==> resumption.0->Err_0 == ControlError::ResumeFailed(
                    made.0->Err_0,
                )
                &&& resumption.1 == made.1
            },
{
}

} // verus!
