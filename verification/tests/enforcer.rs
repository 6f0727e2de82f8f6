use kirv::control::enforcer::{
    combine_resume_errors, forgive_missing, send_group_signal, send_process_signal, EnforceAction,
    EnforceEvent, Enforcer, SendFault,
};
use kirv::control::fault::IoFault;
use kirv::control::span::Span;
use kirv::control::state::{
    clear_stopped_group, current_active_target, set_active_target, stop_requested,
    switch_stop_signal, try_resume_active_target, try_set_stopped_group, ControlState,
};
use kirv::control::types::{
    ActiveTarget, ControlDecision, JobSignal, ProcessIdentity, TargetGroup,
};
use nix::errno::Errno;

struct World {
    control: ControlState,
    group_signals: Vec<(i32, JobSignal)>,
    process_signals: Vec<(i32, JobSignal)>,
    slept: Vec<Span>,
    stop_after_sleep: bool,
    refuse_stop: bool,
    refuse_continue: bool,
    refuse_pid: Option<i32>,
    members: Result<Vec<i32>, &'static str>,
}

impl World {
    fn new(active_target: Option<ActiveTarget>) -> World {
        World {
            control: ControlState {
                stop_signal: false,
                active_target,
            },
            group_signals: Vec::new(),
            process_signals: Vec::new(),
            slept: Vec::new(),
            stop_after_sleep: false,
            refuse_stop: false,
            refuse_continue: false,
            refuse_pid: None,
            members: Ok(Vec::new()),
        }
    }

    fn send_group(&mut self, pgid: i32, signal: JobSignal) -> Result<(), IoFault> {
        self.group_signals.push((pgid, signal));
        let refused = match signal {
            JobSignal::Stop => self.refuse_stop,
            JobSignal::Continue => self.refuse_continue,
        };
        if refused {
            Err(IoFault::other("EPERM"))
        } else {
            Ok(())
        }
    }

    fn send_process(&mut self, pid: i32, signal: JobSignal) -> Result<(), IoFault> {
        self.process_signals.push((pid, signal));
        if self.refuse_pid == Some(pid) {
            Err(IoFault::other("EIO"))
        } else {
            Ok(())
        }
    }

    fn apply(&mut self, target: &TargetGroup, decision: &ControlDecision) -> Result<(), IoFault> {
        let (mut enforcement, mut action) = Enforcer::new().apply(target, decision);
        loop {
            let event = match action {
                EnforceAction::PollStop => {
                    EnforceEvent::StopPolled(stop_requested(&self.control))
                }
                EnforceAction::RecordStopped(pgid) => {
                    EnforceEvent::Recorded(try_set_stopped_group(&mut self.control, pgid))
                }
                EnforceAction::SendGroup(pgid, signal) => {
                    EnforceEvent::Sent(self.send_group(pgid, signal))
                }
                EnforceAction::Sleep(slice) => {
                    self.slept.push(slice);
                    if self.stop_after_sleep {
                        switch_stop_signal(&mut self.control);
                    }
                    EnforceEvent::Slept
                }
                EnforceAction::ListMembers(_) => EnforceEvent::Members(match &self.members {
                    Ok(pids) => Ok(pids.clone()),
                    Err(message) => Err(IoFault::other(message)),
                }),
                EnforceAction::SendProcess(pid, signal) => {
                    EnforceEvent::Sent(self.send_process(pid, signal))
                }
                EnforceAction::ClearStopped => {
                    clear_stopped_group(&mut self.control);
                    EnforceEvent::Cleared
                }
                EnforceAction::Finish(outcome) => return outcome,
            };
            (enforcement, action) = enforcement.step(event);
        }
    }
}

fn target_group(pgid: i32) -> TargetGroup {
    TargetGroup {
        root: ProcessIdentity {
            pid: 42,
            pgid,
            start_tvsec: 1,
            start_tvusec: 2,
        },
        pgid,
    }
}

fn stop_for_millis(millis: u64) -> ControlDecision {
    ControlDecision {
        stop_duration: Span::from_millis(millis),
    }
}

fn running(pgid: i32) -> Option<ActiveTarget> {
    Some(ActiveTarget {
        pgid,
        stopped_pgid: None,
    })
}

fn stopped(pgid: i32) -> Option<ActiveTarget> {
    Some(ActiveTarget {
        pgid,
        stopped_pgid: Some(pgid),
    })
}

#[test]
fn send_process_signal_ignores_missing_process() {
    assert!(send_process_signal(i32::MAX, JobSignal::Continue).is_ok());
}

#[test]
fn send_group_signal_ignores_missing_group() {
    assert!(send_group_signal(i32::MAX, JobSignal::Continue).is_ok());
}

#[test]
fn send_process_signal_reaches_this_process() {
    let pid = nix::unistd::getpid().as_raw();
    assert!(send_process_signal(pid, JobSignal::Continue).is_ok());
}

#[test]
fn only_a_refused_signal_is_a_fault() {
    assert_eq!(forgive_missing(Ok(())), Ok(()));
    assert_eq!(forgive_missing(Err(SendFault::NoSuchProcess)), Ok(()));
    assert_eq!(
        forgive_missing(Err(SendFault::Refused("EPERM".to_string()))),
        Err(IoFault::other("EPERM"))
    );
}

#[test]
fn combine_resume_errors_mentions_group_and_pid_failures() {
    let err = combine_resume_errors(
        &IoFault::other(&Errno::EPERM.to_string()),
        &IoFault::other(&Errno::EIO.to_string()),
    );

    let message = err.message;
    assert!(message.contains("failed to resume target group"));
    assert!(message.contains("EPERM"));
    assert!(message.contains("fallback resume by pid failed"));
    assert!(message.contains("EIO"));
}

#[test]
fn apply_resumes_stopped_group_and_session_clears_active_target_after_stop_request() {
    let target = target_group(1234);
    let decision = stop_for_millis(25);
    let mut world = World::new(None);
    set_active_target(
        &mut world.control,
        ActiveTarget {
            pgid: target.pgid,
            stopped_pgid: None,
        },
    );
    world.stop_after_sleep = true;

    world
        .apply(&target, &decision)
        .expect("apply should resume the stopped group");

    assert_eq!(
        world.group_signals,
        vec![
            (target.pgid, JobSignal::Stop),
            (target.pgid, JobSignal::Continue)
        ]
    );
    assert!(world.process_signals.is_empty());
    assert_eq!(
        current_active_target(&world.control),
        Some(ActiveTarget {
            pgid: target.pgid,
            stopped_pgid: None
        })
    );

    let (resumed, ()) = try_resume_active_target(
        &mut world.control,
        (),
        |(), _, _| panic!("no group is on record as stopped"),
        |_, _| panic!("no group needs listing"),
        |(), _, _| panic!("no process needs a signal"),
    );

    assert!(resumed.is_ok());
    assert!(current_active_target(&world.control).is_none());
}

#[test]
fn apply_fails_without_active_target_before_sending_stop() {
    let target = target_group(1234);
    let decision = stop_for_millis(25);
    let mut world = World::new(None);

    let result = world.apply(&target, &decision);

    assert!(result.is_err());
    assert!(world.group_signals.is_empty());
    assert!(world.process_signals.is_empty());
    assert!(current_active_target(&world.control).is_none());
}

#[test]
fn apply_sleeps_for_the_time_decided_on() {
    let mut world = World::new(running(7));

    assert_eq!(world.apply(&target_group(7), &stop_for_millis(25)), Ok(()));

    assert_eq!(
        world.slept,
        vec![
            Span::from_millis(10),
            Span::from_millis(10),
            Span::from_millis(5)
        ]
    );
    assert_eq!(
        world.group_signals,
        vec![(7, JobSignal::Stop), (7, JobSignal::Continue)]
    );
    assert_eq!(world.control.active_target, running(7));
}

#[test]
fn apply_of_a_zero_decision_does_nothing() {
    let mut world = World::new(running(7));

    assert_eq!(world.apply(&target_group(7), &stop_for_millis(0)), Ok(()));

    assert!(world.group_signals.is_empty());
    assert_eq!(world.control.active_target, running(7));
}

#[test]
fn apply_does_nothing_once_a_stop_is_requested() {
    let mut world = World::new(running(7));
    switch_stop_signal(&mut world.control);

    assert_eq!(world.apply(&target_group(7), &stop_for_millis(25)), Ok(()));

    assert!(world.group_signals.is_empty());
    assert_eq!(world.control.active_target, running(7));
}

#[test]
fn apply_clears_the_record_of_a_group_that_could_not_be_stopped() {
    let mut world = World::new(running(7));
    world.refuse_stop = true;

    assert_eq!(
        world.apply(&target_group(7), &stop_for_millis(25)),
        Err(IoFault::other("EPERM"))
    );

    assert_eq!(world.group_signals, vec![(7, JobSignal::Stop)]);
    assert!(world.slept.is_empty());
    assert_eq!(world.control.active_target, running(7));
}

#[test]
fn apply_resumes_members_where_the_group_cannot_be_resumed() {
    let mut world = World::new(running(7));
    world.refuse_continue = true;
    world.members = Ok(vec![11, 12]);

    assert_eq!(world.apply(&target_group(7), &stop_for_millis(5)), Ok(()));

    assert_eq!(
        world.process_signals,
        vec![(11, JobSignal::Continue), (12, JobSignal::Continue)]
    );
    assert_eq!(world.control.active_target, running(7));
}

#[test]
fn apply_keeps_the_record_of_a_group_that_could_not_be_resumed() {
    let mut world = World::new(running(7));
    world.refuse_continue = true;
    world.members = Ok(vec![11, 12, 13]);
    world.refuse_pid = Some(12);

    let fault = world
        .apply(&target_group(7), &stop_for_millis(5))
        .unwrap_err();

    assert_eq!(
        fault.message,
        "failed to resume target group: EPERM; fallback resume by pid failed: EIO"
    );
    assert_eq!(
        world.process_signals,
        vec![(11, JobSignal::Continue), (12, JobSignal::Continue)]
    );
    assert_eq!(world.control.active_target, stopped(7));
}

#[test]
fn apply_keeps_the_record_where_the_members_cannot_be_listed() {
    let mut world = World::new(running(7));
    world.refuse_continue = true;
    world.members = Err("listing failed");

    assert_eq!(
        world.apply(&target_group(7), &stop_for_millis(5)),
        Err(IoFault::other("listing failed"))
    );
    assert_eq!(world.control.active_target, stopped(7));
}

fn resume_pids(pids: &[i32], refused: i32) -> (Result<(), IoFault>, Vec<(i32, JobSignal)>) {
    Enforcer::new().resume_pids(pids, Vec::new(), |mut signalled, pid, signal| {
        signalled.push((pid, signal));
        if pid == refused {
            (Err(IoFault::other("EPERM")), signalled)
        } else {
            (Ok(()), signalled)
        }
    })
}

#[test]
fn resume_pids_stops_at_the_first_failure() {
    let (outcome, signalled) = resume_pids(&[1, 2, 3], 2);

    assert_eq!(outcome, Err(IoFault::other("EPERM")));
    assert_eq!(
        signalled,
        vec![(1, JobSignal::Continue), (2, JobSignal::Continue)]
    );
}

#[test]
fn resume_pids_signals_each_process_once() {
    let (outcome, signalled) = resume_pids(&[1, 2], 0);

    assert_eq!(outcome, Ok(()));
    assert_eq!(
        signalled,
        vec![(1, JobSignal::Continue), (2, JobSignal::Continue)]
    );
    assert_eq!(resume_pids(&[], 0), (Ok(()), Vec::new()));
}
