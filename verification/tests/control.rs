use kirv::control::config::ArgText;
use kirv::control::estimator::Estimator;
use kirv::control::fault::IoFault;
use kirv::control::marshal::{Band, Marshal, Pursuit};
use kirv::control::recon::{current_uid, BsdInfo, ResolveError};
use kirv::control::reporter::Reporter;
use kirv::control::session::{
    compute_control_decision, control_period, current_pgid, gone_message, guard_group,
    guard_target_group, ControlLoop, ControlSession, LoopAction, LoopEnd, LoopEvent, SessionError,
    Units,
};
use kirv::control::span::Span;
use kirv::control::state::{
    clear_stopped_group, current_active_target, current_group_pids, release_active_target,
    reset_stop_signal, resume_before_forced_exit_with, resume_target_group, resume_tracked_members,
    set_active_target, stop_requested, try_resume_active_target, try_resume_active_target_with,
    try_set_active_target, try_set_stopped_group, ControlState,
};
use kirv::control::types::{
    ActiveTarget, ControlDecision, EstimatedState, JobSignal, ProcessIdentity, RawObservation,
    TargetGroup,
};
use kirv::control::{resume_before_forced_exit, start, stop, ControlError};
use nix::unistd::getpgrp;
use std::num::ParseFloatError;

fn accumulate(total: f32, cpu: f32) -> f32 {
    total + cpu.max(0.0)
}

fn limit_jump(last: f32, cpu: f32) -> f32 {
    cpu.clamp((last - 30.0).max(0.0), last + 30.0)
}

fn low_pass(dt: Span, cpu: f32, prev: f32) -> f32 {
    let alpha = 1.0 - (-(dt.nanos as f32 / 1e9) / 0.5).exp();
    alpha * cpu + (1.0 - alpha) * prev
}

fn place(cpu: f32, setpoint: f32) -> Band {
    if cpu < setpoint - 0.35 {
        Band::Below
    } else if cpu <= setpoint + 0.35 {
        Band::Inside
    } else {
        Band::Above
    }
}

fn accrue(integral: f32, cpu: f32, setpoint: f32, dt: Span) -> f32 {
    (integral + (cpu - setpoint) * (dt.nanos as f32 / 1e9)).clamp(-40.0, 40.0)
}

fn pursue(pursuit: Pursuit<f32>) -> f32 {
    let error = pursuit.filtered_cpu - pursuit.setpoint;
    let active = (1.0 - pursuit.prev_output).clamp(0.05, 1.0);
    let base = (1.0 - pursuit.setpoint / (pursuit.filtered_cpu / active)).clamp(0.0, 1.0);
    (base + pursuit.kp * error + pursuit.ki * pursuit.integral).clamp(0.0, 1.0)
}

fn limit_step(prev: f32, target: f32) -> f32 {
    (prev + (target - prev).clamp(-0.08, 0.15)).clamp(0.0, 1.0)
}

fn stop_for(period: Span, output: f32) -> Span {
    Span {
        nanos: (period.nanos as f32 * output) as u128,
    }
}

fn compute(
    estimator: &mut Estimator<f32>,
    marshal: &mut Marshal<f32>,
    observation: Option<&RawObservation<f32>>,
) -> (EstimatedState<f32>, ControlDecision) {
    compute_control_decision(
        estimator,
        marshal,
        observation,
        accumulate,
        limit_jump,
        low_pass,
        place,
        accrue,
        pursue,
        limit_step,
        stop_for,
    )
}

fn observation(millis: u64, cpu: f32) -> RawObservation<f32> {
    RawObservation {
        timestamp: Span::from_millis(millis),
        per_pid_cpu: vec![(1, cpu)],
        process_count: 1,
    }
}

fn active(pgid: i32, stopped_pgid: Option<i32>) -> ActiveTarget {
    ActiveTarget { pgid, stopped_pgid }
}

fn controlling(pgid: i32, stopped_pgid: Option<i32>) -> ControlState {
    let mut control = ControlState::new();
    set_active_target(&mut control, active(pgid, stopped_pgid));
    control
}

fn units() -> Units<f32> {
    Units {
        zero: 0.0,
        kp: 0.001,
        ki: 0.0001,
    }
}

fn silent() -> Reporter {
    Reporter::new(None, Span::zero())
}

fn other_group() -> i32 {
    current_pgid().saturating_add(1)
}

fn target_group(pgid: i32) -> TargetGroup {
    TargetGroup {
        root: ProcessIdentity {
            pid: 42,
            pgid,
            start_tvsec: 1,
            start_tvusec: 2,
        },
        pgid,
    }
}

#[test]
fn rejects_current_process_group() {
    let current_pgid = getpgrp().as_raw();
    assert!(guard_target_group(current_pgid).is_err());
}

#[test]
fn accepts_non_current_process_group() {
    let current_pgid = getpgrp().as_raw();
    assert!(guard_target_group(current_pgid.saturating_add(1)).is_ok());
}

#[test]
fn guards_against_one_group_alone() {
    assert!(matches!(guard_group(7, 7), Err(SessionError::OwnGroup)));
    assert!(guard_group(7, 8).is_ok());
    assert_eq!(current_pgid(), getpgrp().as_raw());
}

#[test]
fn control_period_is_the_sampling_interval() {
    assert_eq!(
        control_period().nanos,
        sysinfo::MINIMUM_CPU_UPDATE_INTERVAL.as_nanos()
    );
}

#[test]
fn missing_observation_uses_hold_instead_of_stopping_control() {
    let mut estimator = Estimator::new(Span::from_millis(500), 0.0);
    let mut marshal = Marshal::new(50.0, Span::from_millis(500), 0.0, 0.001, 0.0001);

    let first = observation(1000, 60.0);
    let second = observation(1500, 60.0);

    let _ = compute(&mut estimator, &mut marshal, Some(&first));
    let _ = compute(&mut estimator, &mut marshal, Some(&second));
    let (estimated, decision) = compute(&mut estimator, &mut marshal, None);

    assert!(estimated.valid);
    assert!(!estimated.timed_out);
    assert!(decision.stop_duration.nanos > 0);
}

#[test]
fn three_missing_observations_stop_nothing() {
    let mut estimator = Estimator::new(Span::from_millis(500), 0.0);
    let mut marshal = Marshal::new(50.0, Span::from_millis(500), 0.0, 0.001, 0.0001);
    let _ = compute(&mut estimator, &mut marshal, Some(&observation(1000, 60.0)));
    let _ = compute(&mut estimator, &mut marshal, Some(&observation(1500, 60.0)));
    let _ = compute(&mut estimator, &mut marshal, None);
    let _ = compute(&mut estimator, &mut marshal, None);

    let (estimated, decision) = compute(&mut estimator, &mut marshal, None);

    assert!(estimated.timed_out);
    assert_eq!(decision.stop_duration, Span::zero());
}

#[test]
fn stop_sets_stop_signal() {
    let mut control = ControlState::new();
    assert!(!stop_requested(&control));

    stop(&mut control);
    assert!(stop_requested(&control));
}

#[test]
fn resume_tracked_members_skips_empty_stopped_group() {
    assert!(resume_tracked_members(
        ActiveTarget {
            pgid: 1,
            stopped_pgid: None
        },
        (),
        |(), _, _| panic!("no group is on record as stopped"),
        |_, _| panic!("no group needs listing"),
        |(), _, _| panic!("no process needs a signal"),
    )
    .0
    .is_ok());
}

#[test]
fn resume_tracked_members_falls_back_to_the_members() {
    let resume = |members: Result<Vec<i32>, IoFault>, refused: i32| {
        resume_tracked_members(
            active(7, Some(9)),
            Vec::new(),
            |signalled, pgid, signal| {
                assert_eq!((pgid, signal), (9, JobSignal::Continue));
                (Err(IoFault::other("EPERM")), signalled)
            },
            |_, info| {
                assert_eq!(info, 9);
                members
            },
            |mut signalled: Vec<i32>, pid, _| {
                signalled.push(pid);
                if pid == refused {
                    (Err(IoFault::other("EIO")), signalled)
                } else {
                    (Ok(()), signalled)
                }
            },
        )
    };

    assert_eq!(resume(Ok(vec![0, 11, 12]), 0), (Ok(()), vec![11, 12]));
    assert_eq!(
        resume(Ok(vec![11, 12, 13]), 12),
        (
            Err(IoFault::other(
                "failed to resume target group: EPERM; fallback resume by pid failed: EIO"
            )),
            vec![11, 12]
        )
    );
    assert_eq!(
        resume(Err(IoFault::other("no list")), 0),
        (Err(IoFault::other("no list")), vec![])
    );
}

#[test]
fn resume_target_group_continues_the_group() {
    assert_eq!(
        resume_target_group(7, 0, |signals, pgid, signal| {
            assert_eq!((pgid, signal), (7, JobSignal::Continue));
            (Ok(()), signals + 1)
        }),
        (Ok(()), 1)
    );
    assert_eq!(current_group_pids(7, |_, _| Ok(vec![0, 3])), Ok(vec![3]));
}

#[test]
fn try_resume_active_target_clears_slot_on_success() {
    let mut control = ControlState::new();
    set_active_target(
        &mut control,
        ActiveTarget {
            pgid: 1,
            stopped_pgid: Some(1),
        },
    );

    assert!(
        try_resume_active_target_with(&mut control, (), |(), _| (Ok(()), ()))
            .0
            .is_ok()
    );
    assert!(current_active_target(&control).is_none());
}

#[test]
fn try_resume_active_target_keeps_slot_on_failure() {
    let mut control = ControlState::new();
    let active_target = ActiveTarget {
        pgid: 1,
        stopped_pgid: Some(1),
    };
    set_active_target(&mut control, active_target);

    let (result, ()) = try_resume_active_target_with(&mut control, (), |(), _| {
        (Err(IoFault::other("resume failed")), ())
    });

    assert!(result.is_err());
    assert_eq!(current_active_target(&control), Some(active_target));
}

#[test]
fn try_resume_active_target_resumes_the_recorded_group() {
    let mut control = controlling(7, Some(9));

    let (result, resumed) = try_resume_active_target(
        &mut control,
        Vec::new(),
        |mut resumed, pgid, signal| {
            resumed.push((pgid, signal));
            (Ok(()), resumed)
        },
        |_, _| panic!("no group needs listing"),
        |_, _, _| panic!("no process needs a signal"),
    );

    assert!(result.is_ok());
    assert_eq!(resumed, vec![(9, JobSignal::Continue)]);
    assert!(control.active_target.is_none());
}

#[test]
fn try_set_active_target_rejects_existing_active_target() {
    let mut control = ControlState::new();
    let active_target = ActiveTarget {
        pgid: 1,
        stopped_pgid: Some(1),
    };
    set_active_target(&mut control, active_target);

    let result = try_set_active_target(
        &mut control,
        ActiveTarget {
            pgid: 2,
            stopped_pgid: None,
        },
    );

    assert!(matches!(result, Err(ControlError::ActiveTargetAlreadySet)));
    assert_eq!(current_active_target(&control), Some(active_target));
}

#[test]
fn reset_stop_signal_allows_new_run_after_active_target_is_set() {
    let mut control = ControlState::new();
    stop(&mut control);
    assert!(stop_requested(&control));

    try_set_active_target(
        &mut control,
        ActiveTarget {
            pgid: 1,
            stopped_pgid: None,
        },
    )
    .expect("active target should be set");
    reset_stop_signal(&mut control);

    assert!(!stop_requested(&control));
}

#[test]
fn failed_reentry_does_not_clear_pending_stop_signal() {
    let mut control = ControlState::new();
    set_active_target(
        &mut control,
        ActiveTarget {
            pgid: 1,
            stopped_pgid: None,
        },
    );
    stop(&mut control);

    let result = try_set_active_target(
        &mut control,
        ActiveTarget {
            pgid: 2,
            stopped_pgid: None,
        },
    );

    assert!(matches!(result, Err(ControlError::ActiveTargetAlreadySet)));
    assert!(stop_requested(&control));
}

#[test]
fn resume_before_forced_exit_clears_active_target_on_success() {
    let mut control = ControlState::new();
    set_active_target(
        &mut control,
        ActiveTarget {
            pgid: 1,
            stopped_pgid: Some(1),
        },
    );

    assert!(resume_before_forced_exit_with(
        &mut control,
        (),
        |(), _| (Ok(()), ()),
        |(), _| (Ok(()), ())
    )
    .0
    .is_ok());
    assert!(current_active_target(&control).is_none());
}

#[test]
fn resume_before_forced_exit_skips_target_resume_after_tracked_success() {
    let mut control = ControlState::new();
    set_active_target(
        &mut control,
        ActiveTarget {
            pgid: 42,
            stopped_pgid: Some(42),
        },
    );

    let (result, (tracked_resume, target_resume)) = resume_before_forced_exit_with(
        &mut control,
        (None, None),
        |(_, target_resume), active_target| {
            (Ok(()), (active_target.stopped_pgid, target_resume))
        },
        |(tracked_resume, _), pgid| (Ok(()), (tracked_resume, Some(pgid))),
    );

    assert!(result.is_ok());

    assert_eq!(tracked_resume, Some(42));
    assert_eq!(target_resume, None);
    assert!(current_active_target(&control).is_none());
}

#[test]
fn resume_before_forced_exit_falls_back_to_target_after_tracked_failure() {
    let mut control = ControlState::new();
    set_active_target(
        &mut control,
        ActiveTarget {
            pgid: 42,
            stopped_pgid: Some(42),
        },
    );

    let (result, target_resume) = resume_before_forced_exit_with(
        &mut control,
        None,
        |target_resume, _| (Err(IoFault::other("tracked resume failed")), target_resume),
        |_, pgid| (Ok(()), Some(pgid)),
    );

    assert!(result.is_ok());

    assert_eq!(target_resume, Some(42));
    assert!(current_active_target(&control).is_none());
}

#[test]
fn resume_before_forced_exit_resumes_target_group_even_without_stopped_group() {
    let mut control = ControlState::new();
    set_active_target(
        &mut control,
        ActiveTarget {
            pgid: 42,
            stopped_pgid: None,
        },
    );

    let (result, resumed_target) = resume_before_forced_exit_with(
        &mut control,
        None,
        |resumed_target, active_target| {
            assert_eq!(active_target.stopped_pgid, None);
            (Ok(()), resumed_target)
        },
        |_, pgid| (Ok(()), Some(pgid)),
    );

    assert!(result.is_ok());

    assert_eq!(resumed_target, Some(42));
    assert!(current_active_target(&control).is_none());
}

#[test]
fn resume_before_forced_exit_reports_both_failures() {
    let mut control = controlling(42, Some(42));

    let error = resume_before_forced_exit_with(
        &mut control,
        (),
        |(), _| (Err(IoFault::other("tracked resume failed")), ()),
        |(), _| (Err(IoFault::other("EPERM")), ()),
    )
    .0
    .unwrap_err();

    assert_eq!(
        error.message(),
        "failed to resume target process group: failed to resume tracked target members: \
         tracked resume failed; forced target group resume failed: EPERM"
    );
    assert_eq!(control, controlling(42, Some(42)));
}

#[test]
fn resume_before_forced_exit_signals_the_group() {
    let mut control = controlling(42, None);

    let (result, resumed) = resume_before_forced_exit(
        &mut control,
        Vec::new(),
        |mut resumed, pgid, signal| {
            resumed.push((pgid, signal));
            (Ok(()), resumed)
        },
        |_, _| panic!("no group needs listing"),
        |_, _, _| panic!("no process needs a signal"),
    );

    assert!(result.is_ok());
    assert_eq!(resumed, vec![(42, JobSignal::Continue)]);
    assert!(control.active_target.is_none());
    assert!(resume_before_forced_exit(
        &mut control,
        (),
        |(), _, _| panic!("nothing is under control"),
        |_, _| panic!("nothing is under control"),
        |(), _, _| panic!("nothing is under control"),
    )
    .0
    .is_ok());
}

#[test]
fn resume_before_forced_exit_tries_the_group_the_members_and_the_target() {
    let mut control = controlling(42, Some(9));

    let (result, signals) = resume_before_forced_exit(
        &mut control,
        Vec::new(),
        |mut signals: Vec<i32>, pgid, _| {
            signals.push(-pgid);
            (Err(IoFault::other("EPERM")), signals)
        },
        |_, _| Ok(vec![11, 12]),
        |mut signals, pid, _| {
            signals.push(pid);
            (Err(IoFault::other("EIO")), signals)
        },
    );

    assert_eq!(
        result.unwrap_err().message(),
        "failed to resume target process group: failed to resume tracked target members: \
         failed to resume target group: EPERM; fallback resume by pid failed: EIO; \
         forced target group resume failed: EPERM"
    );
    assert_eq!(signals, vec![-9, 11, -42]);
    assert_eq!(control, controlling(42, Some(9)));
}

#[test]
fn stopped_groups_are_recorded_for_a_target_alone() {
    let mut control = ControlState::new();
    assert_eq!(
        try_set_stopped_group(&mut control, 7).unwrap_err().message,
        "active target must be set before stopping a group"
    );

    set_active_target(&mut control, active(7, None));
    assert!(try_set_stopped_group(&mut control, 7).is_ok());
    assert_eq!(control.active_target, Some(active(7, Some(7))));

    clear_stopped_group(&mut control);
    assert_eq!(control.active_target, Some(active(7, None)));
}

#[test]
fn a_target_that_changed_is_not_released() {
    let mut control = controlling(7, Some(7));

    release_active_target(&mut control, &active(7, None));
    assert_eq!(control.active_target, Some(active(7, Some(7))));

    release_active_target(&mut control, &active(7, Some(7)));
    assert!(control.active_target.is_none());
    assert!(try_set_active_target(&mut control, active(8, None)).is_ok());
}

#[test]
fn a_session_begins_with_a_clean_state() {
    let mut control = ControlState::new();
    stop(&mut control);
    let pgid = other_group();

    let session = ControlSession::begin_resolved(
        &mut control,
        Ok(target_group(pgid)),
        current_pgid(),
        50.0f32,
        units(),
        Span::from_millis(200),
        silent(),
    )
    .map_err(|error| error.message())
    .ok()
    .expect("the session should begin");

    assert_eq!(session.target, target_group(pgid));
    assert_eq!(session.marshal.setpoint, 50.0);
    assert!(!control.stop_signal);
    assert_eq!(control.active_target, Some(active(pgid, None)));
}

#[test]
fn a_refused_session_changes_nothing() {
    let begin = |control: &mut ControlState, resolution: Result<TargetGroup, ResolveError>| {
        ControlSession::begin_resolved(
            control,
            resolution,
            7,
            50.0f32,
            units(),
            Span::from_millis(200),
            silent(),
        )
        .err()
        .map(|error| error.message())
    };
    let mut control = controlling(9, Some(9));
    stop(&mut control);
    let before = control;

    assert_eq!(
        begin(&mut control, Ok(target_group(8))),
        Some("control loop is already active".to_string())
    );
    assert_eq!(
        begin(&mut control, Ok(target_group(7))),
        Some("refusing to control the current process group".to_string())
    );
    assert_eq!(
        begin(&mut control, Err(ResolveError::InvalidGroup)),
        Some("invalid process group".to_string())
    );
    assert_eq!(control, before);
}

fn utf8(text: &str) -> ArgText {
    ArgText::Utf8(text.to_string())
}

fn parse(text: &str) -> Result<f32, ParseFloatError> {
    text.parse()
}

fn within(throttle: &f32, low: u8, high: u8) -> bool {
    (f32::from(low)..=f32::from(high)).contains(throttle)
}

#[test]
fn start_takes_the_group_of_the_named_process_under_control() {
    let mut control = ControlState::new();
    let pgid = other_group();

    let session = start(
        &mut control,
        vec![utf8("kirv"), utf8("42"), utf8("25")],
        parse,
        within,
        units(),
        silent(),
        |pid| {
            Ok(BsdInfo {
                pid: pid as u32,
                pgid: pgid as u32,
                uid: current_uid(),
                start_tvsec: 1,
                start_tvusec: 2,
            })
        },
    )
    .ok()
    .expect("the session should begin");

    assert_eq!(session.target, target_group(pgid));
    assert_eq!(session.throttle, 25.0);
    assert_eq!(session.estimator.control_period, control_period());
    assert_eq!(control.active_target, Some(active(pgid, None)));
}

#[test]
fn start_rejects_bad_arguments_first() {
    let mut control = ControlState::new();

    let error = start(
        &mut control,
        vec![utf8("kirv"), utf8("42")],
        parse,
        within,
        units(),
        silent(),
        |_| panic!("nothing to look up"),
    )
    .err()
    .expect("the arguments should be rejected");

    assert_eq!(error.message(), "usage: kirv <pid> <percentage>");
    assert_eq!(control, ControlState::new());
}

#[test]
fn a_session_reports_what_it_decides() {
    let mut control = ControlState::new();
    let mut session = ControlSession::begin_resolved(
        &mut control,
        Ok(target_group(77)),
        1,
        50.0f32,
        units(),
        Span::from_millis(500),
        Reporter::new(Some("TRUE"), Span::zero()),
    )
    .ok()
    .expect("the session should begin");
    let mut decide = |now: u64, observation: Option<&RawObservation<f32>>| {
        session.decide(
            Span::from_millis(now),
            observation,
            accumulate,
            limit_jump,
            low_pass,
            place,
            accrue,
            pursue,
            limit_step,
            stop_for,
        )
    };

    let (first, no_report) = decide(500, Some(&observation(500, 60.0)));
    assert_eq!(first.stop_duration, Span::zero());
    assert!(no_report.is_none());

    let (second, report) = decide(1000, Some(&observation(1000, 60.0)));
    let report = report.expect("a second has passed");
    assert!(second.stop_duration.nanos > 0);
    assert_eq!((report.pid, report.pgid, report.procs), (42, 77, 1));
    assert_eq!(report.normalized_cpu, 60.0);
    assert_eq!(report.stop_duration, second.stop_duration);
    assert!(report.valid && report.warmed_up && !report.timed_out);

    let (_, too_soon) = decide(1999, None);
    assert!(too_soon.is_none());
    let (_, due) = decide(2000, None);
    assert_eq!(due.expect("another second has passed").procs, 0);
}

#[test]
fn reports_are_asked_for_by_setting() {
    let enabled = |setting: Option<&str>| Reporter::new(setting, Span::zero()).enabled;

    assert!(enabled(Some("1")));
    assert!(enabled(Some("true")));
    assert!(enabled(Some("TrUe")));
    assert!(!enabled(Some("0")));
    assert!(!enabled(Some("yes")));
    assert!(!enabled(Some("true ")));
    assert!(!enabled(None));
}

type Step = (LoopEvent<f32>, fn(&LoopAction<f32>) -> bool);

fn drive(steps: Vec<Step>) -> LoopAction<f32> {
    let (mut control_loop, mut action) = ControlLoop::run::<f32>(Span::from_millis(200));
    assert!(matches!(action, LoopAction::PollStop));
    for (event, expected) in steps {
        (control_loop, action) = control_loop.step(event);
        assert!(expected(&action));
    }
    action
}

#[test]
fn a_period_goes_from_poll_to_pause() {
    let decision = ControlDecision {
        stop_duration: Span::from_millis(30),
    };
    let steps: Vec<Step> = vec![
        (
            LoopEvent::StopPolled(false, Span::from_millis(1000)),
            |action| matches!(action, LoopAction::Validate),
        ),
        (LoopEvent::Validated(Ok(true)), |action| {
            matches!(action, LoopAction::Observe)
        }),
        (LoopEvent::Observed(Ok(None)), |action| {
            matches!(action, LoopAction::Decide(None))
        }),
        (LoopEvent::Decided(decision), |action| {
            matches!(action, LoopAction::Apply(decision) if decision.stop_duration == Span::from_millis(30))
        }),
        (
            LoopEvent::Applied(Ok(()), Span::from_millis(1050)),
            |action| matches!(action, LoopAction::Pause(pause) if *pause == Span::from_millis(150)),
        ),
        (LoopEvent::Paused, |action| {
            matches!(action, LoopAction::PollStop)
        }),
        (
            LoopEvent::StopPolled(true, Span::from_millis(1200)),
            |action| matches!(action, LoopAction::Resume),
        ),
    ];
    let _ = drive(steps);
}

#[test]
fn an_overrun_period_is_not_paused() {
    let decision = ControlDecision {
        stop_duration: Span::zero(),
    };
    let steps: Vec<Step> = vec![
        (
            LoopEvent::StopPolled(false, Span::from_millis(1000)),
            |_| true,
        ),
        (LoopEvent::Validated(Ok(true)), |_| true),
        (
            LoopEvent::Observed(Ok(Some(observation(1000, 1.0)))),
            |action| matches!(action, LoopAction::Decide(Some(_))),
        ),
        (LoopEvent::Decided(decision), |_| true),
        (
            LoopEvent::Applied(Ok(()), Span::from_millis(1200)),
            |action| matches!(action, LoopAction::PollStop),
        ),
    ];
    let _ = drive(steps);
}

#[test]
fn every_end_resumes_the_target_first() {
    let ended = |mut events: Vec<LoopEvent<f32>>| {
        let (mut control_loop, mut action) = ControlLoop::run::<f32>(Span::from_millis(200));
        for event in events.drain(..) {
            (control_loop, action) = control_loop.step(event);
        }
        assert!(matches!(action, LoopAction::Resume));
        match control_loop.step(LoopEvent::<f32>::Resumed).1 {
            LoopAction::Finish(end) => end,
            _ => panic!("the loop should have ended"),
        }
    };
    let polled = || LoopEvent::StopPolled(false, Span::zero());

    assert!(matches!(
        ended(vec![LoopEvent::StopPolled(true, Span::zero())]),
        LoopEnd::StopRequested
    ));
    assert!(matches!(
        ended(vec![polled(), LoopEvent::Validated(Ok(false))]),
        LoopEnd::TargetGone
    ));
    assert!(matches!(
        ended(vec![polled(), LoopEvent::Validated(Err(IoFault::other("one")))]),
        LoopEnd::Failed(fault) if fault.message == "one"
    ));
    assert!(matches!(
        ended(vec![
            polled(),
            LoopEvent::Validated(Ok(true)),
            LoopEvent::Observed(Err(IoFault::other("two")))
        ]),
        LoopEnd::Failed(fault) if fault.message == "two"
    ));
    let decision = ControlDecision {
        stop_duration: Span::zero(),
    };
    assert!(matches!(
        ended(vec![
            polled(),
            LoopEvent::Validated(Ok(true)),
            LoopEvent::Observed(Ok(None)),
            LoopEvent::Decided(decision),
            LoopEvent::Applied(Err(IoFault::other("three")), Span::zero())
        ]),
        LoopEnd::Failed(fault) if fault.message == "three"
    ));
}

#[test]
fn a_gone_target_is_named() {
    assert_eq!(
        gone_message(-17),
        "target pgid -17 has no live processes; stopping control loop"
    );
}
