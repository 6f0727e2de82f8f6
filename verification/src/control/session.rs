//! A control session: taking a target under control, and deciding period by period.
//!
//! The control loop alternates with the outside world. [`ControlLoop`] decides what comes
//! next; the program performs each [`LoopAction`] and hands back the [`LoopEvent`] it led
//! to.

use crate::control::config::{self, ArgText, ControlConfig, MAX_PERCENT, MIN_PERCENT};
use crate::control::enforcer::Enforcer;
use crate::control::error::ControlError;
use crate::control::estimator::{self, Estimator, Sample};
use crate::control::fault::IoFault;
use crate::control::marshal::{self, Band, Marshal, Pursuit};
use crate::control::recon::{self, BsdInfo, Recon, ResolveError};
use crate::control::reporter::{self, Report, Reporter};
use crate::control::span::{self, Span};
use crate::control::state::{reset_stop_signal, try_set_active_target, ControlState};
use crate::control::text::{self, append_signed};
use crate::control::types::{
    ActiveTarget, ControlDecision, EstimatedState, RawObservation, TargetGroup,
};
use std::num::ParseFloatError;
use vstd::prelude::*;

verus! {

/// Why no session began.
#[derive(Debug)]
pub enum SessionError {
    Control(ControlError),
    Resolve(ResolveError),
    /// The target is the group that this process is in.
    OwnGroup,
}

impl SessionError {
    /// Whether `text` is how the error reads.
    pub open spec fn reads(&self, text: Seq<char>) -> bool {
        match *self {
            SessionError::Control(error) => error.reads(text),
            SessionError::Resolve(error) => text == error.text(),
            SessionError::OwnGroup => text == "refusing to control the current process group"@,
        }
    }

    pub fn message(&self) -> (message: String)
        ensures
            self.reads(message@),
    {
        match self {
            SessionError::Control(error) => error.message(),
            SessionError::Resolve(error) => error.message(),
            SessionError::OwnGroup => String::from_str(
                "refusing to control the current process group",
            ),
        }
    }
}

/// Whether a length of time is one that `sysinfo` can ask for between two samples.
pub open spec fn is_sampling_interval(period: Span) -> bool {
    ||| period.nanos == 0
    ||| period.nanos == 100_000_000
    ||| period.nanos == 200_000_000
}

/// The nanoseconds of `sysinfo::MINIMUM_CPU_UPDATE_INTERVAL`, the shortest time between two
/// samples of CPU usage: 200 ms or 100 ms on the systems that the crate knows, and nothing
/// on others.
#[verifier::external_body]
fn sampling_nanos() -> (nanos: u128)
    ensures
        nanos == 0 || nanos == 100_000_000 || nanos == 200_000_000,
{
    sysinfo::MINIMUM_CPU_UPDATE_INTERVAL.as_nanos()
}

/// Whether the period is the interval that `sysinfo` asks for on this system.
pub closed spec fn is_control_period(period: Span) -> bool {
    sampling_nanos.ensures((), period.nanos)
}

/// The length of a control period: the sampling interval of this system.
pub fn control_period() -> (period: Span)
    ensures
        is_control_period(period),
        is_sampling_interval(period),
{
    Span { nanos: sampling_nanos() }
}

/// The process group of this process, from `nix::unistd::getpgrp`. The call always succeeds;
/// its answer is up to the system, so nothing is claimed of it.
#[verifier::external_body]
fn system_pgrp() -> (pgid: i32) {
    nix::unistd::getpgrp().as_raw()
}

/// Refuses the group `current_pgid` as a target.
pub fn guard_group(current_pgid: i32, target_pgid: i32) -> (result: Result<(), SessionError>)
    ensures
        result == if current_pgid == target_pgid {
            Err(SessionError::OwnGroup)
        } else {
            Ok(())
        },
{
    if current_pgid == target_pgid {
        return Err(SessionError::OwnGroup);
    }
    Ok(())
}

/// Whether the system can give this as the group of this process.
pub closed spec fn is_current_pgid(pgid: i32) -> bool {
    system_pgrp.ensures((), pgid)
}

/// The process group of this process.
pub fn current_pgid() -> (pgid: i32)
    ensures
        is_current_pgid(pgid),
{
    system_pgrp()
}

/// Refuses the group of this process as a target.
pub fn guard_target_group(target_pgid: i32) -> (result: Result<(), SessionError>)
    ensures
        match result {
            Ok(_) => exists|pgid: i32| #[trigger] is_current_pgid(pgid) && pgid != target_pgid,
            Err(error) => is_current_pgid(target_pgid) && error == SessionError::OwnGroup,
        },
{
    guard_group(current_pgid(), target_pgid)
}

/// The quantities that the arithmetic starts from.
#[derive(Clone, Copy, Debug)]
pub struct Units<V> {
    /// No usage, no stop, no error.
    pub zero: V,
    /// What an error counts for at once.
    pub kp: V,
    /// What an error counts for over time.
    pub ki: V,
}

pub struct ControlSession<V> {
    pub target: TargetGroup,
    pub throttle: V,
    pub recon: Recon,
    pub estimator: Estimator<V>,
    pub marshal: Marshal<V>,
    pub enforcer: Enforcer,
    pub reporter: Reporter,
}

/// A session with this target before its first period.
pub open spec fn new_session<V>(
    target: TargetGroup,
    throttle: V,
    units: Units<V>,
    period: Span,
    reporter: Reporter,
) -> ControlSession<V> {
    ControlSession {
        target,
        throttle,
        recon: Recon { cpu_primed: false },
        estimator: estimator::fresh(period, units.zero),
        marshal: Marshal {
            kp: units.kp,
            ki: units.ki,
            setpoint: throttle,
            integral: units.zero,
            prev_output: units.zero,
            zero: units.zero,
            control_period: period,
        },
        enforcer: Enforcer {  },
        reporter,
    }
}

/// Why the target cannot be taken under control, if it cannot.
pub open spec fn entry_error(
    control: ControlState,
    resolution: Result<TargetGroup, ResolveError>,
    current_pgid: i32,
) -> Option<SessionError> {
    match resolution {
        Err(error) => Some(SessionError::Resolve(error)),
        Ok(target) => if target.pgid == current_pgid {
            Some(SessionError::OwnGroup)
        } else if control.active_target is Some {
            Some(SessionError::Control(ControlError::ActiveTargetAlreadySet))
        } else {
            None
        },
    }
}

/// The state once the target is under control: nothing stopped, no stop requested.
pub open spec fn entered_state(target: TargetGroup) -> ControlState {
    ControlState {
        stop_signal: false,
        active_target: Some(ActiveTarget { pgid: target.pgid, stopped_pgid: None }),
    }
}

/// What beginning a session comes to.
pub open spec fn entered<V>(
    before: ControlState,
    resolution: Result<TargetGroup, ResolveError>,
    current_pgid: i32,
    throttle: V,
    units: Units<V>,
    period: Span,
    reporter: Reporter,
    after: ControlState,
    result: Result<ControlSession<V>, SessionError>,
) -> bool {
    match entry_error(before, resolution, current_pgid) {
        Some(error) => {
            &&& result == Err::<ControlSession<V>, SessionError>(error)
            &&& after == before
        },
        None => {
            &&& resolution matches Ok(target)
            &&& result == Ok::<ControlSession<V>, SessionError>(
                new_session(target, throttle, units, period, reporter),
            )
            &&& after == entered_state(target)
        },
    }
}

/// Whether looking the process up can give this target.
pub open spec fn resolves<I: FnOnce(i32) -> Result<BsdInfo, IoFault>>(
    pid: i32,
    bsd_info: I,
    resolution: Result<TargetGroup, ResolveError>,
) -> bool {
    exists|lookup: Result<BsdInfo, IoFault>, uid: u32| #[trigger]
        bsd_info.ensures((pid,), lookup) && recon::is_current_uid(uid) && #[trigger] recon::resolved(
            pid,
            lookup,
            uid,
            resolution,
        )
}

/// What beginning a session for this process comes to, whatever the system says of the
/// process, of this process's group and of the sampling interval.
pub open spec fn begun<V, I: FnOnce(i32) -> Result<BsdInfo, IoFault>>(
    before: ControlState,
    config: ControlConfig<V>,
    units: Units<V>,
    reporter: Reporter,
    bsd_info: I,
    after: ControlState,
    result: Result<ControlSession<V>, SessionError>,
) -> bool {
    exists|resolution: Result<TargetGroup, ResolveError>, current_pgid: i32, period: Span|
        {
            &&& #[trigger] resolves(config.pid, bsd_info, resolution)
            &&& is_current_pgid(current_pgid)
            &&& is_control_period(period)
            &&& is_sampling_interval(period)
            &&& #[trigger] entered(
                before,
                resolution,
                current_pgid,
                config.throttle,
                units,
                period,
                reporter,
                after,
                result,
            )
        }
}

impl<V: Copy> ControlSession<V> {
    /// Takes a target that was found under control, unless it is the group `current_pgid`
    /// or a session is already running.
    pub fn begin_resolved(
        control: &mut ControlState,
        resolution: Result<TargetGroup, ResolveError>,
        current_pgid: i32,
        throttle: V,
        units: Units<V>,
        period: Span,
        reporter: Reporter,
    ) -> (result: Result<ControlSession<V>, SessionError>)
        ensures
            entered(
                *old(control),
                resolution,
                current_pgid,
                throttle,
                units,
                period,
                reporter,
                *final(control),
                result,
            ),
    {
        let target = match resolution {
            Ok(target) => target,
            Err(error) => {
                return Err(SessionError::Resolve(error));
            },
        };
        match guard_group(current_pgid, target.pgid) {
            Ok(()) => {},
            Err(error) => {
                return Err(error);
            },
        }
        let active_target = ActiveTarget { pgid: target.pgid, stopped_pgid: None };
        match try_set_active_target(control, active_target) {
            Ok(()) => {},
            Err(error) => {
                return Err(SessionError::Control(error));
            },
        }
        reset_stop_signal(control);
        Ok(
            ControlSession {
                target,
                throttle,
                recon: Recon::new(),
                estimator: Estimator::new(period, units.zero),
                marshal: Marshal::new(throttle, period, units.zero, units.kp, units.ki),
                enforcer: Enforcer::new(),
                reporter,
            },
        )
    }

    /// Looks the process up with `bsd_info` and takes its group under control.
    pub fn begin<I: FnOnce(i32) -> Result<BsdInfo, IoFault>>(
        control: &mut ControlState,
        config: ControlConfig<V>,
        units: Units<V>,
        reporter: Reporter,
        bsd_info: I,
    ) -> (result: Result<ControlSession<V>, SessionError>)
        requires
            bsd_info.requires((config.pid,)),
        ensures
            begun(*old(control), config, units, reporter, bsd_info, *final(control), result),
    {
        let mut recon = Recon::new();
        let resolution = recon.resolve_target_group(config.pid, bsd_info);
        assert(resolves(config.pid, bsd_info, resolution));
        let own_pgid: i32 = current_pgid();
        let period = control_period();
        Self::begin_resolved(
            control,
            resolution,
            own_pgid,
            config.throttle,
            units,
            period,
            reporter,
        )
    }
}

/// Whether this can come of the arguments.
pub open spec fn configured<
    V,
    P: FnOnce(&str) -> Result<V, ParseFloatError>,
    W: FnOnce(&V, u8, u8) -> bool,
>(
    args: Seq<ArgText>,
    parse: P,
    within: W,
    configuration: Result<ControlConfig<V>, ControlError>,
) -> bool {
    if config::arguments_are_utf8(args) {
        exists|texts: Seq<String>| #[trigger]
            config::arguments_judged(texts, parse, within, configuration) && texts.len()
                == args.len() && forall|i: int|
                0 <= i < args.len() ==> #[trigger] texts[i]@ == args[i].text()
    } else {
        config::rejected_with(configuration, "arguments must be valid UTF-8"@)
    }
}

/// Reads the arguments and begins the session that they ask for.
pub fn start<
    V: Copy,
    P: FnOnce(&str) -> Result<V, ParseFloatError>,
    W: FnOnce(&V, u8, u8) -> bool,
    I: FnOnce(i32) -> Result<BsdInfo, IoFault>,
>(
    control: &mut ControlState,
    args: Vec<ArgText>,
    parse: P,
    within: W,
    units: Units<V>,
    reporter: Reporter,
    bsd_info: I,
) -> (result: Result<ControlSession<V>, SessionError>)
    requires
        forall|text: &str| #[trigger] parse.requires((text,)),
        forall|throttle: &V| #[trigger] within.requires((throttle, MIN_PERCENT, MAX_PERCENT)),
        forall|pid: i32| #[trigger] bsd_info.requires((pid,)),
    ensures
        exists|configuration: Result<ControlConfig<V>, ControlError>| #[trigger]
            configured(args@, parse, within, configuration) && match configuration {
                Err(error) => {
                    &&& result == Err::<ControlSession<V>, SessionError>(
                        SessionError::Control(error),
                    )
                    &&& *final(control) == *old(control)
                },
                Ok(config) => begun(
                    *old(control),
                    config,
                    units,
                    reporter,
                    bsd_info,
                    *final(control),
                    result,
                ),
            },
{
    let configuration = ControlConfig::from_env(args, parse, within);
    assert(configured(args@, parse, within, configuration));
    match configuration {
        Ok(config) => start_with_config(control, config, units, reporter, bsd_info),
        Err(error) => Err(SessionError::Control(error)),
    }
}

pub fn start_with_config<V: Copy, I: FnOnce(i32) -> Result<BsdInfo, IoFault>>(
    control: &mut ControlState,
    config: ControlConfig<V>,
    units: Units<V>,
    reporter: Reporter,
    bsd_info: I,
) -> (result: Result<ControlSession<V>, SessionError>)
    requires
        bsd_info.requires((config.pid,)),
    ensures
        begun(*old(control), config, units, reporter, bsd_info, *final(control), result),
{
    ControlSession::begin(control, config, units, reporter, bsd_info)
}

/// Estimates the usage and decides on it. A missing observation goes to the estimator too:
/// it may be bridged.
pub fn compute_control_decision<
    V: Copy,
    A: FnMut(V, V) -> V,
    J: FnOnce(V, V) -> V,
    F: FnOnce(Span, V, V) -> V,
    B: FnOnce(V, V) -> Band,
    C: FnOnce(V, V, V, Span) -> V,
    P: FnOnce(Pursuit<V>) -> V,
    L: FnOnce(V, V) -> V,
    H: FnOnce(Span, V) -> Span,
>(
    estimator: &mut Estimator<V>,
    marshal: &mut Marshal<V>,
    observation: Option<&RawObservation<V>>,
    accumulate: A,
    limit_jump: J,
    low_pass: F,
    place: B,
    accrue: C,
    pursue: P,
    limit_step: L,
    stop_for: H,
) -> (computed: (EstimatedState<V>, ControlDecision))
    requires
        observation is None ==> old(estimator).missed_cycles < usize::MAX,
        forall|total: V, cpu: V| #[trigger] accumulate.requires((total, cpu)),
        forall|last: V, cpu: V| #[trigger] limit_jump.requires((last, cpu)),
        forall|dt: Span, cpu: V, prev: V| #[trigger] low_pass.requires((dt, cpu, prev)),
        forall|cpu: V, setpoint: V| #[trigger] place.requires((cpu, setpoint)),
        forall|integral: V, cpu: V, setpoint: V, dt: Span| #[trigger]
            accrue.requires((integral, cpu, setpoint, dt)),
        forall|pursuit: Pursuit<V>| #[trigger] pursue.requires((pursuit,)),
        forall|prev: V, target: V| #[trigger] limit_step.requires((prev, target)),
        forall|period: Span, output: V| #[trigger] stop_for.requires((period, output)),
    ensures
        exists|sample: Option<Sample<V>>| #[trigger]
            estimator::taken_in(*old(estimator), observation, accumulate, limit_jump, low_pass, sample)
                && *final(estimator) == estimator::estimator_next(*old(estimator), sample)
                && computed.0 == estimator::estimate_next(*old(estimator), sample),
        marshal::decided(
            *old(marshal),
            computed.0,
            place,
            accrue,
            pursue,
            limit_step,
            stop_for,
            *final(marshal),
            computed.1,
        ),
{
    let estimated = estimator.update(observation, accumulate, limit_jump, low_pass);
    let decision = marshal.decide(&estimated, place, accrue, pursue, limit_step, stop_for);
    (estimated, decision)
}

/// What deciding on a period comes to: what the estimator makes of it, the decision on that,
/// and the report that is due, if one is.
pub open spec fn period_decided<
    V,
    A: FnMut(V, V) -> V,
    J: FnOnce(V, V) -> V,
    F: FnOnce(Span, V, V) -> V,
    B: FnOnce(V, V) -> Band,
    C: FnOnce(V, V, V, Span) -> V,
    P: FnOnce(Pursuit<V>) -> V,
    L: FnOnce(V, V) -> V,
    H: FnOnce(Span, V) -> Span,
>(
    before: ControlSession<V>,
    now: Span,
    observation: Option<&RawObservation<V>>,
    accumulate: A,
    limit_jump: J,
    low_pass: F,
    place: B,
    accrue: C,
    pursue: P,
    limit_step: L,
    stop_for: H,
    after: ControlSession<V>,
    decided: (ControlDecision, Option<Report<V>>),
) -> bool {
    exists|sample: Option<Sample<V>>|
        {
            let estimated = estimator::estimate_next(before.estimator, sample);
            &&& #[trigger] estimator::taken_in(
                before.estimator,
                observation,
                accumulate,
                limit_jump,
                low_pass,
                sample,
            )
            &&& marshal::decided(
                before.marshal,
                estimated,
                place,
                accrue,
                pursue,
                limit_step,
                stop_for,
                after.marshal,
                decided.0,
            )
            &&& decided.1 == if reporter::report_due(before.reporter, now) {
                Some(reporter::report_on(before.target, observation, estimated, decided.0))
            } else {
                None
            }
            &&& after == (ControlSession {
                estimator: estimator::estimator_next(before.estimator, sample),
                marshal: after.marshal,
                reporter: if reporter::report_due(before.reporter, now) {
                    Reporter { last_emit_at: now, ..before.reporter }
                } else {
                    before.reporter
                },
                ..before
            })
        }
}

impl<V: Copy> ControlSession<V> {
    /// Decides on a period, and gives the report that is due on it, if one is.
    pub fn decide<
        A: FnMut(V, V) -> V,
        J: FnOnce(V, V) -> V,
        F: FnOnce(Span, V, V) -> V,
        B: FnOnce(V, V) -> Band,
        C: FnOnce(V, V, V, Span) -> V,
        P: FnOnce(Pursuit<V>) -> V,
        L: FnOnce(V, V) -> V,
        H: FnOnce(Span, V) -> Span,
    >(
        &mut self,
        now: Span,
        observation: Option<&RawObservation<V>>,
        accumulate: A,
        limit_jump: J,
        low_pass: F,
        place: B,
        accrue: C,
        pursue: P,
        limit_step: L,
        stop_for: H,
    ) -> (decided: (ControlDecision, Option<Report<V>>))
        requires
            observation is None ==> old(self).estimator.missed_cycles < usize::MAX,
            forall|total: V, cpu: V| #[trigger] accumulate.requires((total, cpu)),
            forall|last: V, cpu: V| #[trigger] limit_jump.requires((last, cpu)),
            forall|dt: Span, cpu: V, prev: V| #[trigger] low_pass.requires((dt, cpu, prev)),
            forall|cpu: V, setpoint: V| #[trigger] place.requires((cpu, setpoint)),
            forall|integral: V, cpu: V, setpoint: V, dt: Span| #[trigger]
                accrue.requires((integral, cpu, setpoint, dt)),
            forall|pursuit: Pursuit<V>| #[trigger] pursue.requires((pursuit,)),
            forall|prev: V, target: V| #[trigger] limit_step.requires((prev, target)),
            forall|period: Span, output: V| #[trigger] stop_for.requires((period, output)),
        ensures
            period_decided(
                *old(self),
                now,
                observation,
                accumulate,
                limit_jump,
                low_pass,
                place,
                accrue,
                pursue,
                limit_step,
                stop_for,
                *final(self),
                decided,
            ),
    {
        let (estimated, decision) = compute_control_decision(
            &mut self.estimator,
            &mut self.marshal,
            observation,
            accumulate,
            limit_jump,
            low_pass,
            place,
            accrue,
            pursue,
            limit_step,
            stop_for,
        );
        let report = self.reporter.report(now, &self.target, observation, &estimated, &decision);
        (decision, report)
    }
}

/// How a control loop ended.
#[derive(Debug)]
pub enum LoopEnd {
    /// A stop was requested.
    StopRequested,
    /// The target has no live processes.
    TargetGone,
    /// Something failed.
    Failed(IoFault),
}

/// What the program is to do next.
#[derive(Debug)]
pub enum LoopAction<V> {
    /// Ask whether a stop was requested.
    PollStop,
    /// Find out whether the target still lives.
    Validate,
    /// Measure the target.
    Observe,
    /// Decide on the measurement.
    Decide(Option<RawObservation<V>>),
    /// Apply the decision.
    Apply(ControlDecision),
    /// Wait, unless a stop is requested.
    Pause(Span),
    /// Resume and release the target.
    Resume,
    /// Nothing more: so the loop ended.
    Finish(LoopEnd),
}

/// What came of an action.
#[derive(Debug)]
pub enum LoopEvent<V> {
    /// Whether a stop was requested, and the time.
    StopPolled(bool, Span),
    Validated(Result<bool, IoFault>),
    Observed(Result<Option<RawObservation<V>>, IoFault>),
    Decided(ControlDecision),
    /// What came of applying the decision, and the time.
    Applied(Result<(), IoFault>, Span),
    Paused,
    Resumed,
}

/// How far a control loop has come. The span is when the period began.
#[derive(Debug)]
pub enum LoopStage {
    Polling,
    Validating(Span),
    Observing(Span),
    Deciding(Span),
    Applying(Span),
    Pausing,
    Resuming(LoopEnd),
    Finished,
}

/// A control loop.
#[derive(Debug)]
pub struct ControlLoop {
    pub control_period: Span,
    pub stage: LoopStage,
}

/// Whether the event answers the action that the stage has asked for.
pub open spec fn loop_awaits<V>(stage: LoopStage, event: LoopEvent<V>) -> bool {
    match stage {
        LoopStage::Polling => event is StopPolled,
        LoopStage::Validating(_) => event is Validated,
        LoopStage::Observing(_) => event is Observed,
        LoopStage::Deciding(_) => event is Decided,
        LoopStage::Applying(_) => event is Applied,
        LoopStage::Pausing => event is Paused,
        LoopStage::Resuming(_) => event is Resumed,
        LoopStage::Finished => false,
    }
}

/// The start of a loop.
pub open spec fn loop_start<V>(control_period: Span) -> (ControlLoop, LoopAction<V>) {
    (ControlLoop { control_period, stage: LoopStage::Polling }, LoopAction::PollStop)
}

/// The end of a loop: the target is resumed, whatever the end was.
pub open spec fn loop_ending<V>(control_loop: ControlLoop, end: LoopEnd) -> (
    ControlLoop,
    LoopAction<V>,
) {
    (ControlLoop { stage: LoopStage::Resuming(end), ..control_loop }, LoopAction::Resume)
}

/// The next state and action, where the event is awaited.
pub open spec fn loop_next<V>(control_loop: ControlLoop, event: LoopEvent<V>) -> (
    ControlLoop,
    LoopAction<V>,
) {
    match (control_loop.stage, event) {
        (LoopStage::Polling, LoopEvent::StopPolled(stop, now)) => if stop {
            loop_ending(control_loop, LoopEnd::StopRequested)
        } else {
            (
                ControlLoop { stage: LoopStage::Validating(now), ..control_loop },
                LoopAction::Validate,
            )
        },
        (LoopStage::Validating(start), LoopEvent::Validated(Ok(alive))) => if alive {
            (
                ControlLoop { stage: LoopStage::Observing(start), ..control_loop },
                LoopAction::Observe,
            )
        } else {
            loop_ending(control_loop, LoopEnd::TargetGone)
        },
        (LoopStage::Validating(_), LoopEvent::Validated(Err(fault))) => loop_ending(
            control_loop,
            LoopEnd::Failed(fault),
        ),
        (LoopStage::Observing(start), LoopEvent::Observed(Ok(observation))) => (
            ControlLoop { stage: LoopStage::Deciding(start), ..control_loop },
            LoopAction::Decide(observation),
        ),
        (LoopStage::Observing(_), LoopEvent::Observed(Err(fault))) => loop_ending(
            control_loop,
            LoopEnd::Failed(fault),
        ),
        (LoopStage::Deciding(start), LoopEvent::Decided(decision)) => (
            ControlLoop { stage: LoopStage::Applying(start), ..control_loop },
            LoopAction::Apply(decision),
        ),
        (LoopStage::Applying(_), LoopEvent::Applied(Err(fault), _)) => loop_ending(
            control_loop,
            LoopEnd::Failed(fault),
        ),
        (LoopStage::Applying(start), LoopEvent::Applied(Ok(_), now)) => {
            let elapsed = span::remainder(now, start);
            if elapsed.nanos < control_loop.control_period.nanos {
                (
                    ControlLoop { stage: LoopStage::Pausing, ..control_loop },
                    LoopAction::Pause(span::remainder(control_loop.control_period, elapsed)),
                )
            } else {
                loop_start(control_loop.control_period)
            }
        },
        (LoopStage::Pausing, LoopEvent::Paused) => loop_start(control_loop.control_period),
        (LoopStage::Resuming(end), LoopEvent::Resumed) => (
            ControlLoop { stage: LoopStage::Finished, ..control_loop },
            LoopAction::Finish(end),
        ),
        _ => (control_loop, LoopAction::PollStop),
    }
}

impl ControlLoop {
    /// Starts a loop.
    pub fn run<V>(control_period: Span) -> (started: (ControlLoop, LoopAction<V>))
        ensures
            started == loop_start::<V>(control_period),
    {
        (ControlLoop { control_period, stage: LoopStage::Polling }, LoopAction::PollStop)
    }

    fn ending<V>(control_period: Span, end: LoopEnd) -> (next: (ControlLoop, LoopAction<V>))
        ensures
            next == loop_ending::<V>(
                ControlLoop { control_period, stage: LoopStage::Finished },
                end,
            ),
    {
        (ControlLoop { control_period, stage: LoopStage::Resuming(end) }, LoopAction::Resume)
    }

    /// Takes in what came of the last action and gives the next.
    pub fn step<V>(self, event: LoopEvent<V>) -> (next: (ControlLoop, LoopAction<V>))
        requires
            loop_awaits(self.stage, event),
        ensures
            next == loop_next(self, event),
    {
        let control_period = self.control_period;
        match (self.stage, event) {
            (LoopStage::Polling, LoopEvent::StopPolled(stop, now)) => {
                if stop {
                    Self::ending(control_period, LoopEnd::StopRequested)
                } else {
                    (
                        ControlLoop { control_period, stage: LoopStage::Validating(now) },
                        LoopAction::Validate,
                    )
                }
            },
            (LoopStage::Validating(start), LoopEvent::Validated(Ok(alive))) => {
                if alive {
                    (
                        ControlLoop { control_period, stage: LoopStage::Observing(start) },
                        LoopAction::Observe,
                    )
                } else {
                    Self::ending(control_period, LoopEnd::TargetGone)
                }
            },
            (LoopStage::Validating(_), LoopEvent::Validated(Err(fault))) => Self::ending(
                control_period,
                LoopEnd::Failed(fault),
            ),
            (LoopStage::Observing(start), LoopEvent::Observed(Ok(observation))) => (
                ControlLoop { control_period, stage: LoopStage::Deciding(start) },
                LoopAction::Decide(observation),
            ),
            (LoopStage::Observing(_), LoopEvent::Observed(Err(fault))) => Self::ending(
                control_period,
                LoopEnd::Failed(fault),
            ),
            (LoopStage::Deciding(start), LoopEvent::Decided(decision)) => (
                ControlLoop { control_period, stage: LoopStage::Applying(start) },
                LoopAction::Apply(decision),
            ),
            (LoopStage::Applying(_), LoopEvent::Applied(Err(fault), _)) => Self::ending(
                control_period,
                LoopEnd::Failed(fault),
            ),
            (LoopStage::Applying(start), LoopEvent::Applied(Ok(()), now)) => {
                let elapsed = now.saturating_sub(start);
                if elapsed.nanos < control_period.nanos {
                    (
                        ControlLoop { control_period, stage: LoopStage::Pausing },
                        LoopAction::Pause(control_period.saturating_sub(elapsed)),
                    )
                } else {
                    Self::run(control_period)
                }
            },
            (LoopStage::Pausing, LoopEvent::Paused) => Self::run(control_period),
            (LoopStage::Resuming(end), LoopEvent::Resumed) => (
                ControlLoop { control_period, stage: LoopStage::Finished },
                LoopAction::Finish(end),
            ),
            (stage, _) => (ControlLoop { control_period, stage }, LoopAction::PollStop),
        }
    }
}

/// What is said of a target without live processes.
pub open spec fn gone_text(pgid: i32) -> Seq<char> {
    "target pgid "@ + text::signed_decimal(pgid as int)
        + " has no live processes; stopping control loop"@
}

pub fn gone_message(pgid: i32) -> (message: String)
    ensures
        message@ == gone_text(pgid),
{
    let mut message = String::from_str("target pgid ");
    append_signed(&mut message, pgid);
    message.append(" has no live processes; stopping control loop");
    message
}

} // verus!
