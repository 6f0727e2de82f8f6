use kirv::control::marshal::{Band, Marshal, Pursuit};
use kirv::control::span::Span;
use kirv::control::types::{ControlDecision, EstimatedState};

const MAX_STOP_FRACTION: f32 = 1.0;

fn place(cpu: f32, setpoint: f32) -> Band {
    if cpu < setpoint - 0.35 {
        Band::Below
    } else if cpu <= setpoint + 0.35 {
        Band::Inside
    } else {
        Band::Above
    }
}

fn accrue(integral: f32, cpu: f32, setpoint: f32, dt: Span) -> f32 {
    (integral + (cpu - setpoint) * (dt.nanos as f32 / 1e9)).clamp(-40.0, 40.0)
}

fn pursue(pursuit: Pursuit<f32>) -> f32 {
    let error = pursuit.filtered_cpu - pursuit.setpoint;
    let active = (1.0 - pursuit.prev_output).clamp(0.05, 1.0);
    let base = (1.0 - pursuit.setpoint / (pursuit.filtered_cpu / active)).clamp(0.0, 1.0);
    (base + pursuit.kp * error + pursuit.ki * pursuit.integral).clamp(0.0, MAX_STOP_FRACTION)
}

fn limit_step(prev: f32, target: f32) -> f32 {
    (prev + (target - prev).clamp(-0.08, 0.15)).clamp(0.0, MAX_STOP_FRACTION)
}

fn stop_for(period: Span, output: f32) -> Span {
    Span {
        nanos: (period.nanos as f32 * output) as u128,
    }
}

fn decide(marshal: &mut Marshal<f32>, estimated: &EstimatedState<f32>) -> ControlDecision {
    marshal.decide(estimated, place, accrue, pursue, limit_step, stop_for)
}

fn new_marshal(setpoint: f32) -> Marshal<f32> {
    Marshal::new(setpoint, Span::from_millis(500), 0.0, 0.001, 0.0001)
}

fn plain_marshal(setpoint: f32, integral: f32, prev_output: f32, millis: u64) -> Marshal<f32> {
    Marshal {
        kp: 0.0,
        ki: 0.0,
        setpoint,
        integral,
        prev_output,
        zero: 0.0,
        control_period: Span::from_millis(millis),
    }
}

fn estimated(
    normalized_cpu: f32,
    filtered_cpu: f32,
    millis: u64,
    valid: bool,
) -> EstimatedState<f32> {
    EstimatedState {
        normalized_cpu,
        filtered_cpu,
        dt: Span::from_millis(millis),
        valid,
        warmed_up: true,
        timed_out: false,
    }
}

fn near(actual: Span, millis: u64) -> bool {
    actual.nanos.abs_diff(Span::from_millis(millis).nanos) <= 100_000
}

#[test]
fn returns_zero_when_state_is_invalid() {
    let mut marshal = new_marshal(50.0);
    let decision = decide(&mut marshal, &estimated(0.0, 80.0, 500, false));

    assert_eq!(decision.stop_duration, Span::zero());
}

#[test]
fn clamps_output_to_control_period() {
    let mut marshal = new_marshal(50.0);
    let decision = decide(&mut marshal, &estimated(0.0, 500.0, 500, true));

    assert!(decision.stop_duration.nanos <= Span::from_millis(500).nanos);
    assert!(!decision.stop_duration.is_zero());
}

#[test]
fn returns_zero_when_usage_is_below_setpoint() {
    let mut marshal = new_marshal(20.0);
    let decision = decide(&mut marshal, &estimated(5.0, 5.0, 500, true));

    assert_eq!(decision.stop_duration, Span::zero());
}

#[test]
fn limits_output_step_up_toward_base_stop_fraction() {
    let mut marshal = plain_marshal(20.0, 0.0, 0.0, 500);
    let decision = decide(&mut marshal, &estimated(100.0, 100.0, 500, true));

    assert!(near(decision.stop_duration, 75));
}

#[test]
fn base_stop_fraction_accounts_for_current_stop_fraction() {
    let mut marshal = plain_marshal(50.0, 0.0, 0.2, 600);
    let decision = decide(&mut marshal, &estimated(60.0, 60.0, 600, true));

    assert!(near(decision.stop_duration, 200));
}

#[test]
fn keeps_previous_output_and_integral_inside_dead_band() {
    let mut marshal = plain_marshal(50.0, 10.0, 0.18, 500);
    let decision = decide(&mut marshal, &estimated(50.1, 50.1, 500, true));

    assert!(near(decision.stop_duration, 90));
    assert_eq!(marshal.integral, 10.0);
}

#[test]
fn limits_output_step_down_when_usage_drops_below_setpoint() {
    let mut marshal = plain_marshal(20.0, 0.0, 0.8, 500);
    let decision = decide(&mut marshal, &estimated(5.0, 5.0, 500, true));

    assert!(near(decision.stop_duration, 360));
}

#[test]
fn resets_integral_when_usage_drops_below_dead_band() {
    let mut marshal = plain_marshal(20.0, 10.0, 0.8, 500);
    let _ = decide(&mut marshal, &estimated(5.0, 5.0, 500, true));

    assert_eq!(marshal.integral, 0.0);
}

#[test]
fn an_estimate_over_no_time_stops_nothing() {
    let mut marshal = plain_marshal(20.0, 10.0, 0.8, 500);
    let decision = decide(&mut marshal, &estimated(90.0, 90.0, 0, true));

    assert_eq!(decision.stop_duration, Span::zero());
    assert_eq!(marshal.prev_output, 0.0);
    assert_eq!(marshal.integral, 10.0);
}

#[test]
fn the_integral_grows_by_error_and_time() {
    let mut marshal = plain_marshal(20.0, 10.0, 0.0, 500);
    let _ = decide(&mut marshal, &estimated(40.0, 40.0, 500, true));

    assert_eq!(marshal.integral, 20.0);
    assert_eq!((marshal.kp, marshal.ki, marshal.setpoint), (0.0, 0.0, 20.0));
    assert_eq!(marshal.control_period, Span::from_millis(500));
}

#[test]
fn new_marshal_starts_with_nothing() {
    let marshal = new_marshal(50.0);

    assert_eq!(marshal.setpoint, 50.0);
    assert_eq!(marshal.integral, 0.0);
    assert_eq!(marshal.prev_output, 0.0);
    assert_eq!((marshal.kp, marshal.ki), (0.001, 0.0001));
}
