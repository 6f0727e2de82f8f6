use kirv::control::estimator::Estimator;
use kirv::control::span::Span;
use kirv::control::types::{EstimatedState, RawObservation};

const MAX_JUMP_PER_SAMPLE: f32 = 30.0;

fn accumulate(total: f32, cpu: f32) -> f32 {
    total + cpu.max(0.0)
}

fn limit_jump(last: f32, cpu: f32) -> f32 {
    cpu.clamp(
        (last - MAX_JUMP_PER_SAMPLE).max(0.0),
        last + MAX_JUMP_PER_SAMPLE,
    )
}

fn low_pass(dt: Span, cpu: f32, prev: f32) -> f32 {
    let dt_secs = dt.nanos as f32 / 1e9;
    let alpha = if dt_secs <= 0.0 {
        1.0
    } else {
        (1.0 - (-dt_secs / 0.5).exp()).clamp(0.0, 1.0)
    };
    alpha * cpu + (1.0 - alpha) * prev
}

fn new_estimator() -> Estimator<f32> {
    Estimator::new(Span::from_millis(500), 0.0)
}

fn update(
    estimator: &mut Estimator<f32>,
    observation: Option<&RawObservation<f32>>,
) -> EstimatedState<f32> {
    estimator.update(observation, accumulate, limit_jump, low_pass)
}

fn sample(millis: u64, per_pid_cpu: Vec<(i32, f32)>) -> RawObservation<f32> {
    RawObservation {
        timestamp: Span::from_millis(millis),
        process_count: per_pid_cpu.len(),
        per_pid_cpu,
    }
}

#[test]
fn requires_warmup_before_becoming_valid() {
    let mut estimator = new_estimator();

    let first = update(&mut estimator, Some(&sample(1000, vec![(1, 60.0)])));
    assert!(!first.valid);

    let second = update(&mut estimator, Some(&sample(1500, vec![(1, 60.0)])));
    assert!(second.valid);
    assert!(second.warmed_up);
}

#[test]
fn times_out_after_three_missing_cycles() {
    let mut estimator = new_estimator();
    let _ = update(&mut estimator, Some(&sample(1000, vec![(1, 10.0)])));
    let _ = update(&mut estimator, Some(&sample(1500, vec![(1, 12.0)])));

    assert!(update(&mut estimator, None).valid);
    assert!(update(&mut estimator, None).valid);

    let timed_out = update(&mut estimator, None);
    assert!(!timed_out.valid);
    assert!(timed_out.timed_out);
}

#[test]
fn hold_keeps_normalized_and_filtered_separately() {
    let mut estimator = new_estimator();

    let _ = update(&mut estimator, Some(&sample(1000, vec![(1, 40.0)])));
    let warmed = update(&mut estimator, Some(&sample(1500, vec![(1, 60.0)])));

    let held = update(&mut estimator, None);
    assert!(held.valid);
    assert_eq!(held.normalized_cpu, warmed.normalized_cpu);
    assert_eq!(held.filtered_cpu, warmed.filtered_cpu);
    assert_ne!(held.normalized_cpu, held.filtered_cpu);
    assert_eq!(held.dt, Span::from_millis(500));
}

#[test]
fn sums_group_cpu_usage_above_one_logical_cpu() {
    let mut estimator = new_estimator();
    let readings = vec![(1, 120.0), (2, 90.0)];

    let _ = update(&mut estimator, Some(&sample(1000, readings.clone())));
    let warmed = update(&mut estimator, Some(&sample(1500, readings)));

    assert!(warmed.valid);
    assert_eq!(warmed.normalized_cpu, 210.0);
    assert!(warmed.filtered_cpu > 0.0);
}

#[test]
fn clamps_second_warmup_sample_against_first_observation() {
    let mut estimator = new_estimator();

    let _ = update(&mut estimator, Some(&sample(1000, vec![(1, 10.0)])));
    let warmed = update(&mut estimator, Some(&sample(1500, vec![(1, 1000.0)])));

    assert!(warmed.valid);
    assert_eq!(warmed.normalized_cpu, 10.0 + MAX_JUMP_PER_SAMPLE);
}

#[test]
fn the_first_sample_counts_for_a_period_and_the_next_for_the_time_between() {
    let mut estimator = new_estimator();

    let first = update(&mut estimator, Some(&sample(1000, vec![(1, 10.0)])));
    assert_eq!(first.dt, Span::from_millis(500));
    assert!(!first.timed_out);

    let second = update(&mut estimator, Some(&sample(1300, vec![(1, 10.0)])));
    assert_eq!(second.dt, Span::from_millis(300));

    let earlier = update(&mut estimator, Some(&sample(900, vec![(1, 10.0)])));
    assert_eq!(earlier.dt, Span::zero());
}

#[test]
fn a_measurement_ends_a_timeout() {
    let mut estimator = new_estimator();
    for millis in [1000, 1500] {
        let _ = update(&mut estimator, Some(&sample(millis, vec![(1, 10.0)])));
    }
    for _ in 0..4 {
        let _ = update(&mut estimator, None);
    }

    let back = update(&mut estimator, Some(&sample(4000, vec![(1, 10.0)])));
    assert!(back.valid);
    assert!(!back.timed_out);
    assert_eq!(estimator.missed_cycles, 0);
}

#[test]
fn nothing_is_held_before_the_warmup() {
    let mut estimator = new_estimator();

    let empty = update(&mut estimator, None);
    assert!(!empty.valid);
    assert!(!empty.warmed_up);
    assert_eq!(empty.normalized_cpu, 0.0);

    let _ = update(&mut estimator, Some(&sample(1000, vec![(1, 10.0)])));
    let cold = update(&mut estimator, None);
    assert!(!cold.valid);
    assert_eq!(cold.normalized_cpu, 10.0);
    assert_eq!(cold.filtered_cpu, 0.0);
}

#[test]
fn a_jump_is_limited_from_the_last_report_over_missed_cycles() {
    let mut estimator = new_estimator();
    let _ = update(&mut estimator, Some(&sample(1000, vec![(1, 10.0)])));
    let second = update(&mut estimator, Some(&sample(1500, vec![(1, 1000.0)])));
    assert_eq!(second.normalized_cpu, 40.0);
    for _ in 0..4 {
        let _ = estimator.update_without_observation();
    }

    let third = estimator.update_with_observation(
        &sample(4000, vec![(1, 1000.0)]),
        accumulate,
        limit_jump,
        low_pass,
    );

    assert_eq!(third.normalized_cpu, 70.0);
    assert!(third.valid);
}
