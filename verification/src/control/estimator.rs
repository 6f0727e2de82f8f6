//! Turning measurements into an estimate that the decisions can rest on.
//!
//! The arithmetic on CPU quantities comes in as closures. What is kept, when an estimate
//! can be relied on, and what stands in for a missing measurement is decided here.

use crate::control::span::{self, Span};
use crate::control::types::{EstimatedState, RawObservation};
use vstd::prelude::*;

verus! {

/// Measurements before an estimate can be relied on.
pub const WARM_UP_SAMPLES: usize = 2;

/// Missing measurements in a row after which an estimate has timed out.
pub const TIMEOUT_THRESHOLD_CYCLES: usize = 3;

/// Missing measurements in a row that the last good estimate can stand in for.
pub const HOLD_LIMIT_CYCLES: usize = 2;

pub struct Estimator<V> {
    pub control_period: Span,
    /// The quantity that stands for no usage.
    pub zero: V,
    pub prev_timestamp: Option<Span>,
    pub prev_filtered_cpu: V,
    pub last_good_normalized: Option<V>,
    pub last_good_filtered: Option<V>,
    pub warm_up_samples: usize,
    pub missed_cycles: usize,
}

/// A measurement as the estimator takes it in.
pub struct Sample<V> {
    pub timestamp: Span,
    /// The usage, limited to a jump from the measurement before.
    pub clamped: V,
    /// The usage after the low-pass filter.
    pub filtered: V,
}

/// The estimator before any measurement.
pub open spec fn fresh<V>(control_period: Span, zero: V) -> Estimator<V> {
    Estimator {
        control_period,
        zero,
        prev_timestamp: None,
        prev_filtered_cpu: zero,
        last_good_normalized: None,
        last_good_filtered: None,
        warm_up_samples: 0,
        missed_cycles: 0,
    }
}

/// The time since the measurement before; a period for the first one.
pub open spec fn dt_at<V>(estimator: Estimator<V>, timestamp: Span) -> Span {
    match estimator.prev_timestamp {
        Some(prev) => span::remainder(timestamp, prev),
        None => estimator.control_period,
    }
}

/// The number of measurements taken in, as far as it matters for the warm-up.
pub open spec fn warmed_by_one(warm_up_samples: usize) -> usize {
    if warm_up_samples + 1 < WARM_UP_SAMPLES {
        (warm_up_samples + 1) as usize
    } else {
        WARM_UP_SAMPLES
    }
}

/// The estimator after a measurement, or after a period without one.
pub open spec fn estimator_next<V>(estimator: Estimator<V>, sample: Option<Sample<V>>) -> Estimator<
    V,
> {
    match sample {
        Some(sample) => Estimator {
            prev_timestamp: Some(sample.timestamp),
            prev_filtered_cpu: sample.filtered,
            last_good_normalized: Some(sample.clamped),
            last_good_filtered: if warmed_by_one(estimator.warm_up_samples) >= WARM_UP_SAMPLES {
                Some(sample.filtered)
            } else {
                estimator.last_good_filtered
            },
            warm_up_samples: warmed_by_one(estimator.warm_up_samples),
            missed_cycles: 0,
            ..estimator
        },
        None => Estimator { missed_cycles: (estimator.missed_cycles + 1) as usize, ..estimator },
    }
}

/// The value, or the other where there is none.
pub open spec fn value_or<V>(value: Option<V>, other: V) -> V {
    match value {
        Some(value) => value,
        None => other,
    }
}

/// The estimate that goes with the step of the estimator.
pub open spec fn estimate_next<V>(
    estimator: Estimator<V>,
    sample: Option<Sample<V>>,
) -> EstimatedState<V> {
    let next = estimator_next(estimator, sample);
    let warmed_up = next.warm_up_samples >= WARM_UP_SAMPLES;
    match sample {
        Some(sample) => EstimatedState {
            normalized_cpu: sample.clamped,
            filtered_cpu: sample.filtered,
            dt: dt_at(estimator, sample.timestamp),
            valid: warmed_up,
            warmed_up,
            timed_out: false,
        },
        None => {
            let timed_out = next.missed_cycles >= TIMEOUT_THRESHOLD_CYCLES;
            EstimatedState {
                normalized_cpu: value_or(estimator.last_good_normalized, estimator.zero),
                filtered_cpu: value_or(estimator.last_good_filtered, estimator.zero),
                dt: estimator.control_period,
                valid: warmed_up && !timed_out && next.missed_cycles <= HOLD_LIMIT_CYCLES
                    && estimator.last_good_normalized is Some && estimator.last_good_filtered is Some,
                warmed_up,
                timed_out,
            }
        },
    }
}

/// Whether `totals` are the running totals that `accumulate` can give of the readings,
/// from `zero` on.
pub open spec fn running_totals<V, A: FnMut(V, V) -> V>(
    readings: Seq<(i32, V)>,
    zero: V,
    accumulate: A,
    totals: Seq<V>,
) -> bool {
    &&& totals.len() == readings.len() + 1
    &&& totals[0] == zero
    &&& forall|i: int|
        0 <= i < readings.len() ==> accumulate.ensures(
            (totals[i], (#[trigger] readings[i]).1),
            totals[i + 1],
        )
}

/// Whether the usage of the group can come to `total`.
pub open spec fn totals_to<V, A: FnMut(V, V) -> V>(
    readings: Seq<(i32, V)>,
    zero: V,
    accumulate: A,
    total: V,
) -> bool {
    exists|totals: Seq<V>| #[trigger]
        running_totals(readings, zero, accumulate, totals) && totals.last() == total
}

/// Whether the estimator can take in the observation as this sample.
pub open spec fn sampled<
    V,
    A: FnMut(V, V) -> V,
    J: FnOnce(V, V) -> V,
    F: FnOnce(Span, V, V) -> V,
>(
    estimator: Estimator<V>,
    observation: RawObservation<V>,
    accumulate: A,
    limit_jump: J,
    low_pass: F,
    sample: Sample<V>,
) -> bool {
    &&& sample.timestamp == observation.timestamp
    &&& exists|normalized: V| #[trigger]
        totals_to(observation.per_pid_cpu@, estimator.zero, accumulate, normalized)
            && match estimator.last_good_normalized {
            Some(last) => limit_jump.ensures((last, normalized), sample.clamped),
            None => sample.clamped == normalized,
        }
    &&& low_pass.ensures(
        (
            dt_at(estimator, observation.timestamp),
            sample.clamped,
            estimator.prev_filtered_cpu,
        ),
        sample.filtered,
    )
}

/// What the estimator makes of a period: the sample it takes in, if there is one.
pub open spec fn taken_in<
    V,
    A: FnMut(V, V) -> V,
    J: FnOnce(V, V) -> V,
    F: FnOnce(Span, V, V) -> V,
>(
    estimator: Estimator<V>,
    observation: Option<&RawObservation<V>>,
    accumulate: A,
    limit_jump: J,
    low_pass: F,
    sample: Option<Sample<V>>,
) -> bool {
    match (observation, sample) {
        (Some(observation), Some(sample)) => sampled(
            estimator,
            *observation,
            accumulate,
            limit_jump,
            low_pass,
            sample,
        ),
        (None, None) => true,
        _ => false,
    }
}

fn total_usage<V: Copy, A: FnMut(V, V) -> V>(readings: &Vec<(i32, V)>, zero: V, accumulate: A) -> (total:
    V)
    requires
        forall|total: V, cpu: V| #[trigger] accumulate.requires((total, cpu)),
    ensures
        totals_to(readings@, zero, accumulate, total),
{
    broadcast use vstd::function::group_function_axioms;

    let mut step = accumulate;
    let mut total = zero;
    let ghost mut totals: Seq<V> = seq![zero];
    let mut i: usize = 0;
    while i < readings.len()
        invariant
            step == accumulate,
            forall|total: V, cpu: V| #[trigger] accumulate.requires((total, cpu)),
            i <= readings.len(),
            totals.len() == i + 1,
            totals[0] == zero,
            totals.last() == total,
            forall|j: int|
                0 <= j < i ==> accumulate.ensures(
                    (totals[j], (#[trigger] readings@[j]).1),
                    totals[j + 1],
                ),
        decreases readings.len() - i,
    {
        let reading = readings[i];
        total = step(total, reading.1);
        proof {
            totals = totals.push(total);
        }
        i = i + 1;
    }
    assert(running_totals(readings@, zero, accumulate, totals));
    total
}

impl<V: Copy> Estimator<V> {
    pub fn new(control_period: Span, zero: V) -> (estimator: Estimator<V>)
        ensures
            estimator == fresh(control_period, zero),
    {
        Estimator {
            control_period,
            zero,
            prev_timestamp: None,
            prev_filtered_cpu: zero,
            last_good_normalized: None,
            last_good_filtered: None,
            warm_up_samples: 0,
            missed_cycles: 0,
        }
    }

    /// Takes in a measurement, or a period without one. `accumulate` adds the usage of a
    /// process to a total, `limit_jump` holds a usage near the one before, and `low_pass`
    /// filters a usage, given the time since the one before and what the filter gave then.
    pub fn update<A: FnMut(V, V) -> V, J: FnOnce(V, V) -> V, F: FnOnce(Span, V, V) -> V>(
        &mut self,
        observation: Option<&RawObservation<V>>,
        accumulate: A,
        limit_jump: J,
        low_pass: F,
    ) -> (estimated: EstimatedState<V>)
        requires
            observation is None ==> old(self).missed_cycles < usize::MAX,
            forall|total: V, cpu: V| #[trigger] accumulate.requires((total, cpu)),
            forall|last: V, cpu: V| #[trigger] limit_jump.requires((last, cpu)),
            forall|dt: Span, cpu: V, prev: V| #[trigger] low_pass.requires((dt, cpu, prev)),
        ensures
            exists|sample: Option<Sample<V>>| #[trigger]
                taken_in(*old(self), observation, accumulate, limit_jump, low_pass, sample)
                    && *final(self) == estimator_next(*old(self), sample) && estimated
                    == estimate_next(*old(self), sample),
    {
        match observation {
            Some(observed) => {
                let estimated = self.update_with_observation(
                    observed,
                    accumulate,
                    limit_jump,
                    low_pass,
                );
                proof {
                    let sample = choose|sample: Sample<V>| #[trigger]
                        sampled(
                            *old(self),
                            *observed,
                            accumulate,
                            limit_jump,
                            low_pass,
                            sample,
                        ) && *self == estimator_next(*old(self), Some(sample)) && estimated
                            == estimate_next(*old(self), Some(sample));
                    assert(taken_in(
                        *old(self),
                        observation,
                        accumulate,
                        limit_jump,
                        low_pass,
                        Some(sample),
                    ));
                }
                estimated
            },
            None => {
                let estimated = self.update_without_observation();
                assert(taken_in(
                    *old(self),
                    observation,
                    accumulate,
                    limit_jump,
                    low_pass,
                    None::<Sample<V>>,
                ));
                estimated
            },
        }
    }

    /// Takes in a measurement.
    pub fn update_with_observation<
        A: FnMut(V, V) -> V,
        J: FnOnce(V, V) -> V,
        F: FnOnce(Span, V, V) -> V,
    >(
        &mut self,
        observation: &RawObservation<V>,
        accumulate: A,
        limit_jump: J,
        low_pass: F,
    ) -> (estimated: EstimatedState<V>)
        requires
            forall|total: V, cpu: V| #[trigger] accumulate.requires((total, cpu)),
            forall|last: V, cpu: V| #[trigger] limit_jump.requires((last, cpu)),
            forall|dt: Span, cpu: V, prev: V| #[trigger] low_pass.requires((dt, cpu, prev)),
        ensures
            exists|sample: Sample<V>| #[trigger]
                sampled(*old(self), *observation, accumulate, limit_jump, low_pass, sample)
                    && *final(self) == estimator_next(*old(self), Some(sample)) && estimated
                    == estimate_next(*old(self), Some(sample)),
    {
        let dt = self.next_dt(observation.timestamp);
        self.missed_cycles = 0;
        self.warm_up_samples = if self.warm_up_samples < WARM_UP_SAMPLES - 1 {
            self.warm_up_samples + 1
        } else {
            WARM_UP_SAMPLES
        };

        let normalized_cpu = total_usage(&observation.per_pid_cpu, self.zero, accumulate);
        let clamped_cpu = match self.last_good_normalized {
            Some(last_good_normalized) => limit_jump(last_good_normalized, normalized_cpu),
            None => normalized_cpu,
        };
        let filtered_cpu = low_pass(dt, clamped_cpu, self.prev_filtered_cpu);
        self.prev_filtered_cpu = filtered_cpu;

        let warmed_up = self.warm_up_samples >= WARM_UP_SAMPLES;
        let valid = warmed_up;
        let timed_out = false;

        self.last_good_normalized = Some(clamped_cpu);
        if valid {
            self.last_good_filtered = Some(filtered_cpu);
        }
        proof {
            let sample = Sample {
                timestamp: observation.timestamp,
                clamped: clamped_cpu,
                filtered: filtered_cpu,
            };
            assert(sampled(
                *old(self),
                *observation,
                accumulate,
                limit_jump,
                low_pass,
                sample,
            ));
        }
        EstimatedState {
            normalized_cpu: clamped_cpu,
            filtered_cpu,
            dt,
            valid,
            warmed_up,
            timed_out,
        }
    }

    /// Takes in a period without a measurement.
    pub fn update_without_observation(&mut self) -> (estimated: EstimatedState<V>)
        requires
            old(self).missed_cycles < usize::MAX,
        ensures
            *final(self) == estimator_next(*old(self), None),
            estimated == estimate_next(*old(self), None),
    {
        self.missed_cycles = self.missed_cycles + 1;

        let dt = self.control_period;
        let warmed_up = self.warm_up_samples >= WARM_UP_SAMPLES;
        let timed_out = self.missed_cycles >= TIMEOUT_THRESHOLD_CYCLES;
        let can_hold = self.missed_cycles <= HOLD_LIMIT_CYCLES;
        let held_normalized = match self.last_good_normalized {
            Some(cpu) => cpu,
            None => self.zero,
        };
        let held_filtered = match self.last_good_filtered {
            Some(cpu) => cpu,
            None => self.zero,
        };
        let valid = warmed_up && !timed_out && can_hold && self.last_good_normalized.is_some()
            && self.last_good_filtered.is_some();

        EstimatedState {
            normalized_cpu: held_normalized,
            filtered_cpu: held_filtered,
            dt,
            valid,
            warmed_up,
            timed_out,
        }
    }

    fn next_dt(&mut self, timestamp: Span) -> (dt: Span)
        ensures
            dt == dt_at(*old(self), timestamp),
            *final(self) == (Estimator { prev_timestamp: Some(timestamp), ..*old(self) }),
    {
        let dt = match self.prev_timestamp {
            Some(prev) => timestamp.saturating_sub(prev),
            None => self.control_period,
        };
        self.prev_timestamp = Some(timestamp);
        dt
    }
}

/// The estimator after these periods.
pub open spec fn estimator_after<V>(
    start: Estimator<V>,
    samples: Seq<Option<Sample<V>>>,
) -> Estimator<V>
    decreases samples.len(),
{
    if samples.len() == 0 {
        start
    } else {
        estimator_next(estimator_after(start, samples.drop_last()), samples.last())
    }
}

/// The estimate of the last of these periods.
pub open spec fn last_estimate<V>(
    start: Estimator<V>,
    samples: Seq<Option<Sample<V>>>,
) -> EstimatedState<V> {
    estimate_next(estimator_after(start, samples.drop_last()), samples.last())
}

/// How many of the periods had a measurement.
pub open spec fn measured_periods<V>(samples: Seq<Option<Sample<V>>>) -> nat
    decreases samples.len(),
{
    if samples.len() == 0 {
        0
    } else {
        measured_periods(samples.drop_last()) + if samples.last() is Some {
            1nat
        } else {
            0nat
        }
    }
}

/// How many periods without a measurement there are at the end.
pub open spec fn missed_at_end<V>(samples: Seq<Option<Sample<V>>>) -> nat
    decreases samples.len(),
{
    if samples.len() == 0 || samples.last() is Some {
        0
    } else {
        missed_at_end(samples.drop_last()) + 1
    }
}

/// The last measurement, if there is any.
pub open spec fn last_sample<V>(samples: Seq<Option<Sample<V>>>) -> Option<Sample<V>>
    decreases samples.len(),
{
    if samples.len() == 0 {
        None
    } else if samples.last() is Some {
        samples.last()
    } else {
        last_sample(samples.drop_last())
    }
}

proof fn lemma_estimator_remembers<V>(
    control_period: Span,
    zero: V,
    samples: Seq<Option<Sample<V>>>,
)
    requires
        samples.len() <= usize::MAX,
    ensures
        ({
            let estimator = estimator_after(fresh(control_period, zero), samples);
            let count = measured_periods(samples);
            &&& estimator.control_period == control_period
            &&& estimator.zero == zero
            &&& estimator.warm_up_samples == if count < WARM_UP_SAMPLES {
                count as int
            } else {
                WARM_UP_SAMPLES as int
            }
            &&& estimator.missed_cycles == missed_at_end(samples) <= samples.len()
            &&& count > 0 <==> last_sample(samples) is Some
            &&& match last_sample(samples) {
                Some(sample) => {
                    &&& estimator.last_good_normalized == Some(sample.clamped)
                    &&& estimator.prev_filtered_cpu == sample.filtered
                    &&& estimator.prev_timestamp == Some(sample.timestamp)
                    &&& estimator.last_good_filtered == if count >= WARM_UP_SAMPLES {
                        Some(sample.filtered)
                    } else {
                        None
                    }
                },
                None => {
                    &&& estimator.last_good_normalized is None
                    &&& estimator.last_good_filtered is None
                    &&& estimator.prev_timestamp is None
                    &&& estimator.prev_filtered_cpu == zero
                },
            }
        }),
    decreases samples.len(),
{
    if samples.len() > 0 {
        lemma_estimator_remembers(control_period, zero, samples.drop_last());
    }
}

/// An estimate can be relied on exactly when two measurements were taken since the start
/// and fewer than three are missing at the end; it has timed out exactly when three or
/// more are.
pub proof fn law_when_an_estimate_is_valid<V>(
    control_period: Span,
    zero: V,
    samples: Seq<Option<Sample<V>>>,
)
    requires
        0 < samples.len() <= usize::MAX,
    ensures
        ({
            let estimated = last_estimate(fresh(control_period, zero), samples);
            &&& estimated.warmed_up <==> measured_periods(samples) >= 2
            &&& estimated.timed_out <==> missed_at_end(samples) >= 3
            &&& estimated.valid <==> measured_periods(samples) >= 2 && missed_at_end(samples) < 3
        }),
{
    lemma_estimator_remembers(control_period, zero, samples.drop_last());
    lemma_estimator_remembers(control_period, zero, samples);
}

/// A measurement counts at once: its estimate can be relied on exactly when it is not the
/// first since the start, however many were missing in between, and has never timed out.
pub proof fn law_missing_measurements_never_undo_the_warm_up<V>(
    control_period: Span,
    zero: V,
    samples: Seq<Option<Sample<V>>>,
)
    requires
        0 < samples.len() <= usize::MAX,
        samples.last() is Some,
    ensures
        ({
            let estimated = last_estimate(fresh(control_period, zero), samples);
            &&& estimated.warmed_up <==> measured_periods(samples) >= 2
            &&& estimated.valid == estimated.warmed_up
            &&& !estimated.timed_out
        }),
{
    lemma_estimator_remembers(control_period, zero, samples.drop_last());
}

/// The estimate of a period without a measurement holds both values of the last
/// measurement, each for itself: the usage once there was a measurement, the filtered usage
/// once there were two, and nothing before that. It takes a period to have passed.
pub proof fn law_hold_keeps_the_last_values<V>(
    control_period: Span,
    zero: V,
    samples: Seq<Option<Sample<V>>>,
)
    requires
        0 < samples.len() <= usize::MAX,
        samples.last() is None,
    ensures
        ({
            let estimated = last_estimate(fresh(control_period, zero), samples);
            &&& last_sample(samples) is Some <==> measured_periods(samples) >= 1
            &&& estimated.normalized_cpu == match last_sample(samples) {
                Some(sample) => sample.clamped,
                None => zero,
            }
            &&& estimated.filtered_cpu == match last_sample(samples) {
                Some(sample) => if measured_periods(samples) >= 2 {
                    sample.filtered
                } else {
                    zero
                },
                None => zero,
            }
            &&& estimated.dt == control_period
        }),
{
    lemma_estimator_remembers(control_period, zero, samples.drop_last());
}

/// The usage that a measurement reports is what `limit_jump` makes of the total, seen from
/// the usage that the measurement before it reported, however many were missing in between;
/// the first measurement reports the total itself. The filter goes on from the filtered
/// usage reported then, over the time since.
pub proof fn law_jump_is_limited_from_the_last_report<
    V,
    A: FnMut(V, V) -> V,
    J: FnOnce(V, V) -> V,
    F: FnOnce(Span, V, V) -> V,
>(
    control_period: Span,
    zero: V,
    samples: Seq<Option<Sample<V>>>,
    observation: RawObservation<V>,
    accumulate: A,
    limit_jump: J,
    low_pass: F,
    sample: Sample<V>,
)
    requires
        samples.len() < usize::MAX,
        sampled(
            estimator_after(fresh(control_period, zero), samples),
            observation,
            accumulate,
            limit_jump,
            low_pass,
            sample,
        ),
    ensures
        ({
            let reported = last_estimate(
                fresh(control_period, zero),
                samples.push(Some(sample)),
            );
            &&& last_sample(samples.push(Some(sample))) == Some(sample)
            &&& reported.normalized_cpu == sample.clamped
            &&& reported.filtered_cpu == sample.filtered
            &&& exists|total: V| #[trigger]
                totals_to(observation.per_pid_cpu@, zero, accumulate, total) && match last_sample(
                    samples,
                ) {
                    Some(before) => limit_jump.ensures(
                        (before.clamped, total),
                        reported.normalized_cpu,
                    ),
                    None => reported.normalized_cpu == total,
                }
            &&& match last_sample(samples) {
                Some(before) => low_pass.ensures(
                    (
                        span::remainder(observation.timestamp, before.timestamp),
                        reported.normalized_cpu,
                        before.filtered,
                    ),
                    reported.filtered_cpu,
                ),
                None => low_pass.ensures(
                    (control_period, reported.normalized_cpu, zero),
                    reported.filtered_cpu,
                ),
            }
        }),
{
    lemma_estimator_remembers(control_period, zero, samples);
    assert(samples.push(Some(sample)).drop_last() =~= samples);
}

/// A missing measurement leaves what was measured before as it is.
pub proof fn law_missing_measurement_forgets_nothing<V>(estimator: Estimator<V>)
    ensures
        estimator_next(estimator, None) == (Estimator {
            missed_cycles: estimator_next(estimator, None).missed_cycles,
            ..estimator
        }),
{
}

/// The usage of all the readings, where the usages are whole numbers.
pub open spec fn usage_sum(readings: Seq<(i32, int)>) -> int
    decreases readings.len(),
{
    if readings.len() == 0 {
        0
    } else {
        readings.first().1 + usage_sum(readings.drop_first())
    }
}

proof fn lemma_usage_sum_push(readings: Seq<(i32, int)>, reading: (i32, int))
    ensures
        usage_sum(readings.push(reading)) == usage_sum(readings) + reading.1,
    decreases readings.len(),
{
    reveal_with_fuel(usage_sum, 2);
    let longer = readings.push(reading);
    if readings.len() == 0 {
        assert(longer.drop_first() =~= Seq::<(i32, int)>::empty());
    } else {
        assert(longer.drop_first() =~= readings.drop_first().push(reading));
        lemma_usage_sum_push(readings.drop_first(), reading);
    }
}

/// The total takes in every reading once. Where usages are whole numbers and adding one to a
/// total adds it, the total is the sum over all processes, from `zero` on.
pub proof fn law_total_is_the_sum_over_all_processes<A: FnMut(int, int) -> int>(
    readings: Seq<(i32, int)>,
    zero: int,
    accumulate: A,
    total: int,
)
    requires
        totals_to(readings, zero, accumulate, total),
        forall|sum: int, cpu: int, next: int| #[trigger]
            accumulate.ensures((sum, cpu), next) ==> next == sum + cpu,
    ensures
        total == zero + usage_sum(readings),
{
    let totals = choose|totals: Seq<int>| #[trigger]
        running_totals(readings, zero, accumulate, totals) && totals.last() == total;
    lemma_totals_are_sums(readings, zero, accumulate, totals, readings.len() as int);
    assert(readings.take(readings.len() as int) =~= readings);
}

proof fn lemma_totals_are_sums<A: FnMut(int, int) -> int>(
    readings: Seq<(i32, int)>,
    zero: int,
    accumulate: A,
    totals: Seq<int>,
    count: int,
)
    requires
        running_totals(readings, zero, accumulate, totals),
        forall|sum: int, cpu: int, next: int| #[trigger]
            accumulate.ensures((sum, cpu), next) ==> next == sum + cpu,
        0 <= count <= readings.len(),
    ensures
        totals[count] == zero + usage_sum(readings.take(count)),
    decreases count,
{
    if count > 0 {
        lemma_totals_are_sums(readings, zero, accumulate, totals, count - 1);
        lemma_usage_sum_push(readings.take(count - 1), readings[count - 1]);
        assert(readings.take(count) =~= readings.take(count - 1).push(readings[count - 1]));
        assert(accumulate.ensures(
            (totals[count - 1], readings[count - 1].1),
            totals[count - 1 + 1],
        ));
    } else {
        assert(readings.take(0) =~= Seq::<(i32, int)>::empty());
    }
}

proof fn lemma_totals_fold<V, A: FnMut(V, V) -> V>(
    readings: Seq<(i32, V)>,
    zero: V,
    accumulate: A,
    totals: Seq<V>,
    added: spec_fn(V, V) -> V,
    count: int,
)
    requires
        running_totals(readings, zero, accumulate, totals),
        forall|sum: V, cpu: V, next: V| #[trigger]
            accumulate.ensures((sum, cpu), next) ==> next == added(sum, cpu),
        0 <= count <= readings.len(),
    ensures
        totals[count] == readings.take(count).fold_left(
            zero,
            |sum: V, reading: (i32, V)| added(sum, reading.1),
        ),
    decreases count,
{
    let step = |sum: V, reading: (i32, V)| added(sum, reading.1);
    if count > 0 {
        lemma_totals_fold(readings, zero, accumulate, totals, added, count - 1);
        assert(readings.take(count).drop_last() =~= readings.take(count - 1));
        assert(readings.take(count).last() == readings[count - 1]);
        assert(accumulate.ensures(
            (totals[count - 1], readings[count - 1].1),
            totals[count - 1 + 1],
        ));
    }
}

/// The report on a measurement follows from all its readings: the total is made by adding up
/// the usages of all processes in order, `added` being what `accumulate` gives. It is limited
/// from the usage reported last, where there is one, and filtered over the time since then,
/// or over a period the first time.
pub proof fn law_report_follows_from_all_readings<
    V,
    A: FnMut(V, V) -> V,
    J: FnOnce(V, V) -> V,
    F: FnOnce(Span, V, V) -> V,
>(
    control_period: Span,
    zero: V,
    samples: Seq<Option<Sample<V>>>,
    observation: RawObservation<V>,
    accumulate: A,
    limit_jump: J,
    low_pass: F,
    sample: Sample<V>,
    added: spec_fn(V, V) -> V,
)
    requires
        samples.len() < usize::MAX,
        sampled(
            estimator_after(fresh(control_period, zero), samples),
            observation,
            accumulate,
            limit_jump,
            low_pass,
            sample,
        ),
        forall|sum: V, cpu: V, next: V| #[trigger]
            accumulate.ensures((sum, cpu), next) ==> next == added(sum, cpu),
    ensures
        ({
            let total = observation.per_pid_cpu@.fold_left(
                zero,
                |sum: V, reading: (i32, V)| added(sum, reading.1),
            );
            let reported = last_estimate(
                fresh(control_period, zero),
                samples.push(Some(sample)),
            );
            &&& sample.timestamp == observation.timestamp
            &&& match last_sample(samples) {
                Some(before) => {
                    &&& limit_jump.ensures((before.clamped, total), reported.normalized_cpu)
                    &&& reported.dt.nanos == if before.timestamp.nanos
                        <= observation.timestamp.nanos {
                        observation.timestamp.nanos - before.timestamp.nanos
                    } else {
                        0
                    }
                    &&& low_pass.ensures(
                        (reported.dt, reported.normalized_cpu, before.filtered),
                        reported.filtered_cpu,
                    )
                },
                None => {
                    &&& reported.normalized_cpu == total
                    &&& reported.dt == control_period
                    &&& low_pass.ensures(
                        (control_period, reported.normalized_cpu, zero),
                        reported.filtered_cpu,
                    )
                },
            }
        }),
{
    let readings = observation.per_pid_cpu@;
    let estimator = estimator_after(fresh(control_period, zero), samples);
    lemma_estimator_remembers(control_period, zero, samples);
    assert(samples.push(Some(sample)).drop_last() =~= samples);
    let normalized = choose|normalized: V| #[trigger]
        totals_to(readings, estimator.zero, accumulate, normalized)
            && match estimator.last_good_normalized {
            Some(last) => limit_jump.ensures((last, normalized), sample.clamped),
            None => sample.clamped == normalized,
        };
    let totals = choose|totals: Seq<V>| #[trigger]
        running_totals(readings, zero, accumulate, totals) && totals.last() == normalized;
    lemma_totals_fold(readings, zero, accumulate, totals, added, readings.len() as int);
    assert(readings.take(readings.len() as int) =~= readings);
}

/// Every observation is taken in, as a sample at its own time, and nothing else is: a period
/// without one has no sample.
pub proof fn law_every_observation_is_taken_in<
    V,
    A: FnMut(V, V) -> V,
    J: FnOnce(V, V) -> V,
    F: FnOnce(Span, V, V) -> V,
>(
    estimator: Estimator<V>,
    observation: Option<&RawObservation<V>>,
    accumulate: A,
    limit_jump: J,
    low_pass: F,
    sample: Option<Sample<V>>,
)
    requires
        taken_in(estimator, observation, accumulate, limit_jump, low_pass, sample),
    ensures
        observation is Some <==> sample is Some,
        observation matches Some(observed) ==> {
            &&& sample->Some_0.timestamp == observed.timestamp
            &&& sampled(
                estimator,
                *observed,
                accumulate,
                limit_jump,
                low_pass,
                sample->Some_0,
            )
        },
{
}

} // verus!
