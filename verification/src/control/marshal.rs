//! Deciding for how long the target is stopped in the coming period.
//!
//! The arithmetic on CPU quantities comes in as closures. Which of it is done, and what is
//! kept for the next decision, is decided here.

use crate::control::span::Span;
use crate::control::types::{ControlDecision, EstimatedState};
use vstd::prelude::*;

verus! {

/// Where a usage lies, seen from the dead band round the setpoint.
#[derive(Clone, Copy, Debug, PartialEq, Eq, Structural)]
pub enum Band {
    Below,
    Inside,
    Above,
}

/// What the fraction of time to be stopped is worked out from, where the usage is too high.
#[derive(Clone, Copy, Debug)]
pub struct Pursuit<V> {
    pub kp: V,
    pub ki: V,
    pub setpoint: V,
    pub filtered_cpu: V,
    pub prev_output: V,
    pub integral: V,
}

pub struct Marshal<V> {
    pub kp: V,
    pub ki: V,
    pub setpoint: V,
    pub integral: V,
    pub prev_output: V,
    /// The quantity that stands for nothing: no usage, no stop, no error.
    pub zero: V,
    pub control_period: Span,
}

/// Whether a decision can rest on the estimate.
pub open spec fn can_decide<V>(estimated: EstimatedState<V>) -> bool {
    estimated.valid && estimated.dt.nanos > 0
}

/// Whether the usage can lead to this integral and this target for the output.
pub open spec fn aimed<V, A: FnOnce(V, V, V, Span) -> V, P: FnOnce(Pursuit<V>) -> V>(
    marshal: Marshal<V>,
    estimated: EstimatedState<V>,
    band: Band,
    accrue: A,
    pursue: P,
    integral: V,
    target: V,
) -> bool {
    match band {
        Band::Below => integral == marshal.zero && target == marshal.zero,
        Band::Inside => integral == marshal.integral && target == marshal.prev_output,
        Band::Above => {
            &&& accrue.ensures(
                (marshal.integral, estimated.filtered_cpu, marshal.setpoint, estimated.dt),
                integral,
            )
            &&& pursue.ensures(
                (
                    Pursuit {
                        kp: marshal.kp,
                        ki: marshal.ki,
                        setpoint: marshal.setpoint,
                        filtered_cpu: estimated.filtered_cpu,
                        prev_output: marshal.prev_output,
                        integral,
                    },
                ),
                target,
            )
        },
    }
}

/// Whether this can come of a decision.
pub open spec fn decided<
    V,
    B: FnOnce(V, V) -> Band,
    A: FnOnce(V, V, V, Span) -> V,
    P: FnOnce(Pursuit<V>) -> V,
    L: FnOnce(V, V) -> V,
    H: FnOnce(Span, V) -> Span,
>(
    marshal: Marshal<V>,
    estimated: EstimatedState<V>,
    place: B,
    accrue: A,
    pursue: P,
    limit_step: L,
    stop_for: H,
    after: Marshal<V>,
    decision: ControlDecision,
) -> bool {
    if can_decide(estimated) {
        exists|band: Band, integral: V, target: V|
            {
                &&& #[trigger] place.ensures((estimated.filtered_cpu, marshal.setpoint), band)
                &&& #[trigger] aimed(marshal, estimated, band, accrue, pursue, integral, target)
                &&& limit_step.ensures((marshal.prev_output, target), after.prev_output)
                &&& stop_for.ensures(
                    (marshal.control_period, after.prev_output),
                    decision.stop_duration,
                )
                &&& after == (Marshal { integral, prev_output: after.prev_output, ..marshal })
            }
    } else {
        &&& after == (Marshal { prev_output: marshal.zero, ..marshal })
        &&& decision.stop_duration.nanos == 0
    }
}

impl<V: Copy> Marshal<V> {
    pub fn new(setpoint: V, control_period: Span, zero: V, kp: V, ki: V) -> (marshal: Marshal<V>)
        ensures
            marshal == (Marshal {
                kp,
                ki,
                setpoint,
                integral: zero,
                prev_output: zero,
                zero,
                control_period,
            }),
    {
        Marshal { kp, ki, setpoint, integral: zero, prev_output: zero, zero, control_period }
    }

    /// Decides on the estimate. `place` tells where a usage lies from a setpoint; `accrue`
    /// adds the error over a time to an integral; `pursue` works out the fraction of time
    /// to be stopped; `limit_step` holds that fraction near the one before; `stop_for` is
    /// that fraction of a period.
    pub fn decide<
        B: FnOnce(V, V) -> Band,
        A: FnOnce(V, V, V, Span) -> V,
        P: FnOnce(Pursuit<V>) -> V,
        L: FnOnce(V, V) -> V,
        H: FnOnce(Span, V) -> Span,
    >(
        &mut self,
        estimated: &EstimatedState<V>,
        place: B,
        accrue: A,
        pursue: P,
        limit_step: L,
        stop_for: H,
    ) -> (decision: ControlDecision)
        requires
            forall|cpu: V, setpoint: V| #[trigger] place.requires((cpu, setpoint)),
            forall|integral: V, cpu: V, setpoint: V, dt: Span| #[trigger]
                accrue.requires((integral, cpu, setpoint, dt)),
            forall|pursuit: Pursuit<V>| #[trigger] pursue.requires((pursuit,)),
            forall|prev: V, target: V| #[trigger] limit_step.requires((prev, target)),
            forall|period: Span, output: V| #[trigger] stop_for.requires((period, output)),
        ensures
            decided(
                *old(self),
                *estimated,
                place,
                accrue,
                pursue,
                limit_step,
                stop_for,
                *final(self),
                decision,
            ),
    {
        if !estimated.valid {
            self.prev_output = self.zero;
            return ControlDecision { stop_duration: Span::zero() };
        }
        if estimated.dt.is_zero() {
            self.prev_output = self.zero;
            return ControlDecision { stop_duration: Span::zero() };
        }
        let band = place(estimated.filtered_cpu, self.setpoint);
        let target_output = match band {
            Band::Below => {
                self.integral = self.zero;
                self.zero
            },
            Band::Inside => self.prev_output,
            Band::Above => {
                self.integral =
                accrue(self.integral, estimated.filtered_cpu, self.setpoint, estimated.dt);
                pursue(
                    Pursuit {
                        kp: self.kp,
                        ki: self.ki,
                        setpoint: self.setpoint,
                        filtered_cpu: estimated.filtered_cpu,
                        prev_output: self.prev_output,
                        integral: self.integral,
                    },
                )
            },
        };
        assert(aimed(
            *old(self),
            *estimated,
            band,
            accrue,
            pursue,
            self.integral,
            target_output,
        ));
        let output = limit_step(self.prev_output, target_output);
        self.prev_output = output;
        ControlDecision { stop_duration: stop_for(self.control_period, output) }
    }
}

/// An estimate that cannot be relied on, or that covers no time, stops nothing; the next
/// decision starts from no stop, with the integral as it was.
pub proof fn law_unusable_estimate_stops_nothing<
    V,
    B: FnOnce(V, V) -> Band,
    A: FnOnce(V, V, V, Span) -> V,
    P: FnOnce(Pursuit<V>) -> V,
    L: FnOnce(V, V) -> V,
    H: FnOnce(Span, V) -> Span,
>(
    marshal: Marshal<V>,
    estimated: EstimatedState<V>,
    place: B,
    accrue: A,
    pursue: P,
    limit_step: L,
    stop_for: H,
    after: Marshal<V>,
    decision: ControlDecision,
)
    requires
        decided(
            marshal,
            estimated,
            place,
            accrue,
            pursue,
            limit_step,
            stop_for,
            after,
            decision,
        ),
        !estimated.valid || estimated.dt.nanos == 0,
    ensures
        decision.stop_duration.nanos == 0,
        after.prev_output == marshal.zero,
        after.integral == marshal.integral,
{
}

/// The integral is kept inside the dead band and set back to nothing below it.
pub proof fn law_integral_outside_pursuit<
    V,
    B: FnOnce(V, V) -> Band,
    A: FnOnce(V, V, V, Span) -> V,
    P: FnOnce(Pursuit<V>) -> V,
    L: FnOnce(V, V) -> V,
    H: FnOnce(Span, V) -> Span,
>(
    marshal: Marshal<V>,
    estimated: EstimatedState<V>,
    place: B,
    accrue: A,
    pursue: P,
    limit_step: L,
    stop_for: H,
    after: Marshal<V>,
    decision: ControlDecision,
)
    requires
        decided(
            marshal,
            estimated,
            place,
            accrue,
            pursue,
            limit_step,
            stop_for,
            after,
            decision,
        ),
        can_decide(estimated),
    ensures
        (forall|band: Band| #[trigger]
            place.ensures((estimated.filtered_cpu, marshal.setpoint), band) ==> band
                == Band::Inside) ==> after.integral == marshal.integral,
        (forall|band: Band| #[trigger]
            place.ensures((estimated.filtered_cpu, marshal.setpoint), band) ==> band
                == Band::Below) ==> after.integral == marshal.zero,
{
}

/// Inside the dead band the output stays what it was, where `limit_step` leaves an output
/// that is already on target alone; and the target is stopped for that fraction of a period.
pub proof fn law_dead_band_keeps_the_output<
    V,
    B: FnOnce(V, V) -> Band,
    A: FnOnce(V, V, V, Span) -> V,
    P: FnOnce(Pursuit<V>) -> V,
    L: FnOnce(V, V) -> V,
    H: FnOnce(Span, V) -> Span,
>(
    marshal: Marshal<V>,
    estimated: EstimatedState<V>,
    place: B,
    accrue: A,
    pursue: P,
    limit_step: L,
    stop_for: H,
    after: Marshal<V>,
    decision: ControlDecision,
)
    requires
        decided(
            marshal,
            estimated,
            place,
            accrue,
            pursue,
            limit_step,
            stop_for,
            after,
            decision,
        ),
        can_decide(estimated),
        forall|band: Band| #[trigger]
            place.ensures((estimated.filtered_cpu, marshal.setpoint), band) ==> band
                == Band::Inside,
        forall|output: V| #[trigger]
            limit_step.ensures((marshal.prev_output, marshal.prev_output), output) ==> output
                == marshal.prev_output,
    ensures
        after == marshal,
        stop_for.ensures(
            (marshal.control_period, marshal.prev_output),
            decision.stop_duration,
        ),
{
}

/// Inside the dead band nothing moves: the target is stopped for as long as by the decision
/// before, and the integral stays. This is so where `limit_step` leaves an output that is
/// already on target alone, and a fraction of a period has one length.
pub proof fn law_dead_band_keeps_the_stop<
    V,
    B: FnOnce(V, V) -> Band,
    A: FnOnce(V, V, V, Span) -> V,
    P: FnOnce(Pursuit<V>) -> V,
    L: FnOnce(V, V) -> V,
    H: FnOnce(Span, V) -> Span,
>(
    marshal: Marshal<V>,
    estimated: EstimatedState<V>,
    place: B,
    accrue: A,
    pursue: P,
    limit_step: L,
    stop_for: H,
    after: Marshal<V>,
    decision: ControlDecision,
    previous: ControlDecision,
)
    requires
        decided(
            marshal,
            estimated,
            place,
            accrue,
            pursue,
            limit_step,
            stop_for,
            after,
            decision,
        ),
        can_decide(estimated),
        stop_for.ensures(
            (marshal.control_period, marshal.prev_output),
            previous.stop_duration,
        ),
        forall|band: Band| #[trigger]
            place.ensures((estimated.filtered_cpu, marshal.setpoint), band) ==> band
                == Band::Inside,
        forall|output: V| #[trigger]
            limit_step.ensures((marshal.prev_output, marshal.prev_output), output) ==> output
                == marshal.prev_output,
        forall|output: V, one: Span, other: Span| #[trigger]
            stop_for.ensures((marshal.control_period, output), one) && #[trigger] stop_for.ensures(
                (marshal.control_period, output),
                other,
            ) ==> one == other,
    ensures
        decision.stop_duration == previous.stop_duration,
        after.integral == marshal.integral,
{
}

/// A usable estimate moves the output by one limited step from the output before: whatever
/// `limit_step` keeps between an output and the next holds of the two.
pub proof fn law_output_moves_by_one_step<
    V,
    B: FnOnce(V, V) -> Band,
    A: FnOnce(V, V, V, Span) -> V,
    P: FnOnce(Pursuit<V>) -> V,
    L: FnOnce(V, V) -> V,
    H: FnOnce(Span, V) -> Span,
>(
    marshal: Marshal<V>,
    estimated: EstimatedState<V>,
    place: B,
    accrue: A,
    pursue: P,
    limit_step: L,
    stop_for: H,
    after: Marshal<V>,
    decision: ControlDecision,
    near: spec_fn(V, V) -> bool,
)
    requires
        decided(
            marshal,
            estimated,
            place,
            accrue,
            pursue,
            limit_step,
            stop_for,
            after,
            decision,
        ),
        can_decide(estimated),
        forall|prev: V, target: V, output: V| #[trigger]
            limit_step.ensures((prev, target), output) ==> near(prev, output),
    ensures
        near(marshal.prev_output, after.prev_output),
{
}

/// A usable estimate moves the stop by one limited step from the stop of the decision before:
/// whatever a limited step keeps between the lengths of two stops holds of the two.
pub proof fn law_stop_moves_by_one_step<
    V,
    B: FnOnce(V, V) -> Band,
    A: FnOnce(V, V, V, Span) -> V,
    P: FnOnce(Pursuit<V>) -> V,
    L: FnOnce(V, V) -> V,
    H: FnOnce(Span, V) -> Span,
>(
    marshal: Marshal<V>,
    estimated: EstimatedState<V>,
    place: B,
    accrue: A,
    pursue: P,
    limit_step: L,
    stop_for: H,
    after: Marshal<V>,
    decision: ControlDecision,
    previous: ControlDecision,
    near: spec_fn(Span, Span) -> bool,
)
    requires
        decided(
            marshal,
            estimated,
            place,
            accrue,
            pursue,
            limit_step,
            stop_for,
            after,
            decision,
        ),
        can_decide(estimated),
        stop_for.ensures(
            (marshal.control_period, marshal.prev_output),
            previous.stop_duration,
        ),
        forall|prev: V, target: V, output: V, before: Span, stop: Span|
            {
                &&& #[trigger] limit_step.ensures((prev, target), output)
                &&& #[trigger] stop_for.ensures((marshal.control_period, prev), before)
                &&& #[trigger] stop_for.ensures((marshal.control_period, output), stop)
            } ==> near(before, stop),
    ensures
        near(previous.stop_duration, decision.stop_duration),
{
}

/// The stop of a decision on a usable estimate is the fraction of the period that the output
/// says; that is what the next decision starts from.
pub proof fn law_stop_is_the_output_of_the_period<
    V,
    B: FnOnce(V, V) -> Band,
    A: FnOnce(V, V, V, Span) -> V,
    P: FnOnce(Pursuit<V>) -> V,
    L: FnOnce(V, V) -> V,
    H: FnOnce(Span, V) -> Span,
>(
    marshal: Marshal<V>,
    estimated: EstimatedState<V>,
    place: B,
    accrue: A,
    pursue: P,
    limit_step: L,
    stop_for: H,
    after: Marshal<V>,
    decision: ControlDecision,
)
    requires
        decided(
            marshal,
            estimated,
            place,
            accrue,
            pursue,
            limit_step,
            stop_for,
            after,
            decision,
        ),
        can_decide(estimated),
    ensures
        stop_for.ensures((after.control_period, after.prev_output), decision.stop_duration),
        after.control_period == marshal.control_period,
{
}

/// Where no fraction of a period is longer than the period, no decision stops the target
/// for longer than a period.
pub proof fn law_stop_fits_the_period<
    V,
    B: FnOnce(V, V) -> Band,
    A: FnOnce(V, V, V, Span) -> V,
    P: FnOnce(Pursuit<V>) -> V,
    L: FnOnce(V, V) -> V,
    H: FnOnce(Span, V) -> Span,
>(
    marshal: Marshal<V>,
    estimated: EstimatedState<V>,
    place: B,
    accrue: A,
    pursue: P,
    limit_step: L,
    stop_for: H,
    after: Marshal<V>,
    decision: ControlDecision,
)
    requires
        decided(
            marshal,
            estimated,
            place,
            accrue,
            pursue,
            limit_step,
            stop_for,
            after,
            decision,
        ),
        forall|output: V, stop: Span| #[trigger]
            stop_for.ensures((marshal.control_period, output), stop) ==> stop.nanos
                <= marshal.control_period.nanos,
    ensures
        decision.stop_duration.nanos <= marshal.control_period.nanos,
{
}

/// Decisions leave the gains, the setpoint and the period as they are.
pub proof fn law_decisions_keep_the_settings<
    V,
    B: FnOnce(V, V) -> Band,
    A: FnOnce(V, V, V, Span) -> V,
    P: FnOnce(Pursuit<V>) -> V,
    L: FnOnce(V, V) -> V,
    H: FnOnce(Span, V) -> Span,
>(
    marshal: Marshal<V>,
    estimated: EstimatedState<V>,
    place: B,
    accrue: A,
    pursue: P,
    limit_step: L,
    stop_for: H,
    after: Marshal<V>,
    decision: ControlDecision,
)
    requires
        decided(
            marshal,
            estimated,
            place,
            accrue,
            pursue,
            limit_step,
            stop_for,
            after,
            decision,
        ),
    ensures
        after == (Marshal { integral: after.integral, prev_output: after.prev_output, ..marshal }),
{
}

/// Every estimate that is valid and covers any time at all is decided on: the usage is placed
/// against the setpoint, below the dead band nothing is aimed at, inside it the output before
/// and above it what `pursue` works out; the output is one limited step towards that, and the
/// stop is that fraction of the period.
pub proof fn law_every_usable_estimate_is_decided_on<
    V,
    B: FnOnce(V, V) -> Band,
    A: FnOnce(V, V, V, Span) -> V,
    P: FnOnce(Pursuit<V>) -> V,
    L: FnOnce(V, V) -> V,
    H: FnOnce(Span, V) -> Span,
>(
    marshal: Marshal<V>,
    estimated: EstimatedState<V>,
    place: B,
    accrue: A,
    pursue: P,
    limit_step: L,
    stop_for: H,
    after: Marshal<V>,
    decision: ControlDecision,
)
    requires
        decided(
            marshal,
            estimated,
            place,
            accrue,
            pursue,
            limit_step,
            stop_for,
            after,
            decision,
        ),
        estimated.valid,
        estimated.dt.nanos > 0,
    ensures
        exists|band: Band, target: V|
            {
                &&& #[trigger] place.ensures((estimated.filtered_cpu, marshal.setpoint), band)
                &&& #[trigger] limit_step.ensures((marshal.prev_output, target), after.prev_output)
                &&& match band {
                    Band::Below => target == marshal.zero && after.integral == marshal.zero,
                    Band::Inside => target == marshal.prev_output && after.integral
                        == marshal.integral,
                    Band::Above => {
                        &&& accrue.ensures(
                            (
                                marshal.integral,
                                estimated.filtered_cpu,
                                marshal.setpoint,
                                estimated.dt,
                            ),
                            after.integral,
                        )
                        &&& pursue.ensures(
                            (
                                Pursuit {
                                    kp: marshal.kp,
                                    ki: marshal.ki,
                                    setpoint: marshal.setpoint,
                                    filtered_cpu: estimated.filtered_cpu,
                                    prev_output: marshal.prev_output,
                                    integral: after.integral,
                                },
                            ),
                            target,
                        )
                    },
                }
            },
        stop_for.ensures((marshal.control_period, after.prev_output), decision.stop_duration),
{
}

} // verus!
