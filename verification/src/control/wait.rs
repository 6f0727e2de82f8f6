//! Sleeping in short slices, with a look at the stop request before each.

use crate::control::span::{self, Span};
use vstd::prelude::*;

verus! {

/// The longest slice: 10 ms.
pub const STOP_POLL_NANOS: u128 = 10_000_000;

/// The first slice of a wait of this length.
pub open spec fn first_slice(remaining: Span) -> Span {
    if remaining.nanos <= STOP_POLL_NANOS {
        remaining
    } else {
        Span { nanos: STOP_POLL_NANOS }
    }
}

/// The slices of an uninterrupted wait, in order.
pub open spec fn slices(remaining: Span) -> Seq<Span>
    decreases remaining.nanos,
{
    if remaining.nanos == 0 {
        seq![]
    } else {
        seq![first_slice(remaining)] + slices(span::remainder(remaining, first_slice(remaining)))
    }
}

/// The total length of a sequence of spans.
pub open spec fn total_nanos(spans: Seq<Span>) -> nat
    decreases spans.len(),
{
    if spans.len() == 0 {
        0
    } else {
        spans.first().nanos as nat + total_nanos(spans.drop_first())
    }
}

/// A wait in progress.
#[derive(Clone, Copy, Debug, PartialEq, Eq, Structural)]
pub struct PollWait {
    pub remaining: Span,
}

impl PollWait {
    pub fn new(duration: Span) -> (wait: PollWait)
        ensures
            wait.remaining == duration,
    {
        PollWait { remaining: duration }
    }

    /// Whether nothing is left to wait for.
    pub fn is_done(&self) -> (done: bool)
        ensures
            done == (self.remaining.nanos == 0),
    {
        self.remaining.is_zero()
    }

    /// Takes the next slice off the wait and returns it.
    pub fn take_slice(&mut self) -> (slice: Span)
        ensures
            slice == first_slice(old(self).remaining),
            final(self).remaining == span::remainder(old(self).remaining, slice),
    {
        let slice = self.remaining.shorter(Span { nanos: STOP_POLL_NANOS });
        self.remaining = self.remaining.saturating_sub(slice);
        slice
    }
}

/// One turn of a wait: the world after the poll, and after the sleep that followed it.
pub struct WaitTurn<W> {
    pub polled: W,
    pub slept: W,
}

/// The world when so many turns are over.
pub open spec fn world_at<W>(before: W, turns: Seq<WaitTurn<W>>, count: int) -> W {
    if count <= 0 {
        before
    } else {
        turns[count - 1].slept
    }
}

/// What a wait did between the worlds `before` and `after`, call by call. In each turn it
/// polled, was not told to stop, and slept the slice of that turn. It ended after the last
/// slice, or with a poll that told it to stop.
pub open spec fn waited<W, P: FnMut(W) -> (bool, W), S: FnMut(W, Span) -> W>(
    duration: Span,
    before: W,
    should_stop: P,
    sleep: S,
    turns: Seq<WaitTurn<W>>,
    after: W,
) -> bool {
    &&& turns.len() <= slices(duration).len()
    &&& forall|i: int|
        0 <= i < turns.len() ==> {
            &&& should_stop.ensures(
                (world_at(before, turns, i),),
                (false, (#[trigger] turns[i]).polled),
            )
            &&& sleep.ensures((turns[i].polled, slices(duration)[i]), turns[i].slept)
        }
    &&& if turns.len() == slices(duration).len() {
        after == world_at(before, turns, turns.len() as int)
    } else {
        should_stop.ensures((world_at(before, turns, turns.len() as int),), (true, after))
    }
}

/// Sleeps for `duration` in slices of at most 10 ms. Before each slice it asks
/// `should_stop`, and returns at once where the answer is yes. The world is handed from
/// call to call, which fixes the calls and their order.
pub fn with_stop_check<W, P: FnMut(W) -> (bool, W), S: FnMut(W, Span) -> W>(
    duration: Span,
    world: W,
    should_stop: P,
    sleep: S,
) -> (after: W)
    requires
        forall|world: W| #[trigger] should_stop.requires((world,)),
        forall|world: W, slice: Span| #[trigger] sleep.requires((world, slice)),
    ensures
        exists|turns: Seq<WaitTurn<W>>| #[trigger]
            waited(duration, world, should_stop, sleep, turns, after),
{
    broadcast use vstd::function::group_function_axioms;

    let ghost before = world;
    let mut now = world;
    let mut poll = should_stop;
    let mut rest = sleep;
    let mut wait = PollWait::new(duration);
    let ghost mut turns: Seq<WaitTurn<W>> = seq![];
    assert(slices(duration).skip(0) =~= slices(duration));
    while !wait.is_done()
        invariant
            before == world,
            poll == should_stop,
            rest == sleep,
            forall|world: W| #[trigger] should_stop.requires((world,)),
            forall|world: W, slice: Span| #[trigger] sleep.requires((world, slice)),
            turns.len() <= slices(duration).len(),
            slices(duration).skip(turns.len() as int) == slices(wait.remaining),
            now == world_at(before, turns, turns.len() as int),
            forall|i: int|
                0 <= i < turns.len() ==> {
                    &&& should_stop.ensures(
                        (world_at(before, turns, i),),
                        (false, (#[trigger] turns[i]).polled),
                    )
                    &&& sleep.ensures((turns[i].polled, slices(duration)[i]), turns[i].slept)
                },
        decreases wait.remaining.nanos,
    {
        let ghost left = slices(wait.remaining);
        let ghost so_far = turns;
        proof {
            assert(left.len() > 0);
            assert(left[0] == slices(duration)[turns.len() as int]);
        }
        let (stop, polled) = poll(now);
        if stop {
            assert(waited(duration, before, should_stop, sleep, turns, polled));
            return polled;
        }
        let slice = wait.take_slice();
        let ghost asked = polled;
        now = rest(polled, slice);
        proof {
            assert(left.drop_first() =~= slices(wait.remaining));
            assert(slices(duration).skip(turns.len() as int + 1) =~= left.drop_first());
            turns = turns.push(WaitTurn { polled: asked, slept: now });
            assert forall|i: int| 0 <= i < turns.len() implies {
                &&& should_stop.ensures(
                    (world_at(before, turns, i),),
                    (false, (#[trigger] turns[i]).polled),
                )
                &&& sleep.ensures((turns[i].polled, slices(duration)[i]), turns[i].slept)
            } by {
                assert(world_at(before, turns, i) == world_at(before, so_far, i));
                if i < so_far.len() {
                    assert(turns[i] == so_far[i]);
                }
            }
        }
    }
    assert(slices(duration).skip(turns.len() as int).len() == 0);
    assert(waited(duration, before, should_stop, sleep, turns, now));
    now
}

/// An uninterrupted wait sleeps for exactly the time it was asked to, in slices that are
/// never empty and never longer than the polling interval; all but the last are as long as
/// that.
pub proof fn law_slices_add_up(duration: Span)
    ensures
        total_nanos(slices(duration)) == duration.nanos,
        forall|i: int|
            0 <= i < slices(duration).len() ==> 0 < (#[trigger] slices(duration)[i]).nanos
                <= STOP_POLL_NANOS,
        forall|i: int|
            0 <= i < slices(duration).len() - 1 ==> (#[trigger] slices(duration)[i]).nanos
                == STOP_POLL_NANOS,
    decreases duration.nanos,
{
    if duration.nanos != 0 {
        let rest = span::remainder(duration, first_slice(duration));
        law_slices_add_up(rest);
        assert(slices(duration).drop_first() =~= slices(rest));
        assert forall|i: int| 0 <= i < slices(duration).len() implies 0 < (
        #[trigger] slices(duration)[i]).nanos <= STOP_POLL_NANOS by {
            if i > 0 {
                assert(slices(duration)[i] == slices(rest)[i - 1]);
            }
        }
        assert forall|i: int| 0 <= i < slices(duration).len() - 1 implies (
        #[trigger] slices(duration)[i]).nanos == STOP_POLL_NANOS by {
            if i > 0 {
                assert(slices(duration)[i] == slices(rest)[i - 1]);
            } else {
                assert(slices(rest).len() > 0);
            }
        }
    }
}

/// A wait that is never told to stop sleeps every slice, and so exactly the time it was
/// asked to.
pub proof fn law_uninterrupted_wait_takes_its_time<
    W,
    P: FnMut(W) -> (bool, W),
    S: FnMut(W, Span) -> W,
>(
    duration: Span,
    before: W,
    should_stop: P,
    sleep: S,
    turns: Seq<WaitTurn<W>>,
    after: W,
)
    requires
        waited(duration, before, should_stop, sleep, turns, after),
        forall|world: W, next: W| !#[trigger] should_stop.ensures((world,), (true, next)),
    ensures
        turns.len() == slices(duration).len(),
        total_nanos(slices(duration).take(turns.len() as int)) == duration.nanos,
{
    law_slices_add_up(duration);
    assert(slices(duration).take(turns.len() as int) =~= slices(duration));
}

/// A wait polls before every slice and ends with the first yes: each slice that was slept
/// followed a poll that said no, in the world that the slice before left; and a wait that did
/// not sleep its whole time was told to stop by its last poll.
pub proof fn law_wait_ends_with_the_first_yes<
    W,
    P: FnMut(W) -> (bool, W),
    S: FnMut(W, Span) -> W,
>(
    duration: Span,
    before: W,
    should_stop: P,
    sleep: S,
    turns: Seq<WaitTurn<W>>,
    after: W,
)
    requires
        waited(duration, before, should_stop, sleep, turns, after),
    ensures
        total_nanos(slices(duration).take(turns.len() as int)) <= duration.nanos,
        forall|i: int|
            0 <= i < turns.len() ==> {
                let turn = #[trigger] turns[i];
                let begun = if i == 0 {
                    before
                } else {
                    turns[i - 1].slept
                };
                let slice = slices(duration)[i];
                &&& should_stop.ensures((begun,), (false, turn.polled))
                &&& sleep.ensures((turn.polled, slice), turn.slept)
                &&& 0 < slice.nanos <= 10_000_000
            },
        ({
            let last = if turns.len() == 0 {
                before
            } else {
                turns.last().slept
            };
            if total_nanos(slices(duration).take(turns.len() as int)) == duration.nanos {
                after == last
            } else {
                should_stop.ensures((last,), (true, after))
            }
        }),
{
    law_slices_add_up(duration);
    lemma_take_is_less(slices(duration), turns.len() as int);
    if turns.len() == slices(duration).len() {
        assert(slices(duration).take(turns.len() as int) =~= slices(duration));
    }
}

proof fn lemma_take_is_less(spans: Seq<Span>, count: int)
    requires
        0 <= count <= spans.len(),
        forall|i: int| 0 <= i < spans.len() ==> (#[trigger] spans[i]).nanos > 0,
    ensures
        total_nanos(spans.take(count)) <= total_nanos(spans),
        count < spans.len() ==> total_nanos(spans.take(count)) < total_nanos(spans),
    decreases spans.len(),
{
    if spans.len() > 0 {
        let rest = spans.drop_first();
        assert(spans[0].nanos > 0);
        if count > 0 {
            assert forall|i: int| 0 <= i < rest.len() implies (#[trigger] rest[i]).nanos > 0 by {
                assert(rest[i] == spans[i + 1]);
            }
            lemma_take_is_less(rest, count - 1);
            assert(spans.take(count).drop_first() =~= rest.take(count - 1));
            assert(spans.take(count).first() == spans.first());
        }
    }
}

} // verus!
