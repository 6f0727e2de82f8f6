//! Listing process ids with `proc_listpids`, whose answer may be cut off.

use crate::control::fault::{self, FaultKind, IoFault};
use vstd::prelude::*;

verus! {

/// How often a listing that may have been cut off is tried.
pub const LIST_PIDS_MAX_RETRIES: usize = 3;

/// Entries that the buffer holds beyond the size that the system gave. The call returns
/// the bytes copied, not the bytes needed, so a full buffer may mean that the list was cut
/// off. The slack absorbs small races between the sizing call and the filling call.
pub const LIST_PIDS_SLACK: usize = 16;

/// The bytes of a process id.
pub const PID_SIZE: usize = 4;

/// The ids that fit in `size` bytes, a partly filled one counted whole.
pub open spec fn ids_in(size: int) -> int {
    (size + PID_SIZE - 1) / PID_SIZE as int
}

pub fn pid_capacity_for_size(size: i32) -> (capacity: usize)
    ensures
        capacity == ids_in((size as usize) as int),
{
    let bytes: usize =
        #[verifier::truncate]
        (size as usize);
    let whole: usize = bytes / PID_SIZE;
    if bytes % PID_SIZE == 0 {
        whole
    } else {
        whole + 1
    }
}

/// The bytes of a buffer for `capacity` ids, where the system's calls can express them.
pub fn pid_buffer_size(capacity: usize) -> (size: Result<i32, IoFault>)
    ensures
        match size {
            Ok(size) => size == capacity * PID_SIZE,
            Err(fault) => {
                &&& capacity * PID_SIZE > i32::MAX
                &&& fault@ == fault::other_fault("proc_listpids buffer size overflow"@)
            },
        },
{
    if capacity <= i32::MAX as usize / PID_SIZE {
        Ok((capacity * PID_SIZE) as i32)
    } else {
        Err(IoFault::other("proc_listpids buffer size overflow"))
    }
}

/// Judges the byte count that `proc_listpids` returned. A negative count means that the
/// call failed, and `last_os_error` says why.
pub fn normalize_list_pids_result<E: FnOnce() -> IoFault>(result: i32, last_os_error: E) -> (count:
    Result<i32, IoFault>)
    requires
        result < 0 ==> last_os_error.requires(()),
    ensures
        match count {
            Ok(count) => 0 <= result && count == result,
            Err(fault) => result < 0 && last_os_error.ensures((), fault),
        },
{
    if result < 0 {
        Err(last_os_error())
    } else {
        Ok(result)
    }
}

pub fn list_pids_result_fills_buffer(result: i32, buffer_size: i32) -> (fills: bool)
    ensures
        fills == (result >= buffer_size),
{
    result >= buffer_size
}

/// The ids that the buffer holds when the system says that `size` bytes are needed.
pub open spec fn buffer_ids(size: i32) -> int {
    ids_in(size as int) + LIST_PIDS_SLACK
}

/// The bytes of that buffer.
pub open spec fn buffer_bytes(size: i32) -> int {
    buffer_ids(size) * PID_SIZE
}

/// The answers of one round of the listing: the size, then the byte count and the buffer
/// that the filling call left, with the world after each of the two calls.
pub struct ListRound<W> {
    pub size: i32,
    pub sized: W,
    pub filled: i32,
    pub buffer: Vec<i32>,
    pub after: W,
}

/// The world when so many rounds are over.
pub open spec fn world_at<W>(before: W, rounds: Seq<ListRound<W>>, count: int) -> W {
    if count <= 0 {
        before
    } else {
        rounds[count - 1].after
    }
}

/// Whether the system can answer so when it is asked for the size in the world `before`.
pub open spec fn size_told<W, Q: FnMut(W, u32, u32) -> (i32, W)>(
    kind: u32,
    typeinfo: u32,
    before: W,
    query: Q,
    size: i32,
    sized: W,
) -> bool {
    query.ensures((before, kind, typeinfo), (size, sized))
}

/// A round that began in the world `before` and whose filling call was made and answered.
pub open spec fn round_made<
    W,
    Q: FnMut(W, u32, u32) -> (i32, W),
    F: FnMut(W, u32, u32, usize, i32) -> (i32, Vec<i32>, W),
>(kind: u32, typeinfo: u32, before: W, query: Q, fill: F, round: ListRound<W>) -> bool {
    &&& size_told(kind, typeinfo, before, query, round.size, round.sized)
    &&& round.size > 0
    &&& buffer_bytes(round.size) <= i32::MAX
    &&& fill.ensures(
        (
            round.sized,
            kind,
            typeinfo,
            buffer_ids(round.size) as usize,
            buffer_bytes(round.size) as i32,
        ),
        (round.filled, round.buffer, round.after),
    )
}

/// A round that filled its buffer, so that the list may have been cut off.
pub open spec fn round_full<
    W,
    Q: FnMut(W, u32, u32) -> (i32, W),
    F: FnMut(W, u32, u32, usize, i32) -> (i32, Vec<i32>, W),
>(kind: u32, typeinfo: u32, before: W, query: Q, fill: F, round: ListRound<W>) -> bool {
    &&& round_made(kind, typeinfo, before, query, fill, round)
    &&& round.filled >= buffer_bytes(round.size)
}

/// What a size that needs no filling call comes to.
pub open spec fn settled_by_size<E: FnOnce() -> IoFault>(
    size: i32,
    last_os_error: E,
    result: Result<Vec<i32>, IoFault>,
) -> bool {
    match result {
        Ok(pids) => size == 0 && pids@ == Seq::<i32>::empty(),
        Err(fault) => if size < 0 {
            last_os_error.ensures((), fault)
        } else {
            &&& size > 0
            &&& buffer_bytes(size) > i32::MAX
            &&& fault@ == fault::other_fault("proc_listpids buffer size overflow"@)
        },
    }
}

/// What a filling call that left room in the buffer comes to.
pub open spec fn settled_by_fill<E: FnOnce() -> IoFault>(
    filled: i32,
    buffer: Seq<i32>,
    last_os_error: E,
    result: Result<Vec<i32>, IoFault>,
) -> bool {
    match result {
        Ok(pids) => {
            &&& filled >= 0
            &&& pids@ == if filled as int / PID_SIZE as int <= buffer.len() {
                buffer.take(filled as int / PID_SIZE as int)
            } else {
                buffer
            }
        },
        Err(fault) => filled < 0 && last_os_error.ensures((), fault),
    }
}

/// Whether one of the two calls can fail.
pub open spec fn fails<
    W,
    Q: FnMut(W, u32, u32) -> (i32, W),
    F: FnMut(W, u32, u32, usize, i32) -> (i32, Vec<i32>, W),
>(kind: u32, typeinfo: u32, query: Q, fill: F) -> bool {
    ||| exists|before: W, size: i32, sized: W| #[trigger]
        size_told(kind, typeinfo, before, query, size, sized) && size < 0
    ||| exists|before: W, round: ListRound<W>| #[trigger]
        round_made(kind, typeinfo, before, query, fill, round) && round.filled < 0
}

/// What a listing did from the world `before` on, call by call: `full` are its rounds that
/// filled their buffers, in order. Three such rounds end it with a fault; before that, the
/// first round of another kind gives the result.
pub open spec fn listed<
    W,
    Q: FnMut(W, u32, u32) -> (i32, W),
    F: FnMut(W, u32, u32, usize, i32) -> (i32, Vec<i32>, W),
    E: FnOnce() -> IoFault + Copy,
>(
    kind: u32,
    typeinfo: u32,
    before: W,
    query: Q,
    fill: F,
    last_os_error: E,
    full: Seq<ListRound<W>>,
    listing: (Result<Vec<i32>, IoFault>, W),
) -> bool {
    let (result, after) = listing;
    let last = world_at(before, full, full.len() as int);
    &&& full.len() <= LIST_PIDS_MAX_RETRIES
    &&& forall|i: int|
        0 <= i < full.len() ==> round_full(
            kind,
            typeinfo,
            world_at(before, full, i),
            query,
            fill,
            #[trigger] full[i],
        )
    &&& if full.len() == LIST_PIDS_MAX_RETRIES {
        &&& after == last
        &&& result matches Err(fault) && fault@ == fault::other_fault(
            "proc_listpids may have truncated results after retries"@,
        )
    } else {
        ||| exists|size: i32| #[trigger]
            size_told(kind, typeinfo, last, query, size, after) && settled_by_size(
                size,
                last_os_error,
                result,
            )
        ||| exists|round: ListRound<W>| #[trigger]
            round_made(kind, typeinfo, last, query, fill, round) && round.after == after
                && round.filled < buffer_bytes(round.size) && settled_by_fill(
                round.filled,
                round.buffer@,
                last_os_error,
                result,
            )
    }
}

/// Lists process ids. `query` asks how many bytes the list takes; `fill` makes a buffer
/// of so many ids and bytes, has it filled, and returns the byte count with the buffer.
/// A list that fills its buffer is asked for again, three times at most, and never
/// returned. The world is handed from call to call, which fixes the calls and their order.
pub fn list_pids<
    W,
    Q: FnMut(W, u32, u32) -> (i32, W),
    F: FnMut(W, u32, u32, usize, i32) -> (i32, Vec<i32>, W),
    E: FnOnce() -> IoFault + Copy,
>(kind: u32, typeinfo: u32, world: W, query: Q, fill: F, last_os_error: E) -> (listing: (
    Result<Vec<i32>, IoFault>,
    W,
))
    requires
        forall|world: W| #[trigger] query.requires((world, kind, typeinfo)),
        forall|world: W, capacity: usize, bytes: i32| #[trigger]
            fill.requires((world, kind, typeinfo, capacity, bytes)),
        fails(kind, typeinfo, query, fill) ==> last_os_error.requires(()),
    ensures
        exists|full: Seq<ListRound<W>>| #[trigger]
            listed(kind, typeinfo, world, query, fill, last_os_error, full, listing),
{
    broadcast use vstd::function::group_function_axioms;

    let ghost before = world;
    let mut now = world;
    let mut ask = query;
    let mut copy = fill;
    let ghost mut full: Seq<ListRound<W>> = seq![];
    let mut attempt: usize = 0;
    while attempt < LIST_PIDS_MAX_RETRIES
        invariant
            before == world,
            ask == query,
            copy == fill,
            forall|world: W| #[trigger] query.requires((world, kind, typeinfo)),
            forall|world: W, capacity: usize, bytes: i32| #[trigger]
                fill.requires((world, kind, typeinfo, capacity, bytes)),
            fails(kind, typeinfo, query, fill) ==> last_os_error.requires(()),
            attempt <= LIST_PIDS_MAX_RETRIES,
            full.len() == attempt,
            now == world_at(before, full, full.len() as int),
            forall|i: int|
                0 <= i < full.len() ==> round_full(
                    kind,
                    typeinfo,
                    world_at(before, full, i),
                    query,
                    fill,
                    #[trigger] full[i],
                ),
        decreases LIST_PIDS_MAX_RETRIES - attempt,
    {
        let ghost last = now;
        let (size, sized) = ask(now, kind, typeinfo);
        assert(size_told(kind, typeinfo, last, query, size, sized));
        match normalize_list_pids_result(size, last_os_error) {
            Err(fault) => {
                let listing = (Err(fault), sized);
                assert(size_told(kind, typeinfo, last, query, size, listing.1));
                assert(listed(kind, typeinfo, before, query, fill, last_os_error, full, listing));
                return listing;
            },
            Ok(_) => {},
        }
        if size == 0 {
            let listing = (Ok(Vec::new()), sized);
            assert(size_told(kind, typeinfo, last, query, size, listing.1));
            assert(listed(kind, typeinfo, before, query, fill, last_os_error, full, listing));
            return listing;
        }
        let capacity: usize = pid_capacity_for_size(size) + LIST_PIDS_SLACK;
        let buffer_size: i32 = match pid_buffer_size(capacity) {
            Err(fault) => {
                let listing = (Err(fault), sized);
                assert(size_told(kind, typeinfo, last, query, size, listing.1));
                assert(listed(kind, typeinfo, before, query, fill, last_os_error, full, listing));
                return listing;
            },
            Ok(bytes) => bytes,
        };
        let ghost asked = sized;
        let (filled, mut buffer, after) = copy(sized, kind, typeinfo, capacity, buffer_size);
        let ghost round = ListRound { size, sized: asked, filled, buffer, after };
        assert(round_made(kind, typeinfo, last, query, fill, round));
        match normalize_list_pids_result(filled, last_os_error) {
            Err(fault) => {
                let listing = (Err(fault), after);
                assert(listed(kind, typeinfo, before, query, fill, last_os_error, full, listing));
                return listing;
            },
            Ok(_) => {},
        }
        if filled == 0 {
            let listing = (Ok(Vec::new()), after);
            assert(round.buffer@.take(0) =~= Seq::<i32>::empty());
            assert(listed(kind, typeinfo, before, query, fill, last_os_error, full, listing));
            return listing;
        }
        if !list_pids_result_fills_buffer(filled, buffer_size) {
            buffer.truncate(filled as usize / PID_SIZE);
            let listing = (Ok(buffer), after);
            assert(listed(kind, typeinfo, before, query, fill, last_os_error, full, listing));
            return listing;
        }
        proof {
            let so_far = full;
            full = full.push(round);
            assert forall|i: int| 0 <= i < full.len() implies round_full(
                kind,
                typeinfo,
                world_at(before, full, i),
                query,
                fill,
                #[trigger] full[i],
            ) by {
                assert(world_at(before, full, i) == world_at(before, so_far, i));
                if i < so_far.len() {
                    assert(full[i] == so_far[i]);
                }
            }
        }
        now = after;
        attempt = attempt + 1;
    }
    let listing = (
        Err(IoFault::other("proc_listpids may have truncated results after retries")),
        now,
    );
    assert(listed(kind, typeinfo, before, query, fill, last_os_error, full, listing));
    listing
}

/// A list that a listing returns was never cut off: it is empty, or it is the start of a
/// buffer that the system left room in, in a round that came after the full ones.
pub proof fn law_list_is_never_cut_off<
    W,
    Q: FnMut(W, u32, u32) -> (i32, W),
    F: FnMut(W, u32, u32, usize, i32) -> (i32, Vec<i32>, W),
    E: FnOnce() -> IoFault + Copy,
>(
    kind: u32,
    typeinfo: u32,
    before: W,
    query: Q,
    fill: F,
    last_os_error: E,
    full: Seq<ListRound<W>>,
    after: W,
    pids: Vec<i32>,
)
    requires
        listed(kind, typeinfo, before, query, fill, last_os_error, full, (Ok(pids), after)),
    ensures
        full.len() < LIST_PIDS_MAX_RETRIES,
        pids@.len() == 0 || exists|round: ListRound<W>| #[trigger]
            round_made(
                kind,
                typeinfo,
                world_at(before, full, full.len() as int),
                query,
                fill,
                round,
            ) && round.filled < buffer_bytes(round.size) && pids@.is_prefix_of(round.buffer@)
                && pids@.len() * PID_SIZE <= round.filled,
{
    if pids@.len() > 0 {
        let round = choose|round: ListRound<W>| #[trigger]
            round_made(
                kind,
                typeinfo,
                world_at(before, full, full.len() as int),
                query,
                fill,
                round,
            ) && round.filled < buffer_bytes(round.size) && settled_by_fill(
                round.filled,
                round.buffer@,
                last_os_error,
                Ok::<Vec<i32>, IoFault>(pids),
            );
        assert(pids@ =~= round.buffer@.subrange(0, pids@.len() as int));
    }
}

/// As long as fewer than three rounds filled their buffers, the list is asked for again.
pub proof fn law_full_round_is_followed_by_another<
    W,
    Q: FnMut(W, u32, u32) -> (i32, W),
    F: FnMut(W, u32, u32, usize, i32) -> (i32, Vec<i32>, W),
    E: FnOnce() -> IoFault + Copy,
>(
    kind: u32,
    typeinfo: u32,
    before: W,
    query: Q,
    fill: F,
    last_os_error: E,
    full: Seq<ListRound<W>>,
    after: W,
    result: Result<Vec<i32>, IoFault>,
)
    requires
        listed(kind, typeinfo, before, query, fill, last_os_error, full, (result, after)),
        full.len() < LIST_PIDS_MAX_RETRIES,
    ensures
        exists|size: i32, sized: W| #[trigger]
            size_told(
                kind,
                typeinfo,
                world_at(before, full, full.len() as int),
                query,
                size,
                sized,
            ),
{
    let last = world_at(before, full, full.len() as int);
    if !(exists|size: i32| #[trigger] size_told(kind, typeinfo, last, query, size, after)) {
        let round = choose|round: ListRound<W>| #[trigger]
            round_made(kind, typeinfo, last, query, fill, round);
        assert(size_told(kind, typeinfo, last, query, round.size, round.sized));
    }
}

/// The ids that a number of bytes takes are as many as it needs, and no more; and the buffer
/// has room for sixteen more than the system asked for.
pub proof fn law_buffer_has_room_to_spare(size: i32)
    requires
        size > 0,
    ensures
        size <= 4 * ids_in(size as int) < size + 4,
        buffer_ids(size) == ids_in(size as int) + 16,
        buffer_bytes(size) == 4 * buffer_ids(size),
        buffer_bytes(size) >= size + 64,
{
}

/// Whether the system can answer the round that begins in the world `before` so: with a size,
/// and, where that is positive and a buffer for it can be had, with a byte count and the
/// buffer.
pub open spec fn round_answered<
    W,
    Q: FnMut(W, u32, u32) -> (i32, W),
    F: FnMut(W, u32, u32, usize, i32) -> (i32, Vec<i32>, W),
>(kind: u32, typeinfo: u32, before: W, query: Q, fill: F, round: ListRound<W>) -> bool {
    let ids = (size_in_ids(round.size) + 16) as usize;
    &&& query.ensures((before, kind, typeinfo), (round.size, round.sized))
    &&& round.size > 0 && 4 * ids <= 0x7fff_ffff ==> fill.ensures(
        (round.sized, kind, typeinfo, ids, (4 * ids) as i32),
        (round.filled, round.buffer, round.after),
    )
}

/// The ids that so many bytes take, rounded up.
pub open spec fn size_in_ids(size: i32) -> int {
    if size % 4 == 0 {
        size as int / 4
    } else {
        size as int / 4 + 1
    }
}

/// The world in which the round after these begins.
pub open spec fn begun_after<W>(before: W, full: Seq<ListRound<W>>) -> W {
    if full.len() == 0 {
        before
    } else {
        full.last().after
    }
}

/// Whether the listing came out as the answers of its last round, which did not fill its
/// buffer, say: a failure with the system's reason, no process at all, or the ids that the
/// buffer was filled with.
pub open spec fn decided_by<W, E: FnOnce() -> IoFault>(
    round: ListRound<W>,
    last_os_error: E,
    listing: (Result<Vec<i32>, IoFault>, W),
) -> bool {
    let bytes = 4 * (size_in_ids(round.size) + 16);
    if round.size < 0 {
        &&& listing.1 == round.sized
        &&& listing.0 is Err
        &&& last_os_error.ensures((), listing.0->Err_0)
    } else if round.size == 0 {
        &&& listing.1 == round.sized
        &&& listing.0 is Ok
        &&& listing.0->Ok_0@.len() == 0
    } else if bytes > 0x7fff_ffff {
        &&& listing.1 == round.sized
        &&& listing.0 matches Err(fault)
        &&& fault.message@ == "proc_listpids buffer size overflow"@
    } else if round.filled < 0 {
        &&& listing.1 == round.after
        &&& listing.0 is Err
        &&& last_os_error.ensures((), listing.0->Err_0)
    } else {
        &&& listing.1 == round.after
        &&& round.filled < bytes
        &&& listing.0 matches Ok(pids)
        &&& round.filled as int / 4 <= round.buffer@.len() ==> pids@.len() == round.filled as int
            / 4
        &&& round.filled as int / 4 > round.buffer@.len() ==> pids@.len() == round.buffer@.len()
        &&& forall|i: int| 0 <= i < pids@.len() ==> #[trigger] pids@[i] == round.buffer@[i]
    }
}

/// The first round that leaves room in its buffer decides a listing, and so does a call that
/// fails and a size for which there is no buffer. The list is then what the buffer was filled
/// with, whole: as many ids as the byte count says. A listing gives up exactly when three
/// rounds in a row filled their buffers.
pub proof fn law_first_round_with_room_decides<
    W,
    Q: FnMut(W, u32, u32) -> (i32, W),
    F: FnMut(W, u32, u32, usize, i32) -> (i32, Vec<i32>, W),
    E: FnOnce() -> IoFault + Copy,
>(
    kind: u32,
    typeinfo: u32,
    before: W,
    query: Q,
    fill: F,
    last_os_error: E,
    full: Seq<ListRound<W>>,
    listing: (Result<Vec<i32>, IoFault>, W),
)
    requires
        listed(kind, typeinfo, before, query, fill, last_os_error, full, listing),
    ensures
        full.len() <= 3,
        forall|i: int|
            0 <= i < full.len() ==> {
                let round = #[trigger] full[i];
                let begun = if i == 0 {
                    before
                } else {
                    full[i - 1].after
                };
                &&& round_answered(kind, typeinfo, begun, query, fill, round)
                &&& round.size > 0
                &&& round.filled >= 4 * (size_in_ids(round.size) + 16)
            },
        full.len() == 3 ==> {
            &&& listing.0 matches Err(fault)
            &&& fault.kind == FaultKind::Other
            &&& fault.message@ == "proc_listpids may have truncated results after retries"@
            &&& listing.1 == full[2].after
        },
        full.len() < 3 ==> exists|round: ListRound<W>| #[trigger]
            round_answered(kind, typeinfo, begun_after(before, full), query, fill, round)
                && decided_by(round, last_os_error, listing),
{
    let last = world_at(before, full, full.len() as int);
    assert forall|i: int| 0 <= i < full.len() implies {
        let round = #[trigger] full[i];
        let begun = if i == 0 {
            before
        } else {
            full[i - 1].after
        };
        &&& round_answered(kind, typeinfo, begun, query, fill, round)
        &&& round.size > 0
        &&& round.filled >= 4 * (size_in_ids(round.size) + 16)
    } by {
        assert(ids_in(full[i].size as int) == size_in_ids(full[i].size));
    }
    assert(begun_after(before, full) == last);
    if full.len() < 3 {
        if exists|round: ListRound<W>| #[trigger]
            round_made(kind, typeinfo, last, query, fill, round) && round.after == listing.1
                && round.filled < buffer_bytes(round.size) && settled_by_fill(
                round.filled,
                round.buffer@,
                last_os_error,
                listing.0,
            ) {
            let round = choose|round: ListRound<W>| #[trigger]
                round_made(kind, typeinfo, last, query, fill, round) && round.after == listing.1
                    && round.filled < buffer_bytes(round.size) && settled_by_fill(
                    round.filled,
                    round.buffer@,
                    last_os_error,
                    listing.0,
                );
            assert(ids_in(round.size as int) == size_in_ids(round.size));
            assert(decided_by(round, last_os_error, listing));
            assert(round_answered(
                kind,
                typeinfo,
                begun_after(before, full),
                query,
                fill,
                round,
            ));
        } else {
            let size = choose|size: i32| #[trigger]
                size_told(kind, typeinfo, last, query, size, listing.1) && settled_by_size(
                    size,
                    last_os_error,
                    listing.0,
                );
            assert(ids_in(size as int) == size_in_ids(size));
            let round = ListRound {
                size,
                sized: listing.1,
                filled: arbitrary(),
                buffer: arbitrary(),
                after: arbitrary(),
            };
            assert(decided_by(round, last_os_error, listing));
            assert(round_answered(
                kind,
                typeinfo,
                begun_after(before, full),
                query,
                fill,
                round,
            ));
        }
    }
}

/// A buffer can be had exactly when its bytes fit a signed 32-bit number, four for each id.
pub proof fn law_when_a_buffer_can_be_had(capacity: usize, size: Result<i32, IoFault>)
    requires
        pid_buffer_size.ensures((capacity,), size),
    ensures
        size is Ok <==> 4 * capacity <= 0x7fff_ffff,
        size matches Ok(bytes) ==> bytes == 4 * capacity,
{
}

} // verus!
