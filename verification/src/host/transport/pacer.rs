//! Pacing: a keyframe is a burst of many datagrams. It goes out in batches with
//! short pauses between them, which spares the queues of a wireless network,
//! within a budget that keeps the latency low.

use vstd::prelude::*;

verus! {

/// Size of the kernel's send buffer for the socket: it takes the burst of a
/// keyframe.
pub const SEND_BUFFER_BYTES: u32 = 4_194_304;

/// The longest time (nanoseconds) that the pauses within one frame may add up
/// to.
pub const PACING_BUDGET: u64 = 3_000_000;

/// How many datagrams go out at once.
pub const BATCH_SIZE: usize = 32;

/// How long (nanoseconds) to pause between two batches.
pub const BATCH_PAUSE: u64 = 250_000;

/// What goes out next, and how long to pause after it.
#[derive(Debug, Clone, Copy, PartialEq, Eq, Structural)]
pub struct Batch {
    pub datagrams: usize,
    pub pause: u64,
}

/// The pause that still fits the budget.
pub open spec fn pause_within(elapsed: u64) -> u64 {
    if elapsed + BATCH_PAUSE <= PACING_BUDGET {
        BATCH_PAUSE
    } else if elapsed < PACING_BUDGET {
        (PACING_BUDGET - elapsed) as u64
    } else {
        0
    }
}

/// The next batch of a frame of which `rest` datagrams are left, `elapsed`
/// nanoseconds after its first went out. Only keyframes are paced, and only
/// until the budget is used up; then all that is left goes out.
pub open spec fn batch_of(is_keyframe: bool, rest: usize, elapsed: u64) -> Batch {
    if is_keyframe && rest > BATCH_SIZE && elapsed < PACING_BUDGET {
        Batch { datagrams: BATCH_SIZE, pause: pause_within(elapsed) }
    } else {
        Batch { datagrams: rest, pause: 0 }
    }
}

/// Plans the next batch of a frame.
pub fn next_batch(is_keyframe: bool, rest: usize, elapsed: u64) -> (b: Batch)
    ensures
        b == batch_of(is_keyframe, rest, elapsed),
{
    if !is_keyframe || rest <= BATCH_SIZE || elapsed >= PACING_BUDGET {
        return Batch { datagrams: rest, pause: 0 };
    }
    let left: u64 = PACING_BUDGET - elapsed;
    let pause: u64 = if left < BATCH_PAUSE {
        left
    } else {
        BATCH_PAUSE
    };
    Batch { datagrams: BATCH_SIZE, pause }
}

// ---- laws ------------------------------------------------------------------

/// Every batch moves the frame on, and no pause follows the last one.
pub proof fn batches_make_progress(is_keyframe: bool, rest: usize, elapsed: u64)
    ensures
        batch_of(is_keyframe, rest, elapsed).datagrams <= rest,
        rest > 0 ==> batch_of(is_keyframe, rest, elapsed).datagrams > 0,
        batch_of(is_keyframe, rest, elapsed).datagrams == rest <==> batch_of(
            is_keyframe,
            rest,
            elapsed,
        ).pause == 0,
        !is_keyframe ==> batch_of(is_keyframe, rest, elapsed).datagrams == rest,
{
}

/// The pauses of the first `n` rounds of a frame, added up. A round is what is
/// left of the frame and the time since its start.
pub open spec fn total_pause(is_keyframe: bool, rounds: Seq<(usize, u64)>, n: int) -> int
    decreases n,
{
    if n <= 0 {
        0
    } else {
        total_pause(is_keyframe, rounds, n - 1) + batch_of(
            is_keyframe,
            rounds[n - 1].0,
            rounds[n - 1].1,
        ).pause
    }
}

/// However a frame goes out, its pauses stay within the budget: all that is
/// asked of the rounds is that time has passed by at least the earlier pauses.
pub proof fn pauses_stay_within_the_budget(
    is_keyframe: bool,
    rounds: Seq<(usize, u64)>,
    n: int,
)
    requires
        0 <= n <= rounds.len(),
        forall|k: int|
            0 <= k < rounds.len() ==> (#[trigger] rounds[k]).1 >= total_pause(
                is_keyframe,
                rounds,
                k,
            ),
    ensures
        0 <= total_pause(is_keyframe, rounds, n) <= PACING_BUDGET,
    decreases n,
{
    if n > 0 {
        pauses_stay_within_the_budget(is_keyframe, rounds, n - 1);
        assert(rounds[n - 1].1 >= total_pause(is_keyframe, rounds, n - 1));
    }
}

/// A keyframe that is more than a batch goes out batch by batch: a full one
/// each time, and a pause behind it that is never longer than the usual one nor
/// than what is left of the budget, and no shorter than the lesser of the two.
pub proof fn keyframes_go_out_in_batches(rest: usize, elapsed: u64)
    requires
        rest > BATCH_SIZE,
        elapsed < PACING_BUDGET,
    ensures
        ({
            let b = batch_of(true, rest, elapsed);
            &&& b.datagrams == BATCH_SIZE
            &&& b.pause <= BATCH_PAUSE
            &&& elapsed + b.pause <= PACING_BUDGET
            &&& b.pause == BATCH_PAUSE || elapsed + b.pause == PACING_BUDGET
        }),
{
}

} // verus!
