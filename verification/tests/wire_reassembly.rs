//! Reassembly of fragments into frames. Times are nanoseconds.

use eternal_monitor::wire::reassembly::{
    AddOutcome, DropReason, Reassembler, ReassemblyCounters, EPOCH_RESYNC_THRESHOLD,
};

const START: u64 = 1_000_000_000;

fn feed(
    r: &mut Reassembler,
    seq: u32,
    index: u16,
    count: u16,
    epoch: u32,
    byte: u8,
    now: u64,
) -> AddOutcome {
    r.add_fragment(seq, index, count, epoch, &[byte], now)
}

#[test]
fn assembles_in_order_and_out_of_order() {
    let now = START;
    let mut r = Reassembler::new();

    assert_eq!(feed(&mut r, 1, 0, 3, 1, 0xA, now), AddOutcome::Stored);
    assert_eq!(feed(&mut r, 1, 2, 3, 1, 0xC, now), AddOutcome::Stored);
    assert_eq!(
        feed(&mut r, 1, 1, 3, 1, 0xB, now),
        AddOutcome::Completed(vec![0xA, 0xB, 0xC])
    );
    assert_eq!(r.counters().frames_complete, 1);

    // Reordered single-fragment frame completes immediately.
    assert_eq!(
        feed(&mut r, 2, 0, 1, 1, 0xD, now),
        AddOutcome::Completed(vec![0xD])
    );
}

#[test]
fn duplicate_of_completed_frame_is_ignored() {
    let now = START;
    let mut r = Reassembler::new();
    feed(&mut r, 1, 0, 1, 1, 0xA, now);
    assert_eq!(
        feed(&mut r, 1, 0, 1, 1, 0xA, now),
        AddOutcome::Dropped(DropReason::DuplicateCompleted)
    );
}

#[test]
fn stale_seq_within_gap_is_dropped_but_big_backjump_resets() {
    let now = START;
    let mut r = Reassembler::new();
    feed(&mut r, 500, 0, 1, 1, 0xA, now);

    assert_eq!(
        feed(&mut r, 499, 0, 1, 1, 0xB, now),
        AddOutcome::Dropped(DropReason::StaleSeq)
    );

    // Backward jump beyond the gap = legacy restart detection.
    assert_eq!(
        feed(&mut r, 1, 0, 1, 1, 0xC, now),
        AddOutcome::Completed(vec![0xC])
    );
    assert_eq!(r.latest_completed_seq(), 1);
}

#[test]
fn higher_epoch_resets_lower_epoch_is_dropped() {
    let now = START;
    let mut r = Reassembler::new();
    feed(&mut r, 900, 0, 1, 5, 0xA, now);

    // Same-epoch stale fragment: dropped by seq rules.
    assert_eq!(
        feed(&mut r, 890, 0, 1, 5, 0xB, now),
        AddOutcome::Dropped(DropReason::StaleSeq)
    );

    // New pipeline run: epoch bumps, small seq accepted immediately.
    assert_eq!(
        feed(&mut r, 1, 0, 1, 6, 0xC, now),
        AddOutcome::Completed(vec![0xC])
    );

    // Straggler from the old run: dropped on epoch alone.
    assert_eq!(
        feed(&mut r, 901, 0, 1, 5, 0xD, now),
        AddOutcome::Dropped(DropReason::StaleEpoch)
    );
}

#[test]
fn one_bogus_epoch_cannot_strand_the_stream() {
    let now = START;
    let mut r = Reassembler::new();
    feed(&mut r, 10, 0, 1, 5, 0xA, now);

    // One corrupted/spoofed fragment claiming the maximum epoch.
    feed(&mut r, 11, 0, 1, u32::MAX, 0xFF, now);

    // The real stream is now "stale" against an epoch it can never reach.
    for i in 0..(EPOCH_RESYNC_THRESHOLD - 1) {
        assert_eq!(
            feed(&mut r, 100 + i, 0, 1, 5, 0xB, now),
            AddOutcome::Dropped(DropReason::StaleEpoch),
            "fragment {i} should still be dropped before the resync threshold"
        );
    }

    // Crossing the threshold re-syncs to the stream that is really there.
    assert_eq!(
        feed(&mut r, 900, 0, 1, 5, 0xC, now),
        AddOutcome::Completed(vec![0xC]),
        "the receiver must recover instead of staying bricked forever"
    );
    // And it keeps flowing afterwards.
    assert_eq!(
        feed(&mut r, 901, 0, 1, 5, 0xD, now),
        AddOutcome::Completed(vec![0xD])
    );
}

#[test]
fn interleaved_stragglers_never_trip_the_resync() {
    let now = START;
    let mut r = Reassembler::new();
    feed(&mut r, 1, 0, 1, 7, 0xA, now);

    // A real restart: epoch 8 is live, epoch 7 stragglers keep arriving
    // alongside it. Far more stale drops than the threshold, but the
    // accepted fragments in between must keep resetting the streak.
    for i in 0..(EPOCH_RESYNC_THRESHOLD * 2) {
        assert_eq!(
            feed(&mut r, 1000 + i, 0, 1, 8, 0xB, now),
            AddOutcome::Completed(vec![0xB])
        );
        assert_eq!(
            feed(&mut r, 500 + i, 0, 1, 7, 0xC, now),
            AddOutcome::Dropped(DropReason::StaleEpoch),
            "old-run straggler {i} must stay dropped"
        );
    }
}

#[test]
fn completion_evicts_older_partials_and_counts_them_dropped() {
    let now = START;
    let mut r = Reassembler::new();
    // Frame 1 partial (1 of 2 fragments), then frame 2 completes.
    feed(&mut r, 1, 0, 2, 1, 0xA, now);
    assert_eq!(
        feed(&mut r, 2, 0, 1, 1, 0xB, now),
        AddOutcome::Completed(vec![0xB])
    );
    assert_eq!(r.pending_frames(), 0);
    assert_eq!(r.counters().frames_dropped, 1);
    // One fragment of the two-fragment frame never arrived.
    assert_eq!(r.counters().frags_lost, 1);

    // The evicted frame's late fragment is now stale.
    assert_eq!(
        feed(&mut r, 1, 1, 2, 1, 0xC, now),
        AddOutcome::Dropped(DropReason::StaleSeq)
    );
}

#[test]
fn first_seen_fragment_count_wins_and_progress_survives() {
    let now = START;
    let mut r = Reassembler::new();
    feed(&mut r, 1, 0, 3, 1, 0xA, now);

    // A fragment claiming a different count for a live frame is ignored;
    // it must not discard what has already been buffered.
    assert_eq!(
        feed(&mut r, 1, 1, 2, 1, 0xB, now),
        AddOutcome::Dropped(DropReason::CountMismatch)
    );

    assert_eq!(feed(&mut r, 1, 1, 3, 1, 0xB, now), AddOutcome::Stored);
    assert_eq!(
        feed(&mut r, 1, 2, 3, 1, 0xC, now),
        AddOutcome::Completed(vec![0xA, 0xB, 0xC]),
        "the original fragments must still be there"
    );
}

#[test]
fn replayed_fragment_neither_overwrites_nor_counts_twice() {
    let now = START;
    let mut r = Reassembler::new();
    feed(&mut r, 1, 0, 2, 1, 0xA, now);
    assert_eq!(
        feed(&mut r, 1, 0, 2, 1, 0xFF, now),
        AddOutcome::Dropped(DropReason::DuplicateFragment)
    );
    assert_eq!(r.counters().frags_received, 1, "a replay is not a receipt");
    assert_eq!(
        feed(&mut r, 1, 1, 2, 1, 0xB, now),
        AddOutcome::Completed(vec![0xA, 0xB]),
        "the first write must win"
    );
}

#[test]
fn loss_counts_the_fragments_that_never_arrived() {
    let now = START;
    let mut r = Reassembler::new();
    // Frame 1 gets 9 of 10 fragments, then a newer frame completes and
    // evicts it: exactly ONE fragment was lost, not nine.
    for index in 0..9u16 {
        feed(&mut r, 1, index, 10, 1, 0xA, now);
    }
    assert_eq!(
        feed(&mut r, 2, 0, 1, 1, 0xB, now),
        AddOutcome::Completed(vec![0xB])
    );
    assert_eq!(r.counters().frames_dropped, 1);
    assert_eq!(r.counters().frags_lost, 1);
}

#[test]
fn invalid_fragments_are_rejected() {
    let now = START;
    let mut r = Reassembler::new();
    assert_eq!(
        feed(&mut r, 1, 0, 0, 1, 0xA, now),
        AddOutcome::Dropped(DropReason::ZeroCount)
    );
    assert_eq!(
        feed(&mut r, 1, 2, 2, 1, 0xA, now),
        AddOutcome::Dropped(DropReason::IndexOutOfRange)
    );
}

#[test]
fn stale_partials_are_evicted_on_cleanup_tick() {
    let start = START;
    let mut r = Reassembler::new();
    feed(&mut r, 1, 0, 2, 1, 0xA, start);

    // 99 more fragments to hit the cleanup interval, well past the timeout.
    let later = start + 500_000_000;
    for i in 0..99u32 {
        feed(&mut r, 10 + i, 0, 2, 1, 0xB, later);
    }
    assert!(
        !r.is_pending(1),
        "stale frame must be evicted by the periodic cleanup"
    );
    assert!(r.counters().frames_dropped >= 1);
}

#[test]
fn reset_clears_epoch_and_state() {
    let now = START;
    let mut r = Reassembler::new();
    feed(&mut r, 5, 0, 2, 9, 0xA, now);
    r.reset();
    assert_eq!(r.pending_frames(), 0);
    // After reset any epoch is accepted again.
    assert_eq!(
        feed(&mut r, 1, 0, 1, 2, 0xB, now),
        AddOutcome::Completed(vec![0xB])
    );
}

#[test]
fn one_frame_in_any_order_is_counted_exactly() {
    // More fragments than lie between two cleanups, the odd ones first.
    let count: u16 = 301;
    let mut r = Reassembler::new();
    let order: Vec<u16> = (0..count)
        .filter(|i| i % 2 == 1)
        .chain((0..count).filter(|i| i % 2 == 0))
        .collect();
    for (arrived, index) in order.iter().enumerate() {
        let outcome = feed(&mut r, 77, *index, count, 4, (*index % 251) as u8, START);
        if arrived + 1 < count as usize {
            assert_eq!(outcome, AddOutcome::Stored);
            assert_eq!(r.pending_frames(), 1);
        } else {
            let whole: Vec<u8> = (0..count).map(|i| (i % 251) as u8).collect();
            assert_eq!(outcome, AddOutcome::Completed(whole));
        }
    }
    assert_eq!(r.pending_frames(), 0);
    assert_eq!(r.latest_completed_seq(), 77);
    assert_eq!(
        r.counters(),
        ReassemblyCounters {
            frames_complete: 1,
            frames_dropped: 0,
            frags_received: 301,
            frags_lost: 0,
        }
    );
}
