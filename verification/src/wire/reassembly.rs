//! Fragment reassembly: epoch precedence, duplicate and stale rejection, the
//! restart heuristic on a backward jump of the sequence number, eviction of
//! older partial frames on completion, and periodic cleanup of stale ones.
//!
//! Times are nanoseconds of a monotonic clock that the caller reads.

use std::collections::HashMap;

use vstd::prelude::*;
use vstd::slice::slice_to_vec;

use crate::bytes::push_all;
use crate::wire::v2::media;
use crate::wire::v2::media::MediaHeader;

verus! {

broadcast use vstd::std_specs::hash::group_hash_axioms;

/// A backward jump in sequence numbers larger than this means that the sender
/// restarted its pipeline and reset its counter toward 0.
pub const STREAM_RESTART_GAP: u32 = 256;

/// Partial frames of this age (nanoseconds) or older are evicted by the
/// periodic cleanup.
pub const STALE_FRAME_TIMEOUT: u64 = 100_000_000;

/// After this many consecutive stale-epoch drops, the current epoch is taken
/// to be bogus, and the stream that is actually arriving is accepted.
///
/// Otherwise one corrupted fragment with a high epoch would latch an epoch
/// that the sender never reaches, and every real fragment would be dropped
/// forever. Genuine stragglers of a previous run cannot trip it: fragments of
/// the new run interleave and are accepted, which resets the streak.
pub const EPOCH_RESYNC_THRESHOLD: u32 = 512;

/// Cleanup runs every this many fragments.
pub const CLEANUP_INTERVAL: u32 = 100;

/// The counters of a reassembler stay exact up to this value.
pub const COUNTER_LIMIT: u64 = 0x4000_0000_0000_0000;

/// Why a fragment is rejected.
#[derive(Debug, Clone, Copy, PartialEq, Eq, Structural)]
pub enum DropReason {
    /// Fragment carries an epoch lower than the current stream's.
    StaleEpoch,
    /// Duplicate fragment of the frame that just completed.
    DuplicateCompleted,
    /// Late fragment of an already superseded frame.
    StaleSeq,
    /// The fragment count is 0.
    ZeroCount,
    /// The fragment index is not below the fragment count.
    IndexOutOfRange,
    /// Fragment count disagrees with the live frame's; the first-seen count wins.
    CountMismatch,
    /// This index of this frame was already stored.
    DuplicateFragment,
}

/// What became of a fragment.
#[derive(Debug, Clone, PartialEq, Eq)]
pub enum AddOutcome {
    /// Fragment stored; frame not yet complete.
    Stored,
    /// This fragment completed the frame; here is the reassembled payload.
    Completed(Vec<u8>),
    /// Fragment rejected.
    Dropped(DropReason),
}

/// An [`AddOutcome`] with its payload as a sequence.
#[verifier::ext_equal]
pub enum Outcome {
    Stored,
    Completed(Seq<u8>),
    Dropped(DropReason),
}

impl View for AddOutcome {
    type V = Outcome;

    open spec fn view(&self) -> Outcome {
        match self {
            AddOutcome::Stored => Outcome::Stored,
            AddOutcome::Completed(payload) => Outcome::Completed(payload@),
            AddOutcome::Dropped(reason) => Outcome::Dropped(*reason),
        }
    }
}

/// Cumulative counters for loss accounting (they feed the receiver reports).
#[derive(Debug, Clone, Copy, PartialEq, Eq, Structural)]
pub struct ReassemblyCounters {
    pub frames_complete: u64,
    /// Partial frames discarded (superseded by a newer completion, evicted as
    /// stale, or left behind by a restart).
    pub frames_dropped: u64,
    pub frags_received: u64,
    /// Fragments of discarded frames that never arrived.
    pub frags_lost: u64,
}

impl Default for ReassemblyCounters {
    fn default() -> (c: ReassemblyCounters)
        ensures
            c == (ReassemblyCounters {
                frames_complete: 0,
                frames_dropped: 0,
                frags_received: 0,
                frags_lost: 0,
            }),
    {
        ReassemblyCounters {
            frames_complete: 0,
            frames_dropped: 0,
            frags_received: 0,
            frags_lost: 0,
        }
    }
}

// ---- the model -------------------------------------------------------------

/// A partial frame: the fragments that have arrived, by index.
#[verifier::ext_equal]
pub struct Partial {
    pub count: u16,
    pub fragments: Map<u16, Seq<u8>>,
    pub created_at: u64,
}

/// The counters as natural numbers.
pub struct Tally {
    pub frames_complete: nat,
    pub frames_dropped: nat,
    pub frags_received: nat,
    pub frags_lost: nat,
}

/// The state of a reassembler.
#[verifier::ext_equal]
pub struct State {
    /// The partial frames, by sequence number.
    pub pending: Map<u32, Partial>,
    /// The last frame that was delivered, if any was.
    pub latest_completed_seq: Option<u32>,
    /// Fragments stored since the last cleanup.
    pub since_cleanup: u32,
    pub current_epoch: Option<u32>,
    pub stale_epoch_streak: u32,
    pub tally: Tally,
}

/// Fragments of a partial frame that have not arrived. This is what loss
/// means: counting the ones that did arrive would report a frame that misses
/// one fragment of ten as nine lost.
pub open spec fn missing(f: Partial) -> nat {
    (f.count - f.fragments.dom().len()) as nat
}

/// What a partial frame always satisfies.
pub open spec fn partial_ok(f: Partial) -> bool {
    &&& f.fragments.dom().finite()
    &&& forall|i: u16| #[trigger] f.fragments.dom().contains(i) ==> i < f.count
    &&& 0 < f.fragments.dom().len() < f.count
}

/// Whether a frame comes after the last one that was delivered.
pub open spec fn is_later(latest: Option<u32>, seq: u32) -> bool {
    latest matches Some(l) ==> seq > l
}

/// What a reassembler's state always satisfies: partial frames are incomplete,
/// and nothing waits behind the last completed frame.
pub open spec fn state_ok(s: State) -> bool {
    &&& s.pending.dom().finite()
    &&& forall|seq: u32| #[trigger]
        s.pending.contains_key(seq) ==> partial_ok(s.pending[seq]) && is_later(
            s.latest_completed_seq,
            seq,
        )
    &&& s.since_cleanup < CLEANUP_INTERVAL
    &&& s.stale_epoch_streak < EPOCH_RESYNC_THRESHOLD
}

/// Which partial frames survive an eviction.
#[derive(Clone, Copy, PartialEq, Eq, Structural)]
pub enum Keep {
    /// None.
    Nothing,
    /// Those with a sequence number above this.
    NewerThan(u32),
    /// Those not yet stale at this time.
    FreshAt(u64),
}

/// Whether a frame survives.
pub open spec fn keeps(rule: Keep, seq: u32, f: Partial) -> bool {
    match rule {
        Keep::Nothing => false,
        Keep::NewerThan(limit) => seq > limit,
        Keep::FreshAt(now) => now < f.created_at + STALE_FRAME_TIMEOUT,
    }
}

/// The frames that survive.
pub open spec fn kept(frames: Map<u32, Partial>, rule: Keep) -> Map<u32, Partial> {
    Map::new(
        |seq: u32| frames.contains_key(seq) && keeps(rule, seq, frames[seq]),
        |seq: u32| frames[seq],
    )
}

/// The frames that do not survive.
pub open spec fn evicted(frames: Map<u32, Partial>, rule: Keep) -> Map<u32, Partial> {
    Map::new(
        |seq: u32| frames.contains_key(seq) && !keeps(rule, seq, frames[seq]),
        |seq: u32| frames[seq],
    )
}

/// How many fragments of some frames never arrived.
pub open spec fn total_missing(frames: Map<u32, Partial>) -> nat
    decreases frames.dom().len(),
    when frames.dom().finite()
{
    if frames.dom().len() == 0 {
        0
    } else {
        let seq = frames.dom().choose();
        missing(frames[seq]) + total_missing(frames.remove(seq))
    }
}

/// The state after an eviction: survivors stay, the rest is tallied.
pub open spec fn after_eviction(s: State, rule: Keep) -> State {
    State {
        pending: kept(s.pending, rule),
        tally: Tally {
            frames_dropped: s.tally.frames_dropped + evicted(s.pending, rule).dom().len(),
            frags_lost: s.tally.frags_lost + total_missing(evicted(s.pending, rule)),
            ..s.tally
        },
        ..s
    }
}

/// The state after a stream restart: every partial frame is dropped.
pub open spec fn restarted(s: State) -> State {
    State {
        latest_completed_seq: None,
        since_cleanup: 0,
        ..after_eviction(s, Keep::Nothing)
    }
}

/// What the epoch of a fragment does to the state, and whether the fragment
/// goes on. A higher epoch is a new pipeline run: all old state is dropped. A
/// lower epoch is a straggler, unless the streak of them has grown so long
/// that the current epoch cannot be the live one.
pub open spec fn epoch_step(s: State, epoch: u32) -> (State, bool) {
    match s.current_epoch {
        None => (State { current_epoch: Some(epoch), stale_epoch_streak: 0, ..s }, true),
        Some(current) => if epoch == current {
            (State { stale_epoch_streak: 0, ..s }, true)
        } else if epoch < current && s.stale_epoch_streak + 1 < EPOCH_RESYNC_THRESHOLD {
            (State { stale_epoch_streak: (s.stale_epoch_streak + 1) as u32, ..s }, false)
        } else {
            (
                State { current_epoch: Some(epoch), stale_epoch_streak: 0, ..restarted(s) },
                true,
            )
        },
    }
}

/// What the sequence number of a fragment does to the state.
pub open spec fn seq_step(s: State, seq: u32) -> Result<State, DropReason> {
    match s.latest_completed_seq {
        None => Ok(s),
        Some(latest) => if seq == latest {
            Err(DropReason::DuplicateCompleted)
        } else if seq > latest {
            Ok(s)
        } else if latest - seq > STREAM_RESTART_GAP {
            Ok(restarted(s))
        } else {
            Err(DropReason::StaleSeq)
        },
    }
}

/// The first `n` fragments, joined.
pub open spec fn joined(fragments: Map<u16, Seq<u8>>, n: int) -> Seq<u8>
    decreases n,
{
    if n <= 0 {
        Seq::empty()
    } else {
        joined(fragments, n - 1) + fragments[(n - 1) as u16]
    }
}

/// One fragment as it comes off the wire.
pub struct Fragment {
    pub seq: u32,
    pub index: u16,
    pub count: u16,
    pub epoch: u32,
    pub payload: Seq<u8>,
    pub now: u64,
}

/// The frame of a fragment once the fragment is stored. The first fragment of a
/// frame opens it.
pub open spec fn grown(pending: Map<u32, Partial>, f: Fragment) -> Partial {
    if pending.contains_key(f.seq) {
        Partial {
            fragments: pending[f.seq].fragments.insert(f.index, f.payload),
            ..pending[f.seq]
        }
    } else {
        Partial {
            count: f.count,
            fragments: Map::empty().insert(f.index, f.payload),
            created_at: f.now,
        }
    }
}

/// The state once a fragment that belongs to it is stored: a frame that is
/// whole is delivered, and every older partial frame goes with it, for to
/// deliver it after a newer frame would corrupt decode order.
pub open spec fn store_step(s: State, f: Fragment) -> (State, Outcome) {
    let frame = grown(s.pending, f);
    let tally = Tally { frags_received: s.tally.frags_received + 1, ..s.tally };
    if frame.fragments.dom().len() == f.count {
        let delivered = State {
            pending: s.pending.remove(f.seq),
            latest_completed_seq: Some(f.seq),
            tally: Tally { frames_complete: tally.frames_complete + 1, ..tally },
            ..s
        };
        (
            after_eviction(delivered, Keep::NewerThan(f.seq)),
            Outcome::Completed(joined(frame.fragments, f.count as int)),
        )
    } else {
        (State { pending: s.pending.insert(f.seq, frame), tally, ..s }, Outcome::Stored)
    }
}

/// The periodic cleanup that follows every stored fragment.
pub open spec fn cleanup_step(s: State, now: u64) -> State {
    if s.since_cleanup + 1 == CLEANUP_INTERVAL {
        State { since_cleanup: 0, ..after_eviction(s, Keep::FreshAt(now)) }
    } else {
        State { since_cleanup: (s.since_cleanup + 1) as u32, ..s }
    }
}

/// The state and outcome of one fragment whose epoch and sequence number have
/// been accepted.
pub open spec fn fragment_step(s: State, f: Fragment) -> (State, Outcome) {
    let open = s.pending.contains_key(f.seq);
    if f.count == 0 {
        (s, Outcome::Dropped(DropReason::ZeroCount))
    } else if f.index >= f.count {
        (s, Outcome::Dropped(DropReason::IndexOutOfRange))
    } else if open && s.pending[f.seq].count != f.count {
        (s, Outcome::Dropped(DropReason::CountMismatch))
    } else if open && s.pending[f.seq].fragments.dom().contains(f.index) {
        (s, Outcome::Dropped(DropReason::DuplicateFragment))
    } else {
        let (next, outcome) = store_step(s, f);
        (cleanup_step(next, f.now), outcome)
    }
}

/// The state and outcome of one fragment.
pub open spec fn added(s: State, f: Fragment) -> (State, Outcome) {
    let (s1, live) = epoch_step(s, f.epoch);
    if !live {
        (s1, Outcome::Dropped(DropReason::StaleEpoch))
    } else {
        match seq_step(s1, f.seq) {
            Err(reason) => (s1, Outcome::Dropped(reason)),
            Ok(s2) => fragment_step(s2, f),
        }
    }
}

/// The state of a new reassembler.
pub open spec fn fresh() -> State {
    State {
        pending: Map::empty(),
        latest_completed_seq: None,
        since_cleanup: 0,
        current_epoch: None,
        stale_epoch_streak: 0,
        tally: Tally { frames_complete: 0, frames_dropped: 0, frags_received: 0, frags_lost: 0 },
    }
}

// ---- the reassembler -------------------------------------------------------

#[derive(Debug)]
struct PendingFrame {
    fragment_count: u16,
    fragments: HashMap<u16, Vec<u8>>,
    created_at: u64,
}

impl PendingFrame {
    spec fn model(self) -> Partial {
        Partial {
            count: self.fragment_count,
            fragments: self.fragments@.map_values(|v: Vec<u8>| v@),
            created_at: self.created_at,
        }
    }

    /// Fragments that never arrived.
    fn missing_fragments(&self) -> (n: u64)
        requires
            partial_ok(self.model()),
        ensures
            n == missing(self.model()),
    {
        assert(self.model().fragments.dom() =~= self.fragments@.dom());
        self.fragment_count as u64 - self.fragments.len() as u64
    }

    fn survives(&self, seq: u32, rule: Keep) -> (b: bool)
        ensures
            b == keeps(rule, seq, self.model()),
    {
        match rule {
            Keep::Nothing => false,
            Keep::NewerThan(limit) => seq > limit,
            Keep::FreshAt(now) => now < self.created_at || now - self.created_at
                < STALE_FRAME_TIMEOUT,
        }
    }

    /// The fragments of a frame that is whole, joined.
    fn assemble(&self) -> (assembled: Vec<u8>)
        requires
            forall|i: u16|
                i < self.model().count ==> #[trigger] self.model().fragments.dom().contains(i),
        ensures
            assembled@ == joined(self.model().fragments, self.model().count as int),
    {
        let ghost model = self.model();
        let count: u16 = self.fragment_count;
        let mut assembled: Vec<u8> = Vec::new();
        let mut i: u16 = 0;
        while i < count
            invariant
                i <= count,
                count == model.count,
                model == self.model(),
                forall|i: u16| i < count ==> #[trigger] model.fragments.dom().contains(i),
                assembled@ == joined(model.fragments, i as int),
            decreases count - i,
        {
            assert(model.fragments.dom().contains(i));
            match self.fragments.get(&i) {
                Some(fragment) => {
                    push_all(&mut assembled, fragment.as_slice());
                },
                None => {},
            }
            i += 1;
        }
        assembled
    }
}

spec fn models(frames: Map<u32, PendingFrame>) -> Map<u32, Partial> {
    frames.map_values(|f: PendingFrame| f.model())
}

/// Puts the fragments of frames back together.
#[derive(Debug)]
pub struct Reassembler {
    pending: HashMap<u32, PendingFrame>,
    latest_completed_seq: Option<u32>,
    since_cleanup: u32,
    current_epoch: Option<u32>,
    stale_epoch_streak: u32,
    counters: ReassemblyCounters,
}

impl View for Reassembler {
    type V = State;

    closed spec fn view(&self) -> State {
        State {
            pending: models(self.pending@),
            latest_completed_seq: self.latest_completed_seq,
            since_cleanup: self.since_cleanup,
            current_epoch: self.current_epoch,
            stale_epoch_streak: self.stale_epoch_streak,
            tally: tally_of(self.counters),
        }
    }
}

/// The counters as natural numbers.
pub open spec fn tally_of(c: ReassemblyCounters) -> Tally {
    Tally {
        frames_complete: c.frames_complete as nat,
        frames_dropped: c.frames_dropped as nat,
        frags_received: c.frags_received as nat,
        frags_lost: c.frags_lost as nat,
    }
}

/// Whether the counters are far from the end of their range.
pub open spec fn has_room(s: State) -> bool {
    &&& s.tally.frames_complete < COUNTER_LIMIT
    &&& s.tally.frames_dropped < COUNTER_LIMIT
    &&& s.tally.frags_received < COUNTER_LIMIT
    &&& s.tally.frags_lost < COUNTER_LIMIT
    &&& s.pending.dom().len() <= u32::MAX
}

proof fn missing_adds_up(frames: Map<u32, Partial>, seq: u32)
    requires
        frames.dom().finite(),
        frames.contains_key(seq),
    ensures
        total_missing(frames) == missing(frames[seq]) + total_missing(frames.remove(seq)),
    decreases frames.dom().len(),
{
    let first = frames.dom().choose();
    if first != seq {
        missing_adds_up(frames.remove(first), seq);
        missing_adds_up(frames.remove(seq), first);
        assert(frames.remove(first).remove(seq) =~= frames.remove(seq).remove(first));
    }
}

proof fn missing_is_bounded(frames: Map<u32, Partial>)
    requires
        frames.dom().finite(),
        forall|seq: u32| #[trigger] frames.contains_key(seq) ==> partial_ok(frames[seq]),
    ensures
        total_missing(frames) <= 0xFFFF * frames.dom().len(),
    decreases frames.dom().len(),
{
    if frames.dom().len() > 0 {
        let seq = frames.dom().choose();
        assert(frames.contains_key(seq));
        missing_is_bounded(frames.remove(seq));
    }
}

/// An eviction parts the frames in two.
proof fn eviction_parts(frames: Map<u32, Partial>, rule: Keep)
    requires
        frames.dom().finite(),
    ensures
        kept(frames, rule).dom().finite(),
        evicted(frames, rule).dom().finite(),
        kept(frames, rule).dom().len() + evicted(frames, rule).dom().len() == frames.dom().len(),
{
    let k = kept(frames, rule).dom();
    let e = evicted(frames, rule).dom();
    vstd::set_lib::lemma_len_subset(k, frames.dom());
    vstd::set_lib::lemma_len_subset(e, frames.dom());
    vstd::set_lib::lemma_set_disjoint_lens(k, e);
    assert(k + e =~= frames.dom());
}

/// Whether the drop counters have room for every partial frame, when up to `n`
/// more than the state that was handed in may be pending.
spec fn tallies_fit(s: State, n: int) -> bool {
    &&& s.tally.frames_complete <= COUNTER_LIMIT
    &&& s.tally.frags_received <= COUNTER_LIMIT
    &&& s.tally.frames_dropped + s.pending.dom().len() <= COUNTER_LIMIT + u32::MAX + n
    &&& s.tally.frags_lost + 0xFFFF * s.pending.dom().len() <= COUNTER_LIMIT + 0xFFFF * (u32::MAX
        + n)
}

proof fn eviction_fits(s: State, rule: Keep, n: int)
    requires
        state_ok(s),
        tallies_fit(s, n),
    ensures
        tallies_fit(after_eviction(s, rule), n),
{
    eviction_parts(s.pending, rule);
    missing_is_bounded(evicted(s.pending, rule));
}

/// An eviction keeps the invariant.
proof fn eviction_keeps_ok(s: State, rule: Keep)
    requires
        state_ok(s),
    ensures
        state_ok(after_eviction(s, rule)),
{
    eviction_parts(s.pending, rule);
}

/// All indices below `count`.
spec fn indices(count: int) -> Set<u16> {
    Set::new(|i: u16| i < count)
}

proof fn indices_are_counted(count: int)
    requires
        0 <= count <= 0x1_0000,
    ensures
        indices(count).finite(),
        indices(count).len() == count,
    decreases count,
{
    if count == 0 {
        assert(indices(0) =~= Set::<u16>::empty());
    } else {
        indices_are_counted(count - 1);
        assert(indices(count) =~= indices(count - 1).insert((count - 1) as u16));
    }
}

/// A set of indices below `count` that has `count` members is all of them.
proof fn full_frame_has_every_index(dom: Set<u16>, count: u16)
    requires
        dom.finite(),
        forall|i: u16| #[trigger] dom.contains(i) ==> i < count,
    ensures
        dom.len() <= count,
        dom.len() == count ==> forall|i: u16| i < count ==> #[trigger] dom.contains(i),
{
    indices_are_counted(count as int);
    assert(dom.subset_of(indices(count as int)));
    vstd::set_lib::lemma_len_subset(dom, indices(count as int));
    if dom.len() == count {
        vstd::set_lib::lemma_subset_equality(dom, indices(count as int));
        assert forall|i: u16| i < count implies #[trigger] dom.contains(i) by {
            assert(indices(count as int).contains(i));
        }
    }
}

/// Whether the fragment is one that its frame still lacks.
pub open spec fn is_wanted(s: State, f: Fragment) -> bool {
    &&& f.index < f.count
    &&& is_later(s.latest_completed_seq, f.seq)
    &&& s.pending.contains_key(f.seq) ==> s.pending[f.seq].count == f.count
        && !s.pending[f.seq].fragments.dom().contains(f.index)
}

/// What storing a wanted fragment makes of its frame.
proof fn frames_grow_soundly(s: State, f: Fragment)
    requires
        state_ok(s),
        is_wanted(s, f),
    ensures
        ({
            let g = grown(s.pending, f);
            &&& g.count == f.count
            &&& g.fragments.dom().finite()
            &&& forall|i: u16| #[trigger] g.fragments.dom().contains(i) ==> i < f.count
            &&& 0 < g.fragments.dom().len() <= f.count
        }),
{
    if s.pending.contains_key(f.seq) {
        assert(partial_ok(s.pending[f.seq]));
    }
    full_frame_has_every_index(grown(s.pending, f).fragments.dom(), f.count);
}

impl Default for Reassembler {
    fn default() -> (r: Reassembler)
        ensures
            r.ok(),
            r@ == fresh(),
    {
        Reassembler::new()
    }
}

impl Reassembler {
    /// What every reassembler satisfies.
    pub open spec fn ok(&self) -> bool {
        state_ok(self@)
    }

    /// A reassembler that has seen nothing.
    pub fn new() -> (r: Reassembler)
        ensures
            r.ok(),
            r@ == fresh(),
    {
        let r = Reassembler {
            pending: HashMap::new(),
            latest_completed_seq: None,
            since_cleanup: 0,
            current_epoch: None,
            stale_epoch_streak: 0,
            counters: ReassemblyCounters {
                frames_complete: 0,
                frames_dropped: 0,
                frags_received: 0,
                frags_lost: 0,
            },
        };
        assert(models(r.pending@) =~= Map::<u32, Partial>::empty());
        r
    }

    /// The counters.
    pub fn counters(&self) -> (c: ReassemblyCounters)
        ensures
            tally_of(c) == self@.tally,
    {
        self.counters
    }

    /// Number of partial frames in flight.
    pub fn pending_frames(&self) -> (n: usize)
        ensures
            n == self@.pending.dom().len(),
    {
        assert(self@.pending.dom() =~= self.pending@.dom());
        self.pending.len()
    }

    /// Whether a partial frame with this sequence number is in flight.
    pub fn is_pending(&self, seq: u32) -> (b: bool)
        ensures
            b == self@.pending.contains_key(seq),
    {
        self.pending.contains_key(&seq)
    }

    /// Sequence number of the last completed frame; 0 if there is none.
    pub fn latest_completed_seq(&self) -> (seq: u32)
        ensures
            seq == (match self@.latest_completed_seq {
                Some(latest) => latest,
                None => 0,
            }),
    {
        match self.latest_completed_seq {
            Some(latest) => latest,
            None => 0,
        }
    }

    /// The sequence numbers of the partial frames.
    fn sequence_numbers(&self) -> (seqs: Vec<u32>)
        ensures
            seqs@.no_duplicates(),
            seqs@.to_set() == self@.pending.dom(),
    {
        let ghost keys = vstd::std_specs::iter::IteratorSpec::remaining(
            &vstd::std_specs::hash::spec_keys_iter(&self.pending),
        ).unref();
        let mut seqs: Vec<u32> = Vec::new();
        for seq in it: self.pending.keys()
            invariant
                it.seq().unref() == keys,
                seqs@ == keys.take(it.index()),
        {
            seqs.push(*seq);
        }
        assert(seqs@ =~= keys);
        assert(self@.pending.dom() =~= self.pending@.dom());
        seqs
    }

    fn evict(&mut self, rule: Keep)
        requires
            state_ok(old(self)@),
            tallies_fit(old(self)@, 1),
        ensures
            final(self)@ == after_eviction(old(self)@, rule),
            state_ok(final(self)@),
    {
        let ghost before = self@;
        let ghost all = before.pending;
        let seqs = self.sequence_numbers();
        let ghost mut gone: Map<u32, Partial> = Map::empty();
        let mut i: usize = 0;
        assert(all.remove_keys(gone.dom()) =~= all);
        while i < seqs.len()
            invariant
                i <= seqs@.len(),
                seqs@.no_duplicates(),
                seqs@.to_set() == all.dom(),
                all == before.pending,
                state_ok(before),
                tallies_fit(before, 1),
                gone.dom().finite(),
                gone.dom().len() <= i,
                forall|seq: u32| #[trigger]
                    gone.contains_key(seq) <==> seqs@.take(i as int).contains(seq) && !keeps(
                        rule,
                        seq,
                        all[seq],
                    ),
                forall|seq: u32| #[trigger] gone.contains_key(seq) ==> gone[seq] == all[seq],
                self@.pending == all.remove_keys(gone.dom()),
                self@.latest_completed_seq == before.latest_completed_seq,
                self@.since_cleanup == before.since_cleanup,
                self@.current_epoch == before.current_epoch,
                self@.stale_epoch_streak == before.stale_epoch_streak,
                self@.tally.frames_complete == before.tally.frames_complete,
                self@.tally.frags_received == before.tally.frags_received,
                self@.tally.frames_dropped == before.tally.frames_dropped + gone.dom().len(),
                self@.tally.frags_lost == before.tally.frags_lost + total_missing(gone),
            decreases seqs@.len() - i,
        {
            let seq: u32 = seqs[i];
            proof {
                assert(seqs@.to_set().contains(seq));
                assert(partial_ok(all[seq]));
                assert(!seqs@.take(i as int).contains(seq));
                assert(seqs@.take(i + 1) =~= seqs@.take(i as int).push(seq));
                assert forall|q: u32| seqs@.take(i + 1).contains(q) <==> seqs@.take(
                    i as int,
                ).contains(q) || q == seq by {
                    if seqs@.take(i as int).contains(q) {
                        let j = choose|j: int|
                            0 <= j < seqs@.take(i as int).len() && seqs@.take(i as int)[j] == q;
                        assert(seqs@.take(i + 1)[j] == q);
                    }
                    assert(seqs@.take(i + 1)[i as int] == seq);
                }
                assert(all.contains_key(seq) && !gone.contains_key(seq));
                assert(self@.pending.contains_key(seq));
                assert(self@.pending.dom() =~= self.pending@.dom());
                assert(models(self.pending@)[seq] == all[seq]);
                gone_is_bounded(all, gone);
            }
            let survives = match self.pending.get(&seq) {
                Some(frame) => frame.survives(seq, rule),
                None => true,
            };
            if !survives {
                let ghost was = gone;
                let ghost there = self.pending@;
                if let Some(frame) = self.pending.remove(&seq) {
                    self.counters.frames_dropped = self.counters.frames_dropped + 1;
                    self.counters.frags_lost = self.counters.frags_lost
                        + frame.missing_fragments();
                }
                proof {
                    gone = gone.insert(seq, all[seq]);
                    missing_adds_up(gone, seq);
                    assert(gone.remove(seq) =~= was);
                    assert(self.pending@ =~= there.remove(seq));
                    assert(self@.pending =~= models(there).remove(seq));
                    assert(self@.pending =~= all.remove_keys(gone.dom()));
                }
            }
            i += 1;
        }
        proof {
            assert(seqs@.take(i as int) =~= seqs@);
            assert forall|seq: u32| seqs@.contains(seq) <==> all.contains_key(seq) by {
                assert(seqs@.to_set().contains(seq) <==> all.dom().contains(seq));
            }
            assert(gone =~= evicted(all, rule));
            assert(self@.pending =~= kept(all, rule));
            eviction_keeps_ok(before, rule);
            assert(self@ =~= after_eviction(before, rule));
        }
    }

    /// Drops all partial frames: the stream starts over.
    fn reset_internal(&mut self)
        requires
            state_ok(old(self)@),
            tallies_fit(old(self)@, 0),
        ensures
            final(self)@ == restarted(old(self)@),
            state_ok(final(self)@),
            tallies_fit(final(self)@, 0),
    {
        proof {
            eviction_fits(self@, Keep::Nothing, 0);
        }
        self.evict(Keep::Nothing);
        self.latest_completed_seq = None;
        self.since_cleanup = 0;
    }

    /// Whether a fragment of this epoch goes on; a new run starts over.
    fn accept_epoch(&mut self, epoch: u32) -> (live: bool)
        requires
            state_ok(old(self)@),
            tallies_fit(old(self)@, 0),
        ensures
            (final(self)@, live) == epoch_step(old(self)@, epoch),
            state_ok(final(self)@),
            tallies_fit(final(self)@, 0),
    {
        match self.current_epoch {
            Some(current) => {
                if epoch == current {
                    self.stale_epoch_streak = 0;
                    return true;
                }
                if epoch < current {
                    if self.stale_epoch_streak + 1 < EPOCH_RESYNC_THRESHOLD {
                        self.stale_epoch_streak = self.stale_epoch_streak + 1;
                        return false;
                    }
                }
                self.reset_internal();
            },
            None => {},
        }
        self.current_epoch = Some(epoch);
        self.stale_epoch_streak = 0;
        true
    }

    /// Whether a fragment of this frame goes on; a sender that fell far back
    /// starts over.
    fn accept_seq(&mut self, seq: u32) -> (r: Result<(), DropReason>)
        requires
            state_ok(old(self)@),
            tallies_fit(old(self)@, 0),
        ensures
            match seq_step(old(self)@, seq) {
                Ok(s) => r is Ok && final(self)@ == s,
                Err(reason) => r == Err::<(), DropReason>(reason) && final(self)@ == old(self)@,
            },
            state_ok(final(self)@),
            tallies_fit(final(self)@, 0),
            r is Ok ==> is_later(final(self)@.latest_completed_seq, seq),
    {
        if let Some(latest) = self.latest_completed_seq {
            if seq == latest {
                return Err(DropReason::DuplicateCompleted);
            }
            if seq < latest {
                if latest - seq > STREAM_RESTART_GAP {
                    self.reset_internal();
                } else {
                    return Err(DropReason::StaleSeq);
                }
            }
        }
        Ok(())
    }

    /// Takes out the frame of a fragment that it lacks, with the fragment
    /// stored.
    fn store(&mut self, seq: u32, index: u16, count: u16, payload: &[u8], now: u64) -> (frame:
        PendingFrame)
        requires
            old(self)@.tally.frags_received <= COUNTER_LIMIT,
        ensures
            frame.model() == grown(
                old(self)@.pending,
                Fragment { seq, index, count, epoch: 0, payload: payload@, now },
            ),
            final(self)@ == (State {
                pending: old(self)@.pending.remove(seq),
                tally: Tally {
                    frags_received: old(self)@.tally.frags_received + 1,
                    ..old(self)@.tally
                },
                ..old(self)@
            }),
    {
        let ghost before = self@.pending;
        let ghost f = Fragment { seq, index, count, epoch: 0, payload: payload@, now };
        let taken = self.pending.remove(&seq);
        assert(self@.pending =~= before.remove(seq));
        self.counters.frags_received = self.counters.frags_received + 1;
        match taken {
            Some(mut frame) => {
                let ghost was = frame;
                frame.fragments.insert(index, slice_to_vec(payload));
                assert(frame.model().fragments =~= was.model().fragments.insert(index, payload@));
                frame
            },
            None => {
                let mut fragments: HashMap<u16, Vec<u8>> = HashMap::new();
                fragments.insert(index, slice_to_vec(payload));
                let frame = PendingFrame { fragment_count: count, fragments, created_at: now };
                assert(frame.model().fragments =~= Map::<u16, Seq<u8>>::empty().insert(
                    index,
                    payload@,
                ));
                frame
            },
        }
    }

    /// Delivers a frame that is whole and taken out, and evicts the older ones.
    fn deliver(&mut self, frame: &PendingFrame, seq: u32) -> (assembled: Vec<u8>)
        requires
            forall|i: u16|
                i < frame.model().count ==> #[trigger] frame.model().fragments.dom().contains(i),
            state_ok(old(self)@),
            tallies_fit(old(self)@, 1),
            old(self)@.tally.frames_complete < COUNTER_LIMIT,
        ensures
            assembled@ == joined(frame.model().fragments, frame.model().count as int),
            final(self)@ == after_eviction(
                State {
                    latest_completed_seq: Some(seq),
                    tally: Tally {
                        frames_complete: old(self)@.tally.frames_complete + 1,
                        ..old(self)@.tally
                    },
                    ..old(self)@
                },
                Keep::NewerThan(seq),
            ),
            state_ok(final(self)@),
            tallies_fit(final(self)@, 1),
    {
        let assembled = frame.assemble();
        proof {
            eviction_fits(self@, Keep::NewerThan(seq), 1);
        }
        self.evict(Keep::NewerThan(seq));
        self.latest_completed_seq = Some(seq);
        self.counters.frames_complete = self.counters.frames_complete + 1;
        assembled
    }

    /// The periodic cleanup.
    fn tick_cleanup(&mut self, now: u64)
        requires
            state_ok(old(self)@),
            tallies_fit(old(self)@, 1),
        ensures
            final(self)@ == cleanup_step(old(self)@, now),
            state_ok(final(self)@),
    {
        if self.since_cleanup + 1 == CLEANUP_INTERVAL {
            self.evict(Keep::FreshAt(now));
            self.since_cleanup = 0;
        } else {
            self.since_cleanup = self.since_cleanup + 1;
        }
    }

    /// Feeds one fragment. `now` is the time of its arrival.
    pub fn add_fragment(
        &mut self,
        seq: u32,
        index: u16,
        count: u16,
        epoch: u32,
        payload: &[u8],
        now: u64,
    ) -> (outcome: AddOutcome)
        requires
            old(self).ok(),
            has_room(old(self)@),
        ensures
            final(self).ok(),
            (final(self)@, outcome@) == added(
                old(self)@,
                Fragment { seq, index, count, epoch, payload: payload@, now },
            ),
    {
        let ghost f = Fragment { seq, index, count, epoch, payload: payload@, now };
        if !self.accept_epoch(epoch) {
            return AddOutcome::Dropped(DropReason::StaleEpoch);
        }
        match self.accept_seq(seq) {
            Ok(()) => {},
            Err(reason) => return AddOutcome::Dropped(reason),
        }
        if count == 0 {
            return AddOutcome::Dropped(DropReason::ZeroCount);
        }
        if index >= count {
            return AddOutcome::Dropped(DropReason::IndexOutOfRange);
        }
        let ghost s = self@;
        if let Some(frame) = self.pending.get(&seq) {
            assert(s.pending[seq] == frame.model());
            assert(frame.model().fragments.dom() =~= frame.fragments@.dom());
            if frame.fragment_count != count {
                return AddOutcome::Dropped(DropReason::CountMismatch);
            }
            if frame.fragments.contains_key(&index) {
                return AddOutcome::Dropped(DropReason::DuplicateFragment);
            }
        }
        proof {
            frames_grow_soundly(s, f);
        }
        let frame = self.store(seq, index, count, payload, now);
        assert(frame.model() == grown(s.pending, f));
        assert(frame.model().fragments.dom() =~= frame.fragments@.dom());
        proof {
            full_frame_has_every_index(frame.model().fragments.dom(), count);
        }
        let outcome = if frame.fragments.len() == count as usize {
            let assembled = self.deliver(&frame, seq);
            AddOutcome::Completed(assembled)
        } else {
            let ghost rest = self.pending@;
            assert(partial_ok(frame.model()));
            self.pending.insert(seq, frame);
            assert(self@.pending =~= models(rest).insert(seq, frame.model()));
            assert(self@.pending =~= s.pending.insert(seq, grown(s.pending, f)));
            AddOutcome::Stored
        };
        self.tick_cleanup(now);
        outcome
    }

    /// Drops all reassembly state (new session, or a disconnect). The counters
    /// go on.
    pub fn reset(&mut self)
        requires
            old(self).ok(),
            has_room(old(self)@),
        ensures
            final(self).ok(),
            final(self)@ == (State {
                current_epoch: None,
                stale_epoch_streak: 0,
                ..restarted(old(self)@)
            }),
            final(self)@.pending == Map::<u32, Partial>::empty(),
    {
        proof {
            restart_keeps_ok(self@);
        }
        self.reset_internal();
        self.current_epoch = None;
        self.stale_epoch_streak = 0;
    }
}

/// What has gone so far is no more than there was.
proof fn gone_is_bounded(all: Map<u32, Partial>, gone: Map<u32, Partial>)
    requires
        all.dom().finite(),
        gone.dom().finite(),
        forall|seq: u32| #[trigger] all.contains_key(seq) ==> partial_ok(all[seq]),
        forall|seq: u32| #[trigger] gone.contains_key(seq) ==> all.contains_key(seq) && gone[seq]
            == all[seq],
    ensures
        gone.dom().len() <= all.dom().len(),
        total_missing(gone) <= 0xFFFF * all.dom().len(),
{
    vstd::set_lib::lemma_len_subset(gone.dom(), all.dom());
    missing_is_bounded(gone);
}

// ---- laws ------------------------------------------------------------------

/// The partial frame with this sequence number, if there is one.
pub open spec fn partial_frame(s: State, seq: u32) -> Option<Partial> {
    if s.pending.contains_key(seq) {
        Some(s.pending[seq])
    } else {
        None
    }
}

/// Every fragment, whatever it claims, leaves a sound state.
pub proof fn fragments_keep_the_invariant(s: State, f: Fragment)
    requires
        state_ok(s),
    ensures
        state_ok(added(s, f).0),
{
    let (s1, live) = epoch_step(s, f.epoch);
    restart_keeps_ok(s);
    if live {
        restart_keeps_ok(s1);
        match seq_step(s1, f.seq) {
            Ok(s2) => {
                let (s3, _) = fragment_step(s2, f);
                if s3 != s2 && is_wanted(s2, f) {
                    storing_keeps_ok(s2, f);
                    let (t, _) = store_step(s2, f);
                    eviction_keeps_ok(t, Keep::FreshAt(f.now));
                }
            },
            Err(_) => {},
        }
    }
}

proof fn restart_keeps_ok(s: State)
    requires
        state_ok(s),
    ensures
        state_ok(restarted(s)),
        restarted(s).pending == Map::<u32, Partial>::empty(),
{
    eviction_keeps_ok(s, Keep::Nothing);
    assert(restarted(s).pending =~= Map::<u32, Partial>::empty());
}

proof fn storing_keeps_ok(s: State, f: Fragment)
    requires
        state_ok(s),
        is_wanted(s, f),
    ensures
        state_ok(store_step(s, f).0),
{
    frames_grow_soundly(s, f);
    if grown(s.pending, f).fragments.dom().len() == f.count {
        let without = State { pending: s.pending.remove(f.seq), ..s };
        eviction_keeps_ok(without, Keep::NewerThan(f.seq));
    }
}

/// The counters move with what happens and never go back: a fragment counts as
/// received exactly when it is stored, a frame as complete exactly when it is
/// delivered.
pub proof fn counters_follow_outcomes(s: State, f: Fragment)
    ensures
        ({
            let (t, outcome) = added(s, f);
            &&& t.tally.frags_received == s.tally.frags_received + (if outcome is Dropped {
                0int
            } else {
                1
            })
            &&& t.tally.frames_complete == s.tally.frames_complete + (if outcome is Completed {
                1int
            } else {
                0
            })
            &&& t.tally.frames_dropped >= s.tally.frames_dropped
            &&& t.tally.frags_lost >= s.tally.frags_lost
        }),
{
}

/// The epoch never goes back, except that a full streak of stale fragments
/// moves it to the stream that is really arriving.
pub proof fn epoch_goes_forward(s: State, f: Fragment, current: u32)
    requires
        s.current_epoch == Some(current),
    ensures
        ({
            let (t, outcome) = added(s, f);
            &&& t.current_epoch is Some
            &&& t.current_epoch->0 < current <==> f.epoch < current && s.stale_epoch_streak + 1
                >= EPOCH_RESYNC_THRESHOLD
            &&& f.epoch > current ==> t.current_epoch == Some(f.epoch)
            &&& f.epoch < current && s.stale_epoch_streak + 1 < EPOCH_RESYNC_THRESHOLD ==> outcome
                == Outcome::Dropped(DropReason::StaleEpoch) && t.pending == s.pending
        }),
{
}

/// A fragment whose epoch is accepted ends the streak of stale ones, so
/// stragglers of an old run that interleave with a live one never add up to a
/// resync.
pub proof fn live_fragments_end_the_streak(s: State, f: Fragment)
    requires
        s.current_epoch is Some ==> f.epoch >= s.current_epoch->0,
    ensures
        added(s, f).0.stale_epoch_streak == 0,
{
}

/// A replayed fragment of a frame in flight is dropped and changes nothing,
/// whatever bytes it carries: the first write wins.
pub proof fn replays_change_nothing(s: State, f: Fragment, bytes: Seq<u8>, later: u64)
    requires
        state_ok(s),
        added(s, f).1 is Stored,
        partial_frame(added(s, f).0, f.seq) is Some,
    ensures
        added(added(s, f).0, (Fragment { payload: bytes, now: later, ..f })) == (
            added(s, f).0,
            Outcome::Dropped(DropReason::DuplicateFragment),
        ),
{
    let (s1, _) = epoch_step(s, f.epoch);
    restart_keeps_ok(s);
    restart_keeps_ok(s1);
    let s2 = seq_step(s1, f.seq)->Ok_0;
    assert(is_wanted(s2, f));
    frames_grow_soundly(s2, f);
    storing_keeps_ok(s2, f);
}

/// Once a frame is delivered, a further fragment of it is dropped and changes
/// nothing.
pub proof fn delivered_frames_stay_delivered(s: State, f: Fragment, again: Fragment)
    requires
        state_ok(s),
        added(s, f).1 is Completed,
        again.seq == f.seq,
        again.epoch == f.epoch,
    ensures
        added(added(s, f).0, again) == (
            added(s, f).0,
            Outcome::Dropped(DropReason::DuplicateCompleted),
        ),
{
}

/// After a frame is delivered no older one is: late fragments of the frames
/// just before it are dropped, and no partial frame waits behind it.
pub proof fn delivery_keeps_order(s: State, f: Fragment, late: Fragment)
    requires
        state_ok(s),
        added(s, f).1 is Completed,
        late.seq < f.seq,
        f.seq - late.seq <= STREAM_RESTART_GAP,
        late.epoch == f.epoch,
    ensures
        added(added(s, f).0, late) == (added(s, f).0, Outcome::Dropped(DropReason::StaleSeq)),
        forall|seq: u32| #[trigger] added(s, f).0.pending.contains_key(seq) ==> seq > f.seq,
{
    fragments_keep_the_invariant(s, f);
}

/// The state after the first `k` of a run of fragments.
pub open spec fn fed(s: State, fragments: Seq<Fragment>, k: int) -> State
    decreases k,
{
    if k <= 0 {
        s
    } else {
        added(fed(s, fragments, k - 1), fragments[k - 1]).0
    }
}

/// A run of fragments that carries the parts of one frame, each once, in any
/// order, before the frame grows stale.
pub open spec fn carries_frame(fragments: Seq<Fragment>, parts: Seq<Seq<u8>>, seq: u32, epoch: u32) -> bool {
    &&& 1 <= parts.len() <= 0xFFFF
    &&& fragments.len() == parts.len()
    &&& forall|i: int|
        #![trigger fragments[i]]
        0 <= i < fragments.len() ==> {
            &&& fragments[i].seq == seq
            &&& fragments[i].epoch == epoch
            &&& fragments[i].count == parts.len()
            &&& fragments[i].index < parts.len()
            &&& fragments[i].payload == parts[fragments[i].index as int]
            &&& fragments[i].now < fragments[0].now + STALE_FRAME_TIMEOUT
        }
    &&& forall|i: int, j: int|
        0 <= i < j < fragments.len() ==> (#[trigger] fragments[i]).index != (
        #[trigger] fragments[j]).index
}

/// The parts, joined.
pub open spec fn joined_parts(parts: Seq<Seq<u8>>, n: int) -> Seq<u8>
    decreases n,
{
    if n <= 0 {
        Seq::empty()
    } else {
        joined_parts(parts, n - 1) + parts[n - 1]
    }
}

/// The indices of the first `k` fragments.
spec fn indices_of(fragments: Seq<Fragment>, k: int) -> Seq<u16> {
    Seq::new(k as nat, |i: int| fragments[i].index)
}

spec fn parts_seen(fragments: Seq<Fragment>, parts: Seq<Seq<u8>>, k: int) -> Map<u16, Seq<u8>> {
    Map::new(|i: u16| indices_of(fragments, k).contains(i), |i: u16| parts[i as int])
}

proof fn parts_seen_are_counted(fragments: Seq<Fragment>, parts: Seq<Seq<u8>>, k: int, seq: u32, epoch: u32)
    requires
        carries_frame(fragments, parts, seq, epoch),
        0 <= k <= fragments.len(),
    ensures
        parts_seen(fragments, parts, k).dom().finite(),
        parts_seen(fragments, parts, k).dom().len() == k,
{
    let list = indices_of(fragments, k);
    assert(list.no_duplicates()) by {
        assert forall|i: int, j: int| 0 <= i < list.len() && 0 <= j < list.len() && i != j implies list[i]
            != list[j] by {
            let (a, b) = if i < j {
                (i, j)
            } else {
                (j, i)
            };
            assert(fragments[a].index != fragments[b].index);
        }
    }
    list.unique_seq_to_set();
    vstd::seq_lib::seq_to_set_is_finite(list);
    assert(parts_seen(fragments, parts, k).dom() =~= list.to_set());
}

proof fn part_is_new(fragments: Seq<Fragment>, parts: Seq<Seq<u8>>, k: int, seq: u32, epoch: u32)
    requires
        carries_frame(fragments, parts, seq, epoch),
        0 <= k < fragments.len(),
    ensures
        !parts_seen(fragments, parts, k).dom().contains(fragments[k].index),
        parts_seen(fragments, parts, k + 1) == parts_seen(fragments, parts, k).insert(
            fragments[k].index,
            parts[fragments[k].index as int],
        ),
{
    let list = indices_of(fragments, k);
    let more = indices_of(fragments, k + 1);
    if list.contains(fragments[k].index) {
        let j = choose|j: int| 0 <= j < list.len() && list[j] == fragments[k].index;
        assert(fragments[j].index != fragments[k].index);
    }
    assert(more =~= list.push(fragments[k].index));
    assert forall|i: u16| more.contains(i) == (list.contains(i) || i == fragments[k].index) by {
        if list.contains(i) {
            let j = choose|j: int| 0 <= j < list.len() && list[j] == i;
            assert(more[j] == i);
        }
        if i == fragments[k].index {
            assert(more[k] == i);
        }
        if more.contains(i) {
            let j = choose|j: int| 0 <= j < more.len() && more[j] == i;
            if j < k {
                assert(list[j] == i);
            }
        }
    }
    assert(parts_seen(fragments, parts, k + 1) =~= parts_seen(fragments, parts, k).insert(
        fragments[k].index,
        parts[fragments[k].index as int],
    ));
}

/// Before the last of its fragments, the frame is in flight with what has come.
proof fn frame_grows(s: State, fragments: Seq<Fragment>, parts: Seq<Seq<u8>>, seq: u32, epoch: u32, k: int)
    requires
        state_ok(s),
        s.current_epoch == Some(epoch),
        is_later(s.latest_completed_seq, seq),
        partial_frame(s, seq) is None,
        carries_frame(fragments, parts, seq, epoch),
        0 <= k < fragments.len(),
    ensures
        ({
            let t = fed(s, fragments, k);
            &&& state_ok(t)
            &&& t.current_epoch == Some(epoch)
            &&& t.latest_completed_seq == s.latest_completed_seq
            &&& k == 0 ==> partial_frame(t, seq) is None
            &&& k > 0 ==> partial_frame(t, seq) == Some(
                Partial {
                    count: parts.len() as u16,
                    fragments: parts_seen(fragments, parts, k),
                    created_at: fragments[0].now,
                },
            )
        }),
    decreases k,
{
    if k > 0 {
        let j = k - 1;
        frame_grows(s, fragments, parts, seq, epoch, j);
        let t = fed(s, fragments, j);
        let f = fragments[j];
        part_is_new(fragments, parts, j, seq, epoch);
        parts_seen_are_counted(fragments, parts, k, seq, epoch);
        let s2 = State { stale_epoch_streak: 0, ..t };
        assert(partial_frame(s2, seq) == partial_frame(t, seq));
        assert(is_wanted(s2, f));
        frames_grow_soundly(s2, f);
        storing_keeps_ok(s2, f);
        let g = grown(s2.pending, f);
        if j == 0 {
            assert(parts_seen(fragments, parts, 0) =~= Map::<u16, Seq<u8>>::empty());
            assert(indices_of(fragments, 0) =~= Seq::<u16>::empty());
            assert(g.fragments =~= parts_seen(fragments, parts, 1));
        }
        assert(g.fragments == parts_seen(fragments, parts, k));
        let (s3, out) = store_step(s2, f);
        assert(out is Stored);
        fragments_keep_the_invariant(t, f);
        assert(partial_frame(s3, seq) == Some(g));
        assert(g.created_at == fragments[0].now);
    }
}

proof fn joining_whole_frame(fragments: Seq<Fragment>, parts: Seq<Seq<u8>>, seq: u32, epoch: u32, n: int)
    requires
        carries_frame(fragments, parts, seq, epoch),
        0 <= n <= parts.len(),
        forall|i: u16|
            i < parts.len() ==> #[trigger] parts_seen(
                fragments,
                parts,
                fragments.len() as int,
            ).dom().contains(i),
    ensures
        joined(parts_seen(fragments, parts, fragments.len() as int), n) == joined_parts(parts, n),
    decreases n,
{
    if n > 0 {
        joining_whole_frame(fragments, parts, seq, epoch, n - 1);
        let i = (n - 1) as u16;
        assert(parts_seen(fragments, parts, fragments.len() as int).dom().contains(i));
    }
}

proof fn accepted_frame_reassembles(
    s: State,
    fragments: Seq<Fragment>,
    parts: Seq<Seq<u8>>,
    seq: u32,
    epoch: u32,
)
    requires
        state_ok(s),
        s.current_epoch == Some(epoch),
        is_later(s.latest_completed_seq, seq),
        partial_frame(s, seq) is None,
        carries_frame(fragments, parts, seq, epoch),
    ensures
        ({
            let n = fragments.len() as int;
            let last = added(fed(s, fragments, n - 1), fragments[n - 1]);
            &&& last.1 == Outcome::Completed(joined_parts(parts, n))
            &&& last.0.latest_completed_seq == Some(seq)
        }),
        forall|k: int|
            0 <= k < fragments.len() - 1 ==> #[trigger] added(
                fed(s, fragments, k),
                fragments[k],
            ).1 == Outcome::Stored,
{
    let n = fragments.len() as int;
    assert forall|k: int| 0 <= k < n implies ({
        let out = #[trigger] added(fed(s, fragments, k), fragments[k]).1;
        if k == n - 1 {
            &&& out == Outcome::Completed(joined_parts(parts, n))
            &&& added(fed(s, fragments, k), fragments[k]).0.latest_completed_seq == Some(seq)
        } else {
            out == Outcome::Stored
        }
    }) by {
        frame_grows(s, fragments, parts, seq, epoch, k);
        let t = fed(s, fragments, k);
        let f = fragments[k];
        part_is_new(fragments, parts, k, seq, epoch);
        parts_seen_are_counted(fragments, parts, k + 1, seq, epoch);
        let s2 = State { stale_epoch_streak: 0, ..t };
        assert(partial_frame(s2, seq) == partial_frame(t, seq));
        assert(is_wanted(s2, f));
        frames_grow_soundly(s2, f);
        let g = grown(s2.pending, f);
        if k == 0 {
            assert(indices_of(fragments, 0) =~= Seq::<u16>::empty());
            assert(parts_seen(fragments, parts, 0) =~= Map::<u16, Seq<u8>>::empty());
            assert(g.fragments =~= parts_seen(fragments, parts, 1));
        }
        assert(g.fragments == parts_seen(fragments, parts, k + 1));
        if k == n - 1 {
            full_frame_has_every_index(g.fragments.dom(), f.count);
            joining_whole_frame(fragments, parts, seq, epoch, n);
        }
    }
    let k = n - 1;
    assert(added(fed(s, fragments, k), fragments[k]).1 == Outcome::Completed(
        joined_parts(parts, n),
    ));
}

/// What the first fragment of a frame finds once its epoch and its sequence
/// number have been accepted; nothing where they are not.
pub open spec fn let_in(s: State, seq: u32, epoch: u32) -> Option<State> {
    let (s1, live) = epoch_step(s, epoch);
    if !live {
        None
    } else {
        match seq_step(s1, seq) {
            Ok(s2) => Some(s2),
            Err(_) => None,
        }
    }
}

/// Whether a frame is news to a reassembler: it is let in, and none of its
/// fragments is there yet.
pub open spec fn is_news(s: State, seq: u32, epoch: u32) -> bool {
    let_in(s, seq, epoch) matches Some(t) && partial_frame(t, seq) is None
}

/// A reassembler that has seen nothing takes every frame for news, and so does
/// one that has only seen earlier epochs. Within an epoch, so is a later frame
/// of which nothing has arrived, and a frame so far back that the sender must
/// have started over.
pub proof fn what_is_news(s: State, seq: u32, epoch: u32)
    requires
        state_ok(s),
    ensures
        is_news(fresh(), seq, epoch),
        s.current_epoch matches Some(current) && current < epoch ==> is_news(s, seq, epoch),
        s.current_epoch == Some(epoch) && is_later(s.latest_completed_seq, seq) ==> (is_news(
            s,
            seq,
            epoch,
        ) <==> partial_frame(s, seq) is None),
        s.current_epoch == Some(epoch) && (s.latest_completed_seq matches Some(latest) && latest
            - seq > STREAM_RESTART_GAP) ==> is_news(s, seq, epoch),
{
}

proof fn letting_in_changes_nothing_more(
    s: State,
    fragments: Seq<Fragment>,
    seq: u32,
    epoch: u32,
    k: int,
)
    requires
        let_in(s, seq, epoch) is Some,
        0 < k <= fragments.len(),
        fragments[0].seq == seq,
        fragments[0].epoch == epoch,
    ensures
        added(s, fragments[0]) == added(let_in(s, seq, epoch)->0, fragments[0]),
        fed(s, fragments, k) == fed(let_in(s, seq, epoch)->0, fragments, k),
    decreases k,
{
    let t = let_in(s, seq, epoch)->0;
    assert(epoch_step(t, epoch) == (t, true));
    assert(seq_step(t, seq) == Ok::<State, DropReason>(t));
    if k > 1 {
        letting_in_changes_nothing_more(s, fragments, seq, epoch, k - 1);
    } else {
        assert(fed(s, fragments, 0) == s);
        assert(fed(t, fragments, 0) == t);
    }
}

/// The fragments of a frame, arriving in any order, put the frame back
/// together: the last of them, and none before, delivers all parts joined.
pub proof fn any_order_reassembles(
    s: State,
    fragments: Seq<Fragment>,
    parts: Seq<Seq<u8>>,
    seq: u32,
    epoch: u32,
)
    requires
        state_ok(s),
        is_news(s, seq, epoch),
        carries_frame(fragments, parts, seq, epoch),
    ensures
        ({
            let n = fragments.len() as int;
            let last = added(fed(s, fragments, n - 1), fragments[n - 1]);
            &&& last.1 == Outcome::Completed(joined_parts(parts, n))
            &&& last.0.latest_completed_seq == Some(seq)
        }),
        forall|k: int|
            0 <= k < fragments.len() - 1 ==> #[trigger] added(
                fed(s, fragments, k),
                fragments[k],
            ).1 == Outcome::Stored,
{
    let t = let_in(s, seq, epoch)->0;
    let n = fragments.len() as int;
    restart_keeps_ok(s);
    restart_keeps_ok(epoch_step(s, epoch).0);
    accepted_frame_reassembles(t, fragments, parts, seq, epoch);
    assert forall|k: int| 0 <= k < n implies #[trigger] added(fed(s, fragments, k), fragments[k])
        == added(fed(t, fragments, k), fragments[k]) by {
        if k > 0 {
            letting_in_changes_nothing_more(s, fragments, seq, epoch, k);
        } else {
            letting_in_changes_nothing_more(s, fragments, seq, epoch, 1);
        }
    }
    assert(added(fed(s, fragments, n - 1), fragments[n - 1]) == added(
        fed(t, fragments, n - 1),
        fragments[n - 1],
    ));
}

/// Where nothing is evicted, nothing is tallied.
proof fn nothing_evicted(s: State, rule: Keep)
    requires
        forall|seq: u32| #[trigger] s.pending.contains_key(seq) ==> keeps(rule, seq, s.pending[seq]),
    ensures
        after_eviction(s, rule) == s,
{
    assert(evicted(s.pending, rule) =~= Map::<u32, Partial>::empty());
    assert(evicted(s.pending, rule).dom() =~= Set::<u32>::empty());
    assert(kept(s.pending, rule) =~= s.pending);
}

/// Before the last of its fragments, a frame that arrives alone is all that is
/// in flight, and only received fragments have been tallied.
proof fn lone_frame_grows(s: State, fragments: Seq<Fragment>, parts: Seq<Seq<u8>>, seq: u32, epoch: u32, k: int)
    requires
        state_ok(s),
        s.current_epoch == Some(epoch),
        is_later(s.latest_completed_seq, seq),
        s.pending == Map::<u32, Partial>::empty(),
        carries_frame(fragments, parts, seq, epoch),
        0 <= k < fragments.len(),
    ensures
        forall|other: u32| #[trigger]
            fed(s, fragments, k).pending.contains_key(other) ==> other == seq,
        fed(s, fragments, k).tally == (Tally {
            frags_received: s.tally.frags_received + k as nat,
            ..s.tally
        }),
    decreases k,
{
    if k > 0 {
        let j = k - 1;
        lone_frame_grows(s, fragments, parts, seq, epoch, j);
        frame_grows(s, fragments, parts, seq, epoch, j);
        frame_grows(s, fragments, parts, seq, epoch, k);
        accepted_frame_reassembles(s, fragments, parts, seq, epoch);
        let t = fed(s, fragments, j);
        let f = fragments[j];
        assert(added(t, f).1 == Outcome::Stored);
        let s2 = State { stale_epoch_streak: 0, ..t };
        assert(partial_frame(s2, seq) == partial_frame(t, seq));
        part_is_new(fragments, parts, j, seq, epoch);
        assert(is_wanted(s2, f));
        let (s3, out) = store_step(s2, f);
        assert(out is Stored);
        nothing_evicted(s3, Keep::FreshAt(f.now));
    }
}

/// A reassembler that has seen nothing and gets all fragments of one frame, in
/// any order, delivers the frame with the last of them. Then nothing is in
/// flight, the frame is the latest, and the counters say exactly this: one
/// frame complete, every fragment received, nothing dropped and nothing lost.
pub proof fn one_frame_is_counted_exactly(
    fragments: Seq<Fragment>,
    parts: Seq<Seq<u8>>,
    seq: u32,
    epoch: u32,
)
    requires
        carries_frame(fragments, parts, seq, epoch),
    ensures
        ({
            let n = fragments.len() as int;
            let last = added(fed(fresh(), fragments, n - 1), fragments[n - 1]);
            &&& last.1 == Outcome::Completed(joined_parts(parts, n))
            &&& last.0 == fed(fresh(), fragments, n)
            &&& last.0.pending == Map::<u32, Partial>::empty()
            &&& last.0.latest_completed_seq == Some(seq)
            &&& last.0.tally == (Tally {
                frames_complete: 1,
                frames_dropped: 0,
                frags_received: n as nat,
                frags_lost: 0,
            })
        }),
        forall|k: int|
            0 <= k < fragments.len() - 1 ==> #[trigger] added(
                fed(fresh(), fragments, k),
                fragments[k],
            ).1 == Outcome::Stored,
{
    let n = fragments.len() as int;
    let s = let_in(fresh(), seq, epoch)->0;
    any_order_reassembles(fresh(), fragments, parts, seq, epoch);
    letting_in_changes_nothing_more(fresh(), fragments, seq, epoch, n);
    let t = fed(s, fragments, n - 1);
    let f = fragments[n - 1];
    frame_grows(s, fragments, parts, seq, epoch, n - 1);
    lone_frame_grows(s, fragments, parts, seq, epoch, n - 1);
    accepted_frame_reassembles(s, fragments, parts, seq, epoch);
    let s2 = State { stale_epoch_streak: 0, ..t };
    assert(partial_frame(s2, seq) == partial_frame(t, seq));
    part_is_new(fragments, parts, n - 1, seq, epoch);
    assert(is_wanted(s2, f));
    let without = State { pending: s2.pending.remove(seq), ..s2 };
    assert(without.pending =~= Map::<u32, Partial>::empty());
    nothing_evicted(without, Keep::NewerThan(seq));
    let (s3, _) = store_step(s2, f);
    assert(s3.pending =~= Map::<u32, Partial>::empty());
    nothing_evicted(s3, Keep::FreshAt(f.now));
}

/// What a receiver feeds for a media datagram that arrives at `now`.
pub open spec fn as_fragment(datagram: Seq<u8>, now: u64) -> Fragment {
    let h = media::media_header_of(datagram);
    Fragment {
        seq: h.frame_seq,
        index: h.frag_index,
        count: h.frag_count,
        epoch: h.stream_epoch,
        payload: datagram.skip(media::MEDIA_HEADER_SIZE as int),
        now,
    }
}

/// The datagrams of an access unit, in the order in which they arrive.
pub open spec fn arrivals(
    template: MediaHeader,
    payload: Seq<u8>,
    order: Seq<int>,
    times: Seq<u64>,
) -> Seq<Fragment> {
    Seq::new(
        order.len(),
        |i: int| as_fragment(media::fragment_datagram(template, payload, order[i]), times[i]),
    )
}

proof fn chunks_are_parts(payload: Seq<u8>, parts: Seq<Seq<u8>>, n: int)
    requires
        0 <= n <= parts.len(),
        forall|i: int| 0 <= i < parts.len() ==> #[trigger] parts[i] == media::fragment_chunk(payload, i),
    ensures
        joined_parts(parts, n) == media::joined_chunks(payload, n),
    decreases n,
{
    if n > 0 {
        chunks_are_parts(payload, parts, n - 1);
    }
}

/// An access unit that is split into media datagrams, each of which arrives
/// once, in any order and before the frame grows stale, comes out of the
/// reassembler as it went in.
pub proof fn access_units_cross_the_wire(
    s: State,
    template: MediaHeader,
    payload: Seq<u8>,
    order: Seq<int>,
    times: Seq<u64>,
)
    requires
        state_ok(s),
        template.session_id != 0,
        template.stream_epoch != 0,
        media::fragment_total(payload.len() as int) <= media::MAX_FRAG_COUNT,
        is_news(s, template.frame_seq, template.stream_epoch),
        order.len() == media::fragment_total(payload.len() as int),
        times.len() == order.len(),
        forall|i: int| 0 <= i < order.len() ==> 0 <= #[trigger] order[i] < order.len(),
        forall|i: int, j: int| 0 <= i < j < order.len() ==> order[i] != order[j],
        forall|i: int|
            0 <= i < times.len() ==> #[trigger] times[i] < times[0] + STALE_FRAME_TIMEOUT,
    ensures
        ({
            let fragments = arrivals(template, payload, order, times);
            let n = fragments.len() as int;
            added(fed(s, fragments, n - 1), fragments[n - 1]).1 == Outcome::Completed(payload)
        }),
{
    let fragments = arrivals(template, payload, order, times);
    let n = order.len() as int;
    let parts = Seq::new(n as nat, |i: int| media::fragment_chunk(payload, i));
    assert forall|i: int| #![trigger fragments[i]] 0 <= i < n implies {
        &&& fragments[i].seq == template.frame_seq
        &&& fragments[i].epoch == template.stream_epoch
        &&& fragments[i].count == parts.len()
        &&& fragments[i].index == order[i]
        &&& fragments[i].payload == parts[order[i]]
        &&& fragments[i].now == times[i]
    } by {
        media::fragments_decode(template, payload, order[i]);
    }
    assert forall|i: int, j: int| 0 <= i < j < fragments.len() implies (
    #[trigger] fragments[i]).index != (#[trigger] fragments[j]).index by {
        assert(order[i] != order[j]);
    }
    any_order_reassembles(s, fragments, parts, template.frame_seq, template.stream_epoch);
    chunks_are_parts(payload, parts, n);
    media::chunks_join_to_payload(payload);
}

/// Which fragments are refused, and why. In a stream that goes on, that is in
/// the epoch in force and behind the last frame that was delivered: one that
/// claims no fragments, one whose place is beyond its count, one that disagrees
/// with its frame about the count, and one that is there already. Whatever is
/// refused changes no frame and no counter; everything else is taken.
pub proof fn fragments_are_refused_for_a_reason(s: State, f: Fragment)
    requires
        s.current_epoch == Some(f.epoch),
        s.latest_completed_seq is None || f.seq > s.latest_completed_seq->0,
    ensures
        ({
            let (t, outcome) = added(s, f);
            let known = s.pending.contains_key(f.seq);
            let disagrees = known && s.pending[f.seq].count != f.count;
            let there = known && s.pending[f.seq].fragments.contains_key(f.index);
            &&& f.count == 0 ==> outcome == Outcome::Dropped(DropReason::ZeroCount)
            &&& f.count > 0 && f.index >= f.count ==> outcome == Outcome::Dropped(
                DropReason::IndexOutOfRange,
            )
            &&& f.index < f.count && disagrees ==> outcome == Outcome::Dropped(
                DropReason::CountMismatch,
            )
            &&& f.index < f.count && !disagrees && there ==> outcome == Outcome::Dropped(
                DropReason::DuplicateFragment,
            )
            &&& f.index < f.count && !disagrees && !there ==> !(outcome is Dropped)
            &&& outcome is Dropped ==> t.pending == s.pending && t.tally == s.tally
                && t.latest_completed_seq == s.latest_completed_seq && t.since_cleanup
                == s.since_cleanup
        }),
{
}

/// What happens to fragments of frames that are behind. One of the last frame
/// that was delivered is refused as a duplicate, and one of a frame shortly
/// before it as stale. One from so far back that the sender must have started
/// over begins anew: everything that was in flight is dropped.
pub proof fn frames_that_are_behind(s: State, f: Fragment, latest: u32)
    requires
        state_ok(s),
        s.current_epoch == Some(f.epoch),
        s.latest_completed_seq == Some(latest),
        f.seq <= latest,
        f.index < f.count,
        f.count >= 2,
    ensures
        ({
            let (t, outcome) = added(s, f);
            &&& f.seq == latest ==> outcome == Outcome::Dropped(DropReason::DuplicateCompleted)
            &&& f.seq < latest && latest - f.seq <= STREAM_RESTART_GAP ==> outcome
                == Outcome::Dropped(DropReason::StaleSeq)
            &&& latest - f.seq <= STREAM_RESTART_GAP ==> t.pending == s.pending && t.tally
                == s.tally && t.latest_completed_seq == s.latest_completed_seq
            &&& latest - f.seq > STREAM_RESTART_GAP ==> {
                &&& outcome == Outcome::Stored
                &&& t.latest_completed_seq is None
                &&& t.pending.contains_key(f.seq)
                &&& forall|seq: u32| #[trigger] t.pending.contains_key(seq) ==> seq == f.seq
                &&& t.tally.frames_dropped == s.tally.frames_dropped + s.pending.dom().len()
                &&& t.tally.frags_received == s.tally.frags_received + 1
            }
        }),
{
    if latest - f.seq > STREAM_RESTART_GAP {
        starting_over_keeps_one(State { stale_epoch_streak: 0, ..s }, f);
    }
}

proof fn starting_over_keeps_one(s: State, f: Fragment)
    requires
        state_ok(s),
        f.index < f.count,
        f.count >= 2,
    ensures
        ({
            let (t, outcome) = fragment_step(restarted(s), f);
            &&& outcome == Outcome::Stored
            &&& t.latest_completed_seq is None
            &&& t.pending.contains_key(f.seq)
            &&& forall|seq: u32| #[trigger] t.pending.contains_key(seq) ==> seq == f.seq
            &&& t.tally.frames_dropped == s.tally.frames_dropped + s.pending.dom().len()
            &&& t.tally.frags_received == s.tally.frags_received + 1
        }),
{
    let r = restarted(s);
    restart_keeps_ok(s);
    assert(evicted(s.pending, Keep::Nothing) =~= s.pending);
    let g = grown(r.pending, f);
    assert(g.fragments.dom() =~= Set::<u16>::empty().insert(f.index));
    assert(g.fragments.dom().len() == 1);
    let (s3, _) = store_step(r, f);
    nothing_evicted(s3, Keep::FreshAt(f.now));
}

/// A fragment of a new run ends the old one: everything that was in flight is
/// dropped and counted, only the new fragment's frame is in flight, and the
/// fragments until the next sweep are counted from this one on.
pub proof fn new_runs_start_clean(s: State, f: Fragment, current: u32)
    requires
        state_ok(s),
        s.current_epoch == Some(current),
        f.epoch > current,
        f.index < f.count,
        f.count >= 2,
    ensures
        ({
            let (t, outcome) = added(s, f);
            &&& outcome == Outcome::Stored
            &&& t.current_epoch == Some(f.epoch)
            &&& t.latest_completed_seq is None
            &&& t.pending.contains_key(f.seq)
            &&& forall|seq: u32| #[trigger] t.pending.contains_key(seq) ==> seq == f.seq
            &&& t.tally.frames_dropped == s.tally.frames_dropped + s.pending.dom().len()
            &&& t.since_cleanup == 1 && t.stale_epoch_streak == 0
        }),
{
    let s1 = State { current_epoch: Some(f.epoch), stale_epoch_streak: 0, ..s };
    starting_over_keeps_one(s1, f);
    assert(epoch_step(s, f.epoch).0 == restarted(s1));
}

/// What is lost of frames that are dropped: of one frame, the fragments that it
/// lacks; of several, those of each.
pub proof fn losses_add_up(frames: Map<u32, Partial>, seq: u32, f: Partial)
    requires
        frames.dom().finite(),
        !frames.contains_key(seq),
        partial_ok(f),
    ensures
        total_missing(Map::empty()) == 0,
        total_missing(frames.insert(seq, f)) == total_missing(frames) + (f.count
            - f.fragments.dom().len()),
{
    let more = frames.insert(seq, f);
    assert(more.remove(seq) =~= frames);
    missing_adds_up(more, seq);
    assert(Map::<u32, Partial>::empty().dom() =~= Set::<u32>::empty());
}

/// With every so many fragments, frames that have waited too long are dropped:
/// after such a fragment none of them is left. Between two such fragments, and
/// as long as no frame is delivered, no frame is dropped for its age.
pub proof fn stale_frames_are_swept(s: State, f: Fragment)
    requires
        state_ok(s),
        s.current_epoch == Some(f.epoch),
        added(s, f).1 == Outcome::Stored,
        is_later(s.latest_completed_seq, f.seq),
    ensures
        ({
            let t = added(s, f).0;
            let sweeps = s.since_cleanup + 1 == CLEANUP_INTERVAL;
            &&& t.since_cleanup == (if sweeps {
                0
            } else {
                s.since_cleanup + 1
            })
            &&& sweeps ==> forall|seq: u32| #[trigger]
                t.pending.contains_key(seq) ==> f.now < t.pending[seq].created_at
                    + STALE_FRAME_TIMEOUT
            &&& forall|seq: u32|
                #![trigger t.pending.contains_key(seq)]
                s.pending.contains_key(seq) && seq != f.seq && (!sweeps || f.now
                    < s.pending[seq].created_at + STALE_FRAME_TIMEOUT) ==> t.pending.contains_key(
                    seq,
                ) && t.pending[seq] == s.pending[seq]
        }),
{
}

/// A delivered frame takes the older ones with it and leaves the newer ones:
/// afterwards exactly the frames behind it are in flight, as they were.
pub proof fn newer_frames_stay_in_flight(s: State, f: Fragment)
    requires
        state_ok(s),
        s.current_epoch == Some(f.epoch),
        is_later(s.latest_completed_seq, f.seq),
        s.since_cleanup + 1 < CLEANUP_INTERVAL,
        added(s, f).1 is Completed,
    ensures
        ({
            let t = added(s, f).0;
            &&& t.latest_completed_seq == Some(f.seq)
            &&& forall|seq: u32| #[trigger]
                t.pending.contains_key(seq) <==> s.pending.contains_key(seq) && seq > f.seq
            &&& forall|seq: u32| #[trigger]
                t.pending.contains_key(seq) ==> t.pending[seq] == s.pending[seq]
            &&& t.tally.frames_complete == s.tally.frames_complete + 1
        }),
{
}

/// The counters of a report are those of the state, and an outcome is seen as
/// what it is.
pub proof fn counters_and_outcomes_are_seen(c: ReassemblyCounters, o: AddOutcome)
    ensures
        tally_of(c).frames_complete == c.frames_complete,
        tally_of(c).frames_dropped == c.frames_dropped,
        tally_of(c).frags_received == c.frags_received,
        tally_of(c).frags_lost == c.frags_lost,
        o is Stored <==> o@ is Stored,
        o matches AddOutcome::Completed(payload) ==> o@ == Outcome::Completed(payload@),
        o matches AddOutcome::Dropped(reason) ==> o@ == Outcome::Dropped(reason),
{
}

} // verus!
