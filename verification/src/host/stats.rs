//! Statistics of the pipeline, as its stages report them and the user sees
//! them. Rates are fractions of whole numbers; whoever shows them divides.

use std::collections::VecDeque;
use vstd::prelude::*;

verus! {

/// Rates and bandwidth are taken over this time, in nanoseconds.
pub const RATE_WINDOW: u64 = 1_000_000_000;

/// How many encode times are kept.
pub const HISTORY_LEN: usize = 300;

/// So many frames in so many nanoseconds; no frames where there is no rate.
#[derive(Debug, Clone, Copy, PartialEq, Eq, Structural)]
pub struct Rate {
    pub frames: u64,
    pub span_ns: u64,
}

/// Whether a moment lies in the window that ends now.
pub open spec fn in_window(at: u64, now: u64) -> bool {
    at + RATE_WINDOW >= now
}

/// Moments without the leading ones that have left the window.
pub open spec fn fresh(stamps: Seq<u64>, now: u64) -> Seq<u64>
    decreases stamps.len(),
{
    if stamps.len() > 0 && !in_window(stamps[0], now) {
        fresh(stamps.skip(1), now)
    } else {
        stamps
    }
}

/// The rate of frames at some moments: the steps between them over the time
/// from the first to the last.
pub open spec fn rate_of(stamps: Seq<u64>) -> Rate {
    if stamps.len() >= 2 && stamps.last() > stamps[0] {
        Rate { frames: (stamps.len() - 1) as u64, span_ns: (stamps.last() - stamps[0]) as u64 }
    } else {
        Rate { frames: 0, span_ns: 0 }
    }
}

/// Takes one more moment into a window, and gives the rate.
pub fn calc_fps(stamps: &mut VecDeque<u64>, now: u64) -> (rate: Rate)
    ensures
        final(stamps)@ == fresh(old(stamps)@.push(now), now),
        rate == rate_of(final(stamps)@),
{
    stamps.push_back(now);
    let ghost all = stamps@;
    while stamps.len() > 0 && !(stamps[0] >= now || now - stamps[0] <= RATE_WINDOW)
        invariant
            fresh(stamps@, now) == fresh(all, now),
        decreases stamps@.len(),
    {
        let ghost before = stamps@;
        let _gone = stamps.pop_front();
        assert(stamps@ =~= before.skip(1));
    }
    let n: usize = stamps.len();
    if n >= 2 && stamps[n - 1] > stamps[0] {
        Rate { frames: (n - 1) as u64, span_ns: stamps[n - 1] - stamps[0] }
    } else {
        Rate { frames: 0, span_ns: 0 }
    }
}

/// Samples without the leading ones that have left the window.
pub open spec fn fresh_samples(samples: Seq<(u64, u64)>, now: u64) -> Seq<(u64, u64)>
    decreases samples.len(),
{
    if samples.len() > 0 && !in_window(samples[0].0, now) {
        fresh_samples(samples.skip(1), now)
    } else {
        samples
    }
}

/// The bytes of some samples.
pub open spec fn sample_bytes(samples: Seq<(u64, u64)>) -> int
    decreases samples.len(),
{
    if samples.len() == 0 {
        0
    } else {
        sample_bytes(samples.drop_last()) + samples.last().1
    }
}

/// Takes one more sample into a window, and gives the bytes that it holds.
fn window_total(samples: &mut VecDeque<(u64, u64)>, now: u64, bytes: u64) -> (total: u128)
    ensures
        final(samples)@ == fresh_samples(old(samples)@.push((now, bytes)), now),
        total == sample_bytes(final(samples)@),
{
    samples.push_back((now, bytes));
    let ghost all = samples@;
    while samples.len() > 0 && !(samples[0].0 >= now || now - samples[0].0 <= RATE_WINDOW)
        invariant
            fresh_samples(samples@, now) == fresh_samples(all, now),
        decreases samples@.len(),
    {
        let ghost before = samples@;
        let _gone = samples.pop_front();
        assert(samples@ =~= before.skip(1));
    }
    let mut total: u128 = 0;
    let mut i: usize = 0;
    let n: usize = samples.len();
    while i < n
        invariant
            i <= n,
            n == samples@.len(),
            total == sample_bytes(samples@.take(i as int)),
            total <= i * 0xFFFF_FFFF_FFFF_FFFF,
        decreases n - i,
    {
        proof {
            assert(samples@.take(i + 1).drop_last() =~= samples@.take(i as int));
            assert((i + 1) * 0xFFFF_FFFF_FFFF_FFFF == i * 0xFFFF_FFFF_FFFF_FFFF
                + 0xFFFF_FFFF_FFFF_FFFF) by (nonlinear_arith);
            assert(i * 0xFFFF_FFFF_FFFF_FFFF + 0xFFFF_FFFF_FFFF_FFFF <= 0xFFFF_FFFF_FFFF_FFFF
                * 0xFFFF_FFFF_FFFF_FFFF + 0xFFFF_FFFF_FFFF_FFFF) by (nonlinear_arith)
                requires
                    0 <= i <= 0xFFFF_FFFF_FFFF_FFFF,
            ;
        }
        total = total + samples[i].1 as u128;
        i += 1;
    }
    assert(samples@.take(i as int) =~= samples@);
    total
}

/// What the stages of the pipeline report.
#[derive(Debug)]
pub struct PipelineStats {
    pub listen_addr: String,
    pub capture_rate: Rate,
    pub capture_resolution: (u32, u32),
    pub capture_frame_count: u64,
    pub gpu_name: String,
    /// What is captured. Empty until capture starts.
    pub capture_display: String,
    pub capture_stamps: VecDeque<u64>,
    pub encode_rate: Rate,
    pub encode_time_us: u128,
    pub encode_frame_count: u64,
    pub nal_bytes_last: usize,
    pub bitrate_bps: u32,
    pub codec_name: String,
    /// Whether the software encoder stands in for one that failed to open.
    pub using_software_fallback: bool,
    pub encode_stamps: VecDeque<u64>,
    pub transport_rate: Rate,
    pub transport_bytes_sent: u64,
    pub transport_packets_sent: u64,
    pub transport_fragments_sent: u64,
    pub target_addr: String,
    pub latency_us: u64,
    pub transport_stamps: VecDeque<u64>,
    pub bandwidth_samples: VecDeque<(u64, u64)>,
    /// Bytes sent within the window.
    pub window_bytes: u128,
    /// The latest encode times, in microseconds.
    pub encode_time_history: VecDeque<u128>,
    pub pipeline_running: bool,
    pub start_time: Option<u64>,
    pub mdns_active: bool,
}

impl PipelineStats {
    /// Whether nothing has been counted yet.
    pub open spec fn is_fresh(&self) -> bool {
        &&& self.capture_rate == (Rate { frames: 0, span_ns: 0 })
        &&& self.capture_resolution == (0u32, 0u32)
        &&& self.capture_frame_count == 0
        &&& self.capture_stamps@.len() == 0
        &&& self.encode_rate == (Rate { frames: 0, span_ns: 0 })
        &&& self.encode_time_us == 0
        &&& self.encode_frame_count == 0
        &&& self.nal_bytes_last == 0
        &&& self.encode_stamps@.len() == 0
        &&& self.encode_time_history@.len() == 0
        &&& self.connection_is_fresh()
        &&& !self.pipeline_running
        &&& self.start_time is None
    }

    /// Whether nothing has been sent yet.
    pub open spec fn connection_is_fresh(&self) -> bool {
        &&& self.transport_rate == (Rate { frames: 0, span_ns: 0 })
        &&& self.transport_bytes_sent == 0
        &&& self.transport_packets_sent == 0
        &&& self.transport_fragments_sent == 0
        &&& self.latency_us == 0
        &&& self.transport_stamps@.len() == 0
        &&& self.bandwidth_samples@.len() == 0
        &&& self.window_bytes == 0
    }

    /// Statistics of a pipeline that has not started.
    pub fn new() -> (s: PipelineStats)
        ensures
            s.is_fresh(),
            s.listen_addr@.len() == 0 && s.gpu_name@.len() == 0 && s.capture_display@.len() == 0,
            s.codec_name@.len() == 0 && s.target_addr@.len() == 0,
            s.bitrate_bps == 0,
            !s.using_software_fallback && !s.mdns_active,
    {
        PipelineStats {
            listen_addr: String::new(),
            capture_rate: Rate { frames: 0, span_ns: 0 },
            capture_resolution: (0, 0),
            capture_frame_count: 0,
            gpu_name: String::new(),
            capture_display: String::new(),
            capture_stamps: VecDeque::new(),
            encode_rate: Rate { frames: 0, span_ns: 0 },
            encode_time_us: 0,
            encode_frame_count: 0,
            nal_bytes_last: 0,
            bitrate_bps: 0,
            codec_name: String::new(),
            using_software_fallback: false,
            encode_stamps: VecDeque::new(),
            transport_rate: Rate { frames: 0, span_ns: 0 },
            transport_bytes_sent: 0,
            transport_packets_sent: 0,
            transport_fragments_sent: 0,
            target_addr: String::new(),
            latency_us: 0,
            transport_stamps: VecDeque::new(),
            bandwidth_samples: VecDeque::new(),
            window_bytes: 0,
            encode_time_history: VecDeque::new(),
            pipeline_running: false,
            start_time: None,
            mdns_active: false,
        }
    }

    /// Starts over for another run of the pipeline. What describes the host
    /// and its configuration stays.
    pub fn reset_for_restart(&mut self)
        ensures
            final(self).is_fresh(),
            final(self).gpu_name@ == old(self).gpu_name@,
            final(self).capture_display@ == old(self).capture_display@,
            final(self).listen_addr@ == old(self).listen_addr@,
            final(self).target_addr@ == old(self).target_addr@,
            final(self).bitrate_bps == old(self).bitrate_bps,
            final(self).codec_name@ == old(self).codec_name@,
            final(self).using_software_fallback == old(self).using_software_fallback,
            final(self).mdns_active == old(self).mdns_active,
    {
        let mut fresh = PipelineStats::new();
        fresh.gpu_name = self.gpu_name.clone();
        fresh.capture_display = self.capture_display.clone();
        fresh.listen_addr = self.listen_addr.clone();
        fresh.target_addr = self.target_addr.clone();
        fresh.bitrate_bps = self.bitrate_bps;
        fresh.codec_name = self.codec_name.clone();
        fresh.using_software_fallback = self.using_software_fallback;
        fresh.mdns_active = self.mdns_active;
        *self = fresh;
    }

    /// Starts over for another client. The capture and encode sides stay.
    pub fn reset_connection_stats(&mut self)
        ensures
            final(self).connection_is_fresh(),
            *final(self) == (PipelineStats {
                transport_rate: final(self).transport_rate,
                transport_bytes_sent: 0,
                transport_packets_sent: 0,
                transport_fragments_sent: 0,
                latency_us: 0,
                transport_stamps: final(self).transport_stamps,
                bandwidth_samples: final(self).bandwidth_samples,
                window_bytes: 0,
                ..*old(self)
            }),
    {
        self.transport_rate = Rate { frames: 0, span_ns: 0 };
        self.transport_bytes_sent = 0;
        self.transport_packets_sent = 0;
        self.transport_fragments_sent = 0;
        self.transport_stamps.clear();
        self.bandwidth_samples.clear();
        self.window_bytes = 0;
        self.latency_us = 0;
    }

    pub fn mark_pipeline_started(&mut self, now: u64)
        ensures
            *final(self) == (PipelineStats {
                pipeline_running: true,
                start_time: Some(now),
                ..*old(self)
            }),
    {
        self.pipeline_running = true;
        self.start_time = Some(now);
    }

    pub fn mark_pipeline_stopped(&mut self)
        ensures
            *final(self) == (PipelineStats { pipeline_running: false, ..*old(self) }),
    {
        self.pipeline_running = false;
    }

    pub fn set_gpu_name(&mut self, gpu_name: String)
        ensures
            *final(self) == (PipelineStats { gpu_name, ..*old(self) }),
    {
        self.gpu_name = gpu_name;
    }

    pub fn set_capture_display(&mut self, capture_display: String)
        ensures
            *final(self) == (PipelineStats { capture_display, ..*old(self) }),
    {
        self.capture_display = capture_display;
    }

    pub fn set_target_addr(&mut self, target_addr: String)
        ensures
            *final(self) == (PipelineStats { target_addr, ..*old(self) }),
    {
        self.target_addr = target_addr;
    }

    pub fn set_listen_addr(&mut self, listen_addr: String)
        ensures
            *final(self) == (PipelineStats { listen_addr, ..*old(self) }),
    {
        self.listen_addr = listen_addr;
    }

    pub fn set_bitrate(&mut self, bitrate_bps: u32)
        ensures
            *final(self) == (PipelineStats { bitrate_bps, ..*old(self) }),
    {
        self.bitrate_bps = bitrate_bps;
    }

    pub fn set_codec_name(&mut self, codec_name: String)
        ensures
            *final(self) == (PipelineStats { codec_name, ..*old(self) }),
    {
        self.codec_name = codec_name;
    }

    pub fn set_software_fallback(&mut self, using_software_fallback: bool)
        ensures
            *final(self) == (PipelineStats { using_software_fallback, ..*old(self) }),
    {
        self.using_software_fallback = using_software_fallback;
    }

    /// Whether the counters can take one more of everything.
    pub open spec fn room(&self, bytes: u64, fragments: u64) -> bool {
        &&& self.capture_frame_count < u64::MAX
        &&& self.encode_frame_count < u64::MAX
        &&& self.transport_packets_sent < u64::MAX
        &&& self.transport_bytes_sent + bytes <= u64::MAX
        &&& self.transport_fragments_sent + fragments <= u64::MAX
    }

    /// Whether the counters can take one more of everything.
    pub fn has_room(&self, bytes: u64, fragments: u64) -> (b: bool)
        ensures
            b == self.room(bytes, fragments),
    {
        self.capture_frame_count < u64::MAX && self.encode_frame_count < u64::MAX
            && self.transport_packets_sent < u64::MAX && self.transport_bytes_sent <= u64::MAX
            - bytes && self.transport_fragments_sent <= u64::MAX - fragments
    }

    /// A frame was captured.
    pub fn record_capture(&mut self, width: u32, height: u32, now: u64)
        requires
            old(self).capture_frame_count < u64::MAX,
        ensures
            final(self).capture_stamps@ == fresh(old(self).capture_stamps@.push(now), now),
            *final(self) == (PipelineStats {
                capture_frame_count: (old(self).capture_frame_count + 1) as u64,
                capture_resolution: (width, height),
                capture_stamps: final(self).capture_stamps,
                capture_rate: rate_of(final(self).capture_stamps@),
                ..*old(self)
            }),
    {
        self.capture_frame_count = self.capture_frame_count + 1;
        self.capture_resolution = (width, height);
        self.capture_rate = calc_fps(&mut self.capture_stamps, now);
    }

    /// A frame was encoded.
    pub fn record_encode(&mut self, encode_us: u128, nal_bytes: usize, bitrate_bps: u32, now: u64)
        requires
            old(self).encode_frame_count < u64::MAX,
        ensures
            final(self).encode_stamps@ == fresh(old(self).encode_stamps@.push(now), now),
            final(self).encode_time_history@ == (if old(self).encode_time_history@.len()
                < HISTORY_LEN {
                old(self).encode_time_history@.push(encode_us)
            } else {
                old(self).encode_time_history@.push(encode_us).skip(1)
            }),
            *final(self) == (PipelineStats {
                encode_frame_count: (old(self).encode_frame_count + 1) as u64,
                encode_time_us: encode_us,
                nal_bytes_last: nal_bytes,
                bitrate_bps,
                encode_stamps: final(self).encode_stamps,
                encode_rate: rate_of(final(self).encode_stamps@),
                encode_time_history: final(self).encode_time_history,
                ..*old(self)
            }),
    {
        self.encode_frame_count = self.encode_frame_count + 1;
        self.encode_time_us = encode_us;
        self.nal_bytes_last = nal_bytes;
        self.bitrate_bps = bitrate_bps;
        self.encode_rate = calc_fps(&mut self.encode_stamps, now);
        self.encode_time_history.push_back(encode_us);
        if self.encode_time_history.len() > HISTORY_LEN {
            let ghost before = self.encode_time_history@;
            let _gone = self.encode_time_history.pop_front();
            assert(self.encode_time_history@ =~= before.skip(1));
        }
    }

    /// A frame was sent.
    pub fn record_transport(
        &mut self,
        bytes: u64,
        fragments: u64,
        latency_us: u64,
        target_addr: String,
        now: u64,
    )
        requires
            old(self).room(bytes, fragments),
        ensures
            final(self).transport_stamps@ == fresh(old(self).transport_stamps@.push(now), now),
            final(self).bandwidth_samples@ == fresh_samples(
                old(self).bandwidth_samples@.push((now, bytes)),
                now,
            ),
            final(self).window_bytes == sample_bytes(final(self).bandwidth_samples@),
            *final(self) == (PipelineStats {
                transport_packets_sent: (old(self).transport_packets_sent + 1) as u64,
                transport_fragments_sent: (old(self).transport_fragments_sent + fragments) as u64,
                transport_bytes_sent: (old(self).transport_bytes_sent + bytes) as u64,
                transport_stamps: final(self).transport_stamps,
                transport_rate: rate_of(final(self).transport_stamps@),
                latency_us,
                target_addr,
                bandwidth_samples: final(self).bandwidth_samples,
                window_bytes: final(self).window_bytes,
                ..*old(self)
            }),
    {
        self.transport_packets_sent = self.transport_packets_sent + 1;
        self.transport_fragments_sent = self.transport_fragments_sent + fragments;
        self.transport_bytes_sent = self.transport_bytes_sent + bytes;
        self.transport_rate = calc_fps(&mut self.transport_stamps, now);
        self.latency_us = latency_us;
        self.target_addr = target_addr;
        self.window_bytes = window_total(&mut self.bandwidth_samples, now, bytes);
    }

    /// How long the pipeline has run, in nanoseconds.
    pub fn uptime(&self, now: u64) -> (ns: u64)
        ensures
            ns == (match self.start_time {
                Some(t) => if now >= t {
                    (now - t) as u64
                } else {
                    0
                },
                None => 0,
            }),
    {
        match self.start_time {
            Some(t) => now.saturating_sub(t),
            None => 0,
        }
    }
}

impl Default for PipelineStats {
    fn default() -> (s: PipelineStats)
        ensures
            s.is_fresh(),
            s.listen_addr@.len() == 0 && s.gpu_name@.len() == 0 && s.capture_display@.len() == 0,
            s.codec_name@.len() == 0 && s.target_addr@.len() == 0,
            s.bitrate_bps == 0,
            !s.using_software_fallback && !s.mdns_active,
    {
        PipelineStats::new()
    }
}

/// A window never loses a moment that still lies in it: where moments come in
/// order, what is left is exactly what the window holds.
pub proof fn windows_keep_what_is_fresh(stamps: Seq<u64>, now: u64)
    requires
        forall|i: int, j: int| 0 <= i <= j < stamps.len() ==> stamps[i] <= stamps[j],
    ensures
        forall|i: int|
            0 <= i < fresh(stamps, now).len() ==> in_window(#[trigger] fresh(stamps, now)[i], now),
        forall|i: int|
            0 <= i < stamps.len() && in_window(#[trigger] stamps[i], now) ==> fresh(
                stamps,
                now,
            ).contains(stamps[i]),
    decreases stamps.len(),
{
    if stamps.len() > 0 && !in_window(stamps[0], now) {
        let rest = stamps.skip(1);
        windows_keep_what_is_fresh(rest, now);
        assert(fresh(stamps, now) == fresh(rest, now));
        assert forall|i: int| 0 <= i < stamps.len() && in_window(#[trigger] stamps[i], now) implies fresh(
            stamps,
            now,
        ).contains(stamps[i]) by {
            assert(rest[i - 1] == stamps[i]);
        }
    } else {
        assert forall|i: int| 0 <= i < stamps.len() implies in_window(#[trigger] stamps[i], now) by {
            assert(stamps[0] <= stamps[i]);
        }
        assert(fresh(stamps, now) == stamps);
        assert forall|i: int| 0 <= i < fresh(stamps, now).len() implies in_window(
            #[trigger] fresh(stamps, now)[i],
            now,
        ) by {
            assert(in_window(stamps[i], now));
        }
        assert forall|i: int| 0 <= i < stamps.len() && in_window(#[trigger] stamps[i], now) implies fresh(
            stamps,
            now,
        ).contains(stamps[i]) by {}
    }
}

/// Frames that come at even intervals have the rate that the interval says: one
/// frame for each of them.
pub proof fn even_frames_have_an_even_rate(stamps: Seq<u64>, interval: int)
    requires
        stamps.len() >= 2,
        stamps.len() <= u64::MAX,
        interval > 0,
        forall|i: int|
            0 <= i < stamps.len() ==> #[trigger] stamps[i] == stamps[0] + i * interval,
    ensures
        rate_of(stamps).frames == stamps.len() - 1,
        rate_of(stamps).frames * interval == rate_of(stamps).span_ns,
{
    let n = stamps.len() as int;
    assert(stamps[n - 1] == stamps[0] + (n - 1) * interval);
    assert((n - 1) * interval > 0) by (nonlinear_arith)
        requires
            n >= 2,
            interval > 0,
    ;
}

/// Without two moments that lie apart there is no rate.
pub proof fn single_frames_have_no_rate(stamps: Seq<u64>)
    requires
        stamps.len() < 2 || stamps.last() <= stamps[0],
    ensures
        rate_of(stamps).frames == 0 && rate_of(stamps).span_ns == 0,
{
}

/// A window holds the moments of the last second, up to its very end: where
/// moments come in order, exactly the leading ones that lie further back are
/// left out.
pub proof fn windows_hold_the_last_second(stamps: Seq<u64>, now: u64, k: int)
    requires
        0 <= k <= stamps.len(),
        forall|i: int| 0 <= i < k ==> now - #[trigger] stamps[i] > 1_000_000_000,
        forall|i: int| k <= i < stamps.len() ==> now - #[trigger] stamps[i] <= 1_000_000_000,
    ensures
        fresh(stamps, now) == stamps.skip(k),
    decreases stamps.len(),
{
    if k > 0 {
        let rest = stamps.skip(1);
        assert(now - stamps[0] > 1_000_000_000);
        assert forall|i: int| 0 <= i < k - 1 implies now - #[trigger] rest[i] > 1_000_000_000 by {
            assert(rest[i] == stamps[i + 1]);
        }
        assert forall|i: int| k - 1 <= i < rest.len() implies now - #[trigger] rest[i]
            <= 1_000_000_000 by {
            assert(rest[i] == stamps[i + 1]);
        }
        windows_hold_the_last_second(rest, now, k - 1);
        assert(rest.skip(k - 1) =~= stamps.skip(k));
    } else {
        assert(stamps.skip(0) =~= stamps);
        if stamps.len() > 0 {
            assert(now - stamps[0] <= 1_000_000_000);
        }
    }
}

/// The samples of a window are those of the last second, in the same way.
pub proof fn samples_are_of_the_last_second(samples: Seq<(u64, u64)>, now: u64, k: int)
    requires
        0 <= k <= samples.len(),
        forall|i: int| 0 <= i < k ==> now - (#[trigger] samples[i]).0 > 1_000_000_000,
        forall|i: int| k <= i < samples.len() ==> now - (#[trigger] samples[i]).0 <= 1_000_000_000,
    ensures
        fresh_samples(samples, now) == samples.skip(k),
    decreases samples.len(),
{
    if k > 0 {
        let rest = samples.skip(1);
        assert(now - samples[0].0 > 1_000_000_000);
        assert forall|i: int| 0 <= i < k - 1 implies now - (#[trigger] rest[i]).0 > 1_000_000_000 by {
            assert(rest[i] == samples[i + 1]);
        }
        assert forall|i: int| k - 1 <= i < rest.len() implies now - (#[trigger] rest[i]).0
            <= 1_000_000_000 by {
            assert(rest[i] == samples[i + 1]);
        }
        samples_are_of_the_last_second(rest, now, k - 1);
        assert(rest.skip(k - 1) =~= samples.skip(k));
    } else {
        assert(samples.skip(0) =~= samples);
        if samples.len() > 0 {
            assert(now - samples[0].0 <= 1_000_000_000);
        }
    }
}

/// The bytes of a window are those of all its samples: one sample has its own,
/// and two stretches of samples have the sum of theirs.
pub proof fn bytes_add_up(a: Seq<(u64, u64)>, b: Seq<(u64, u64)>, one: (u64, u64))
    ensures
        sample_bytes(Seq::empty()) == 0,
        sample_bytes(seq![one]) == one.1,
        sample_bytes(a + b) == sample_bytes(a) + sample_bytes(b),
    decreases b.len(),
{
    assert(sample_bytes(Seq::<(u64, u64)>::empty()) == 0);
    assert(seq![one].drop_last() =~= Seq::<(u64, u64)>::empty());
    assert(seq![one].last() == one);
    assert(sample_bytes(seq![one]) == one.1);
    if b.len() == 0 {
        assert(a + b =~= a);
    } else {
        bytes_add_up(a, b.drop_last(), one);
        assert((a + b).drop_last() =~= a + b.drop_last());
        assert((a + b).last() == b.last());
    }
}

/// Statistics that are fresh have counted nothing: no frame captured, encoded or
/// sent, no byte, no rate and no time.
pub proof fn fresh_statistics_are_empty(s: PipelineStats)
    requires
        s.is_fresh(),
    ensures
        s.capture_frame_count == 0 && s.encode_frame_count == 0 && s.transport_packets_sent == 0,
        s.transport_bytes_sent == 0 && s.transport_fragments_sent == 0 && s.window_bytes == 0,
        s.capture_rate.frames == 0 && s.encode_rate.frames == 0 && s.transport_rate.frames == 0,
        s.capture_stamps@.len() == 0 && s.encode_stamps@.len() == 0 && s.transport_stamps@.len()
            == 0,
        s.bandwidth_samples@.len() == 0 && s.encode_time_history@.len() == 0,
        s.latency_us == 0 && s.encode_time_us == 0 && s.nal_bytes_last == 0,
        s.start_time is None && !s.pipeline_running,
        s.capture_resolution == (0u32, 0u32),
{
}

} // verus!
