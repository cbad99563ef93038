//! Adaptive bitrate: a rung-ladder policy evaluated on each receiver report and
//! on each keyframe request.

use vstd::prelude::*;

use crate::wire::v2::control::ReceiverReport;

verus! {

/// Candidate bitrates, low to high. The active ladder ends at the user's
/// ceiling.
pub const LADDER_BPS: [u32; 7] = [
    4_000_000,
    6_000_000,
    8_000_000,
    10_000_000,
    12_000_000,
    15_000_000,
    20_000_000,
];

/// No second step down within this time (nanoseconds) of a step down.
pub const DOWN_COOLDOWN: u64 = 3_000_000_000;

/// No step up within this time (nanoseconds) of any step.
pub const UP_COOLDOWN: u64 = 15_000_000_000;

/// This long (nanoseconds) continuously clean before a step up.
pub const CLEAN_WINDOW: u64 = 15_000_000_000;

/// A gap between reports longer than this (nanoseconds) ends a clean streak.
pub const REPORT_STALE_AFTER: u64 = 2_000_000_000;

/// Bitrate at which a stream starts, if the ceiling allows it.
pub const START_BPS: u32 = 15_000_000;

/// A receiver that holds this many frames in its queue is congested.
pub const CONGESTED_DEPTH: u8 = 3;

/// That many keyframe requests within the window are pressure to step down.
pub const PRESSURE_REQUESTS: u32 = 3;

/// How long (nanoseconds) keyframe requests count together, from the first.
pub const PRESSURE_WINDOW: u64 = 3_000_000_000;

/// The outcome of an evaluation.
#[derive(Debug, Clone, Copy, PartialEq, Eq, Structural)]
pub struct AbrDecision {
    pub target_bps: u32,
    pub changed: bool,
}

// ---- the model -------------------------------------------------------------

/// The highest of the first `n` rungs that is at most `cap`; the lowest rung
/// if none is.
pub open spec fn rung_at_most(cap: u32, n: int) -> u32
    decreases n,
{
    if n <= 1 {
        LADDER_BPS@[0]
    } else if LADDER_BPS@[n - 1] <= cap {
        LADDER_BPS@[n - 1]
    } else {
        rung_at_most(cap, n - 1)
    }
}

/// The nearest rung at or below `bps`, capped by the ceiling.
pub open spec fn clamped(bps: u32, ceiling: u32) -> u32 {
    rung_at_most(
        if bps <= ceiling {
            bps
        } else {
            ceiling
        },
        7,
    )
}

/// The first of the rungs from `i` on that is at least `from`; the last rung
/// if none is.
pub open spec fn rung_index(from: u32, i: int) -> int
    decreases 7 - i,
{
    if i >= 6 || LADDER_BPS@[i] >= from {
        i
    } else {
        rung_index(from, i + 1)
    }
}

/// The rung that lies `rungs` above (or below) `from`, within the ladder and
/// the ceiling.
pub open spec fn stepped(from: u32, rungs: int, ceiling: u32) -> u32 {
    let wanted = rung_index(from, 0) + rungs;
    let index = if wanted < 0 {
        0
    } else if wanted > 6 {
        6
    } else {
        wanted
    };
    let top = clamped(u32::MAX, ceiling);
    if LADDER_BPS@[index] <= top {
        LADDER_BPS@[index]
    } else {
        top
    }
}

/// The state of the controller.
pub struct AbrView {
    pub enabled: bool,
    pub ceiling_bps: u32,
    pub current_bps: u32,
    /// When the bitrate last changed, and whether it went down.
    pub last_change: Option<(u64, bool)>,
    pub clean_since: Option<u64>,
    pub last_report_at: Option<u64>,
    /// Fragments received and lost, as of the last report.
    pub prev_cumulative: Option<(u32, u32)>,
    /// When the first of the keyframe requests that count together came, and
    /// how many there are.
    pub requests: Option<(u64, u32)>,
}

/// Whether a bitrate is a rung of the ladder.
pub open spec fn is_rung(bps: u32) -> bool {
    exists|i: int| 0 <= i < 7 && #[trigger] LADDER_BPS@[i] == bps
}

/// What every controller satisfies: it stands on a rung that the ceiling
/// allows (the lowest rung is always allowed), and no pressure is left unheeded.
pub open spec fn abr_ok(s: AbrView) -> bool {
    &&& is_rung(s.current_bps)
    &&& s.current_bps <= clamped(u32::MAX, s.ceiling_bps)
    &&& s.requests matches Some((_, count)) ==> count < PRESSURE_REQUESTS
}

/// By how much a cumulative counter has grown; 0 where it went back.
pub open spec fn growth(now: u32, before: u32) -> int {
    if now >= before {
        now - before
    } else {
        0
    }
}

/// Fragments received and lost since the last report.
pub open spec fn interval(s: AbrView, report: ReceiverReport) -> (int, int) {
    match s.prev_cumulative {
        Some((received, lost)) => (
            growth(report.frags_received, received),
            growth(report.frags_lost, lost),
        ),
        None => (report.frags_received as int, report.frags_lost as int),
    }
}

/// How many rungs to go down: two where more than a tenth of the fragments was
/// lost, one where more than a fiftieth was, or where the queue is congested.
pub open spec fn down_rungs(received: int, lost: int, depth: u8) -> int {
    if 10 * lost > received + lost {
        2
    } else if 50 * lost > received + lost || depth >= CONGESTED_DEPTH {
        1
    } else {
        0
    }
}

/// Whether an interval is clean: less than one fragment in two hundred was
/// lost.
pub open spec fn is_clean(received: int, lost: int) -> bool {
    lost == 0 || 200 * lost < received + lost
}

/// The state once the counters and the time of a report are taken in. A stale
/// gap between reports ends the clean streak.
pub open spec fn noted(s: AbrView, report: ReceiverReport, now: u64) -> AbrView {
    AbrView {
        prev_cumulative: Some((report.frags_received, report.frags_lost)),
        last_report_at: Some(now),
        clean_since: match s.last_report_at {
            Some(last) => if now > last + REPORT_STALE_AFTER {
                None
            } else {
                s.clean_since
            },
            None => s.clean_since,
        },
        ..s
    }
}

/// The state and decision with the bitrate left as it is.
pub open spec fn stay(s: AbrView) -> (AbrView, AbrDecision) {
    (s, AbrDecision { target_bps: s.current_bps, changed: false })
}

/// The state and decision with the bitrate moved to `target`.
pub open spec fn moved(s: AbrView, target: u32, now: u64, down: bool) -> (AbrView, AbrDecision) {
    (
        AbrView { current_bps: target, last_change: Some((now, down)), ..s },
        AbrDecision { target_bps: target, changed: true },
    )
}

/// Whether a step down is too soon after the last one.
pub open spec fn in_down_cooldown(s: AbrView, now: u64) -> bool {
    s.last_change matches Some((when, down)) && down && now < when + DOWN_COOLDOWN
}

/// Whether enough time has passed since any step for a step up.
pub open spec fn up_cooldown_over(s: AbrView, now: u64) -> bool {
    s.last_change matches Some((when, _)) ==> now >= when + UP_COOLDOWN
}

/// One receiver report. Loss or a congested queue ends the clean streak and
/// steps down; a clean window steps up one rung.
pub open spec fn report_step(s: AbrView, report: ReceiverReport, now: u64) -> (
    AbrView,
    AbrDecision,
) {
    let (received, lost) = interval(s, report);
    let n = noted(s, report, now);
    let down = down_rungs(received, lost, report.assembler_depth);
    if !s.enabled {
        stay(s)
    } else if down > 0 {
        let u = AbrView { clean_since: None, ..n };
        let target = stepped(s.current_bps, -down, s.ceiling_bps);
        if in_down_cooldown(s, now) || target == s.current_bps {
            stay(u)
        } else {
            moved(u, target, now, true)
        }
    } else if is_clean(received, lost) {
        let since = match n.clean_since {
            Some(t) => t,
            None => now,
        };
        let u = AbrView { clean_since: Some(since), ..n };
        let target = stepped(s.current_bps, 1, s.ceiling_bps);
        if now >= since + CLEAN_WINDOW && up_cooldown_over(s, now) && target != s.current_bps {
            moved(AbrView { clean_since: Some(now), ..u }, target, now, false)
        } else {
            stay(u)
        }
    } else {
        stay(AbrView { clean_since: None, ..n })
    }
}

/// The keyframe requests that count together once one more has come.
pub open spec fn with_request(requests: Option<(u64, u32)>, now: u64) -> (u64, u32) {
    match requests {
        Some((first, count)) if now < first + PRESSURE_WINDOW => (first, (count + 1) as u32),
        _ => (now, 1),
    }
}

/// One keyframe request. Where enough of them have come together, that is
/// pressure: it ends the clean streak and steps down one rung, and the count
/// begins anew.
pub open spec fn request_step(s: AbrView, now: u64) -> (AbrView, AbrDecision) {
    let (first, count) = with_request(s.requests, now);
    if !s.enabled {
        stay(s)
    } else if count < PRESSURE_REQUESTS {
        stay(AbrView { requests: Some((first, count)), ..s })
    } else {
        let u = AbrView { requests: None, clean_since: None, ..s };
        let target = stepped(s.current_bps, -1, s.ceiling_bps);
        if in_down_cooldown(s, now) || target == s.current_bps {
            stay(u)
        } else {
            moved(u, target, now, true)
        }
    }
}

/// What a client lets the controller know.
pub enum Feedback {
    Report(ReceiverReport),
    KeyframeRequest,
}

/// What the controller makes of it.
pub open spec fn feedback_step(s: AbrView, f: Feedback, now: u64) -> (AbrView, AbrDecision) {
    match f {
        Feedback::Report(report) => report_step(s, report, now),
        Feedback::KeyframeRequest => request_step(s, now),
    }
}

// ---- the controller --------------------------------------------------------

/// The adaptive bitrate controller.
pub struct AbrController {
    enabled: bool,
    ceiling_bps: u32,
    current_bps: u32,
    last_change: Option<(u64, bool)>,
    clean_since: Option<u64>,
    last_report_at: Option<u64>,
    prev_cumulative: Option<(u32, u32)>,
    requests: Option<(u64, u32)>,
}

impl View for AbrController {
    type V = AbrView;

    closed spec fn view(&self) -> AbrView {
        AbrView {
            enabled: self.enabled,
            ceiling_bps: self.ceiling_bps,
            current_bps: self.current_bps,
            last_change: self.last_change,
            clean_since: self.clean_since,
            last_report_at: self.last_report_at,
            prev_cumulative: self.prev_cumulative,
            requests: self.requests,
        }
    }
}

proof fn rung_at_most_is_rung(cap: u32, n: int)
    requires
        n <= 7,
    ensures
        is_rung(rung_at_most(cap, n)),
        rung_at_most(cap, n) <= cap || rung_at_most(cap, n) == LADDER_BPS@[0],
        rung_at_most(cap, n) >= LADDER_BPS@[0],
    decreases n,
{
    if n > 1 && LADDER_BPS@[n - 1] > cap {
        rung_at_most_is_rung(cap, n - 1);
    }
}

proof fn rung_at_most_is_monotone(a: u32, b: u32, n: int)
    requires
        a <= b,
        n <= 7,
    ensures
        rung_at_most(a, n) <= rung_at_most(b, n),
    decreases n,
{
    if n > 1 {
        rung_at_most_is_monotone(a, b, n - 1);
        rung_below_next(a, n);
        rung_at_most_is_rung(b, n - 1);
    }
}

proof fn rung_below_next(a: u32, n: int)
    requires
        1 < n <= 7,
    ensures
        rung_at_most(a, n - 1) <= LADDER_BPS@[n - 1],
    decreases n,
{
    if n > 2 {
        rung_below_next(a, n - 1);
        assert(LADDER_BPS@[n - 2] <= LADDER_BPS@[n - 1]);
    }
}

proof fn rung_index_bounds(from: u32, i: int)
    requires
        0 <= i <= 6,
    ensures
        i <= rung_index(from, i) <= 6,
    decreases 7 - i,
{
    if i < 6 && LADDER_BPS@[i] < from {
        rung_index_bounds(from, i + 1);
    }
}

fn clamp_to_ladder(bps: u32, ceiling: u32) -> (r: u32)
    ensures
        r == clamped(bps, ceiling),
{
    let cap: u32 = if bps <= ceiling {
        bps
    } else {
        ceiling
    };
    let ladder: [u32; 7] = LADDER_BPS;
    let mut n: usize = 7;
    while n > 1 && ladder[n - 1] > cap
        invariant
            1 <= n <= 7,
            ladder@ == LADDER_BPS@,
            rung_at_most(cap, n as int) == rung_at_most(cap, 7),
        decreases n,
    {
        n -= 1;
    }
    ladder[n - 1]
}

fn step(from: u32, rungs: i32, ceiling: u32) -> (r: u32)
    requires
        -2 <= rungs <= 1,
    ensures
        r == stepped(from, rungs as int, ceiling),
{
    let ladder: [u32; 7] = LADDER_BPS;
    let mut i: usize = 0;
    while i < 6 && ladder[i] < from
        invariant
            i <= 6,
            ladder@ == LADDER_BPS@,
            rung_index(from, i as int) == rung_index(from, 0),
        decreases 6 - i,
    {
        i += 1;
    }
    let wanted: i32 = i as i32 + rungs;
    let index: usize = if wanted < 0 {
        0
    } else if wanted > 6 {
        6
    } else {
        wanted as usize
    };
    let top: u32 = clamp_to_ladder(u32::MAX, ceiling);
    if ladder[index] <= top {
        ladder[index]
    } else {
        top
    }
}

proof fn stepped_is_allowed(from: u32, rungs: int, ceiling: u32)
    ensures
        is_rung(stepped(from, rungs, ceiling)),
        stepped(from, rungs, ceiling) <= clamped(u32::MAX, ceiling),
{
    rung_index_bounds(from, 0);
    rung_at_most_is_rung(
        if u32::MAX <= ceiling {
            u32::MAX
        } else {
            ceiling
        },
        7,
    );
}

impl AbrController {
    /// What every controller satisfies.
    pub open spec fn ok(&self) -> bool {
        abr_ok(self@)
    }

    /// A controller that starts at the ceiling or at 15 Mbps, whichever is
    /// lower, on the nearest rung.
    pub fn new(ceiling_bps: u32, enabled: bool) -> (c: AbrController)
        ensures
            c.ok(),
            c@ == (AbrView {
                enabled,
                ceiling_bps,
                current_bps: clamped(START_BPS, ceiling_bps),
                last_change: None,
                clean_since: None,
                last_report_at: None,
                prev_cumulative: None,
                requests: None,
            }),
    {
        let start: u32 = clamp_to_ladder(START_BPS, ceiling_bps);
        proof {
            let cap = if START_BPS <= ceiling_bps {
                START_BPS
            } else {
                ceiling_bps
            };
            rung_at_most_is_rung(cap, 7);
            rung_at_most_is_monotone(cap, ceiling_bps, 7);
        }
        AbrController {
            enabled,
            ceiling_bps,
            current_bps: start,
            last_change: None,
            clean_since: None,
            last_report_at: None,
            prev_cumulative: None,
            requests: None,
        }
    }

    /// The bitrate in force.
    pub fn current_bps(&self) -> (bps: u32)
        ensures
            bps == self@.current_bps,
    {
        self.current_bps
    }

    /// The user moved the ceiling: the bitrate is clamped at once.
    pub fn set_ceiling(&mut self, ceiling_bps: u32) -> (d: AbrDecision)
        requires
            old(self).ok(),
        ensures
            final(self).ok(),
            final(self)@ == (AbrView {
                ceiling_bps,
                current_bps: clamped(old(self)@.current_bps, ceiling_bps),
                ..old(self)@
            }),
            d.target_bps == final(self)@.current_bps,
            d.changed == (final(self)@.current_bps != old(self)@.current_bps),
    {
        self.ceiling_bps = ceiling_bps;
        let target: u32 = clamp_to_ladder(self.current_bps, ceiling_bps);
        proof {
            let cap = if self.current_bps <= ceiling_bps {
                self.current_bps
            } else {
                ceiling_bps
            };
            rung_at_most_is_rung(cap, 7);
            rung_at_most_is_monotone(cap, ceiling_bps, 7);
        }
        let changed = target != self.current_bps;
        self.current_bps = target;
        AbrDecision { target_bps: target, changed }
    }

    /// Evaluates one receiver report. Its counters are cumulative.
    pub fn on_report(&mut self, report: &ReceiverReport, now: u64) -> (d: AbrDecision)
        requires
            old(self).ok(),
        ensures
            final(self).ok(),
            (final(self)@, d) == report_step(old(self)@, *report, now),
    {
        let unchanged = AbrDecision { target_bps: self.current_bps, changed: false };
        if !self.enabled {
            return unchanged;
        }
        let (received, lost): (u32, u32) = match self.prev_cumulative {
            Some((prev_received, prev_lost)) => (
                report.frags_received.saturating_sub(prev_received),
                report.frags_lost.saturating_sub(prev_lost),
            ),
            None => (report.frags_received, report.frags_lost),
        };
        self.prev_cumulative = Some((report.frags_received, report.frags_lost));
        if let Some(last) = self.last_report_at {
            if now > last && now - last > REPORT_STALE_AFTER {
                self.clean_since = None;
            }
        }
        self.last_report_at = Some(now);
        let total: u64 = received as u64 + lost as u64;
        let congested = report.assembler_depth >= CONGESTED_DEPTH;
        let down: i32 = if 10 * (lost as u64) > total {
            2
        } else if 50 * (lost as u64) > total || congested {
            1
        } else {
            0
        };
        if down > 0 {
            self.clean_since = None;
            let in_cooldown = match self.last_change {
                Some((when, was_down)) => was_down && (now < when || now - when < DOWN_COOLDOWN),
                None => false,
            };
            if !in_cooldown {
                let target: u32 = step(self.current_bps, -down, self.ceiling_bps);
                proof {
                    stepped_is_allowed(self.current_bps, -down as int, self.ceiling_bps);
                }
                if target != self.current_bps {
                    self.current_bps = target;
                    self.last_change = Some((now, true));
                    return AbrDecision { target_bps: target, changed: true };
                }
            }
            return unchanged;
        }
        if lost == 0 || 200 * (lost as u64) < total {
            let since: u64 = match self.clean_since {
                Some(t) => t,
                None => now,
            };
            self.clean_since = Some(since);
            let cooldown_over = match self.last_change {
                Some((when, _)) => now >= when && now - when >= UP_COOLDOWN,
                None => true,
            };
            if now >= since && now - since >= CLEAN_WINDOW && cooldown_over {
                let target: u32 = step(self.current_bps, 1, self.ceiling_bps);
                proof {
                    stepped_is_allowed(self.current_bps, 1, self.ceiling_bps);
                }
                if target != self.current_bps {
                    self.current_bps = target;
                    self.last_change = Some((now, false));
                    self.clean_since = Some(now);
                    return AbrDecision { target_bps: target, changed: true };
                }
            }
        } else {
            self.clean_since = None;
        }
        unchanged
    }

    /// Takes note of one keyframe request of the client, whether or not it was
    /// honored.
    pub fn on_keyframe_request(&mut self, now: u64) -> (d: AbrDecision)
        requires
            old(self).ok(),
        ensures
            final(self).ok(),
            (final(self)@, d) == request_step(old(self)@, now),
    {
        let unchanged = AbrDecision { target_bps: self.current_bps, changed: false };
        if !self.enabled {
            return unchanged;
        }
        let (first, count): (u64, u32) = match self.requests {
            Some((first, count)) => if now < first || now - first < PRESSURE_WINDOW {
                (first, count + 1)
            } else {
                (now, 1)
            },
            None => (now, 1),
        };
        if count < PRESSURE_REQUESTS {
            self.requests = Some((first, count));
            return unchanged;
        }
        self.requests = None;
        self.clean_since = None;
        let in_cooldown = match self.last_change {
            Some((when, was_down)) => was_down && (now < when || now - when < DOWN_COOLDOWN),
            None => false,
        };
        if in_cooldown {
            return unchanged;
        }
        let target: u32 = step(self.current_bps, -1, self.ceiling_bps);
        proof {
            stepped_is_allowed(self.current_bps, -1, self.ceiling_bps);
        }
        if target == self.current_bps {
            return unchanged;
        }
        self.current_bps = target;
        self.last_change = Some((now, true));
        AbrDecision { target_bps: target, changed: true }
    }
}

// ---- laws ------------------------------------------------------------------

/// Whatever the client lets know, the bitrate stays on a rung of the ladder
/// that the ceiling allows.
pub proof fn bitrate_stays_on_the_ladder(s: AbrView, f: Feedback, now: u64)
    requires
        abr_ok(s),
    ensures
        abr_ok(feedback_step(s, f, now).0),
{
    if let Feedback::Report(report) = f {
        let (received, lost) = interval(s, report);
        stepped_is_allowed(
            s.current_bps,
            -down_rungs(received, lost, report.assembler_depth),
            s.ceiling_bps,
        );
        stepped_is_allowed(s.current_bps, 1, s.ceiling_bps);
    } else {
        stepped_is_allowed(s.current_bps, -1, s.ceiling_bps);
    }
}

/// The rung of a bitrate on the ladder is found.
proof fn rung_index_finds(bps: u32, i: int, k: int)
    requires
        0 <= i <= k < 7,
        LADDER_BPS@[k] == bps,
    ensures
        rung_index(bps, i) == k,
    decreases k - i,
{
    if i < k {
        rungs_ascend(i, k);
        rung_index_finds(bps, i + 1, k);
    }
}

proof fn rungs_ascend(i: int, k: int)
    requires
        0 <= i < k < 7,
    ensures
        LADDER_BPS@[i] < LADDER_BPS@[k],
    decreases k - i,
{
    if i + 1 < k {
        rungs_ascend(i + 1, k);
    }
    assert(LADDER_BPS@[i] < LADDER_BPS@[i + 1]);
}

/// Loss and congestion never raise the bitrate, and a clean interval never
/// lowers it; a decision says that it changed exactly where it did.
pub proof fn steps_go_the_right_way(s: AbrView, report: ReceiverReport, now: u64)
    requires
        abr_ok(s),
    ensures
        ({
            let (received, lost) = interval(s, report);
            let down = down_rungs(received, lost, report.assembler_depth);
            let (t, d) = report_step(s, report, now);
            &&& d.target_bps == t.current_bps
            &&& d.changed <==> t.current_bps != s.current_bps
            &&& down > 0 ==> t.current_bps <= s.current_bps
            &&& down == 0 ==> t.current_bps >= s.current_bps
        }),
{
    let k = choose|i: int| 0 <= i < 7 && #[trigger] LADDER_BPS@[i] == s.current_bps;
    rung_index_finds(s.current_bps, 0, k);
    let (received, lost) = interval(s, report);
    let down = down_rungs(received, lost, report.assembler_depth);
    if down > 0 {
        let lower = if k - down < 0 {
            0
        } else {
            k - down
        };
        if lower < k {
            rungs_ascend(lower, k);
        }
    } else if k < 6 {
        rungs_ascend(k, k + 1);
    }
}

/// Keyframe requests never raise the bitrate; the decision says that it changed
/// exactly where it did.
pub proof fn requests_never_raise(s: AbrView, now: u64)
    requires
        abr_ok(s),
    ensures
        ({
            let (t, d) = request_step(s, now);
            &&& d.target_bps == t.current_bps
            &&& d.changed <==> t.current_bps != s.current_bps
            &&& t.current_bps <= s.current_bps
        }),
{
    let k = choose|i: int| 0 <= i < 7 && #[trigger] LADDER_BPS@[i] == s.current_bps;
    rung_index_finds(s.current_bps, 0, k);
    if k > 0 {
        rungs_ascend(k - 1, k);
    }
}

/// Keyframe-request pressure steps the bitrate down: after the first of the
/// requests that make it the bitrate is as before, after the second too, and
/// with the third it goes down one rung, where no cooldown holds it and there
/// is a rung below.
pub proof fn request_pressure_steps_down(s: AbrView, first: u64, second: u64, third: u64)
    requires
        abr_ok(s),
        s.enabled,
        s.requests is None,
        first <= second <= third < first + PRESSURE_WINDOW,
        !in_down_cooldown(s, third),
        s.current_bps > LADDER_BPS@[0],
    ensures
        ({
            let one = request_step(s, first);
            let two = request_step(one.0, second);
            let three = request_step(two.0, third);
            &&& !one.1.changed && one.0.current_bps == s.current_bps
            &&& !two.1.changed && two.0.current_bps == s.current_bps
            &&& three.1.changed && three.0.current_bps == stepped(
                s.current_bps,
                -1,
                s.ceiling_bps,
            )
            &&& three.0.current_bps < s.current_bps
        }),
{
    let k = choose|i: int| 0 <= i < 7 && #[trigger] LADDER_BPS@[i] == s.current_bps;
    rung_index_finds(s.current_bps, 0, k);
    rungs_ascend(k - 1, k);
}

/// A controller that is switched off never adapts.
pub proof fn disabled_never_adapts(s: AbrView, f: Feedback, now: u64)
    requires
        !s.enabled,
    ensures
        feedback_step(s, f, now) == stay(s),
{
}

/// After a step down no further one follows within the cooldown, however bad
/// the reports are and however many keyframes are asked for.
pub proof fn down_steps_are_spaced(
    s: AbrView,
    first: Feedback,
    now: u64,
    second: Feedback,
    later: u64,
)
    requires
        abr_ok(s),
        feedback_step(s, first, now).1.changed,
        feedback_step(s, first, now).0.current_bps < s.current_bps,
        later < now + DOWN_COOLDOWN,
    ensures
        feedback_step(feedback_step(s, first, now).0, second, later).0.current_bps
            >= feedback_step(s, first, now).0.current_bps,
{
    bitrate_stays_on_the_ladder(s, first, now);
    let t = feedback_step(s, first, now).0;
    if let Feedback::Report(report) = first {
        steps_go_the_right_way(s, report, now);
    }
    if let Feedback::Report(report) = second {
        steps_go_the_right_way(t, report, later);
    }
}

/// A step up needs a clean streak of the whole window and the cooldown since
/// any step.
pub proof fn up_steps_need_a_clean_window(s: AbrView, report: ReceiverReport, now: u64)
    requires
        abr_ok(s),
        report_step(s, report, now).0.current_bps > s.current_bps,
    ensures
        s.clean_since matches Some(since) && now >= since + CLEAN_WINDOW,
        s.last_report_at matches Some(last) ==> now <= last + REPORT_STALE_AFTER,
        s.last_change matches Some((when, _)) ==> now >= when + UP_COOLDOWN,
        up_cooldown_over(s, now),
{
    steps_go_the_right_way(s, report, now);
}

/// After a step, up or down, no step up follows within the cooldown.
pub proof fn up_steps_are_spaced(
    s: AbrView,
    first: Feedback,
    now: u64,
    second: Feedback,
    later: u64,
)
    requires
        abr_ok(s),
        feedback_step(s, first, now).1.changed,
        later < now + UP_COOLDOWN,
    ensures
        feedback_step(feedback_step(s, first, now).0, second, later).0.current_bps
            <= feedback_step(s, first, now).0.current_bps,
{
    bitrate_stays_on_the_ladder(s, first, now);
    let t = feedback_step(s, first, now).0;
    match second {
        Feedback::Report(report) => steps_go_the_right_way(t, report, later),
        Feedback::KeyframeRequest => requests_never_raise(t, later),
    }
}

/// By how much a receiver's cumulative counters have grown with a report, since
/// the one before (since nothing, for the first one). Counters that went back
/// have not grown.
pub open spec fn grew_by(before: Option<(u32, u32)>, report: ReceiverReport, received: int, lost: int) -> bool {
    let (r0, l0) = match before {
        Some((r, l)) => (r as int, l as int),
        None => (0, 0),
    };
    &&& received >= 0 && lost >= 0
    &&& report.frags_received >= r0 ==> r0 + received == report.frags_received
    &&& report.frags_received < r0 ==> received == 0
    &&& report.frags_lost >= l0 ==> l0 + lost == report.frags_lost
    &&& report.frags_lost < l0 ==> lost == 0
}

/// A clean link steps up: a controller that is switched on, stands below a rung
/// that the ceiling allows, has seen clean reports without a stale gap for the
/// whole window and has not changed the bitrate for the cooldown, or never,
/// answers a clean report with the next higher rung.
pub proof fn clean_links_step_up(
    s: AbrView,
    report: ReceiverReport,
    received: int,
    lost: int,
    since: u64,
    rung: int,
    now: u64,
)
    requires
        abr_ok(s),
        s.enabled,
        0 <= rung < 7,
        s.current_bps < LADDER_BPS@[rung] <= s.ceiling_bps,
        s.clean_since == Some(since),
        now >= since + CLEAN_WINDOW,
        s.last_report_at is None || now <= s.last_report_at->0 + REPORT_STALE_AFTER,
        s.last_change is None || now >= (s.last_change->0).0 + UP_COOLDOWN,
        grew_by(s.prev_cumulative, report, received, lost),
        lost == 0 || 200 * lost < received + lost,
        report.assembler_depth < CONGESTED_DEPTH,
    ensures
        ({
            let (t, d) = report_step(s, report, now);
            &&& d.changed
            &&& t.current_bps == d.target_bps
            &&& s.current_bps < d.target_bps <= LADDER_BPS@[rung]
            &&& is_rung(d.target_bps)
            &&& forall|i: int|
                0 <= i < 7 ==> !(s.current_bps < #[trigger] LADDER_BPS@[i] < d.target_bps)
        }),
{
    let k = choose|i: int| 0 <= i < 7 && #[trigger] LADDER_BPS@[i] == s.current_bps;
    rung_index_finds(s.current_bps, 0, k);
    if rung <= k {
        if rung < k {
            rungs_ascend(rung, k);
        }
    }
    assert(k < rung);
    rungs_ascend(k, k + 1);
    if k + 1 < rung {
        rungs_ascend(k + 1, rung);
    }
    let cap = if u32::MAX <= s.ceiling_bps {
        u32::MAX
    } else {
        s.ceiling_bps
    };
    allowed_rungs_are_reached(cap, k + 1, 7);
    assert(interval(s, report) == (received, lost));
    assert forall|i: int| 0 <= i < 7 implies !(s.current_bps < #[trigger] LADDER_BPS@[i]
        < LADDER_BPS@[k + 1]) by {
        if i < k {
            rungs_ascend(i, k);
        } else if i > k + 1 {
            rungs_ascend(k + 1, i);
        }
    }
}

/// A rung that a cap allows is not above the highest one that it allows.
proof fn allowed_rungs_are_reached(cap: u32, rung: int, n: int)
    requires
        0 <= rung < n <= 7,
        LADDER_BPS@[rung] <= cap,
    ensures
        rung_at_most(cap, n) >= LADDER_BPS@[rung],
    decreases n,
{
    if n > 1 {
        if LADDER_BPS@[n - 1] <= cap {
            if rung < n - 1 {
                rungs_ascend(rung, n - 1);
            }
        } else {
            allowed_rungs_are_reached(cap, rung, n - 1);
        }
    }
}

/// A bad link steps down, unless a step down is still in its cooldown: by two
/// rungs where more than a tenth of the fragments since the last report was
/// lost, by one where more than a fiftieth was, or where the receiver's queue is
/// congested; at the lowest rung it stays. A link that is neither bad nor clean
/// keeps the bitrate. All of these end the clean streak.
pub proof fn bad_links_step_down(
    s: AbrView,
    report: ReceiverReport,
    received: int,
    lost: int,
    rung: int,
    now: u64,
)
    requires
        abr_ok(s),
        s.enabled,
        0 <= rung < 7,
        s.current_bps == LADDER_BPS@[rung],
        grew_by(s.prev_cumulative, report, received, lost),
    ensures
        ({
            let (t, d) = report_step(s, report, now);
            let severe = 10 * lost > received + lost;
            let mild = 50 * lost > received + lost || report.assembler_depth >= CONGESTED_DEPTH;
            let clean = lost == 0 || 200 * lost < received + lost;
            let rungs = if severe {
                2int
            } else {
                1
            };
            let lower = if rung >= rungs {
                rung - rungs
            } else {
                0
            };
            let cooling = s.last_change is Some && (s.last_change->0).1 && now
                < (s.last_change->0).0 + DOWN_COOLDOWN;
            &&& t.prev_cumulative == Some((report.frags_received, report.frags_lost))
            &&& t.last_report_at == Some(now)
            &&& severe || mild ==> {
                &&& t.clean_since is None
                &&& t.current_bps == (if cooling {
                    s.current_bps
                } else {
                    LADDER_BPS@[lower]
                })
                &&& d.changed == (!cooling && rung > 0)
                &&& d.changed ==> t.last_change == Some((now, true))
                &&& !d.changed ==> t.last_change == s.last_change
            }
            &&& !severe && !mild && !clean ==> {
                &&& t.clean_since is None
                &&& !d.changed && t.current_bps == s.current_bps
            }
            &&& d.target_bps == t.current_bps
        }),
{
    rung_index_finds(s.current_bps, 0, rung);
    assert(interval(s, report) == (received, lost));
    let n: int = if 10 * lost > received + lost {
        2
    } else {
        1
    };
    if rung > 0 {
        let lower = if rung >= n {
            rung - n
        } else {
            0
        };
        rungs_ascend(lower, rung);
    }
}

/// Whether reports come one after the other without a stale gap, and each of
/// them is clean: nothing was lost, and the queue is not congested.
pub open spec fn all_clean(s: AbrView, reports: Seq<(ReceiverReport, u64)>) -> bool {
    &&& forall|i: int|
        0 <= i < reports.len() ==> (#[trigger] reports[i]).0.frags_lost == (match s.prev_cumulative {
            Some((_, lost)) => lost,
            None => 0,
        }) && reports[i].0.assembler_depth < CONGESTED_DEPTH
    &&& forall|i: int, j: int|
        0 <= i < j < reports.len() ==> (#[trigger] reports[i]).1 <= (#[trigger] reports[j]).1
    &&& forall|i: int|
        0 < i < reports.len() ==> (#[trigger] reports[i]).1 <= reports[i - 1].1
            + REPORT_STALE_AFTER
}

/// The state after some reports.
pub open spec fn reported(s: AbrView, reports: Seq<(ReceiverReport, u64)>) -> AbrView
    decreases reports.len(),
{
    if reports.len() == 0 {
        s
    } else {
        report_step(reported(s, reports.drop_last()), reports.last().0, reports.last().1).0
    }
}

/// A clean streak counts from its first report, for as long as it has not been
/// rewarded: until the window is over nothing changes, and the streak's age is
/// what has passed since that report. With [`clean_links_step_up`], a stream of
/// clean reports steps up after exactly the window.
pub proof fn streaks_count_from_their_first_report(
    s: AbrView,
    reports: Seq<(ReceiverReport, u64)>,
)
    requires
        abr_ok(s),
        s.enabled,
        s.clean_since is None,
        reports.len() > 0,
        all_clean(s, reports),
        reports.last().1 < reports[0].1 + CLEAN_WINDOW,
    ensures
        reported(s, reports).clean_since == Some(reports[0].1),
        reported(s, reports).last_report_at == Some(reports.last().1),
        reported(s, reports).current_bps == s.current_bps,
        reported(s, reports).last_change == s.last_change,
        reported(s, reports).enabled && reported(s, reports).ceiling_bps == s.ceiling_bps,
        reported(s, reports).prev_cumulative == Some(
            (reports.last().0.frags_received, reports.last().0.frags_lost),
        ),
        abr_ok(reported(s, reports)),
    decreases reports.len(),
{
    let rest = reports.drop_last();
    assert(reports[reports.len() - 1] == reports.last());
    if rest.len() > 0 {
        assert forall|i: int| 0 <= i < rest.len() implies #[trigger] rest[i] == reports[i] by {}
        assert(rest[rest.len() - 1] == rest.last());
        assert(reports[rest.len() - 1].1 <= reports[rest.len() as int].1);
        streaks_count_from_their_first_report(s, rest);
    } else {
        assert(reported(s, rest) == s);
    }
    let before = reported(s, rest);
    bitrate_stays_on_the_ladder(before, Feedback::Report(reports.last().0), reports.last().1);
}

/// A bitrate under a ceiling is the highest rung that is above neither; where
/// even the lowest rung is, it is the lowest.
pub proof fn ceilings_leave_the_best_rung(bps: u32, ceiling: u32, i: int)
    requires
        0 <= i < 7,
    ensures
        is_rung(clamped(bps, ceiling)),
        LADDER_BPS@[i] <= bps && LADDER_BPS@[i] <= ceiling ==> LADDER_BPS@[i] <= clamped(
            bps,
            ceiling,
        ) && clamped(bps, ceiling) <= bps && clamped(bps, ceiling) <= ceiling,
        bps < LADDER_BPS@[0] || ceiling < LADDER_BPS@[0] ==> clamped(bps, ceiling)
            == LADDER_BPS@[0],
{
    let cap = if bps <= ceiling {
        bps
    } else {
        ceiling
    };
    rung_at_most_is_rung(cap, 7);
    if LADDER_BPS@[i] <= cap {
        allowed_rungs_are_reached(cap, i, 7);
        if i > 0 {
            rungs_ascend(0, i);
        }
    }
}

/// Requests count together only within the window of the first of them: one that
/// comes later starts a new count, and changes nothing.
pub proof fn scattered_requests_are_no_pressure(s: AbrView, now: u64)
    requires
        abr_ok(s),
        s.requests is None || now >= (s.requests->0).0 + PRESSURE_WINDOW,
    ensures
        !request_step(s, now).1.changed,
        request_step(s, now).0.current_bps == s.current_bps,
        request_step(s, now).0.clean_since == s.clean_since,
        s.enabled ==> request_step(s, now).0.requests == Some((now, 1u32)),
{
}

} // verus!
