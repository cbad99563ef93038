//! The loop that captures the desktop: what it does with a fresh picture, with
//! none, and with a lost duplication. The loop itself belongs to whoever talks
//! to the display; its decisions are made here.

use vstd::prelude::*;
use vstd::string::StringExecFns;

use crate::host::capture::cursor;
use crate::host::capture::cursor::{draw_cursor, CursorState, Pointer};
use crate::host::capture::{frame_budget, frame_budget_for, OutputInfo, RawFrame, IDLE_KEEPALIVE};
use crate::text;
use crate::text::{characters, eq_ignore_case, push_decimal, trim, utf16_to_string};

verus! {

/// How long to wait for a fresh picture, in milliseconds.
pub const ACQUIRE_TIMEOUT_MS: u32 = 16;

/// How often a lost duplication is asked for again.
pub const REACQUIRE_ATTEMPTS: usize = 15;

/// What the error says once a lost duplication is given up.
pub const REACQUIRE_FAILED: &'static str =
    "desktop duplication could not be reacquired after ~20s of retries";

/// What is captured where no output can be listed.
pub const AUTO_LABEL: &'static str = "primary (auto)";

// ---- outputs ---------------------------------------------------------------

/// An output as the display system describes it.
#[derive(Debug)]
pub struct OutputDesc {
    pub adapter_index: u32,
    pub output_index: u32,
    /// The name, ended by a zero.
    pub device_name: Vec<u16>,
    /// The name of the adapter, ended by a zero.
    pub adapter_name: Vec<u16>,
    pub attached: bool,
    pub left: i32,
    pub top: i32,
    pub right: i32,
    pub bottom: i32,
}

/// The distance between two edges; none where they are reversed.
pub open spec fn span(from: i32, to: i32) -> u32 {
    if to >= from {
        (to - from) as u32
    } else {
        0
    }
}

fn span_of(from: i32, to: i32) -> (n: u32)
    ensures
        n == span(from, to),
{
    if to >= from {
        (to as i64 - from as i64) as u32
    } else {
        0
    }
}

/// Whether an output is the one that a description speaks of. The output at
/// the origin of the desktop is the primary one.
pub open spec fn describes(d: OutputDesc, o: OutputInfo) -> bool {
    &&& o.adapter_index == d.adapter_index
    &&& o.output_index == d.output_index
    &&& o.device_name@ == text::from_utf16(text::until_zero(d.device_name@))
    &&& o.adapter_name@ == text::from_utf16(text::until_zero(d.adapter_name@))
    &&& o.width == span(d.left, d.right)
    &&& o.height == span(d.top, d.bottom)
    &&& o.left == d.left
    &&& o.top == d.top
    &&& o.is_primary == (d.left == 0 && d.top == 0)
}

/// The outputs that belong to the desktop, in order.
pub open spec fn attached(found: Seq<OutputDesc>) -> Seq<OutputDesc> {
    found.filter(|d: OutputDesc| d.attached)
}

/// The outputs that can be captured: those attached to the desktop.
pub fn enumerate_outputs(found: &[OutputDesc]) -> (outputs: Vec<OutputInfo>)
    ensures
        outputs@.len() == attached(found@).len(),
        forall|i: int|
            0 <= i < outputs@.len() ==> describes(attached(found@)[i], #[trigger] outputs@[i]),
{
    let ghost keep = |d: OutputDesc| d.attached;
    let mut outputs: Vec<OutputInfo> = Vec::new();
    let mut i: usize = 0;
    assert(found@.take(0).filter(keep) =~= Seq::empty()) by {
        reveal(Seq::filter);
    }
    while i < found.len()
        invariant
            i <= found@.len(),
            keep == (|d: OutputDesc| d.attached),
            outputs@.len() == found@.take(i as int).filter(keep).len(),
            forall|k: int|
                0 <= k < outputs@.len() ==> describes(
                    found@.take(i as int).filter(keep)[k],
                    #[trigger] outputs@[k],
                ),
        decreases found@.len() - i,
    {
        let d = &found[i];
        proof {
            reveal(Seq::filter);
            assert(found@.take(i + 1).drop_last() =~= found@.take(i as int));
            assert(found@.take(i + 1).last() == *d);
        }
        if d.attached {
            outputs.push(
                OutputInfo {
                    adapter_index: d.adapter_index,
                    output_index: d.output_index,
                    device_name: utf16_to_string(d.device_name.as_slice()),
                    width: span_of(d.left, d.right),
                    height: span_of(d.top, d.bottom),
                    left: d.left,
                    top: d.top,
                    is_primary: d.left == 0 && d.top == 0,
                    adapter_name: utf16_to_string(d.adapter_name.as_slice()),
                },
            );
        }
        i += 1;
    }
    assert(found@.take(i as int) =~= found@);
    outputs
}

/// How a captured output is named to the user.
pub open spec fn label_of(o: OutputInfo) -> Seq<char> {
    o.device_name@ + " ("@ + text::decimal(o.width as nat) + "x"@ + text::decimal(o.height as nat)
        + ")"@
}

/// The name of a captured output with its size.
pub fn capture_label(output: &OutputInfo) -> (s: String)
    ensures
        s@ == label_of(*output),
{
    let mut s = output.device_name.clone();
    s.append(" (");
    push_decimal(&mut s, output.width as u64);
    s.append("x");
    push_decimal(&mut s, output.height as u64);
    s.append(")");
    s
}

/// Whether a setting asks for the synthetic source.
pub fn wants_synthetic(setting: Option<&str>) -> (b: bool)
    ensures
        b == (setting matches Some(s) && text::same_letters(
            text::trimmed(s@),
            "synthetic"@,
        )),
{
    match setting {
        Some(s) => {
            let chars = characters(s);
            let want = characters("synthetic");
            eq_ignore_case(trim(chars.as_slice()), want.as_slice())
        },
        None => false,
    }
}

// ---- the loop --------------------------------------------------------------

/// The capture loop between two pictures.
#[derive(Debug, Clone, Copy, PartialEq, Eq, Structural)]
pub struct CaptureLoop {
    /// The number of the last frame.
    pub frame_number: u64,
    pub width: u32,
    pub height: u32,
    /// When a frame was last handed on.
    pub last_send: u64,
    pub pointer: Pointer,
}

/// What to do where no fresh picture came in time.
#[derive(Debug, Clone, Copy, PartialEq, Eq, Structural)]
pub enum Idle {
    /// A stop was asked for.
    Stop,
    /// Hand the last picture on again, under this number.
    Resend { frame_number: u64 },
    Wait,
}

/// What the error says of impossible dimensions.
pub open spec fn bad_dimensions(width: u32, height: u32) -> Seq<char> {
    "Desktop duplication reported invalid dimensions "@ + text::decimal(width as nat) + "x"@
        + text::decimal(height as nat)
}

impl CaptureLoop {
    /// A loop over pictures of this size. Fails if and only if the size is no
    /// size.
    pub fn new(width: u32, height: u32, now: u64) -> (r: Result<CaptureLoop, String>)
        ensures
            match r {
                Ok(c) => width > 0 && height > 0 && c == (CaptureLoop {
                    frame_number: 0,
                    width,
                    height,
                    last_send: now,
                    pointer: Pointer { visible: false, x: 0, y: 0 },
                }),
                Err(e) => (width == 0 || height == 0) && e@ == bad_dimensions(width, height),
            },
    {
        if width == 0 || height == 0 {
            let mut e = "Desktop duplication reported invalid dimensions ".to_owned();
            push_decimal(&mut e, width as u64);
            e.append("x");
            push_decimal(&mut e, height as u64);
            return Err(e);
        }
        Ok(
            CaptureLoop {
                frame_number: 0,
                width,
                height,
                last_send: now,
                pointer: Pointer { visible: false, x: 0, y: 0 },
            },
        )
    }

    /// A frame was acquired, with a picture or without one. A picture is to be
    /// handed on under the number that is returned.
    pub fn on_frame(&mut self, picture: bool, now: u64) -> (number: Option<u64>)
        requires
            old(self).frame_number < u64::MAX,
        ensures
            final(self).frame_number == old(self).frame_number + 1,
            number == (if picture {
                Some(final(self).frame_number)
            } else {
                None
            }),
            *final(self) == (CaptureLoop {
                frame_number: final(self).frame_number,
                last_send: if picture {
                    now
                } else {
                    old(self).last_send
                },
                ..*old(self)
            }),
    {
        self.frame_number = self.frame_number + 1;
        if picture {
            self.last_send = now;
            Some(self.frame_number)
        } else {
            None
        }
    }

    /// Nothing changed on the display. While a client watches, the last
    /// picture goes out again once nothing was sent for a while: the encoder
    /// gets its frame for a pending keyframe, and the stream stays alive.
    pub fn on_timeout(&mut self, running: bool, client_connected: bool, now: u64) -> (idle: Idle)
        requires
            old(self).frame_number < u64::MAX,
        ensures
            idle == (if !running {
                Idle::Stop
            } else if client_connected && now >= old(self).last_send + IDLE_KEEPALIVE {
                Idle::Resend { frame_number: (old(self).frame_number + 1) as u64 }
            } else {
                Idle::Wait
            }),
            *final(self) == (match idle {
                Idle::Resend { frame_number } => CaptureLoop {
                    frame_number,
                    last_send: now,
                    ..*old(self)
                },
                _ => *old(self),
            }),
    {
        if !running {
            return Idle::Stop;
        }
        if client_connected && now.saturating_sub(self.last_send) >= IDLE_KEEPALIVE {
            self.frame_number = self.frame_number + 1;
            self.last_send = now;
            return Idle::Resend { frame_number: self.frame_number };
        }
        Idle::Wait
    }

    /// The duplication is back, with this size. Returns whether everything
    /// that depends on the size must be rebuilt; a reported size of zero is
    /// not believed.
    pub fn on_reacquired(&mut self, width: u32, height: u32) -> (rebuild: bool)
        ensures
            rebuild == (width != 0 && height != 0 && (width != old(self).width || height != old(
                self,
            ).height)),
            *final(self) == (if rebuild {
                CaptureLoop { width, height, ..*old(self) }
            } else {
                *old(self)
            }),
    {
        if width != 0 && height != 0 && (width != self.width || height != self.height) {
            self.width = width;
            self.height = height;
            return true;
        }
        false
    }

    /// Draws the pointer into a captured picture, where it shows.
    pub fn compose(&self, picture: &mut [u8], shape: &CursorState)
        ensures
            final(picture)@ == (if self.pointer.visible && shape.has_shape {
                cursor::drawn(
                    old(picture)@,
                    self.width,
                    self.height,
                    *shape,
                    self.pointer.x as int,
                    self.pointer.y as int,
                )
            } else {
                old(picture)@
            }),
    {
        if self.pointer.visible && shape.has_shape {
            draw_cursor(picture, self.width, self.height, shape, self.pointer.x, self.pointer.y);
        }
    }
}

/// How long to sleep at the end of a frame that started at `frame_start`: the
/// rest of its budget, nothing where the budget is used up.
pub fn pause_after(frame_start: u64, now: u64, target_fps: u32) -> (ns: u64)
    ensures
        ns == (if now >= frame_start + frame_budget(target_fps) {
            0
        } else if now >= frame_start {
            frame_start + frame_budget(target_fps) - now
        } else {
            frame_budget(target_fps)
        }),
{
    let budget: u64 = frame_budget_for(target_fps);
    let elapsed: u64 = now.saturating_sub(frame_start);
    if elapsed < budget {
        budget - elapsed
    } else {
        0
    }
}

/// The wait after the `attempt`-th failure to get a lost duplication back, in
/// milliseconds.
pub open spec fn reacquire_delay(attempt: int) -> int {
    if attempt <= 0 {
        100
    } else if attempt == 1 {
        250
    } else if attempt == 2 {
        500
    } else if attempt == 3 {
        1000
    } else {
        2000
    }
}

/// Whether to ask once more for a lost duplication, after so many failures.
/// Refusals are normal while the system shows a secure screen or a driver
/// resets, so they are waited out.
pub fn may_reacquire(attempt: usize, running: bool) -> (b: bool)
    ensures
        b == (running && attempt < REACQUIRE_ATTEMPTS),
{
    running && attempt < REACQUIRE_ATTEMPTS
}

/// How long to wait after a failure, in milliseconds.
pub fn reacquire_delay_ms(attempt: usize) -> (ms: u64)
    ensures
        ms == reacquire_delay(attempt as int),
{
    if attempt == 0 {
        100
    } else if attempt == 1 {
        250
    } else if attempt == 2 {
        500
    } else if attempt == 3 {
        1000
    } else {
        2000
    }
}

/// All waits before the duplication is given up, in milliseconds.
pub open spec fn reacquire_total(attempts: int) -> int
    decreases attempts,
{
    if attempts <= 0 {
        0
    } else {
        reacquire_total(attempts - 1) + reacquire_delay(attempts - 1)
    }
}

// ---- the slot to the encoder -----------------------------------------------

/// Where the capture stage leaves its newest frame for the encoder. A frame
/// that was not taken in time is displaced.
#[derive(Debug)]
pub struct FrameSlot {
    pub latest: Option<RawFrame>,
    pub closed: bool,
}

impl FrameSlot {
    /// An empty slot.
    pub fn new() -> (s: FrameSlot)
        ensures
            s.latest is None,
            !s.closed,
    {
        FrameSlot { latest: None, closed: false }
    }

    /// Leaves a frame. Returns whether there is still anybody to take it.
    pub fn publish(&mut self, frame: RawFrame) -> (open: bool)
        ensures
            open == !old(self).closed,
            final(self).closed == old(self).closed,
            final(self).latest == (if open {
                Some(frame)
            } else {
                old(self).latest
            }),
    {
        if self.closed {
            return false;
        }
        self.latest = Some(frame);
        true
    }

    /// Takes the newest frame.
    pub fn take(&mut self) -> (frame: Option<RawFrame>)
        ensures
            frame == old(self).latest,
            final(self).latest is None,
            final(self).closed == old(self).closed,
    {
        self.latest.take()
    }

    /// No more frames will come, or be taken.
    pub fn close(&mut self)
        ensures
            final(self).closed,
            final(self).latest == old(self).latest,
    {
        self.closed = true;
    }
}

// ---- laws ------------------------------------------------------------------

/// While a client watches, a still display is sent again long before the
/// watchdog would call the pipeline wedged for want of frames.
pub proof fn keepalive_beats_the_watchdog()
    ensures
        IDLE_KEEPALIVE + ACQUIRE_TIMEOUT_MS * 1_000_000
            < crate::host::supervisor::FRAME_SILENCE_MS * 1_000_000,
{
}

/// A lost duplication is waited for a bounded time. No single wait is long
/// enough for the watchdog to call the loop silent.
pub proof fn reacquiring_is_bounded(attempt: int)
    ensures
        reacquire_total(REACQUIRE_ATTEMPTS as int) == 23_850,
        reacquire_delay(attempt) < crate::host::supervisor::CAPTURE_SILENCE_MS,
{
    reveal_with_fuel(reacquire_total, 16);
}

/// An output takes the place of its description on the desktop: it starts at the
/// left and top edge and reaches to the right and bottom one, keeps its two
/// numbers, and is the primary one exactly if it starts at the origin. Edges that
/// are reversed leave no extent.
pub proof fn outputs_take_their_place(d: OutputDesc, o: OutputInfo)
    requires
        describes(d, o),
    ensures
        o.left == d.left && o.top == d.top,
        d.right >= d.left ==> o.left + o.width == d.right,
        d.bottom >= d.top ==> o.top + o.height == d.bottom,
        d.right < d.left ==> o.width == 0,
        d.bottom < d.top ==> o.height == 0,
        o.is_primary <==> d.left == 0 && d.top == 0,
        o.adapter_index == d.adapter_index && o.output_index == d.output_index,
{
}

/// The outputs that are attached to the desktop are offered in their order, and
/// no others: one more is offered at the end exactly if it is attached.
pub proof fn attached_outputs_are_offered(found: Seq<OutputDesc>, next: OutputDesc)
    ensures
        attached(Seq::empty()) == Seq::<OutputDesc>::empty(),
        next.attached ==> attached(found.push(next)) == attached(found).push(next),
        !next.attached ==> attached(found.push(next)) == attached(found),
{
    reveal(Seq::filter);
    assert(found.push(next).drop_last() =~= found);
    assert(attached(Seq::empty()) =~= Seq::<OutputDesc>::empty());
}

} // verus!
