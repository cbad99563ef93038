//! Input relay: turns the client's input events (normalized coordinates over
//! the displayed video) into injection commands.

use std::collections::HashSet;

use vstd::prelude::*;

use crate::wire::v2::control::InputEvent;

verus! {

broadcast use vstd::std_specs::hash::group_hash_axioms;

/// Desktop rectangle of the captured output: the target space of pointer
/// mapping.
#[derive(Debug, Clone, Copy, PartialEq, Eq, Structural)]
pub struct CaptureGeometry {
    pub left: i32,
    pub top: i32,
    pub width: u32,
    pub height: u32,
}

/// The whole virtual screen (bounding box of all monitors); absolute
/// coordinates are normalized to 0..65535 over this rectangle.
#[derive(Debug, Clone, Copy, PartialEq, Eq, Structural)]
pub struct VirtualScreen {
    pub left: i32,
    pub top: i32,
    pub width: u32,
    pub height: u32,
}

/// Input kinds on the wire.
pub const KIND_TOUCH: u8 = 0;

pub const KIND_PENCIL: u8 = 1;

pub const KIND_MOUSE_ABS: u8 = 2;

pub const KIND_SCROLL: u8 = 3;

pub const KIND_KEY: u8 = 4;

/// Phases on the wire.
pub const PHASE_BEGAN: u8 = 0;

pub const PHASE_MOVED: u8 = 1;

pub const PHASE_ENDED: u8 = 2;

pub const PHASE_CANCELLED: u8 = 3;

/// A resolved injection command.
#[derive(Debug, Clone, Copy, PartialEq, Eq, Structural)]
pub enum Injection {
    /// Absolute pointer move in virtual-screen space (0..65535).
    MoveAbs { x: u16, y: u16 },
    LeftDown { x: u16, y: u16 },
    LeftUp { x: u16, y: u16 },
    RightDown { x: u16, y: u16 },
    RightUp { x: u16, y: u16 },
    /// Vertical wheel (positive is away from the user).
    Wheel { delta: i32 },
    /// Horizontal wheel.
    HWheel { delta: i32 },
}

// ---- coordinates -----------------------------------------------------------

/// The steps between the first and the last pixel of a span; at least 1.
pub open spec fn steps(span: u32) -> int {
    if span <= 1 {
        1
    } else {
        span - 1
    }
}

/// The pixel at fraction `norm` / 65535 of a span, counted from its start.
pub open spec fn scaled(norm: u16, span: u32) -> int {
    norm * steps(span) / 65_535
}

/// The desktop pixel of a normalized point.
pub open spec fn output_pixel(x_norm: u16, y_norm: u16, output: CaptureGeometry) -> (int, int) {
    (output.left + scaled(x_norm, output.width), output.top + scaled(y_norm, output.height))
}

/// Whether all pixels of an output have coordinates that fit.
pub open spec fn fits_desktop(output: CaptureGeometry) -> bool {
    &&& output.left + steps(output.width) <= i32::MAX
    &&& output.top + steps(output.height) <= i32::MAX
}

proof fn scaled_bounds(norm: u16, span: u32)
    ensures
        0 <= scaled(norm, span) <= steps(span),
{
    let n = norm as int;
    let s = steps(span);
    assert(0 <= n * s <= 65_535 * s) by (nonlinear_arith)
        requires
            0 <= n <= 65_535,
            0 <= s,
    ;
}

fn scale(norm: u16, span: u32) -> (v: i64)
    ensures
        v == scaled(norm, span),
        0 <= v <= steps(span),
{
    let s: u64 = if span <= 1 {
        1
    } else {
        span as u64 - 1
    };
    proof {
        scaled_bounds(norm, span);
        assert(0 <= norm * s <= 65_535 * 0xFFFF_FFFF) by (nonlinear_arith)
            requires
                0 <= norm <= 65_535,
                0 <= s <= 0xFFFF_FFFF,
        ;
    }
    (norm as u64 * s / 65_535) as i64
}

/// Maps a normalized point (0..65535 over the displayed video) to a desktop
/// pixel on the captured output.
pub fn norm_to_output_pixel(x_norm: u16, y_norm: u16, output: CaptureGeometry) -> (p: (i32, i32))
    requires
        fits_desktop(output),
    ensures
        (p.0 as int, p.1 as int) == output_pixel(x_norm, y_norm, output),
{
    let x: i64 = output.left as i64 + scale(x_norm, output.width);
    let y: i64 = output.top as i64 + scale(y_norm, output.height);
    (x as i32, y as i32)
}

/// A coordinate on a span, as a fraction of 65535; coordinates outside are
/// moved to the nearer end.
pub open spec fn normalized(value: int, origin: int, span: u32) -> int {
    let last = if span <= 1 {
        0
    } else {
        span - 1
    };
    let rel = if value - origin < 0 {
        0
    } else if value - origin > last {
        last
    } else {
        value - origin
    };
    rel * 65_535 / steps(span)
}

proof fn normalized_bounds(value: int, origin: int, span: u32)
    ensures
        0 <= normalized(value, origin, span) <= 65_535,
{
    let s = steps(span);
    let last = if span <= 1 {
        0
    } else {
        span - 1
    };
    let rel = if value - origin < 0 {
        0
    } else if value - origin > last {
        last
    } else {
        value - origin
    };
    assert(0 <= rel * 65_535 / s <= 65_535) by (nonlinear_arith)
        requires
            0 <= rel <= s,
            1 <= s,
    ;
}

fn clamp_span(value: i32, origin: i32, span: u32) -> (v: u16)
    ensures
        v == normalized(value as int, origin as int, span),
{
    let last: i64 = if span <= 1 {
        0
    } else {
        span as i64 - 1
    };
    let offset: i64 = value as i64 - origin as i64;
    let rel: i64 = if offset < 0 {
        0
    } else if offset > last {
        last
    } else {
        offset
    };
    let s: i64 = if span <= 1 {
        1
    } else {
        span as i64 - 1
    };
    proof {
        normalized_bounds(value as int, origin as int, span);
    }
    (rel * 65_535 / s) as u16
}

/// Maps a desktop pixel to absolute virtual-screen space (0..65535 across the
/// whole virtual desktop).
pub fn desktop_pixel_to_abs(x: i32, y: i32, screen: VirtualScreen) -> (p: (u16, u16))
    ensures
        p.0 == normalized(x as int, screen.left as int, screen.width),
        p.1 == normalized(y as int, screen.top as int, screen.height),
{
    (clamp_span(x, screen.left, screen.width), clamp_span(y, screen.top, screen.height))
}

/// One pixel of client scroll as wheel delta: forty pixels are one tick.
pub fn scroll_to_wheel(delta_px: i16) -> (delta: i32)
    ensures
        delta == delta_px * 3,
{
    delta_px as i32 * 3
}

// ---- deduplication ---------------------------------------------------------

/// Whether a phase is an edge: the start or the end of a gesture.
pub open spec fn is_edge(phase: u8) -> bool {
    phase == PHASE_BEGAN || phase == PHASE_ENDED || phase == PHASE_CANCELLED
}

/// Drops duplicate edge events and lets all others through in order. The client
/// sends edges twice for loss tolerance, and the second copy may come after
/// later edges, so every edge of the session is remembered.
#[derive(Debug)]
pub struct EventDeduper {
    /// The ids of the edges that were accepted.
    pub accepted: HashSet<u32>,
}

impl View for EventDeduper {
    type V = Set<u32>;

    open spec fn view(&self) -> Set<u32> {
        self.accepted@
    }
}

impl Default for EventDeduper {
    fn default() -> (d: EventDeduper)
        ensures
            d@ == Set::<u32>::empty(),
    {
        EventDeduper { accepted: HashSet::new() }
    }
}

/// Whether an event is to be processed, given the edges that were accepted: it
/// is none of them.
pub open spec fn accepts(accepted: Set<u32>, event: InputEvent) -> bool {
    !(is_edge(event.phase) && accepted.contains(event.event_id))
}

/// The accepted edges after an event.
pub open spec fn deduped(accepted: Set<u32>, event: InputEvent) -> Set<u32> {
    if is_edge(event.phase) {
        accepted.insert(event.event_id)
    } else {
        accepted
    }
}

impl EventDeduper {
    /// True if the event should be processed.
    pub fn accept(&mut self, event: &InputEvent) -> (b: bool)
        ensures
            b == accepts(old(self)@, *event),
            final(self)@ == deduped(old(self)@, *event),
    {
        if event.phase == PHASE_BEGAN || event.phase == PHASE_ENDED || event.phase
            == PHASE_CANCELLED {
            self.accepted.insert(event.event_id)
        } else {
            true
        }
    }
}

// ---- resolution ------------------------------------------------------------

/// The absolute point that an event is at.
pub open spec fn event_point(event: InputEvent, output: CaptureGeometry, screen: VirtualScreen) -> (
    u16,
    u16,
) {
    let p = output_pixel(event.x_norm, event.y_norm, output);
    (
        normalized(p.0, screen.left as int, screen.width) as u16,
        normalized(p.1, screen.top as int, screen.height) as u16,
    )
}

/// Whether an event moves or presses the pointer.
pub open spec fn is_pointer(kind: u8) -> bool {
    kind == KIND_TOUCH || kind == KIND_PENCIL || kind == KIND_MOUSE_ABS
}

/// The commands for an event. A pointer event moves first and then presses or
/// releases; a scroll moves and then turns the wheels that it names; keys and
/// unknown events give nothing.
pub open spec fn resolved(event: InputEvent, output: CaptureGeometry, screen: VirtualScreen) -> Seq<
    Injection,
> {
    let (x, y) = event_point(event, output, screen);
    let right = event.buttons / 2 % 2 == 1;
    if is_pointer(event.kind) {
        if event.phase == PHASE_BEGAN {
            seq![
                Injection::MoveAbs { x, y },
                if right {
                    Injection::RightDown { x, y }
                } else {
                    Injection::LeftDown { x, y }
                },
            ]
        } else if event.phase == PHASE_MOVED {
            seq![Injection::MoveAbs { x, y }]
        } else if event.phase == PHASE_ENDED || event.phase == PHASE_CANCELLED {
            seq![
                Injection::MoveAbs { x, y },
                if right {
                    Injection::RightUp { x, y }
                } else {
                    Injection::LeftUp { x, y }
                },
            ]
        } else {
            Seq::empty()
        }
    } else if event.kind == KIND_SCROLL {
        let wheel = if event.scroll_dy != 0 {
            seq![Injection::Wheel { delta: (event.scroll_dy * 3) as i32 }]
        } else {
            Seq::empty()
        };
        let hwheel = if event.scroll_dx != 0 {
            seq![Injection::HWheel { delta: (event.scroll_dx * 3) as i32 }]
        } else {
            Seq::empty()
        };
        seq![Injection::MoveAbs { x, y }] + wheel + hwheel
    } else {
        Seq::empty()
    }
}

/// Resolves one wire event into zero or more injections.
pub fn resolve(event: &InputEvent, output: CaptureGeometry, screen: VirtualScreen) -> (v: Vec<
    Injection,
>)
    requires
        fits_desktop(output),
    ensures
        v@ == resolved(*event, output, screen),
{
    let (px, py) = norm_to_output_pixel(event.x_norm, event.y_norm, output);
    let (x, y) = desktop_pixel_to_abs(px, py, screen);
    let mut v: Vec<Injection> = Vec::new();
    if event.kind == KIND_TOUCH || event.kind == KIND_PENCIL || event.kind == KIND_MOUSE_ABS {
        let right = event.buttons / 2 % 2 == 1;
        if event.phase == PHASE_BEGAN {
            v.push(Injection::MoveAbs { x, y });
            if right {
                v.push(Injection::RightDown { x, y });
            } else {
                v.push(Injection::LeftDown { x, y });
            }
        } else if event.phase == PHASE_MOVED {
            v.push(Injection::MoveAbs { x, y });
        } else if event.phase == PHASE_ENDED || event.phase == PHASE_CANCELLED {
            v.push(Injection::MoveAbs { x, y });
            if right {
                v.push(Injection::RightUp { x, y });
            } else {
                v.push(Injection::LeftUp { x, y });
            }
        }
    } else if event.kind == KIND_SCROLL {
        v.push(Injection::MoveAbs { x, y });
        if event.scroll_dy != 0 {
            v.push(Injection::Wheel { delta: scroll_to_wheel(event.scroll_dy) });
        }
        if event.scroll_dx != 0 {
            v.push(Injection::HWheel { delta: scroll_to_wheel(event.scroll_dx) });
        }
    }
    assert(v@ =~= resolved(*event, output, screen));
    v
}

/// Relay state of a connection: a deduper for the current session. A new
/// session starts its event ids over, so nothing is carried across sessions.
#[derive(Debug)]
pub struct InputRelay {
    pub session_id: Option<u32>,
    pub deduper: EventDeduper,
}

/// [`InputRelay`] with its accepted edges as a set.
pub struct RelayView {
    pub session_id: Option<u32>,
    pub accepted: Set<u32>,
}

impl View for InputRelay {
    type V = RelayView;

    open spec fn view(&self) -> RelayView {
        RelayView { session_id: self.session_id, accepted: self.deduper@ }
    }
}

impl Default for InputRelay {
    fn default() -> (r: InputRelay)
        ensures
            r@ == (RelayView { session_id: None, accepted: Set::empty() }),
    {
        InputRelay { session_id: None, deduper: EventDeduper::default() }
    }
}

/// The accepted edges that a session's events meet.
pub open spec fn accepted_in(r: RelayView, session_id: u32) -> Set<u32> {
    if r.session_id == Some(session_id) {
        r.accepted
    } else {
        Set::empty()
    }
}

/// What an event of a session is turned into.
pub open spec fn relayed(
    r: RelayView,
    session_id: u32,
    event: InputEvent,
    output: CaptureGeometry,
    screen: VirtualScreen,
) -> Seq<Injection> {
    if accepts(accepted_in(r, session_id), event) {
        resolved(event, output, screen)
    } else {
        Seq::empty()
    }
}

/// The relay after an event of a session.
pub open spec fn relay_after(r: RelayView, session_id: u32, event: InputEvent) -> RelayView {
    RelayView {
        session_id: Some(session_id),
        accepted: deduped(accepted_in(r, session_id), event),
    }
}

impl InputRelay {
    /// Dedupes and maps one event of a session; gives what is to be injected.
    pub fn relay(
        &mut self,
        session_id: u32,
        event: &InputEvent,
        output: CaptureGeometry,
        screen: VirtualScreen,
    ) -> (v: Vec<Injection>)
        requires
            fits_desktop(output),
        ensures
            v@ == relayed(old(self)@, session_id, *event, output, screen),
            final(self)@ == relay_after(old(self)@, session_id, *event),
    {
        let same = match self.session_id {
            Some(id) => id == session_id,
            None => false,
        };
        if !same {
            self.session_id = Some(session_id);
            self.deduper = EventDeduper::default();
        }
        if self.deduper.accept(event) {
            resolve(event, output, screen)
        } else {
            Vec::new()
        }
    }
}

/// The captured output as the whole screen, where there is no other to ask for.
pub fn screen_of_output(output: CaptureGeometry) -> (s: VirtualScreen)
    ensures
        s == (VirtualScreen {
            left: output.left,
            top: output.top,
            width: output.width,
            height: output.height,
        }),
{
    VirtualScreen {
        left: output.left,
        top: output.top,
        width: output.width,
        height: output.height,
    }
}

/// Collects injections where there is no desktop to inject them into.
#[derive(Debug)]
pub struct Recorder {
    pub recorded: Vec<Injection>,
}

impl Default for Recorder {
    fn default() -> (r: Recorder)
        ensures
            r.recorded@.len() == 0,
    {
        Recorder { recorded: Vec::new() }
    }
}

impl Recorder {
    /// Appends injections.
    pub fn record(&mut self, injections: &[Injection])
        ensures
            final(self).recorded@ == old(self).recorded@ + injections@,
    {
        let ghost start = self.recorded@;
        let mut i: usize = 0;
        while i < injections.len()
            invariant
                i <= injections@.len(),
                self.recorded@ == start + injections@.take(i as int),
            decreases injections@.len() - i,
        {
            self.recorded.push(injections[i]);
            assert(injections@.take(i + 1) =~= injections@.take(i as int).push(
                injections@[i as int],
            ));
            i += 1;
        }
        assert(injections@.take(i as int) =~= injections@);
    }

    /// Hands out what was recorded and starts over.
    pub fn take(&mut self) -> (v: Vec<Injection>)
        ensures
            v@ == old(self).recorded@,
            final(self).recorded@.len() == 0,
    {
        let mut out: Vec<Injection> = Vec::new();
        out.append(&mut self.recorded);
        assert(out@ =~= old(self).recorded@);
        out
    }

    /// What was recorded so far.
    pub fn peek(&self) -> (v: Vec<Injection>)
        ensures
            v@ == self.recorded@,
    {
        vstd::slice::slice_to_vec(self.recorded.as_slice())
    }
}

/// Carries out injections where there is no desktop: they are recorded.
pub fn inject(recorder: &mut Recorder, injections: &[Injection])
    ensures
        final(recorder).recorded@ == old(recorder).recorded@ + injections@,
{
    recorder.record(injections);
}

// ---- laws ------------------------------------------------------------------

/// A touch lands on the captured output: on its first pixel at 0, on its last
/// at 65535, and in between for every other value.
pub proof fn touches_land_on_the_output(x_norm: u16, y_norm: u16, output: CaptureGeometry)
    requires
        output.width >= 2,
        output.height >= 2,
    ensures
        ({
            let (x, y) = output_pixel(x_norm, y_norm, output);
            &&& output.left <= x < output.left + output.width
            &&& output.top <= y < output.top + output.height
        }),
        output_pixel(0, 0, output) == (output.left as int, output.top as int),
        output_pixel(65_535, 65_535, output) == (
            output.left + output.width - 1,
            output.top + output.height - 1,
        ),
{
    scaled_bounds(x_norm, output.width);
    scaled_bounds(y_norm, output.height);
}

/// Mapping keeps order: a touch further right or down never lands further left
/// or up, on the output and on the virtual screen.
pub proof fn mapping_is_monotone(a: u16, b: u16, span: u32, p: int, q: int, origin: int)
    requires
        a <= b,
        p <= q,
    ensures
        scaled(a, span) <= scaled(b, span),
        normalized(p, origin, span) <= normalized(q, origin, span),
{
    let s = steps(span);
    assert(a * s / 65_535 <= b * s / 65_535) by (nonlinear_arith)
        requires
            0 <= a <= b,
            1 <= s,
    ;
    let last = if span <= 1 {
        0
    } else {
        span - 1
    };
    let u = if p - origin < 0 {
        0
    } else if p - origin > last {
        last
    } else {
        p - origin
    };
    let v = if q - origin < 0 {
        0
    } else if q - origin > last {
        last
    } else {
        q - origin
    };
    assert(u * 65_535 / s <= v * 65_535 / s) by (nonlinear_arith)
        requires
            0 <= u <= v,
            1 <= s,
    ;
}

/// The accepted edges once a session has sent some events.
pub open spec fn accepted_after(history: Seq<InputEvent>) -> Set<u32>
    decreases history.len(),
{
    if history.len() == 0 {
        Set::empty()
    } else {
        deduped(accepted_after(history.drop_last()), history.last())
    }
}

/// Whatever a session has sent, an event is dropped if and only if it is an
/// edge whose id an earlier edge of the session had. A dropped event changes
/// nothing.
pub proof fn edges_count_once(history: Seq<InputEvent>, event: InputEvent)
    ensures
        accepts(accepted_after(history), event) <==> !(is_edge(event.phase) && exists|i: int|
            0 <= i < history.len() && is_edge((#[trigger] history[i]).phase)
                && history[i].event_id == event.event_id),
        !accepts(accepted_after(history), event) ==> deduped(accepted_after(history), event)
            == accepted_after(history),
{
    accepted_ids_were_edges(history, event.event_id);
    if accepted_after(history).contains(event.event_id) {
        assert(accepted_after(history).insert(event.event_id) =~= accepted_after(history));
    }
}

proof fn accepted_ids_were_edges(history: Seq<InputEvent>, id: u32)
    ensures
        accepted_after(history).contains(id) <==> exists|i: int|
            0 <= i < history.len() && is_edge((#[trigger] history[i]).phase)
                && history[i].event_id == id,
    decreases history.len(),
{
    if history.len() > 0 {
        let earlier = history.drop_last();
        accepted_ids_were_edges(earlier, id);
        assert forall|i: int| 0 <= i < earlier.len() implies earlier[i] == #[trigger] history[i] by {}
        if is_edge(history.last().phase) && history.last().event_id == id {
            assert(history[history.len() - 1] == history.last());
        }
        if accepted_after(earlier).contains(id) {
            let i = choose|i: int|
                0 <= i < earlier.len() && is_edge((#[trigger] earlier[i]).phase)
                    && earlier[i].event_id == id;
            assert(is_edge(history[i].phase) && history[i].event_id == id);
        }
        if exists|i: int|
            0 <= i < history.len() && is_edge((#[trigger] history[i]).phase)
                && history[i].event_id == id {
            let i = choose|i: int|
                0 <= i < history.len() && is_edge((#[trigger] history[i]).phase)
                    && history[i].event_id == id;
            if i < earlier.len() {
                assert(earlier[i] == history[i]);
            }
        }
    }
}

/// What a session sent never suppresses an event of the next session.
pub proof fn sessions_do_not_share_dedupe_state(
    r: RelayView,
    session_id: u32,
    event: InputEvent,
)
    requires
        r.session_id != Some(session_id),
    ensures
        accepts(accepted_in(r, session_id), event),
{
}

/// Every press, release and move of an event is at the same point.
pub proof fn injections_share_the_point(
    event: InputEvent,
    output: CaptureGeometry,
    screen: VirtualScreen,
    i: int,
)
    requires
        0 <= i < resolved(event, output, screen).len(),
    ensures
        ({
            let (px, py) = event_point(event, output, screen);
            match resolved(event, output, screen)[i] {
                Injection::MoveAbs { x, y } => x == px && y == py,
                Injection::LeftDown { x, y } => x == px && y == py,
                Injection::LeftUp { x, y } => x == px && y == py,
                Injection::RightDown { x, y } => x == px && y == py,
                Injection::RightUp { x, y } => x == px && y == py,
                Injection::Wheel { .. } => event.kind == KIND_SCROLL,
                Injection::HWheel { .. } => event.kind == KIND_SCROLL,
            }
        }),
{
}

/// Whether a command presses the right button (else the left one) at a point.
pub open spec fn presses(command: Injection, right: bool, x: u16, y: u16) -> bool {
    command == (if right {
        Injection::RightDown { x, y }
    } else {
        Injection::LeftDown { x, y }
    })
}

/// Whether a command releases the right button (else the left one) at a point.
pub open spec fn releases(command: Injection, right: bool, x: u16, y: u16) -> bool {
    command == (if right {
        Injection::RightUp { x, y }
    } else {
        Injection::LeftUp { x, y }
    })
}

/// What is pressed is released: a gesture that begins presses a button and
/// nothing else, a gesture with the same buttons that ends or is cancelled
/// releases that button and nothing else, and a move in between presses and
/// releases nothing. It is the right button where the second bit of the buttons
/// is set, else the left one. The pointer goes to the place of the event first.
pub proof fn presses_are_released(
    begin: InputEvent,
    end: InputEvent,
    output: CaptureGeometry,
    screen: VirtualScreen,
)
    requires
        begin.kind == KIND_TOUCH || begin.kind == KIND_PENCIL || begin.kind == KIND_MOUSE_ABS,
        end.kind == KIND_TOUCH || end.kind == KIND_PENCIL || end.kind == KIND_MOUSE_ABS,
        begin.phase == PHASE_BEGAN,
        end.buttons == begin.buttons,
    ensures
        ({
            let right = (begin.buttons & 2u8) != 0;
            let down = resolved(begin, output, screen);
            let up = resolved(end, output, screen);
            let (x0, y0) = event_point(begin, output, screen);
            let (x1, y1) = event_point(end, output, screen);
            &&& down.len() == 2
            &&& down[0] == (Injection::MoveAbs { x: x0, y: y0 })
            &&& presses(down[1], right, x0, y0)
            &&& end.phase == PHASE_ENDED || end.phase == PHASE_CANCELLED ==> up.len() == 2
                && up[0] == (Injection::MoveAbs { x: x1, y: y1 }) && releases(
                up[1],
                right,
                x1,
                y1,
            )
            &&& end.phase == PHASE_MOVED ==> up == seq![Injection::MoveAbs { x: x1, y: y1 }]
        }),
{
    let b = begin.buttons;
    assert((b & 2u8 != 0) == (b / 2 % 2 == 1)) by (bit_vector);
}

/// Whether `pixel` is the pixel of a span that stands at the fraction
/// `norm` / 65535 of the way from its first to its last: the last one that is
/// not beyond it. A span of no or one pixel counts as one of two.
pub open spec fn stands_at(pixel: int, norm: int, span: int) -> bool {
    let way = if span < 2 {
        1
    } else {
        span - 1
    };
    pixel * 65_535 <= norm * way < (pixel + 1) * 65_535
}

/// Whether `norm` / 65535 is the fraction of the way from the first to the last
/// pixel of a span at which a pixel stands: the largest one that is not beyond
/// it. Pixels outside the span stand at its nearer end.
pub open spec fn is_fraction(norm: int, pixel: int, span: int) -> bool {
    if pixel <= 0 || span < 2 {
        norm == 0
    } else if pixel >= span - 1 {
        norm == 65_535
    } else {
        norm * (span - 1) <= pixel * 65_535 < (norm + 1) * (span - 1)
    }
}

proof fn quotient_is(n: int, d: int)
    requires
        0 <= n,
        0 < d,
    ensures
        (n / d) * d <= n < (n / d + 1) * d,
{
    vstd::arithmetic::div_mod::lemma_fundamental_div_mod(n, d);
    vstd::arithmetic::div_mod::lemma_mod_bound(n, d);
    assert((n / d) * d == d * (n / d)) by (nonlinear_arith);
    assert((n / d + 1) * d == d * (n / d) + d) by (nonlinear_arith);
}

proof fn fraction_of(value: int, origin: int, span: u32)
    ensures
        is_fraction(normalized(value, origin, span), value - origin, span as int),
{
    let s = steps(span);
    if span >= 2 {
        let rel = value - origin;
        if 0 < rel < span - 1 {
            quotient_is(rel * 65_535, s);
        } else if rel >= span - 1 {
            assert(s * 65_535 / s == 65_535) by (nonlinear_arith)
                requires
                    s >= 1,
            ;
        } else {
            assert(0int * 65_535 / s == 0) by (nonlinear_arith)
                requires
                    s >= 1,
            ;
        }
    }
}

/// A touch goes to where the picture shows it. There is a pixel of the captured
/// output that stands, across and down, at the fraction of the way that the
/// client sent, and the event is at the fraction of the virtual screen at which
/// that pixel stands.
pub proof fn events_go_where_they_show(
    event: InputEvent,
    output: CaptureGeometry,
    screen: VirtualScreen,
)
    ensures
        ({
            let (col, row) = (
                output_pixel(event.x_norm, event.y_norm, output).0 - output.left,
                output_pixel(event.x_norm, event.y_norm, output).1 - output.top,
            );
            let (x, y) = event_point(event, output, screen);
            &&& stands_at(col, event.x_norm as int, output.width as int)
            &&& stands_at(row, event.y_norm as int, output.height as int)
            &&& is_fraction(x as int, output.left + col - screen.left, screen.width as int)
            &&& is_fraction(y as int, output.top + row - screen.top, screen.height as int)
        }),
{
    let (px, py) = output_pixel(event.x_norm, event.y_norm, output);
    let (w, h) = (steps(output.width), steps(output.height));
    assert(0 <= event.x_norm * w && 0 <= event.y_norm * h) by (nonlinear_arith)
        requires
            0 <= event.x_norm,
            0 <= event.y_norm,
            1 <= w,
            1 <= h,
    ;
    quotient_is(event.x_norm * w, 65_535);
    quotient_is(event.y_norm * h, 65_535);
    normalized_bounds(px, screen.left as int, screen.width);
    normalized_bounds(py, screen.top as int, screen.height);
    fraction_of(px, screen.left as int, screen.width);
    fraction_of(py, screen.top as int, screen.height);
}

/// A scroll moves the pointer to its place and turns the wheels by three for
/// every pixel, the vertical one first, each in the direction of the scroll and
/// only if there is something to scroll. Nothing else turns a wheel, and keys
/// and unknown events do nothing at all.
pub proof fn scrolls_turn_the_wheels(
    event: InputEvent,
    output: CaptureGeometry,
    screen: VirtualScreen,
)
    ensures
        ({
            let out = resolved(event, output, screen);
            let (x, y) = event_point(event, output, screen);
            let turns = (if event.scroll_dy != 0 {
                1int
            } else {
                0
            }) + (if event.scroll_dx != 0 {
                1int
            } else {
                0
            });
            &&& event.kind == KIND_SCROLL ==> {
                &&& out.len() == 1 + turns
                &&& out[0] == (Injection::MoveAbs { x, y })
                &&& event.scroll_dy != 0 ==> (out[1] matches Injection::Wheel { delta } && delta
                    == 3 * event.scroll_dy)
                &&& event.scroll_dx != 0 ==> (out.last() matches Injection::HWheel { delta }
                    && delta == 3 * event.scroll_dx)
            }
            &&& event.kind > KIND_SCROLL ==> out.len() == 0
            &&& event.kind < KIND_SCROLL && event.phase > PHASE_CANCELLED ==> out.len() == 0
            &&& event.kind < KIND_SCROLL ==> forall|i: int|
                0 <= i < out.len() ==> !(#[trigger] out[i] is Wheel) && !(out[i] is HWheel)
        }),
{
}

/// The relay after some events of a session.
pub open spec fn relay_after_all(r: RelayView, session_id: u32, history: Seq<InputEvent>) -> RelayView
    decreases history.len(),
{
    if history.len() == 0 {
        r
    } else {
        relay_after(
            relay_after_all(r, session_id, history.drop_last()),
            session_id,
            history.last(),
        )
    }
}

/// Within a session an event is turned into its commands, unless it is an edge
/// whose id an earlier edge of the session had; then nothing is done. What other
/// sessions sent before does not matter.
pub proof fn relays_act_once_per_edge(
    r: RelayView,
    session_id: u32,
    history: Seq<InputEvent>,
    event: InputEvent,
    output: CaptureGeometry,
    screen: VirtualScreen,
)
    requires
        r.session_id != Some(session_id),
    ensures
        ({
            let now = relay_after_all(r, session_id, history);
            let seen = is_edge(event.phase) && exists|i: int|
                0 <= i < history.len() && is_edge((#[trigger] history[i]).phase)
                    && history[i].event_id == event.event_id;
            &&& seen ==> relayed(now, session_id, event, output, screen).len() == 0
            &&& !seen ==> relayed(now, session_id, event, output, screen) == resolved(
                event,
                output,
                screen,
            )
        }),
{
    relay_keeps_the_edges(r, session_id, history);
    edges_count_once(history, event);
}

proof fn relay_keeps_the_edges(r: RelayView, session_id: u32, history: Seq<InputEvent>)
    requires
        r.session_id != Some(session_id),
    ensures
        accepted_in(relay_after_all(r, session_id, history), session_id) == accepted_after(history),
        history.len() > 0 ==> relay_after_all(r, session_id, history).session_id == Some(session_id),
    decreases history.len(),
{
    if history.len() > 0 {
        relay_keeps_the_edges(r, session_id, history.drop_last());
    }
}

/// Which phases are edges: those that begin, end or cancel a gesture. A move is
/// none, so no move is ever dropped.
pub proof fn moves_are_no_edges(accepted: Set<u32>, event: InputEvent)
    requires
        event.phase == PHASE_MOVED,
    ensures
        accepts(accepted, event),
        deduped(accepted, event) == accepted,
        is_edge(PHASE_BEGAN) && is_edge(PHASE_ENDED) && is_edge(PHASE_CANCELLED),
{
}

} // verus!
