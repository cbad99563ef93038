//! The mouse pointer, drawn into a captured frame. The desktop image comes
//! without it: the position arrives with every frame, the shape only when it
//! changes.

use vstd::prelude::*;

verus! {

/// How a shape is stored.
pub const POINTER_SHAPE_MONOCHROME: u32 = 1;

pub const POINTER_SHAPE_COLOR: u32 = 2;

pub const POINTER_SHAPE_MASKED_COLOR: u32 = 4;

/// The latest shape of the pointer.
#[derive(Debug)]
pub struct CursorState {
    pub shape: Vec<u8>,
    pub shape_type: u32,
    pub width: u32,
    pub height: u32,
    /// Bytes per row of the shape.
    pub pitch: u32,
    pub has_shape: bool,
}

impl Default for CursorState {
    fn default() -> (c: CursorState)
        ensures
            c.shape@.len() == 0,
            c.shape_type == 0 && c.width == 0 && c.height == 0 && c.pitch == 0,
            !c.has_shape,
    {
        CursorState { shape: Vec::new(), shape_type: 0, width: 0, height: 0, pitch: 0, has_shape: false }
    }
}

/// Where the pointer is, and whether it shows.
#[derive(Debug, Clone, Copy, PartialEq, Eq, Structural)]
pub struct Pointer {
    pub visible: bool,
    pub x: i32,
    pub y: i32,
}

impl Pointer {
    /// Takes on what a frame says of the pointer. A frame without a pointer
    /// update says nothing.
    pub fn update(&mut self, last_update: i64, visible: bool, x: i32, y: i32)
        ensures
            *final(self) == (if last_update != 0 {
                Pointer { visible, x, y }
            } else {
                *old(self)
            }),
    {
        if last_update != 0 {
            self.visible = visible;
            self.x = x;
            self.y = y;
        }
    }
}

/// What one pixel of the shape does to the screen.
pub enum Ink {
    /// Leaves it.
    Keep,
    /// Covers it.
    Paint { b: u8, g: u8, r: u8 },
    /// Is combined with it by exclusive or.
    Flip { b: u8, g: u8, r: u8 },
    /// Is blended over it.
    Blend { b: u8, g: u8, r: u8, a: u8 },
    /// Inverts it.
    Invert,
}

/// One of three channels.
pub open spec fn pick(channel: int, b: u8, g: u8, r: u8) -> u8 {
    if channel == 0 {
        b
    } else if channel == 1 {
        g
    } else {
        r
    }
}

/// A channel of the screen under an ink. The fourth channel stays.
pub open spec fn inked(ink: Ink, channel: int, screen: u8) -> u8 {
    if channel == 3 {
        screen
    } else {
        match ink {
            Ink::Keep => screen,
            Ink::Paint { b, g, r } => pick(channel, b, g, r),
            Ink::Flip { b, g, r } => screen ^ pick(channel, b, g, r),
            Ink::Blend { b, g, r, a } => ((pick(channel, b, g, r) * a + screen * (255 - a)) / 255) as u8,
            Ink::Invert => (255 - screen) as u8,
        }
    }
}

/// The ink of a pixel of a color shape: four bytes (blue, green, red, alpha).
/// A masked shape covers where alpha is zero, and flips elsewhere. Pixels that
/// the shape does not hold leave the screen.
pub open spec fn color_ink(c: CursorState, row: int, col: int, masked: bool) -> Ink {
    let src = row * c.pitch + col * 4;
    if src + 4 > c.shape@.len() {
        Ink::Keep
    } else {
        let b = c.shape@[src];
        let g = c.shape@[src + 1];
        let r = c.shape@[src + 2];
        let a = c.shape@[src + 3];
        if !masked {
            Ink::Blend { b, g, r, a }
        } else if a == 0 {
            Ink::Paint { b, g, r }
        } else {
            Ink::Flip { b, g, r }
        }
    }
}

/// Whether the bit of a column is set in a byte of a mask; the first column is
/// the highest bit.
pub open spec fn mask_bit(byte: u8, col: int) -> bool {
    (byte >> ((7 - col % 8) as u8)) & 1u8 != 0
}

/// The ink of a pixel of a monochrome shape: an AND mask in the upper half, an
/// XOR mask in the lower, one bit per pixel.
pub open spec fn monochrome_ink(c: CursorState, row: int, col: int) -> Ink {
    let and_at = row * c.pitch + col / 8;
    let xor_at = (row + c.height as int / 2) * c.pitch + col / 8;
    if xor_at >= c.shape@.len() {
        Ink::Keep
    } else {
        match (mask_bit(c.shape@[and_at], col), mask_bit(c.shape@[xor_at], col)) {
            (false, false) => Ink::Paint { b: 0, g: 0, r: 0 },
            (false, true) => Ink::Paint { b: 255, g: 255, r: 255 },
            (true, false) => Ink::Keep,
            (true, true) => Ink::Invert,
        }
    }
}

/// How many rows of the screen a shape covers: the two masks of a monochrome
/// shape lie on top of each other.
pub open spec fn rows_of(c: CursorState) -> int {
    if c.shape_type == POINTER_SHAPE_MONOCHROME {
        c.height as int / 2
    } else {
        c.height as int
    }
}

/// The ink of a pixel of a shape. Unknown shapes draw nothing.
pub open spec fn ink_of(c: CursorState, row: int, col: int) -> Ink {
    if c.shape_type == POINTER_SHAPE_COLOR {
        color_ink(c, row, col, false)
    } else if c.shape_type == POINTER_SHAPE_MASKED_COLOR {
        color_ink(c, row, col, true)
    } else if c.shape_type == POINTER_SHAPE_MONOCHROME {
        monochrome_ink(c, row, col)
    } else {
        Ink::Keep
    }
}

/// A byte of a frame of the given width after the pointer has been drawn with
/// its top left corner at (px, py): pixels inside both the frame and the shape
/// take the ink, all others stay.
pub open spec fn drawn_byte(
    frame: Seq<u8>,
    frame_w: u32,
    frame_h: u32,
    c: CursorState,
    px: int,
    py: int,
    i: int,
) -> u8 {
    let y = i / 4 / frame_w as int;
    let x = i / 4 % frame_w as int;
    if frame_w > 0 && y < frame_h && i / 4 * 4 + 4 <= frame.len() && 0 <= y - py < rows_of(c) && 0
        <= x - px < c.width {
        inked(ink_of(c, y - py, x - px), i % 4, frame[i])
    } else {
        frame[i]
    }
}

/// A frame with the pointer drawn into it.
pub open spec fn drawn(
    frame: Seq<u8>,
    frame_w: u32,
    frame_h: u32,
    c: CursorState,
    px: int,
    py: int,
) -> Seq<u8> {
    Seq::new(frame.len(), |i: int| drawn_byte(frame, frame_w, frame_h, c, px, py, i))
}

proof fn products_fit(a: u32, b: u32)
    ensures
        0 <= a * b <= 0xFFFF_FFFF * 0xFFFF_FFFF,
{
    assert(0 <= a * b <= 0xFFFF_FFFF * 0xFFFF_FFFF) by (nonlinear_arith)
        requires
            0 <= a <= 0xFFFF_FFFF,
            0 <= b <= 0xFFFF_FFFF,
    ;
}

fn color_ink_at(c: &CursorState, row: u32, col: u32, masked: bool) -> (ink: Ink)
    ensures
        ink == color_ink(*c, row as int, col as int, masked),
{
    proof {
        products_fit(row, c.pitch);
    }
    let src: u128 = row as u128 * c.pitch as u128 + col as u128 * 4;
    if src + 4 > c.shape.len() as u128 {
        return Ink::Keep;
    }
    let at: usize = src as usize;
    let (b, g, r, a) = (c.shape[at], c.shape[at + 1], c.shape[at + 2], c.shape[at + 3]);
    if !masked {
        Ink::Blend { b, g, r, a }
    } else if a == 0 {
        Ink::Paint { b, g, r }
    } else {
        Ink::Flip { b, g, r }
    }
}

fn monochrome_ink_at(c: &CursorState, row: u32, col: u32) -> (ink: Ink)
    requires
        row < c.height / 2,
    ensures
        ink == monochrome_ink(*c, row as int, col as int),
{
    let lower: u32 = row + c.height / 2;
    proof {
        products_fit(row, c.pitch);
        products_fit(lower, c.pitch);
        assert(row * c.pitch <= lower * c.pitch) by (nonlinear_arith)
            requires
                row <= lower,
                0 <= c.pitch,
        ;
    }
    let byte: u128 = (col / 8) as u128;
    let and_at: u128 = row as u128 * c.pitch as u128 + byte;
    let xor_at: u128 = lower as u128 * c.pitch as u128 + byte;
    if xor_at >= c.shape.len() as u128 {
        return Ink::Keep;
    }
    let bit: u8 = 7 - (col % 8) as u8;
    let and_set = (c.shape[and_at as usize] >> bit) & 1u8 != 0;
    let xor_set = (c.shape[xor_at as usize] >> bit) & 1u8 != 0;
    if !and_set {
        if !xor_set {
            Ink::Paint { b: 0, g: 0, r: 0 }
        } else {
            Ink::Paint { b: 255, g: 255, r: 255 }
        }
    } else if !xor_set {
        Ink::Keep
    } else {
        Ink::Invert
    }
}

fn blend(ink: u8, alpha: u8, screen: u8) -> (c: u8)
    ensures
        c == ((ink * alpha + screen * (255 - alpha)) / 255) as u8,
{
    proof {
        assert(0 <= ink * alpha <= 255 * alpha) by (nonlinear_arith)
            requires
                0 <= ink <= 255,
                0 <= alpha,
        ;
        assert(0 <= screen * (255 - alpha) <= 255 * (255 - alpha)) by (nonlinear_arith)
            requires
                0 <= screen <= 255,
                0 <= alpha <= 255,
        ;
    }
    let inverse: u32 = 255 - alpha as u32;
    ((ink as u32 * alpha as u32 + screen as u32 * inverse) / 255) as u8
}

/// Applies an ink to the pixel whose first byte is at `at`.
fn apply(frame: &mut [u8], at: usize, ink: &Ink)
    requires
        at + 4 <= old(frame)@.len(),
        at % 4 == 0,
    ensures
        final(frame)@.len() == old(frame)@.len(),
        forall|i: int|
            0 <= i < old(frame)@.len() ==> #[trigger] final(frame)@[i] == (if i / 4 == at as int / 4 {
                inked(*ink, i % 4, old(frame)@[i])
            } else {
                old(frame)@[i]
            }),
{
    let (b, g, r) = (frame[at], frame[at + 1], frame[at + 2]);
    let (b, g, r) = match ink {
        Ink::Keep => {
            return;
        },
        Ink::Paint { b: ib, g: ig, r: ir } => (*ib, *ig, *ir),
        Ink::Flip { b: ib, g: ig, r: ir } => (b ^ *ib, g ^ *ig, r ^ *ir),
        Ink::Blend { b: ib, g: ig, r: ir, a } => (
            blend(*ib, *a, b),
            blend(*ig, *a, g),
            blend(*ir, *a, r),
        ),
        Ink::Invert => (255 - b, 255 - g, 255 - r),
    };
    frame[at] = b;
    frame[at + 1] = g;
    frame[at + 2] = r;
}

/// Whether the pixel of byte `i` comes before a place of the shape.
spec fn passed(frame_w: u32, px: int, py: int, i: int, row: int, col: int) -> bool {
    let y = i / 4 / frame_w as int;
    let x = i / 4 % frame_w as int;
    y - py < row || (y - py == row && x - px < col)
}

/// A frame with the pointer drawn up to a place of the shape.
spec fn drawn_until(
    frame: Seq<u8>,
    now: Seq<u8>,
    frame_w: u32,
    frame_h: u32,
    c: CursorState,
    px: int,
    py: int,
    row: int,
    col: int,
) -> bool {
    &&& now.len() == frame.len()
    &&& forall|i: int|
        0 <= i < frame.len() ==> #[trigger] now[i] == (if passed(frame_w, px, py, i, row, col) {
            drawn_byte(frame, frame_w, frame_h, c, px, py, i)
        } else {
            frame[i]
        })
}

/// Draws the pointer into a frame of four bytes per pixel, with its top left
/// corner at (px, py). Whatever lies outside the frame is clipped.
pub fn draw_cursor(
    frame: &mut [u8],
    frame_w: u32,
    frame_h: u32,
    cursor: &CursorState,
    px: i32,
    py: i32,
)
    ensures
        final(frame)@ == drawn(old(frame)@, frame_w, frame_h, *cursor, px as int, py as int),
{
    let ghost before = frame@;
    let known = cursor.shape_type == POINTER_SHAPE_COLOR || cursor.shape_type
        == POINTER_SHAPE_MASKED_COLOR || cursor.shape_type == POINTER_SHAPE_MONOCHROME;
    if !known || frame_w == 0 {
        assert(frame@ =~= drawn(before, frame_w, frame_h, *cursor, px as int, py as int));
        return;
    }
    let rows: u32 = if cursor.shape_type == POINTER_SHAPE_MONOCHROME {
        cursor.height / 2
    } else {
        cursor.height
    };
    let mut row: u32 = 0;
    while row < rows
        invariant
            row <= rows,
            rows == rows_of(*cursor),
            frame_w > 0,
            known == (cursor.shape_type == POINTER_SHAPE_COLOR || cursor.shape_type
                == POINTER_SHAPE_MASKED_COLOR || cursor.shape_type == POINTER_SHAPE_MONOCHROME),
            known,
            drawn_until(
                before,
                frame@,
                frame_w,
                frame_h,
                *cursor,
                px as int,
                py as int,
                row as int,
                0,
            ),
        decreases rows - row,
    {
        draw_row(frame, frame_w, frame_h, cursor, px, py, row, Ghost(before));
        row += 1;
    }
    assert(frame@ =~= drawn(before, frame_w, frame_h, *cursor, px as int, py as int));
}

fn draw_row(
    frame: &mut [u8],
    frame_w: u32,
    frame_h: u32,
    cursor: &CursorState,
    px: i32,
    py: i32,
    row: u32,
    Ghost(before): Ghost<Seq<u8>>,
)
    requires
        frame_w > 0,
        row < rows_of(*cursor),
        cursor.shape_type == POINTER_SHAPE_COLOR || cursor.shape_type
            == POINTER_SHAPE_MASKED_COLOR || cursor.shape_type == POINTER_SHAPE_MONOCHROME,
        drawn_until(
            before,
            old(frame)@,
            frame_w,
            frame_h,
            *cursor,
            px as int,
            py as int,
            row as int,
            0,
        ),
    ensures
        drawn_until(
            before,
            final(frame)@,
            frame_w,
            frame_h,
            *cursor,
            px as int,
            py as int,
            row + 1,
            0,
        ),
{
    let y: i64 = py as i64 + row as i64;
    if y < 0 || y >= frame_h as i64 {
        return;
    }
    let mut col: u32 = 0;
    while col < cursor.width
        invariant
            col <= cursor.width,
            0 <= y < frame_h,
            y == py + row,
            frame_w > 0,
            row < rows_of(*cursor),
            cursor.shape_type == POINTER_SHAPE_COLOR || cursor.shape_type
                == POINTER_SHAPE_MASKED_COLOR || cursor.shape_type == POINTER_SHAPE_MONOCHROME,
            drawn_until(
                before,
                frame@,
                frame_w,
                frame_h,
                *cursor,
                px as int,
                py as int,
                row as int,
                col as int,
            ),
        decreases cursor.width - col,
    {
        let x: i64 = px as i64 + col as i64;
        if x >= 0 && x < frame_w as i64 {
            proof {
                products_fit(y as u32, frame_w);
            }
            let pixel: u128 = y as u128 * frame_w as u128 + x as u128;
            proof {
                pixel_place(pixel as int, y as int, x as int, frame_w as int);
            }
            if pixel * 4 + 4 <= frame.len() as u128 {
                let ink = if cursor.shape_type == POINTER_SHAPE_MONOCHROME {
                    monochrome_ink_at(cursor, row, col)
                } else {
                    color_ink_at(
                        cursor,
                        row,
                        col,
                        cursor.shape_type == POINTER_SHAPE_MASKED_COLOR,
                    )
                };
                apply(frame, (pixel * 4) as usize, &ink);
            }
        }
        proof {
            assert forall|i: int| 0 <= i < before.len() implies #[trigger] frame@[i] == (if passed(
                frame_w,
                px as int,
                py as int,
                i,
                row as int,
                col + 1,
            ) {
                drawn_byte(before, frame_w, frame_h, *cursor, px as int, py as int, i)
            } else {
                before[i]
            }) by {
                byte_place(i, y as int, x as int, frame_w as int);
            }
        }
        col += 1;
    }
}

proof fn pixel_place(p: int, y: int, x: int, w: int)
    requires
        0 <= x < w,
        0 <= y,
        p == y * w + x,
    ensures
        p / w == y,
        p % w == x,
{
    vstd::arithmetic::div_mod::lemma_fundamental_div_mod_converse(p, w, y, x);
}

/// A byte belongs to the pixel at (x, y) if and only if its pixel number says so.
proof fn byte_place(i: int, y: int, x: int, w: int)
    requires
        0 <= i,
        0 < w,
    ensures
        i / 4 / w == y && i / 4 % w == x ==> i / 4 == y * w + x,
        0 <= x < w && 0 <= y && i / 4 == y * w + x ==> i / 4 / w == y && i / 4 % w == x,
        0 <= i / 4 % w < w,
{
    let p = i / 4;
    vstd::arithmetic::div_mod::lemma_fundamental_div_mod(p, w);
    assert(w * (p / w) == (p / w) * w) by (nonlinear_arith);
    vstd::arithmetic::div_mod::lemma_mod_bound(p, w);
    if 0 <= x < w && 0 <= y && p == y * w + x {
        pixel_place(p, y, x, w);
    }
}

/// A pointer that lies outside the frame changes nothing.
pub proof fn far_pointers_change_nothing(
    frame: Seq<u8>,
    frame_w: u32,
    frame_h: u32,
    c: CursorState,
    px: int,
    py: int,
)
    requires
        px >= frame_w || py >= frame_h || px + c.width <= 0 || py + c.height <= 0,
    ensures
        drawn(frame, frame_w, frame_h, c, px, py) == frame,
{
    assert forall|i: int| 0 <= i < frame.len() implies drawn_byte(
        frame,
        frame_w,
        frame_h,
        c,
        px,
        py,
        i,
    ) == frame[i] by {
        if frame_w > 0 {
            byte_place(i, 0, 0, frame_w as int);
            assert(i / 4 / frame_w as int >= 0) by (nonlinear_arith)
                requires
                    i >= 0,
                    frame_w > 0,
            ;
        }
    }
    assert(drawn(frame, frame_w, frame_h, c, px, py) =~= frame);
}

/// No ink touches the fourth channel. A fully opaque pixel takes the color of
/// the shape, a fully transparent one leaves that of the screen, and inverting
/// twice leaves it too.
pub proof fn inks_respect_the_screen(ink: Ink, b: u8, g: u8, r: u8, channel: int, screen: u8)
    requires
        0 <= channel < 3,
    ensures
        inked(ink, 3, screen) == screen,
        inked(Ink::Blend { b, g, r, a: 0 }, channel, screen) == screen,
        inked(Ink::Blend { b, g, r, a: 255 }, channel, screen) == pick(channel, b, g, r),
        inked(Ink::Invert, channel, inked(Ink::Invert, channel, screen)) == screen,
{
    let p = pick(channel, b, g, r);
    assert(p * 0u8 + screen * (255 - 0u8) == screen * 255) by (nonlinear_arith);
    assert(p * 255u8 + screen * (255 - 255u8) == p * 255) by (nonlinear_arith);
}

/// Where in a frame a channel of the pixel at (x, y) stands.
pub open spec fn place_of(frame_w: u32, x: int, y: int, channel: int) -> int {
    4 * (y * frame_w + x) + channel
}

/// Whether a pixel of the shape that is drawn at (px, py) lies in the frame.
pub open spec fn lies_in(frame: Seq<u8>, frame_w: u32, frame_h: u32, x: int, y: int) -> bool {
    &&& 0 <= x < frame_w
    &&& 0 <= y < frame_h
    &&& place_of(frame_w, x, y, 4) <= frame.len()
}

proof fn drawn_at(
    frame: Seq<u8>,
    frame_w: u32,
    frame_h: u32,
    c: CursorState,
    px: int,
    py: int,
    x: int,
    y: int,
    channel: int,
)
    requires
        lies_in(frame, frame_w, frame_h, x, y),
        0 <= channel < 4,
    ensures
        0 <= place_of(frame_w, x, y, channel) < frame.len(),
        drawn(frame, frame_w, frame_h, c, px, py)[place_of(frame_w, x, y, channel)] == (if 0 <= y
            - py < rows_of(c) && 0 <= x - px < c.width {
            inked(ink_of(c, y - py, x - px), channel, frame[place_of(frame_w, x, y, channel)])
        } else {
            frame[place_of(frame_w, x, y, channel)]
        }),
{
    let i = place_of(frame_w, x, y, channel);
    assert(y * frame_w >= 0) by (nonlinear_arith)
        requires
            y >= 0,
            frame_w >= 0,
    ;
    assert(i / 4 == y * frame_w + x && i % 4 == channel);
    pixel_place(i / 4, y, x, frame_w as int);
}

/// A color pointer is blended over the frame pixel by pixel. The pixel in row
/// `row` and column `col` of the shape stands `row` rows of `pitch` bytes and
/// `col` times four bytes into its buffer: blue, green, red, and how opaque it
/// is. Each color of the screen moves that share of the way to the color of the
/// shape, rounded down: an opaque pixel is copied, a transparent one leaves the
/// screen. The fourth byte of the screen stays, and so does every pixel whose
/// bytes the buffer does not hold.
pub proof fn color_pointers_blend(
    frame: Seq<u8>,
    frame_w: u32,
    frame_h: u32,
    c: CursorState,
    px: int,
    py: int,
    row: int,
    col: int,
    channel: int,
)
    requires
        c.shape_type == POINTER_SHAPE_COLOR,
        0 <= row < c.height,
        0 <= col < c.width,
        0 <= channel < 3,
        lies_in(frame, frame_w, frame_h, px + col, py + row),
    ensures
        ({
            let out = drawn(frame, frame_w, frame_h, c, px, py);
            let at = place_of(frame_w, px + col, py + row, channel);
            let alpha_at = place_of(frame_w, px + col, py + row, 3);
            let src = row * c.pitch + 4 * col;
            &&& out.len() == frame.len()
            &&& out[alpha_at] == frame[alpha_at]
            &&& src + 4 > c.shape@.len() ==> out[at] == frame[at]
            &&& src + 4 <= c.shape@.len() ==> {
                let ink = c.shape@[src + channel];
                let a = c.shape@[src + 3];
                &&& 255 * out[at] <= ink * a + frame[at] * (255 - a) < 255 * (out[at] + 1)
                &&& a == 255 ==> out[at] == ink
                &&& a == 0 ==> out[at] == frame[at]
            }
        }),
{
    drawn_at(frame, frame_w, frame_h, c, px, py, px + col, py + row, channel);
    drawn_at(frame, frame_w, frame_h, c, px, py, px + col, py + row, 3);
    let src = row * c.pitch + 4 * col;
    let at = place_of(frame_w, px + col, py + row, channel);
    if src + 4 <= c.shape@.len() {
        assert(src >= 0) by (nonlinear_arith)
            requires
                src == row * c.pitch + 4 * col,
                row >= 0,
                col >= 0,
                c.pitch >= 0,
        ;
        let ink = c.shape@[src + channel];
        let a = c.shape@[src + 3];
        let v = frame[at];
        let sum = ink * a + v * (255 - a);
        assert(0 <= sum <= 255 * 255) by (nonlinear_arith)
            requires
                sum == ink * a + v * (255 - a),
                0 <= ink <= 255,
                0 <= v <= 255,
                0 <= a <= 255,
        ;
        if a == 255 {
            assert(sum == ink * 255) by (nonlinear_arith)
                requires
                    sum == ink * a + v * (255 - a),
                    a == 255,
            ;
        }
        if a == 0 {
            assert(sum == v * 255) by (nonlinear_arith)
                requires
                    sum == ink * a + v * (255 - a),
                    a == 0,
            ;
        }
    }
}

/// A masked color pointer covers the screen where its fourth byte is zero, and
/// flips the bits of the screen that its color has set elsewhere.
pub proof fn masked_pointers_cover_or_flip(
    frame: Seq<u8>,
    frame_w: u32,
    frame_h: u32,
    c: CursorState,
    px: int,
    py: int,
    row: int,
    col: int,
    channel: int,
)
    requires
        c.shape_type == POINTER_SHAPE_MASKED_COLOR,
        0 <= row < c.height,
        0 <= col < c.width,
        0 <= channel < 3,
        lies_in(frame, frame_w, frame_h, px + col, py + row),
    ensures
        ({
            let out = drawn(frame, frame_w, frame_h, c, px, py);
            let at = place_of(frame_w, px + col, py + row, channel);
            let alpha_at = place_of(frame_w, px + col, py + row, 3);
            let src = row * c.pitch + 4 * col;
            &&& out.len() == frame.len()
            &&& out[alpha_at] == frame[alpha_at]
            &&& src + 4 > c.shape@.len() ==> out[at] == frame[at]
            &&& src + 4 <= c.shape@.len() && c.shape@[src + 3] == 0 ==> out[at] == c.shape@[src
                + channel]
            &&& src + 4 <= c.shape@.len() && c.shape@[src + 3] != 0 ==> out[at] == frame[at]
                ^ c.shape@[src + channel]
        }),
{
    drawn_at(frame, frame_w, frame_h, c, px, py, px + col, py + row, channel);
    drawn_at(frame, frame_w, frame_h, c, px, py, px + col, py + row, 3);
}

/// All bits where a mask says so, else none.
pub open spec fn spread(set: bool) -> u8 {
    if set {
        255
    } else {
        0
    }
}

/// A monochrome pointer is two masks of one bit per pixel, the leftmost pixel in
/// the highest bit, the second mask half the shape's height below the first.
/// Every color of the screen is combined with the first mask by AND and then
/// with the second by XOR.
pub proof fn monochrome_pointers_mask(
    frame: Seq<u8>,
    frame_w: u32,
    frame_h: u32,
    c: CursorState,
    px: int,
    py: int,
    row: int,
    col: int,
    channel: int,
)
    requires
        c.shape_type == POINTER_SHAPE_MONOCHROME,
        0 <= row < c.height as int / 2,
        0 <= col < c.width,
        0 <= channel < 3,
        lies_in(frame, frame_w, frame_h, px + col, py + row),
    ensures
        ({
            let out = drawn(frame, frame_w, frame_h, c, px, py);
            let at = place_of(frame_w, px + col, py + row, channel);
            let alpha_at = place_of(frame_w, px + col, py + row, 3);
            let upper = row * c.pitch + col / 8;
            let lower = (row + c.height as int / 2) * c.pitch + col / 8;
            let bit = 0x80u8 >> ((col % 8) as u8);
            &&& out.len() == frame.len()
            &&& out[alpha_at] == frame[alpha_at]
            &&& lower >= c.shape@.len() ==> out[at] == frame[at]
            &&& lower < c.shape@.len() ==> out[at] == (frame[at] & spread(
                c.shape@[upper] & bit != 0,
            )) ^ spread(c.shape@[lower] & bit != 0)
        }),
{
    drawn_at(frame, frame_w, frame_h, c, px, py, px + col, py + row, channel);
    drawn_at(frame, frame_w, frame_h, c, px, py, px + col, py + row, 3);
    let upper = row * c.pitch + col / 8;
    let lower = (row + c.height as int / 2) * c.pitch + col / 8;
    if lower < c.shape@.len() {
        let v = frame[place_of(frame_w, px + col, py + row, channel)];
        let k = (col % 8) as u8;
        let m = c.shape@[upper];
        let n = c.shape@[lower];
        assert(k < 8);
        let j = (7 - col % 8) as u8;
        assert((m & (0x80u8 >> k) != 0) == ((m >> j) & 1u8 != 0)) by (bit_vector)
            requires
                k < 8,
                j == 7 - k,
        ;
        assert((n & (0x80u8 >> k) != 0) == ((n >> j) & 1u8 != 0)) by (bit_vector)
            requires
                k < 8,
                j == 7 - k,
        ;
        assert((v & 0u8) ^ 0u8 == 0u8) by (bit_vector);
        assert((v & 0u8) ^ 255u8 == 255u8) by (bit_vector);
        assert((v & 255u8) ^ 0u8 == v) by (bit_vector);
        assert((v & 255u8) ^ 255u8 == 255 - v) by (bit_vector);
    }
}

/// The pointer is drawn nowhere but in its own rectangle: every other pixel of
/// the frame stays, and so does the whole frame where the shape is of no known
/// kind.
pub proof fn pointers_stay_in_their_rectangle(
    frame: Seq<u8>,
    frame_w: u32,
    frame_h: u32,
    c: CursorState,
    px: int,
    py: int,
    x: int,
    y: int,
    channel: int,
)
    requires
        lies_in(frame, frame_w, frame_h, x, y),
        0 <= channel < 4,
        x < px || x >= px + c.width || y < py || y >= py + c.height || !(c.shape_type
            == POINTER_SHAPE_COLOR || c.shape_type == POINTER_SHAPE_MASKED_COLOR || c.shape_type
            == POINTER_SHAPE_MONOCHROME),
    ensures
        drawn(frame, frame_w, frame_h, c, px, py)[place_of(frame_w, x, y, channel)]
            == frame[place_of(frame_w, x, y, channel)],
{
    drawn_at(frame, frame_w, frame_h, c, px, py, x, y, channel);
}

} // verus!
