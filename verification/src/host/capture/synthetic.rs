//! Synthetic capture source: a deterministic moving test pattern in BGRA.
//!
//! Every frame carries its frame number as a row of black and white squares
//! that survives lossy encoding, so that a test can decode frames and follow
//! them through the whole stack.

use vstd::prelude::*;
use vstd::slice::slice_subrange;

use crate::host::control;
use crate::text;
use crate::text::{characters, parse_number, trim};

verus! {

pub const DEFAULT_WIDTH: u32 = 1280;

pub const DEFAULT_HEIGHT: u32 = 720;

/// Geometry of the row of counter squares.
pub const COUNTER_BITS: usize = 24;

pub const COUNTER_SQUARE: usize = 16;

pub const COUNTER_MARGIN: usize = 4;

/// Height of the strip that holds the squares.
pub const COUNTER_STRIP_H: usize = COUNTER_SQUARE + 2 * COUNTER_MARGIN;

// ---- size ------------------------------------------------------------------

/// The first place of an `x` or `X` at or behind `from`.
pub open spec fn cross_at(s: Seq<char>, from: int) -> Option<int>
    decreases s.len() - from,
{
    if from < 0 || from >= s.len() {
        None
    } else if s[from] == 'x' || s[from] == 'X' {
        Some(from)
    } else {
        cross_at(s, from + 1)
    }
}

/// The size that a setting of the form `WxH` asks for, if it lies between
/// 16 and 7680 by 4320.
pub open spec fn asked_size(s: Seq<char>) -> Option<(nat, nat)> {
    let t = text::trimmed(s);
    match cross_at(t, 0) {
        None => None,
        Some(p) => match (
            text::parsed_number(t.subrange(0, p), u32::MAX as nat),
            text::parsed_number(t.subrange(p + 1, t.len() as int), u32::MAX as nat),
        ) {
            (Some(w), Some(h)) => if 16 <= w <= 7680 && 16 <= h <= 4320 {
                Some((w, h))
            } else {
                None
            },
            _ => None,
        },
    }
}

/// The size of the synthetic source.
pub open spec fn size_of(setting: Option<Seq<char>>) -> (nat, nat) {
    match setting {
        Some(s) => match asked_size(s) {
            Some(size) => size,
            None => (DEFAULT_WIDTH as nat, DEFAULT_HEIGHT as nat),
        },
        None => (DEFAULT_WIDTH as nat, DEFAULT_HEIGHT as nat),
    }
}

fn find_cross(s: &[char]) -> (r: Option<usize>)
    ensures
        match r {
            Some(p) => cross_at(s@, 0) == Some(p as int) && p < s@.len(),
            None => cross_at(s@, 0) is None,
        },
{
    let mut i: usize = 0;
    while i < s.len()
        invariant
            i <= s@.len(),
            cross_at(s@, i as int) == cross_at(s@, 0),
        decreases s@.len() - i,
    {
        if s[i] == 'x' || s[i] == 'X' {
            return Some(i);
        }
        i += 1;
    }
    None
}

fn parse_size(setting: &str) -> (r: Option<(u32, u32)>)
    ensures
        match r {
            Some((w, h)) => asked_size(setting@) == Some((w as nat, h as nat)),
            None => asked_size(setting@) is None,
        },
{
    let chars = characters(setting);
    let t = trim(chars.as_slice());
    let p: usize = match find_cross(t) {
        Some(p) => p,
        None => return None,
    };
    assert(t@.len() == t.len());
    let w: u64 = match parse_number(slice_subrange(t, 0, p), u32::MAX as u64) {
        Some(w) => w,
        None => return None,
    };
    let h: u64 = match parse_number(slice_subrange(t, p + 1, t.len()), u32::MAX as u64) {
        Some(h) => h,
        None => return None,
    };
    if 16 <= w && w <= 7680 && 16 <= h && h <= 4320 {
        Some((w as u32, h as u32))
    } else {
        None
    }
}

/// Resolution of the synthetic source, given the value of its setting.
pub fn synthetic_size(setting: Option<&str>) -> (size: (u32, u32))
    ensures
        (size.0 as nat, size.1 as nat) == size_of(control::chars_of(setting)),
{
    match setting {
        Some(s) => match parse_size(s) {
            Some(size) => size,
            None => (DEFAULT_WIDTH, DEFAULT_HEIGHT),
        },
        None => (DEFAULT_WIDTH, DEFAULT_HEIGHT),
    }
}

// ---- the picture -----------------------------------------------------------

/// Whether bit `k` of a number is set.
pub open spec fn bit_set(n: u64, k: int) -> bool {
    n as nat / vstd::arithmetic::power2::pow2(k as nat) % 2 == 1
}

/// Left edge of square `k`.
pub open spec fn square_left(k: int) -> int {
    COUNTER_MARGIN + k * 20
}

/// Whether a pixel lies in a white square: square `k` is white where bit `k`
/// of the frame number is set, and is drawn only if it fits the width.
pub open spec fn in_square(w: int, frame: u64, x: int, y: int) -> bool {
    let k = (x - 4) / 20;
    &&& 4 <= y < 20
    &&& x >= 4
    &&& (x - 4) % 20 < 16
    &&& k < COUNTER_BITS
    &&& square_left(k) + COUNTER_SQUARE <= w
    &&& bit_set(frame, k)
}

/// Channel `c` (blue, green, red, alpha) of a pixel of the strip.
pub open spec fn strip_byte(w: int, frame: u64, x: int, y: int, c: int) -> u8 {
    if c == 3 || in_square(w, frame, x, y) {
        255
    } else {
        0
    }
}

/// Channel `c` of a pixel below the strip: a slow diagonal gradient, and a
/// bright vertical bar that sweeps over it.
pub open spec fn pattern_byte(w: int, frame: u64, x: int, y: int, c: int) -> u8 {
    let v = (x + y + frame * 3) % 256;
    let bar_x = (frame * 6) % w;
    let bar_w = if w / 40 < 2 {
        2
    } else {
        w / 40
    };
    if bar_x <= x < bar_x + bar_w {
        if c == 0 {
            26
        } else if c == 1 {
            122
        } else {
            255
        }
    } else if c == 0 {
        v as u8
    } else if c == 1 {
        (v / 2 + 64) as u8
    } else if c == 2 {
        (255 - v) as u8
    } else {
        255
    }
}

/// Rows that the strip covers in a buffer.
pub open spec fn strip_rows(len: int, w: int) -> int {
    if len / (4 * w) < COUNTER_STRIP_H {
        len / (4 * w)
    } else {
        COUNTER_STRIP_H as int
    }
}

/// A buffer with the counter strip painted over its first rows.
pub open spec fn with_strip(buf: Seq<u8>, w: int, frame: u64) -> Seq<u8> {
    Seq::new(
        buf.len(),
        |i: int|
            if i / (4 * w) < strip_rows(buf.len() as int, w) {
                strip_byte(w, frame, i % (4 * w) / 4, i / (4 * w), i % (4 * w) % 4)
            } else {
                buf[i]
            },
    )
}

/// A buffer with the pattern painted below the strip, down to row `h`.
pub open spec fn with_pattern(buf: Seq<u8>, w: int, h: int, frame: u64) -> Seq<u8> {
    Seq::new(
        buf.len(),
        |i: int|
            if COUNTER_STRIP_H <= i / (4 * w) < h {
                pattern_byte(w, frame, i % (4 * w) / 4, i / (4 * w), i % (4 * w) % 4)
            } else {
                buf[i]
            },
    )
}

/// Whether a square is drawn.
pub open spec fn draws_square(w: int, frame: u64) -> bool {
    exists|k: int|
        0 <= k < COUNTER_BITS && #[trigger] square_left(k) + COUNTER_SQUARE <= w && bit_set(frame, k)
}

proof fn halving(n: nat, k: nat)
    ensures
        n / vstd::arithmetic::power2::pow2(k + 1) == n / vstd::arithmetic::power2::pow2(k) / 2,
{
    vstd::arithmetic::power2::lemma_pow2_unfold(k + 1);
    vstd::arithmetic::power2::lemma_pow2_pos(k);
    let p = vstd::arithmetic::power2::pow2(k) as int;
    vstd::arithmetic::div_mod::lemma_div_denominator(n as int, p, 2);
    assert(p * 2 == 2 * p);
}

/// The low bits of a frame number.
fn counter_bits(frame: u64) -> (bits: Vec<bool>)
    ensures
        bits@.len() == COUNTER_BITS,
        forall|k: int| 0 <= k < COUNTER_BITS ==> #[trigger] bits@[k] == bit_set(frame, k),
{
    let mut bits: Vec<bool> = Vec::new();
    let mut rest: u64 = frame;
    let mut i: usize = 0;
    proof {
        vstd::arithmetic::power2::lemma2_to64();
    }
    while i < COUNTER_BITS
        invariant
            i <= COUNTER_BITS,
            bits@.len() == i,
            rest == frame as nat / vstd::arithmetic::power2::pow2(i as nat),
            forall|k: int| 0 <= k < i ==> #[trigger] bits@[k] == bit_set(frame, k),
        decreases COUNTER_BITS - i,
    {
        proof {
            halving(frame as nat, i as nat);
        }
        bits.push(rest % 2 == 1);
        rest = rest / 2;
        i += 1;
    }
    bits
}

/// Where a byte of a pixel stands: row, column and channel.
proof fn place_of_byte(rb: int, y: int, x: int, c: int)
    requires
        0 <= y,
        0 <= x,
        4 * x + 4 <= rb,
        0 <= c < 4,
    ensures
        (y * rb + 4 * x + c) / rb == y,
        (y * rb + 4 * x + c) % rb / 4 == x,
        (y * rb + 4 * x + c) % rb % 4 == c,
{
    let r = 4 * x + c;
    vstd::arithmetic::div_mod::lemma_fundamental_div_mod_converse(y * rb + r, rb, y, r);
}

/// A byte at or behind the start of a row lies in that row or below.
proof fn row_of_byte(rb: int, y: int, i: int)
    requires
        0 < rb,
        0 <= y,
        y * rb <= i,
    ensures
        i / rb >= y,
{
    vstd::arithmetic::div_mod::lemma_div_is_ordered(y * rb, i, rb);
    vstd::arithmetic::div_mod::lemma_div_multiples_vanish(y, rb);
    assert(y * rb == rb * y) by (nonlinear_arith);
}

/// A byte in front of the start of a row lies in a row above.
proof fn row_above_byte(rb: int, y: int, i: int)
    requires
        0 < rb,
        0 <= i < y * rb,
    ensures
        i / rb < y,
{
    vstd::arithmetic::div_mod::lemma_fundamental_div_mod(i, rb);
    let q = i / rb;
    if q >= y {
        assert(q * rb >= y * rb) by (nonlinear_arith)
            requires
                q >= y,
                rb > 0,
        ;
        assert(rb * q == q * rb) by (nonlinear_arith);
    }
}

/// The four bytes of a pixel of the strip.
proof fn strip_pixel(buf: Seq<u8>, w: int, frame: u64, y: int, x: int)
    requires
        0 <= y < strip_rows(buf.len() as int, w),
        0 <= x < w,
        y * (4 * w) + 4 * x + 4 <= buf.len(),
    ensures
        ({
            let img = with_strip(buf, w, frame);
            let at = y * (4 * w) + 4 * x;
            &&& img[at] == strip_byte(w, frame, x, y, 0)
            &&& img[at + 1] == strip_byte(w, frame, x, y, 1)
            &&& img[at + 2] == strip_byte(w, frame, x, y, 2)
            &&& img[at + 3] == strip_byte(w, frame, x, y, 3)
        }),
{
    assert(0 <= y * (4 * w)) by (nonlinear_arith)
        requires
            0 <= y,
            0 < w,
    ;
    place_of_byte(4 * w, y, x, 0);
    place_of_byte(4 * w, y, x, 1);
    place_of_byte(4 * w, y, x, 2);
    place_of_byte(4 * w, y, x, 3);
}

/// The four bytes of a pixel below the strip.
proof fn pattern_pixel(buf: Seq<u8>, w: int, h: int, frame: u64, y: int, x: int)
    requires
        24 <= y < h,
        0 <= x < w,
        y * (4 * w) + 4 * x + 4 <= buf.len(),
    ensures
        ({
            let img = with_pattern(buf, w, h, frame);
            let at = y * (4 * w) + 4 * x;
            &&& img[at] == pattern_byte(w, frame, x, y, 0)
            &&& img[at + 1] == pattern_byte(w, frame, x, y, 1)
            &&& img[at + 2] == pattern_byte(w, frame, x, y, 2)
            &&& img[at + 3] == pattern_byte(w, frame, x, y, 3)
        }),
{
    assert(0 <= y * (4 * w)) by (nonlinear_arith)
        requires
            0 <= y,
            0 < w,
    ;
    place_of_byte(4 * w, y, x, 0);
    place_of_byte(4 * w, y, x, 1);
    place_of_byte(4 * w, y, x, 2);
    place_of_byte(4 * w, y, x, 3);
}

fn put_pixel(buf: &mut [u8], at: usize, b: u8, g: u8, r: u8, a: u8)
    requires
        at + 4 <= old(buf)@.len(),
    ensures
        final(buf)@ == old(buf)@.update(at as int, b).update(at + 1, g).update(at + 2, r).update(
            at + 3,
            a,
        ),
{
    assert(buf@.len() == buf.len());
    buf[at] = b;
    buf[at + 1] = g;
    buf[at + 2] = r;
    buf[at + 3] = a;
}

/// Paints the counter strip: a black band across the top with a square for
/// each bit; square `k` is white where bit `k` of the frame number is set.
pub fn draw_frame_counter(buf: &mut [u8], width: u32, frame_number: u64)
    requires
        width > 0,
        4 * width <= usize::MAX,
        draws_square(width as int, frame_number) ==> old(buf)@.len() >= 20 * (4 * width),
    ensures
        final(buf)@ == with_strip(old(buf)@, width as int, frame_number),
{
    let ghost start = buf@;
    let ghost wi = width as int;
    let ghost want = with_strip(start, wi, frame_number);
    let w: usize = width as usize;
    let rb: usize = 4 * w;
    let rows_all: usize = buf.len() / rb;
    let rows: usize = if rows_all < COUNTER_STRIP_H {
        rows_all
    } else {
        COUNTER_STRIP_H
    };
    let bits = counter_bits(frame_number);
    proof {
        vstd::arithmetic::div_mod::lemma_fundamental_div_mod(start.len() as int, rb as int);
        assert(rows * rb <= start.len()) by (nonlinear_arith)
            requires
                rows <= rows_all,
                rb > 0,
                rb * rows_all <= start.len(),
        ;
    }
    let mut y: usize = 0;
    let mut base: usize = 0;
    assert(0 * rb == 0) by (nonlinear_arith);
    while y < rows
        invariant
            y <= rows <= 24,
            rb == 4 * w,
            w == width,
            wi == width,
            w > 0,
            base == y * rb,
            rows * rb <= start.len(),
            rows == strip_rows(start.len() as int, wi),
            buf@.len() == start.len(),
            want == with_strip(start, wi, frame_number),
            bits@.len() == COUNTER_BITS,
            forall|k: int| 0 <= k < COUNTER_BITS ==> #[trigger] bits@[k] == bit_set(frame_number, k),
            forall|i: int| 0 <= i < base ==> #[trigger] buf@[i] == want[i],
            forall|i: int| base <= i < start.len() ==> #[trigger] buf@[i] == start[i],
        decreases rows - y,
    {
        proof {
            assert((y + 1) * rb == y * rb + rb) by (nonlinear_arith);
            assert((y + 1) * rb <= rows * rb) by (nonlinear_arith)
                requires
                    y + 1 <= rows,
                    rb > 0,
            ;
        }
        let mut x: usize = 0;
        while x < w
            invariant
                x <= w,
                y < rows <= 24,
                rb == 4 * w,
                w == width,
                wi == width,
                base == y * rb,
                base + rb <= start.len(),
                rows == strip_rows(start.len() as int, wi),
                buf@.len() == start.len(),
                want == with_strip(start, wi, frame_number),
                bits@.len() == COUNTER_BITS,
                forall|k: int|
                    0 <= k < COUNTER_BITS ==> #[trigger] bits@[k] == bit_set(frame_number, k),
                forall|i: int| 0 <= i < base + 4 * x ==> #[trigger] buf@[i] == want[i],
                forall|i: int| base + 4 * x <= i < start.len() ==> #[trigger] buf@[i] == start[i],
            decreases w - x,
        {
            let white = if 4 <= y && y < 20 && x >= 4 && (x - 4) % 20 < 16 {
                let k: usize = (x - 4) / 20;
                k < COUNTER_BITS && COUNTER_MARGIN + k * 20 + COUNTER_SQUARE <= w && bits[k]
            } else {
                false
            };
            assert(white == in_square(wi, frame_number, x as int, y as int));
            let v: u8 = if white {
                255
            } else {
                0
            };
            let ghost before = buf@;
            assert(buf@.len() == buf.len());
            let at: usize = base + 4 * x;
            put_pixel(buf, at, v, v, v, 255);
            proof {
                strip_pixel(start, wi, frame_number, y as int, x as int);
                assert forall|i: int| 0 <= i < base + 4 * (x + 1) implies #[trigger] buf@[i]
                    == want[i] by {
                    if i < at {
                        assert(buf@[i] == before[i]);
                    }
                }
            }
            x += 1;
        }
        assert(buf@.len() == buf.len());
        base = base + rb;
        y += 1;
    }
    proof {
        assert forall|i: int| 0 <= i < start.len() implies #[trigger] buf@[i] == want[i] by {
            if i >= base {
                row_of_byte(rb as int, rows as int, i);
            }
        }
        assert(buf@ =~= want);
    }
}

fn paint_pattern(buf: &mut [u8], width: u32, height: u32, frame_number: u64)
    requires
        width > 0,
        4 * width <= usize::MAX,
        old(buf)@.len() >= height * (4 * width),
        frame_number * 6 + width + height <= u64::MAX,
    ensures
        final(buf)@ == with_pattern(old(buf)@, width as int, height as int, frame_number),
{
    let ghost start = buf@;
    let ghost wi = width as int;
    let ghost hi = height as int;
    let ghost want = with_pattern(start, wi, hi, frame_number);
    let w: usize = width as usize;
    let rb: usize = 4 * w;
    assert(buf@.len() == buf.len());
    let bar_x: u64 = frame_number * 6 % (width as u64);
    let bar_w: u64 = if width / 40 < 2 {
        2
    } else {
        (width / 40) as u64
    };
    if height as u64 <= COUNTER_STRIP_H as u64 {
        proof {
            assert(buf@ =~= want);
        }
        return ;
    }
    let h: usize = height as usize;
    let mut y: usize = COUNTER_STRIP_H;
    proof {
        assert(24 * rb <= h * rb) by (nonlinear_arith)
            requires
                24 <= h,
                rb > 0,
        ;
    }
    let mut base: usize = COUNTER_STRIP_H * rb;
    proof {
        assert forall|i: int| 0 <= i < base implies #[trigger] buf@[i] == want[i] by {
            row_above_byte(rb as int, 24, i);
        }
    }
    while y < h
        invariant
            24 <= y <= h,
            h == height,
            hi == height,
            rb == 4 * w,
            w == width,
            wi == width,
            w > 0,
            base == y * rb,
            h * rb <= start.len(),
            buf@.len() == start.len(),
            frame_number * 6 + width + height <= u64::MAX,
            bar_x == frame_number * 6 % wi,
            bar_w == (if wi / 40 < 2 {
                2
            } else {
                wi / 40
            }),
            want == with_pattern(start, wi, hi, frame_number),
            forall|i: int| 0 <= i < base ==> #[trigger] buf@[i] == want[i],
            forall|i: int| base <= i < start.len() ==> #[trigger] buf@[i] == start[i],
        decreases h - y,
    {
        proof {
            assert((y + 1) * rb == y * rb + rb) by (nonlinear_arith);
            assert((y + 1) * rb <= h * rb) by (nonlinear_arith)
                requires
                    y + 1 <= h,
                    rb > 0,
            ;
        }
        let mut x: usize = 0;
        while x < w
            invariant
                x <= w,
                24 <= y < h,
                h == height,
                hi == height,
                rb == 4 * w,
                w == width,
                wi == width,
                base == y * rb,
                base + rb <= start.len(),
                buf@.len() == start.len(),
                frame_number * 6 + width + height <= u64::MAX,
                bar_x == frame_number * 6 % wi,
                bar_w == (if wi / 40 < 2 {
                    2
                } else {
                    wi / 40
                }),
                bar_x < wi,
                want == with_pattern(start, wi, hi, frame_number),
                forall|i: int| 0 <= i < base + 4 * x ==> #[trigger] buf@[i] == want[i],
                forall|i: int| base + 4 * x <= i < start.len() ==> #[trigger] buf@[i] == start[i],
            decreases w - x,
        {
            let v: u8 = ((x as u64 + y as u64 + frame_number * 3) % 256) as u8;
            let in_bar = bar_x <= x as u64 && (x as u64) < bar_x + bar_w;
            let ghost before = buf@;
            assert(buf@.len() == buf.len());
            let at: usize = base + 4 * x;
            if in_bar {
                put_pixel(buf, at, 26, 122, 255, 255);
            } else {
                put_pixel(buf, at, v, v / 2 + 64, 255 - v, 255);
            }
            proof {
                pattern_pixel(start, wi, hi, frame_number, y as int, x as int);
                assert forall|i: int| 0 <= i < base + 4 * (x + 1) implies #[trigger] buf@[i]
                    == want[i] by {
                    if i < at {
                        assert(buf@[i] == before[i]);
                    }
                }
            }
            x += 1;
        }
        assert(buf@.len() == buf.len());
        base = base + rb;
        y += 1;
    }
    proof {
        assert forall|i: int| 0 <= i < start.len() implies #[trigger] buf@[i] == want[i] by {
            if i >= base {
                row_of_byte(rb as int, h as int, i);
            }
        }
        assert(buf@ =~= want);
    }
}

/// Draws the full test pattern for a frame into a BGRA buffer.
pub fn render_synthetic_frame(buf: &mut [u8], width: u32, height: u32, frame_number: u64)
    requires
        width > 0,
        4 * width <= usize::MAX,
        old(buf)@.len() >= height * (4 * width),
        frame_number * 6 + width + height <= u64::MAX,
        draws_square(width as int, frame_number) ==> old(buf)@.len() >= 20 * (4 * width),
    ensures
        final(buf)@ == with_strip(
            with_pattern(old(buf)@, width as int, height as int, frame_number),
            width as int,
            frame_number,
        ),
{
    paint_pattern(buf, width, height, frame_number);
    draw_frame_counter(buf, width, frame_number);
}

// ---- reading the counter back ----------------------------------------------

/// Column at the middle of square `k`.
pub open spec fn square_middle(k: int) -> int {
    square_left(k) + 8
}

/// The number whose bit `k` is set where `bit(k)` holds, for `k` below `n`.
pub open spec fn number_of(bit: spec_fn(int) -> bool, n: int) -> nat
    decreases n,
{
    if n <= 0 {
        0
    } else {
        number_of(bit, n - 1) + (if bit(n - 1) {
            vstd::arithmetic::power2::pow2((n - 1) as nat)
        } else {
            0
        })
    }
}

/// Whether square `k` looks white on a luma plane.
pub open spec fn luma_bit(luma: Seq<u8>, stride: int, w: int, k: int) -> bool {
    let at = 12 * stride + square_middle(k);
    square_middle(k) < w && at < luma.len() && luma[at] > 128
}

/// Whether square `k` looks white in a BGRA buffer.
pub open spec fn bgra_bit(buf: Seq<u8>, w: int, k: int) -> bool {
    let at = 12 * (4 * w) + 4 * square_middle(k) + 1;
    square_middle(k) < w && at < buf.len() && buf[at] > 128
}

proof fn number_is_bounded(bit: spec_fn(int) -> bool, n: nat)
    ensures
        number_of(bit, n as int) < vstd::arithmetic::power2::pow2(n),
    decreases n,
{
    if n == 0 {
        vstd::arithmetic::power2::lemma2_to64();
    } else {
        number_is_bounded(bit, (n - 1) as nat);
        vstd::arithmetic::power2::lemma_pow2_unfold(n);
    }
}

proof fn power_is_bounded(n: nat)
    requires
        n <= 24,
    ensures
        vstd::arithmetic::power2::pow2(n) <= 0x100_0000,
{
    vstd::arithmetic::power2::lemma2_to64();
    if n < 24 {
        vstd::arithmetic::power2::lemma_pow2_strictly_increases(n, 24);
    }
}

/// Recovers the frame number from a decoded luma plane: samples the middle of
/// each square against mid-gray.
pub fn decode_frame_counter_from_luma(luma: &[u8], stride: usize, width: u32) -> (value: u64)
    requires
        12 * stride + 480 <= usize::MAX,
    ensures
        value == number_of(|k: int| luma_bit(luma@, stride as int, width as int, k), 24),
{
    let ghost bit = |k: int| luma_bit(luma@, stride as int, width as int, k);
    let mut value: u64 = 0;
    let mut power: u64 = 1;
    let mut k: usize = 0;
    proof {
        vstd::arithmetic::power2::lemma2_to64();
    }
    while k < COUNTER_BITS
        invariant
            k <= COUNTER_BITS,
            12 * stride + 480 <= usize::MAX,
            bit == (|k: int| luma_bit(luma@, stride as int, width as int, k)),
            power == vstd::arithmetic::power2::pow2(k as nat),
            value == number_of(bit, k as int),
        decreases COUNTER_BITS - k,
    {
        proof {
            number_is_bounded(bit, k as nat);
            power_is_bounded(k as nat);
            power_is_bounded((k + 1) as nat);
            vstd::arithmetic::power2::lemma_pow2_unfold((k + 1) as nat);
        }
        let cx: usize = COUNTER_MARGIN + k * 20 + 8;
        let at: usize = 12 * stride + cx;
        let white = (cx as u64) < width as u64 && at < luma.len() && luma[at] > 128;
        assert(white == bit(k as int));
        if white {
            value = value + power;
        }
        power = power * 2;
        k += 1;
    }
    value
}

/// Recovers the frame number from a BGRA buffer.
pub fn decode_frame_counter_from_bgra(buf: &[u8], width: u32) -> (value: u64)
    requires
        12 * (4 * width) + 4 * 480 + 2 <= usize::MAX,
    ensures
        value == number_of(|k: int| bgra_bit(buf@, width as int, k), 24),
{
    let ghost bit = |k: int| bgra_bit(buf@, width as int, k);
    let mut value: u64 = 0;
    let mut power: u64 = 1;
    let mut k: usize = 0;
    proof {
        vstd::arithmetic::power2::lemma2_to64();
    }
    while k < COUNTER_BITS
        invariant
            k <= COUNTER_BITS,
            12 * (4 * width) + 4 * 480 + 2 <= usize::MAX,
            bit == (|k: int| bgra_bit(buf@, width as int, k)),
            power == vstd::arithmetic::power2::pow2(k as nat),
            value == number_of(bit, k as int),
        decreases COUNTER_BITS - k,
    {
        proof {
            number_is_bounded(bit, k as nat);
            power_is_bounded(k as nat);
            power_is_bounded((k + 1) as nat);
            vstd::arithmetic::power2::lemma_pow2_unfold((k + 1) as nat);
        }
        let cx: usize = COUNTER_MARGIN + k * 20 + 8;
        let at: usize = 12 * (4 * width as usize) + 4 * cx + 1;
        let white = (cx as u64) < width as u64 && at < buf.len() && buf[at] > 128;
        assert(white == bit(k as int));
        if white {
            value = value + power;
        }
        power = power * 2;
        k += 1;
    }
    value
}

// ---- laws ------------------------------------------------------------------

proof fn low_bits_spell_remainder(frame: u64, bit: spec_fn(int) -> bool, n: nat)
    requires
        n <= 24,
        forall|k: int| 0 <= k < n ==> #[trigger] bit(k) == bit_set(frame, k),
    ensures
        number_of(bit, n as int) == frame as nat % vstd::arithmetic::power2::pow2(n),
    decreases n,
{
    if n == 0 {
        vstd::arithmetic::power2::lemma2_to64();
    } else {
        let m = (n - 1) as nat;
        low_bits_spell_remainder(frame, bit, m);
        vstd::arithmetic::power2::lemma_pow2_unfold(n);
        vstd::arithmetic::power2::lemma_pow2_pos(m);
        let p = vstd::arithmetic::power2::pow2(m) as int;
        vstd::arithmetic::div_mod::lemma_mod_breakdown(frame as int, p, 2);
        assert(p * 2 == 2 * p);
        assert(bit(m as int) == bit_set(frame, m as int));
        assert(p * 1 == p && p * 0 == 0);
    }
}

/// The counter of a frame is read back from its picture: the low 24 bits of the
/// frame number. It takes a width that all squares fit and a
/// height that the squares reach.
pub proof fn counter_round_trips(buf: Seq<u8>, w: int, frame: u64)
    requires
        480 <= w,
        20 * (4 * w) <= buf.len(),
    ensures
        number_of(|k: int| bgra_bit(with_strip(buf, w, frame), w, k), 24) == frame as nat
            % 0x100_0000,
{
    let img = with_strip(buf, w, frame);
    let bit = |k: int| bgra_bit(img, w, k);
    let rb = 4 * w;
    vstd::arithmetic::div_mod::lemma_div_is_ordered(20 * rb, buf.len() as int, rb);
    vstd::arithmetic::div_mod::lemma_div_multiples_vanish(20, rb);
    assert(strip_rows(buf.len() as int, w) >= 20);
    assert forall|k: int| 0 <= k < 24 implies #[trigger] bit(k) == bit_set(frame, k) by {
        let x = square_middle(k);
        place_of_byte(rb, 12, x, 1);
        let at = 12 * rb + 4 * x + 1;
        assert(at < buf.len());
        assert((x - 4) % 20 == 8 && (x - 4) / 20 == k);
        assert(img[at] == strip_byte(w, frame, x, 12, 1));
    }
    low_bits_spell_remainder(frame, bit, 24);
    vstd::arithmetic::power2::lemma2_to64();
}

proof fn bits_are_shifts(frame: u64, k: int)
    requires
        0 <= k < 64,
    ensures
        bit_set(frame, k) == ((frame >> (k as u64)) & 1u64 == 1),
{
    vstd::bits::lemma_u64_shr_is_div(frame, k as u64);
    let x = frame >> (k as u64);
    assert((x & 1u64 == 1) == (x % 2 == 1)) by (bit_vector);
}

/// A decoder gets the frame number back from any picture in which the middles of
/// the squares still read bright where the number has a one and dark where it
/// has a zero, the lowest bit in the leftmost square.
pub proof fn counters_survive_encoding(luma: Seq<u8>, stride: int, w: int, frame: u64)
    requires
        w >= 480,
        stride >= 0,
        12 * stride + 480 <= luma.len(),
        forall|k: int|
            0 <= k < 24 ==> (#[trigger] luma[12 * stride + 12 + 20 * k] > 128 <==> (frame >> (
            k as u64)) & 1u64 == 1),
    ensures
        number_of(|k: int| luma_bit(luma, stride, w, k), 24) == frame as nat % 0x100_0000,
{
    let bit = |k: int| luma_bit(luma, stride, w, k);
    assert forall|k: int| 0 <= k < 24 implies #[trigger] bit(k) == bit_set(frame, k) by {
        bits_are_shifts(frame, k);
        assert(square_middle(k) == 12 + 20 * k);
        assert(luma[12 * stride + 12 + 20 * k] == luma[12 * stride + square_middle(k)]);
    }
    low_bits_spell_remainder(frame, bit, 24);
    vstd::arithmetic::power2::lemma2_to64();
}

/// What the strip shows: in a picture that is wide enough, square `k` is a block
/// of sixteen by sixteen white pixels where bit `k` of the frame number is one,
/// four pixels from the top and from its neighbours. All else in the strip is
/// black.
pub proof fn strips_show_the_bits(w: int, frame: u64, k: int, x: int, y: int, channel: int)
    requires
        w >= 484,
        0 <= k < 24,
        0 <= x < w,
        0 <= y < 24,
        0 <= channel < 3,
    ensures
        4 <= y < 20 && 4 + 20 * k <= x < 20 + 20 * k ==> strip_byte(w, frame, x, y, channel) == (
        if (frame >> (k as u64)) & 1u64 == 1 {
            255u8
        } else {
            0
        }),
        y < 4 || y >= 20 || x < 4 || (x - 4) % 20 >= 16 || x >= 484 ==> strip_byte(
            w,
            frame,
            x,
            y,
            channel,
        ) == 0,
        strip_byte(w, frame, x, y, 3) == 255,
{
    bits_are_shifts(frame, k);
    if 4 <= y < 20 && 4 + 20 * k <= x < 20 + 20 * k {
        assert((x - 4) / 20 == k && (x - 4) % 20 < 16);
    }
    if x >= 484 {
        assert((x - 4) / 20 >= 24);
    }
}

/// The picture below the strip moves: from one frame to the next the gradient
/// goes three pixels to the left and the bar six to the right, until it starts
/// over at the left edge. In the gradient red falls as blue rises, and green
/// rises half as fast; every pixel is opaque.
pub proof fn pictures_move(w: int, frame: u64, x: int, y: int)
    requires
        80 <= w,
        0 <= x < w,
        0 <= y,
        frame < u64::MAX,
    ensures
        ({
            let next = (frame + 1) as u64;
            let bar = (frame * 6) % w;
            let wide = w / 40;
            let shown = bar <= x < bar + wide;
            let b = pattern_byte(w, frame, x, y, 0);
            &&& pattern_byte(w, frame, x, y, 3) == 255
            &&& shown ==> b == 26 && pattern_byte(w, frame, x, y, 1) == 122 && pattern_byte(
                w,
                frame,
                x,
                y,
                2,
            ) == 255
            &&& !shown ==> b as int == (x + y + 3 * frame) % 256 && pattern_byte(
                w,
                frame,
                x,
                y,
                1,
            ) as int == b as int / 2 + 64 && pattern_byte(w, frame, x, y, 2) as int == 255 - b
            &&& bar + 6 < w ==> (next * 6) % w == bar + 6
        }),
{
    let n = frame * 6;
    vstd::arithmetic::div_mod::lemma_fundamental_div_mod(n, w);
    vstd::arithmetic::div_mod::lemma_mod_bound(n, w);
    if n % w + 6 < w {
        let q = n / w;
        assert(w * q == q * w) by (nonlinear_arith);
        vstd::arithmetic::div_mod::lemma_fundamental_div_mod_converse(n + 6, w, q, n % w + 6);
    }
}

/// A picture is the strip above and the pattern below, pixel for pixel: blue,
/// green, red and alpha of the pixel at (x, y) stand behind those of the pixels
/// to its left and of the rows above.
pub proof fn pictures_are_painted_pixel_by_pixel(
    buf: Seq<u8>,
    w: int,
    h: int,
    frame: u64,
    x: int,
    y: int,
    channel: int,
)
    requires
        0 < w,
        24 <= h,
        buf.len() == 4 * w * h,
        0 <= x < w,
        0 <= y < h,
        0 <= channel < 4,
    ensures
        ({
            let img = with_strip(with_pattern(buf, w, h, frame), w, frame);
            let at = 4 * (w * y + x) + channel;
            &&& img.len() == buf.len()
            &&& 0 <= at < img.len()
            &&& img[at] == (if y < 24 {
                strip_byte(w, frame, x, y, channel)
            } else {
                pattern_byte(w, frame, x, y, channel)
            })
        }),
{
    let rb = 4 * w;
    let at = 4 * (w * y + x) + channel;
    assert(at == y * rb + 4 * x + channel) by (nonlinear_arith)
        requires
            at == 4 * (w * y + x) + channel,
            rb == 4 * w,
    ;
    assert(0 <= y * rb && y * rb + rb <= 4 * w * h) by (nonlinear_arith)
        requires
            0 <= y <= h - 1,
            rb == 4 * w,
            0 < w,
    ;
    place_of_byte(rb, y, x, channel);
    assert(4 * w * h == h * rb) by (nonlinear_arith)
        requires
            rb == 4 * w,
    ;
    vstd::arithmetic::div_mod::lemma_div_multiples_vanish(h, rb);
    assert(buf.len() as int / rb == h);
}

/// A size is asked for as its width and height in digits with an `x` between
/// them, small or capital, and white space around it or not. It is taken where
/// it is no smaller than 16 by 16 and no larger than 7680 by 4320.
pub proof fn sizes_are_understood(a: Seq<char>, w: nat, cross: char, h: nat, b: Seq<char>)
    requires
        text::is_blank(a),
        text::is_blank(b),
        cross == 'x' || cross == 'X',
        w <= u32::MAX,
        h <= u32::MAX,
    ensures
        asked_size(a + (text::decimal(w) + seq![cross] + text::decimal(h)) + b) == (if 16 <= w <= 7680
            && 16 <= h <= 4320 {
            Some((w, h))
        } else {
            None
        }),
        size_of(None) == (1280nat, 720nat),
{
    let dw = text::decimal(w);
    let dh = text::decimal(h);
    let t = dw + seq![cross] + dh;
    text::digits_are_not_white(w);
    text::digits_are_not_white(h);
    text::decimals_read_back(w, u32::MAX as nat);
    text::decimals_read_back(h, u32::MAX as nat);
    assert(t[0] == dw[0] && t.last() == dh[dh.len() - 1]);
    text::padding_is_trimmed(a, t, b);
    assert forall|i: int| 0 <= i < dw.len() implies #[trigger] t[i] != 'x' && t[i] != 'X' by {
        assert(t[i] == dw[i]);
    }
    cross_is_found(t, 0, dw.len() as int);
    assert(t.subrange(0, dw.len() as int) =~= dw);
    assert(t.subrange(dw.len() as int + 1, t.len() as int) =~= dh);
}

proof fn cross_is_found(s: Seq<char>, from: int, at: int)
    requires
        0 <= from <= at < s.len(),
        s[at] == 'x' || s[at] == 'X',
        forall|i: int| from <= i < at ==> #[trigger] s[i] != 'x' && s[i] != 'X',
    ensures
        cross_at(s, from) == Some(at),
    decreases at - from,
{
    if from < at {
        cross_is_found(s, from + 1, at);
    }
}

} // verus!
