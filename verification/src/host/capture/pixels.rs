//! Rows of pixels, between buffers whose rows are padded and frames whose rows
//! are not. A pixel has four bytes.

use vstd::prelude::*;
use vstd::slice::slice_subrange;

use crate::bytes::push_all;

verus! {

/// The bytes of one row.
pub open spec fn row_len(width: u32) -> int {
    width * 4
}

/// How far the rows of a padded buffer reach.
pub open spec fn padded_len(width: u32, height: u32, pitch: int) -> int {
    if height == 0 {
        0
    } else {
        (height - 1) * pitch + row_len(width)
    }
}

/// The rows of a padded buffer, one after the other.
pub open spec fn unpadded(src: Seq<u8>, pitch: int, row: int, rows: int) -> Seq<u8> {
    Seq::new((row * rows) as nat, |i: int| src[i / row * pitch + i % row])
}

/// The bytes that a frame of this size takes, if memory can hold them.
pub fn frame_bytes(width: u32, height: u32) -> (n: Option<usize>)
    ensures
        match n {
            Some(n) => n == row_len(width) * height,
            None => row_len(width) * height > usize::MAX,
        },
{
    assert(0 <= row_len(width) * height <= 0x3_FFFF_FFFC * 0xFFFF_FFFF) by (nonlinear_arith)
        requires
            0 <= row_len(width) <= 0x3_FFFF_FFFC,
            0 <= height <= 0xFFFF_FFFF,
    ;
    let n: u128 = width as u128 * 4 * height as u128;
    if n <= usize::MAX as u128 {
        Some(n as usize)
    } else {
        None
    }
}

proof fn place(i: int, row: int, index: int)
    requires
        0 <= row,
        row * index <= i < row * (index + 1),
    ensures
        i / row == index,
        i % row == i - row * index,
{
    assert(0 < row) by (nonlinear_arith)
        requires
            0 <= row,
            row * index <= i < row * (index + 1),
    ;
    assert(row * (index + 1) == row * index + row) by (nonlinear_arith);
    assert(i == index * row + (i - row * index)) by (nonlinear_arith);
    vstd::arithmetic::div_mod::lemma_fundamental_div_mod_converse(i, row, index, i - row * index);
}

proof fn one_row_more(src: Seq<u8>, pitch: int, row: int, index: int)
    requires
        0 <= row,
        0 <= index,
        0 <= index * pitch,
        index * pitch + row <= src.len(),
    ensures
        unpadded(src, pitch, row, index + 1) == unpadded(src, pitch, row, index) + src.subrange(
            index * pitch,
            index * pitch + row,
        ),
{
    let longer = unpadded(src, pitch, row, index + 1);
    let shorter = unpadded(src, pitch, row, index);
    let last = src.subrange(index * pitch, index * pitch + row);
    assert(0 <= row * index) by (nonlinear_arith)
        requires
            0 <= row,
            0 <= index,
    ;
    assert(row * (index + 1) == row * index + row) by (nonlinear_arith);
    assert forall|i: int| 0 <= i < longer.len() implies longer[i] == (shorter + last)[i] by {
        if i >= row * index {
            place(i, row, index);
            assert((shorter + last)[i] == last[i - row * index]);
        }
    }
    assert(longer =~= shorter + last);
}

/// Reads a picture whose rows lie `pitch` bytes apart.
pub fn read_rows(src: &[u8], pitch: usize, width: u32, height: u32) -> (frame: Vec<u8>)
    requires
        padded_len(width, height, pitch as int) <= src@.len(),
        row_len(width) * height <= usize::MAX,
        row_len(width) <= pitch,
    ensures
        frame@ == unpadded(src@, pitch as int, row_len(width), height as int),
{
    let mut frame: Vec<u8> = Vec::new();
    let mut y: u32 = 0;
    let ghost row = row_len(width);
    assert(src@.len() == src.len());
    assert(frame@ =~= unpadded(src@, pitch as int, row, 0)) by {
        assert(row * 0 == 0) by (nonlinear_arith);
    }
    while y < height
        invariant
            y <= height,
            row == row_len(width),
            row <= pitch,
            src@.len() <= usize::MAX,
            padded_len(width, height, pitch as int) <= src@.len(),
            frame@ == unpadded(src@, pitch as int, row, y as int),
        decreases height - y,
    {
        proof {
            assert(0 <= y * pitch <= (height - 1) * pitch) by (nonlinear_arith)
                requires
                    0 <= y <= height - 1,
                    0 <= pitch,
            ;
            one_row_more(src@, pitch as int, row, y as int);
        }
        let from: u128 = y as u128 * pitch as u128;
        let at: usize = from as usize;
        push_all(&mut frame, slice_subrange(src, at, at + width as usize * 4));
        y += 1;
    }
    frame
}

/// A padded buffer with a frame written into its rows.
pub open spec fn padded_with(
    dst: Seq<u8>,
    stride: int,
    src: Seq<u8>,
    row: int,
    rows: int,
) -> Seq<u8> {
    Seq::new(
        dst.len(),
        |i: int|
            if i / stride < rows && i % stride < row {
                src[row * (i / stride) + i % stride]
            } else {
                dst[i]
            },
    )
}

/// Writes a frame into a buffer whose rows lie `stride` bytes apart.
pub fn write_rows(dst: &mut [u8], stride: usize, src: &[u8], width: u32, height: u32)
    requires
        0 < stride,
        row_len(width) <= stride,
        padded_len(width, height, stride as int) <= old(dst)@.len(),
        row_len(width) * height <= src@.len(),
    ensures
        final(dst)@ == padded_with(
            old(dst)@,
            stride as int,
            src@,
            row_len(width),
            height as int,
        ),
{
    let ghost before = dst@;
    let ghost row = row_len(width);
    let mut y: u32 = 0;
    assert(src@.len() == src.len());
    assert(dst@.len() == dst.len());
    proof {
        let none = padded_with(before, stride as int, src@, row, 0);
        assert forall|i: int| 0 <= i < before.len() implies #[trigger] none[i] == before[i] by {
            line_of(i, stride as int, 0);
        }
        assert(dst@ =~= none);
    }
    while y < height
        invariant
            y <= height,
            row == row_len(width),
            0 < stride,
            row <= stride,
            before.len() <= usize::MAX,
            src@.len() <= usize::MAX,
            padded_len(width, height, stride as int) <= before.len(),
            row * height <= src@.len(),
            dst@ == padded_with(before, stride as int, src@, row, y as int),
        decreases height - y,
    {
        proof {
            assert(0 <= y * stride <= (height - 1) * stride) by (nonlinear_arith)
                requires
                    0 <= y <= height - 1,
                    0 <= stride,
            ;
            assert(0 <= row * y && row * y + row <= row * height) by (nonlinear_arith)
                requires
                    0 <= row,
                    0 <= y <= height - 1,
            ;
        }
        let to: usize = (y as u128 * stride as u128) as usize;
        let len: usize = width as usize * 4;
        assert(width * 4 * y == row * y) by (nonlinear_arith)
            requires
                row == width * 4,
        ;
        let from: usize = (width as u128 * 4 * y as u128) as usize;
        let ghost start = dst@;
        let mut x: usize = 0;
        while x < len
            invariant
                x <= len,
                len == row,
                to == y * stride,
                from == row * y,
                to + len <= before.len(),
                from + len <= src@.len(),
                before.len() <= usize::MAX,
                src@.len() <= usize::MAX,
                dst@.len() == before.len(),
                start.len() == before.len(),
                forall|i: int|
                    0 <= i < before.len() ==> #[trigger] dst@[i] == (if to <= i < to + x {
                        src@[from + i - to]
                    } else {
                        start[i]
                    }),
            decreases len - x,
        {
            dst[to + x] = src[from + x];
            x += 1;
        }
        proof {
            let after = padded_with(before, stride as int, src@, row, y + 1);
            assert((y + 1) * stride == y * stride + stride) by (nonlinear_arith);
            assert forall|i: int| 0 <= i < before.len() implies #[trigger] dst@[i] == after[i] by {
                line_of(i, stride as int, y as int);
            }
            assert(dst@ =~= after);
        }
        y += 1;
    }
}

/// A byte lies in line `y` if and only if its place says so.
proof fn line_of(i: int, stride: int, y: int)
    requires
        0 < stride,
        0 <= i,
    ensures
        i / stride == y <==> y * stride <= i < (y + 1) * stride,
        i / stride == y ==> i % stride == i - y * stride,
        i / stride >= 0,
        0 <= i % stride < stride,
{
    vstd::arithmetic::div_mod::lemma_fundamental_div_mod(i, stride);
    vstd::arithmetic::div_mod::lemma_mod_bound(i, stride);
    assert(i / stride >= 0) by (nonlinear_arith)
        requires
            0 <= i,
            0 < stride,
    ;
    assert(stride * (i / stride) == (i / stride) * stride) by (nonlinear_arith);
    assert((y + 1) * stride == y * stride + stride) by (nonlinear_arith);
    if y * stride <= i < (y + 1) * stride {
        vstd::arithmetic::div_mod::lemma_fundamental_div_mod_converse(
            i,
            stride,
            y,
            i - y * stride,
        );
    }
}

/// A frame that was written into padded rows is read back from them.
pub proof fn rows_round_trip(dst: Seq<u8>, stride: int, src: Seq<u8>, width: u32, height: u32)
    requires
        0 < stride,
        row_len(width) <= stride,
        padded_len(width, height, stride) <= dst.len(),
        src.len() == row_len(width) * height,
    ensures
        unpadded(
            padded_with(dst, stride, src, row_len(width), height as int),
            stride,
            row_len(width),
            height as int,
        ) == src,
{
    let row = row_len(width);
    let written = padded_with(dst, stride, src, row, height as int);
    let back = unpadded(written, stride, row, height as int);
    assert forall|i: int| 0 <= i < src.len() implies back[i] == src[i] by {
        assert(0 < row && 0 < height) by (nonlinear_arith)
            requires
                0 <= row,
                0 <= height,
                0 <= i < row * height,
        ;
        let y = i / row;
        let x = i % row;
        line_of(i, row, y);
        assert(y < height) by (nonlinear_arith)
            requires
                y * row <= i < row * height,
                0 < row,
        ;
        let at = y * stride + x;
        assert(0 <= y * stride <= (height - 1) * stride) by (nonlinear_arith)
            requires
                0 <= y <= height - 1,
                0 < stride,
        ;
        assert((y + 1) * stride == y * stride + stride) by (nonlinear_arith);
        line_of(at, stride, y);
        assert(row * y == y * row) by (nonlinear_arith);
        assert(written[at] == src[row * y + x]);
    }
    assert(back =~= src) by {
        assert(row * height == src.len());
    }
}

/// Rows keep their order and bytes their place in the row: byte `x` of row `y`
/// of a frame is byte `x` of line `y` of a padded buffer, whichever is written
/// into which. Between the rows and below them a padded buffer stays as it was.
pub proof fn rows_keep_their_places(
    padded: Seq<u8>,
    pitch: int,
    frame: Seq<u8>,
    width: u32,
    height: u32,
    y: int,
    x: int,
)
    requires
        0 < pitch,
        row_len(width) <= pitch,
        0 <= y,
        0 <= x < pitch,
        y * pitch + x < padded.len(),
    ensures
        ({
            let read = unpadded(padded, pitch, 4 * width, height as int);
            let written = padded_with(padded, pitch, frame, 4 * width, height as int);
            &&& read.len() == 4 * width * height
            &&& written.len() == padded.len()
            &&& y < height && x < 4 * width ==> read[4 * width * y + x] == padded[y * pitch + x]
            &&& y < height && x < 4 * width ==> written[y * pitch + x] == frame[4 * width * y + x]
            &&& y >= height || x >= 4 * width ==> written[y * pitch + x] == padded[y * pitch + x]
        }),
{
    let row = 4 * width as int;
    let at = y * pitch + x;
    assert((y + 1) * pitch == y * pitch + pitch) by (nonlinear_arith);
    assert(0 <= y * pitch) by (nonlinear_arith)
        requires
            0 <= y,
            0 < pitch,
    ;
    line_of(at, pitch, y);
    assert(0 <= row * height) by (nonlinear_arith)
        requires
            0 <= row,
            0 <= height,
    ;
    if y < height && x < row {
        let i = row * y + x;
        assert((y + 1) * row == row * y + row && y * row == row * y) by (nonlinear_arith);
        assert(0 <= row * y && row * y + row <= row * height) by (nonlinear_arith)
            requires
                0 <= row,
                0 <= y <= height - 1,
        ;
        line_of(i, row, y);
    }
}

} // verus!
