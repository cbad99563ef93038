//! H.264 bitstreams: splitting them into NAL units, telling random-access
//! points, and rewriting encoder packets into clean Annex B with the parameter
//! sets that the receiving decoder depends on.

use vstd::prelude::*;
use vstd::slice::{slice_subrange, slice_to_vec};

use crate::bytes;
use crate::bytes::push_all;
use crate::text;
use crate::text::{push_hex, same_text};

verus! {

/// Codec name of the AMD hardware encoder, whose parameter sets need special
/// handling throughout this module.
pub const AMF_ENCODER_NAME: &'static str = "h264_amf";

// ---- start codes and NAL units ---------------------------------------------

/// Length of the start code at `i`: 3 for `00 00 01`, 4 for `00 00 00 01`, and
/// 0 if there is none.
pub open spec fn start_code_len(d: Seq<u8>, i: int) -> int {
    if i < 0 || i + 3 > d.len() || d[i] != 0 || d[i + 1] != 0 {
        0
    } else if d[i + 2] == 1 {
        3
    } else if i + 4 <= d.len() && d[i + 2] == 0 && d[i + 3] == 1 {
        4
    } else {
        0
    }
}

/// The first start code at or after `from`; the end of the stream if there is
/// none.
pub open spec fn next_start(d: Seq<u8>, from: int) -> int
    decreases d.len() - from,
{
    if from >= d.len() {
        d.len() as int
    } else if start_code_len(d, from) > 0 {
        from
    } else {
        next_start(d, from + 1)
    }
}

/// `s` without the zeros at its end.
pub open spec fn trimmed(s: Seq<u8>) -> Seq<u8>
    decreases s.len(),
{
    if s.len() > 0 && s.last() == 0 {
        trimmed(s.drop_last())
    } else {
        s
    }
}

/// The NAL units from the start code at `at` on: what stands between start
/// codes, without trailing zeros, and without the stretches that are empty.
pub open spec fn units_from(d: Seq<u8>, at: int) -> Seq<Seq<u8>>
    decreases d.len() - at,
{
    if at < 0 || at >= d.len() || start_code_len(d, at) == 0 {
        Seq::empty()
    } else {
        let body = at + start_code_len(d, at);
        let next = next_start(d, body);
        let unit = trimmed(d.subrange(body, next));
        let rest = if at < next <= d.len() {
            units_from(d, next)
        } else {
            Seq::empty()
        };
        if unit.len() > 0 {
            seq![unit] + rest
        } else {
            rest
        }
    }
}

/// The NAL units of an Annex B stream. Bytes in front of the first start code
/// are skipped.
pub open spec fn annex_b_units(d: Seq<u8>) -> Seq<Seq<u8>> {
    units_from(d, next_start(d, 0))
}

proof fn next_start_is_first(d: Seq<u8>, from: int)
    requires
        0 <= from,
    ensures
        from <= d.len() ==> from <= next_start(d, from) <= d.len(),
        from > d.len() ==> next_start(d, from) == d.len(),
        next_start(d, from) < d.len() ==> start_code_len(d, next_start(d, from)) > 0,
        forall|j: int| from <= j < next_start(d, from) ==> #[trigger] start_code_len(d, j) == 0,
    decreases d.len() - from,
{
    if from < d.len() && start_code_len(d, from) == 0 {
        next_start_is_first(d, from + 1);
    }
}

proof fn next_start_is(d: Seq<u8>, from: int, at: int)
    requires
        0 <= from <= at <= d.len(),
        at < d.len() ==> start_code_len(d, at) > 0,
        forall|j: int| from <= j < at ==> #[trigger] start_code_len(d, j) == 0,
    ensures
        next_start(d, from) == at,
    decreases at - from,
{
    if from < at {
        assert(start_code_len(d, from) == 0);
        next_start_is(d, from + 1, at);
    }
}

/// Finds the first start code at or after `from`: its place and length.
fn find_start_code(data: &[u8], from: usize) -> (r: Option<(usize, usize)>)
    ensures
        r is Some <==> next_start(data@, from as int) < data@.len(),
        r matches Some((at, len)) ==> {
            &&& at == next_start(data@, from as int)
            &&& len == start_code_len(data@, at as int)
            &&& from <= at
            &&& at + len <= data@.len()
            &&& 3 <= len <= 4
        },
{
    let mut i: usize = from;
    proof {
        next_start_is_first(data@, from as int);
    }
    while i < data.len() && data.len() - i >= 3
        invariant
            from <= i,
            i <= data@.len() || i == from,
            forall|j: int| from <= j < i ==> #[trigger] start_code_len(data@, j) == 0,
        decreases data@.len() - i,
    {
        if data[i] == 0 && data[i + 1] == 0 {
            if data[i + 2] == 1 {
                proof {
                    next_start_is(data@, from as int, i as int);
                }
                return Some((i, 3));
            }
            if data.len() - i > 3 && data[i + 2] == 0 && data[i + 3] == 1 {
                proof {
                    next_start_is(data@, from as int, i as int);
                }
                return Some((i, 4));
            }
        }
        i += 1;
    }
    None
}

fn trim_trailing_zeros(data: &[u8]) -> (kept: &[u8])
    ensures
        kept@ == trimmed(data@),
{
    let mut end: usize = data.len();
    assert(data@.take(end as int) =~= data@);
    while end > 0 && data[end - 1] == 0
        invariant
            end <= data@.len(),
            trimmed(data@.take(end as int)) == trimmed(data@),
        decreases end,
    {
        assert(data@.take(end as int).drop_last() =~= data@.take(end - 1));
        end -= 1;
    }
    let kept = slice_subrange(data, 0, end);
    assert(kept@ =~= data@.take(end as int));
    kept
}

/// Splits an Annex B byte stream into NAL units (start codes removed).
pub fn parse_annex_b_units(data: &[u8]) -> (units: Vec<Vec<u8>>)
    ensures
        bytes::contents(units@) == annex_b_units(data@),
{
    let mut units: Vec<Vec<u8>> = Vec::new();
    let ghost want = annex_b_units(data@);
    let mut at: usize = match find_start_code(data, 0) {
        Some((first, _)) => first,
        None => data.len(),
    };
    proof {
        next_start_is_first(data@, 0);
        assert(bytes::contents(units@) =~= Seq::<Seq<u8>>::empty());
        assert(want =~= bytes::contents(units@) + units_from(data@, at as int));
    }
    while at < data.len()
        invariant
            at <= data@.len(),
            at < data@.len() ==> start_code_len(data@, at as int) > 0,
            want == bytes::contents(units@) + units_from(data@, at as int),
        decreases data@.len() - at,
    {
        let ghost before = bytes::contents(units@);
        let code_len: usize = if data[at + 2] == 1 {
            3
        } else {
            4
        };
        assert(code_len == start_code_len(data@, at as int));
        let body: usize = at + code_len;
        proof {
            next_start_is_first(data@, body as int);
        }
        let next: usize = match find_start_code(data, body) {
            Some((offset, _)) => offset,
            None => data.len(),
        };
        let unit = trim_trailing_zeros(slice_subrange(data, body, next));
        if unit.len() > 0 {
            units.push(slice_to_vec(unit));
            assert(bytes::contents(units@) =~= before.push(unit@));
            assert(want =~= bytes::contents(units@) + units_from(data@, next as int));
        }
        at = next;
    }
    assert(bytes::contents(units@) =~= want);
    units
}

/// The units of a stream in which each is preceded by its length, `n` bytes
/// big-endian, from `at` on. Nothing if a length is 0 or points past the end,
/// or if bytes are left over.
pub open spec fn counted_units_from(d: Seq<u8>, at: int, n: int) -> Option<Seq<Seq<u8>>>
    decreases d.len() - at,
{
    if at < 0 || n <= 0 || at > d.len() {
        None
    } else if at == d.len() {
        Some(Seq::empty())
    } else if at + n > d.len() {
        None
    } else {
        let len = bytes::big_endian(d.subrange(at, at + n)) as int;
        let end = at + n + len;
        if len == 0 || end > d.len() {
            None
        } else {
            match counted_units_from(d, end, n) {
                None => None,
                Some(rest) => Some(seq![d.subrange(at + n, end)] + rest),
            }
        }
    }
}

/// The units of a length-prefixed stream; nothing if it is none, or empty.
pub open spec fn counted_units(d: Seq<u8>, n: int) -> Option<Seq<Seq<u8>>> {
    if d.len() == 0 {
        None
    } else {
        counted_units_from(d, 0, n)
    }
}

proof fn big_endian_is_bounded(s: Seq<u8>)
    ensures
        s.len() == 0 ==> big_endian_fits(s, 0),
        s.len() == 1 ==> big_endian_fits(s, 0xFF),
        s.len() == 2 ==> big_endian_fits(s, 0xFFFF),
        s.len() == 3 ==> big_endian_fits(s, 0xFF_FFFF),
        s.len() == 4 ==> big_endian_fits(s, 0xFFFF_FFFF),
    decreases s.len(),
{
    if s.len() > 0 {
        big_endian_is_bounded(s.drop_last());
    }
}

spec fn big_endian_fits(s: Seq<u8>, max: int) -> bool {
    bytes::big_endian(s) <= max
}

fn read_be_length(data: &[u8], at: usize, n: usize) -> (v: usize)
    requires
        1 <= n <= 4,
        at + n <= data@.len(),
    ensures
        v == bytes::big_endian(data@.subrange(at as int, at + n)),
{
    let mut value: u64 = 0;
    let mut i: usize = 0;
    assert(data@.subrange(at as int, at as int) =~= Seq::<u8>::empty());
    while i < n
        invariant
            i <= n <= 4,
            at + n <= data@.len(),
            value == bytes::big_endian(data@.subrange(at as int, at + i)),
        decreases n - i,
    {
        proof {
            assert(data@.len() == data.len());
            let more = data@.subrange(at as int, at + i + 1);
            assert(more.drop_last() =~= data@.subrange(at as int, at + i));
            assert(more.last() == data@[at + i]);
            big_endian_is_bounded(data@.subrange(at as int, at + i));
            big_endian_is_bounded(more);
            assert(i == 0 ==> value == 0);
        }
        value = value * 256 + data[at + i] as u64;
        i += 1;
    }
    proof {
        big_endian_is_bounded(data@.subrange(at as int, at + n));
    }
    value as usize
}

fn parse_length_prefixed_units(data: &[u8], length_size: usize) -> (r: Option<Vec<Vec<u8>>>)
    requires
        1 <= length_size <= 4,
    ensures
        match r {
            Some(units) => counted_units(data@, length_size as int) == Some(
                bytes::contents(units@),
            ),
            None => counted_units(data@, length_size as int) is None,
        },
{
    if data.len() == 0 {
        return None;
    }
    let ghost want = counted_units(data@, length_size as int);
    let mut units: Vec<Vec<u8>> = Vec::new();
    let mut cursor: usize = 0;
    assert(bytes::contents(units@) =~= Seq::<Seq<u8>>::empty());
    assert(want is Some ==> Seq::<Seq<u8>>::empty() + want->0 =~= want->0);
    while cursor < data.len()
        invariant
            cursor <= data@.len(),
            1 <= length_size <= 4,
            want == counted_units(data@, length_size as int),
            match counted_units_from(data@, cursor as int, length_size as int) {
                None => want is None,
                Some(rest) => want == Some(bytes::contents(units@) + rest),
            },
        decreases data@.len() - cursor,
    {
        if data.len() - cursor < length_size {
            return None;
        }
        let nal_len: usize = read_be_length(data, cursor, length_size);
        let body: usize = cursor + length_size;
        if nal_len == 0 || nal_len > data.len() - body {
            return None;
        }
        let ghost before = bytes::contents(units@);
        let ghost rest = counted_units_from(data@, body + nal_len, length_size as int);
        let unit = slice_subrange(data, body, body + nal_len);
        units.push(slice_to_vec(unit));
        assert(bytes::contents(units@) =~= before.push(unit@));
        proof {
            if rest is Some {
                assert(before + (seq![unit@] + rest->0) =~= before.push(unit@) + rest->0);
            }
        }
        cursor = body + nal_len;
    }
    assert(bytes::contents(units@) + Seq::<Seq<u8>>::empty() =~= bytes::contents(units@));
    Some(units)
}

/// How the units of a packet are delimited.
#[derive(Debug, Clone, Copy, PartialEq, Eq, Structural)]
pub enum H264PacketFormat {
    AnnexB,
    /// Units behind lengths of this many bytes.
    Avcc(usize),
    Unknown,
}

/// The format and the units of a packet: Annex B if it holds such units, else
/// the first of the length-prefixed forms that it fits.
pub open spec fn bitstream(d: Seq<u8>) -> (H264PacketFormat, Seq<Seq<u8>>) {
    if annex_b_units(d).len() > 0 {
        (H264PacketFormat::AnnexB, annex_b_units(d))
    } else if counted_units(d, 4) is Some {
        (H264PacketFormat::Avcc(4), counted_units(d, 4)->0)
    } else if counted_units(d, 2) is Some {
        (H264PacketFormat::Avcc(2), counted_units(d, 2)->0)
    } else if counted_units(d, 1) is Some {
        (H264PacketFormat::Avcc(1), counted_units(d, 1)->0)
    } else {
        (H264PacketFormat::Unknown, Seq::empty())
    }
}

/// Finds the format and the units of a packet.
pub fn parse_h264_bitstream(data: &[u8]) -> (r: (H264PacketFormat, Vec<Vec<u8>>))
    ensures
        (r.0, bytes::contents(r.1@)) == bitstream(data@),
{
    let annex_b = parse_annex_b_units(data);
    if annex_b.len() > 0 {
        assert(bytes::contents(annex_b@).len() > 0);
        return (H264PacketFormat::AnnexB, annex_b);
    }
    assert(bytes::contents(annex_b@).len() == 0);
    if let Some(units) = parse_length_prefixed_units(data, 4) {
        return (H264PacketFormat::Avcc(4), units);
    }
    if let Some(units) = parse_length_prefixed_units(data, 2) {
        return (H264PacketFormat::Avcc(2), units);
    }
    if let Some(units) = parse_length_prefixed_units(data, 1) {
        return (H264PacketFormat::Avcc(1), units);
    }
    let none: Vec<Vec<u8>> = Vec::new();
    assert(bytes::contents(none@) =~= Seq::<Seq<u8>>::empty());
    (H264PacketFormat::Unknown, none)
}

/// The type of a NAL unit: the low five bits of its first byte.
pub open spec fn unit_type(unit: Seq<u8>) -> Option<u8> {
    if unit.len() == 0 {
        None
    } else {
        Some((unit[0] % 32) as u8)
    }
}

/// NAL type of a unit whose start code has been removed.
pub fn nal_type(unit: &[u8]) -> (t: Option<u8>)
    ensures
        t == unit_type(unit@),
{
    if unit.len() == 0 {
        None
    } else {
        Some(unit[0] % 32)
    }
}

/// Whether one of the units is of type `t`.
pub open spec fn has_type(units: Seq<Seq<u8>>, t: u8) -> bool {
    exists|i: int| 0 <= i < units.len() && unit_type(#[trigger] units[i]) == Some(t)
}

fn any_of_type(units: &[Vec<u8>], t: u8) -> (b: bool)
    ensures
        b == has_type(bytes::contents(units@), t),
{
    let ghost all = bytes::contents(units@);
    let mut i: usize = 0;
    while i < units.len()
        invariant
            i <= units@.len(),
            all == bytes::contents(units@),
            forall|k: int| 0 <= k < i ==> unit_type(#[trigger] all[k]) != Some(t),
        decreases units@.len() - i,
    {
        assert(all[i as int] == units@[i as int]@);
        if let Some(kind) = nal_type(units[i].as_slice()) {
            if kind == t {
                return true;
            }
        }
        i += 1;
    }
    false
}

/// True if the Annex B stream contains a NAL unit of the given type.
pub fn contains_nal_type(data: &[u8], target: u8) -> (b: bool)
    ensures
        b == has_type(annex_b_units(data@), target),
{
    let units = parse_annex_b_units(data);
    any_of_type(units.as_slice(), target)
}

// ---- parameter sets in extradata -------------------------------------------

/// Where a run of `n` sets, each behind a 16-bit big-endian length, ends; none
/// if one of them points past the end.
pub open spec fn sets_end(d: Seq<u8>, at: int, n: int) -> Option<int>
    decreases n,
{
    if n <= 0 {
        Some(at)
    } else if at + 2 > d.len() {
        None
    } else {
        let end = at + 2 + bytes::big_endian(d.subrange(at, at + 2));
        if end > d.len() {
            None
        } else {
            sets_end(d, end, n - 1)
        }
    }
}

/// The set at `at`.
pub open spec fn set_at(d: Seq<u8>, at: int) -> Seq<u8> {
    d.subrange(at + 2, at + 2 + bytes::big_endian(d.subrange(at, at + 2)))
}

/// The first sequence and picture parameter set of an AVCC record.
pub open spec fn avcc_sets(d: Seq<u8>) -> Option<(Seq<u8>, Seq<u8>)> {
    if d.len() < 7 {
        None
    } else {
        let sps_count = d[5] as int % 32;
        match sets_end(d, 6, sps_count) {
            None => None,
            Some(c) => if c >= d.len() {
                None
            } else {
                match sets_end(d, c + 1, d[c] as int) {
                    None => None,
                    Some(_) => if sps_count == 0 || d[c] == 0 {
                        None
                    } else {
                        Some((set_at(d, 6), set_at(d, c + 1)))
                    },
                }
            },
        }
    }
}

/// The first unit of type `t`.
pub open spec fn first_of_type(units: Seq<Seq<u8>>, t: u8) -> Option<Seq<u8>>
    decreases units.len(),
{
    if units.len() == 0 {
        None
    } else if unit_type(units[0]) == Some(t) {
        Some(units[0])
    } else {
        first_of_type(units.drop_first(), t)
    }
}

/// The parameter sets in encoder extradata, in either AVCC or Annex B form.
pub open spec fn extradata_sets(d: Seq<u8>) -> Option<(Seq<u8>, Seq<u8>)> {
    if d.len() == 0 {
        None
    } else if d[0] == 1 {
        avcc_sets(d)
    } else {
        match (first_of_type(annex_b_units(d), 7), first_of_type(annex_b_units(d), 8)) {
            (Some(sps), Some(pps)) => Some((sps, pps)),
            _ => None,
        }
    }
}

fn skip_sets(d: &[u8], from: usize, count: usize) -> (r: Option<usize>)
    requires
        from <= d@.len(),
    ensures
        match r {
            Some(end) => sets_end(d@, from as int, count as int) == Some(end as int) && end
                <= d@.len(),
            None => sets_end(d@, from as int, count as int) is None,
        },
{
    let mut cursor: usize = from;
    let mut left: usize = count;
    while left > 0
        invariant
            cursor <= d@.len(),
            sets_end(d@, cursor as int, left as int) == sets_end(d@, from as int, count as int),
        decreases left,
    {
        if d.len() - cursor < 2 {
            return None;
        }
        let len: usize = read_be_length(d, cursor, 2);
        if d.len() - cursor - 2 < len {
            return None;
        }
        cursor = cursor + 2 + len;
        left -= 1;
    }
    Some(cursor)
}

/// Copies the set at `at`, which is known to lie inside `d`.
fn copy_set(d: &[u8], at: usize, count: usize) -> (set: Vec<u8>)
    requires
        count > 0,
        sets_end(d@, at as int, count as int) is Some,
    ensures
        set@ == set_at(d@, at as int),
{
    let len: usize = read_be_length(d, at, 2);
    assert(d@.len() == d.len());
    slice_to_vec(slice_subrange(d, at + 2, at + 2 + len))
}

/// What a pair of byte vectors holds.
pub open spec fn pair_contents(r: Option<(Vec<u8>, Vec<u8>)>) -> Option<(Seq<u8>, Seq<u8>)> {
    match r {
        Some((a, b)) => Some((a@, b@)),
        None => None,
    }
}

fn parse_avcc_parameter_sets(extradata: &[u8]) -> (r: Option<(Vec<u8>, Vec<u8>)>)
    ensures
        pair_contents(r) == avcc_sets(extradata@),
{
    if extradata.len() < 7 {
        return None;
    }
    let sps_count: usize = (extradata[5] % 32) as usize;
    let cursor: usize = match skip_sets(extradata, 6, sps_count) {
        Some(end) => end,
        None => return None,
    };
    if cursor >= extradata.len() {
        return None;
    }
    let pps_count: usize = extradata[cursor] as usize;
    match skip_sets(extradata, cursor + 1, pps_count) {
        Some(_) => {},
        None => return None,
    }
    if sps_count == 0 || pps_count == 0 {
        return None;
    }
    Some((copy_set(extradata, 6, sps_count), copy_set(extradata, cursor + 1, pps_count)))
}

fn find_of_type(units: &[Vec<u8>], t: u8) -> (r: Option<Vec<u8>>)
    ensures
        match r {
            Some(unit) => first_of_type(bytes::contents(units@), t) == Some(unit@),
            None => first_of_type(bytes::contents(units@), t) is None,
        },
{
    let ghost all = bytes::contents(units@);
    let mut i: usize = 0;
    assert(all.skip(0) =~= all);
    while i < units.len()
        invariant
            i <= units@.len(),
            all == bytes::contents(units@),
            first_of_type(all.skip(i as int), t) == first_of_type(all, t),
        decreases units@.len() - i,
    {
        assert(all[i as int] == units@[i as int]@);
        assert(all.skip(i as int)[0] == all[i as int]);
        assert(all.skip(i as int).drop_first() =~= all.skip(i + 1));
        if let Some(kind) = nal_type(units[i].as_slice()) {
            if kind == t {
                return Some(slice_to_vec(units[i].as_slice()));
            }
        }
        i += 1;
    }
    None
}

/// Extracts the sequence and picture parameter set from encoder extradata in
/// either AVCC or Annex B form.
pub fn parameter_sets_from_extradata(extradata: &[u8]) -> (r: Option<(Vec<u8>, Vec<u8>)>)
    ensures
        pair_contents(r) == extradata_sets(extradata@),
{
    if extradata.len() == 0 {
        return None;
    }
    if extradata[0] == 1 {
        return parse_avcc_parameter_sets(extradata);
    }
    let units = parse_annex_b_units(extradata);
    match (find_of_type(units.as_slice(), 7), find_of_type(units.as_slice(), 8)) {
        (Some(sps), Some(pps)) => Some((sps, pps)),
        _ => None,
    }
}

/// What the form of extradata is called.
pub open spec fn extradata_format(d: Seq<u8>) -> Seq<char> {
    if d.len() == 0 {
        "None"@
    } else if d[0] == 1 {
        "AVCC"@
    } else if annex_b_units(d).len() > 0 {
        "AnnexB"@
    } else {
        "Unknown"@
    }
}

/// Human-readable classification of encoder extradata bytes, for logging.
pub fn describe_extradata_format(extradata: &[u8]) -> (name: &'static str)
    ensures
        name@ == extradata_format(extradata@),
{
    if extradata.len() == 0 {
        return "None";
    }
    if extradata[0] == 1 {
        return "AVCC";
    }
    let units = parse_annex_b_units(extradata);
    assert(bytes::contents(units@).len() == units@.len());
    if units.len() > 0 {
        "AnnexB"
    } else {
        "Unknown"
    }
}

/// Bytes as upper-case hexadecimal, with a space between every two.
pub open spec fn spaced_hex(d: Seq<u8>) -> Seq<char>
    decreases d.len(),
{
    if d.len() == 0 {
        Seq::empty()
    } else if d.len() == 1 {
        text::hex_byte(d[0])
    } else {
        spaced_hex(d.drop_last()).push(' ') + text::hex_byte(d.last())
    }
}

/// First `max_len` bytes as spaced upper-case hex, for logging.
pub fn hex_prefix(data: &[u8], max_len: usize) -> (s: String)
    ensures
        s@ == spaced_hex(
            data@.take(
                if max_len <= data@.len() {
                    max_len as int
                } else {
                    data@.len() as int
                },
            ),
        ),
{
    let count: usize = if max_len <= data.len() {
        max_len
    } else {
        data.len()
    };
    let mut s = String::new();
    let mut i: usize = 0;
    while i < count
        invariant
            i <= count <= data@.len(),
            s@ == spaced_hex(data@.take(i as int)),
        decreases count - i,
    {
        let ghost shown = data@.take(i as int);
        let ghost more = data@.take(i + 1);
        assert(more.drop_last() =~= shown);
        if i > 0 {
            s.push(' ');
        }
        push_hex(&mut s, data[i]);
        assert(s@ =~= spaced_hex(more));
        i += 1;
    }
    s
}

/// Whether this is the AMD hardware encoder.
pub fn is_amf_encoder(encoder_name: &str) -> (b: bool)
    ensures
        b == (encoder_name@ == AMF_ENCODER_NAME@),
{
    same_text(encoder_name, AMF_ENCODER_NAME)
}

// ---- slices ----------------------------------------------------------------

/// `d` without its emulation prevention bytes (a 3 behind two zeros), and the
/// length of the run of zeros at its end.
pub open spec fn unescaped(d: Seq<u8>) -> (Seq<u8>, nat)
    decreases d.len(),
{
    if d.len() == 0 {
        (Seq::empty(), 0)
    } else {
        let (r, zeros) = unescaped(d.drop_last());
        if zeros >= 2 && d.last() == 3 {
            (r, 0)
        } else {
            (
                r.push(d.last()),
                if d.last() == 0 {
                    zeros + 1
                } else {
                    0
                },
            )
        }
    }
}

fn rbsp_from_ebsp(data: &[u8]) -> (rbsp: Vec<u8>)
    ensures
        rbsp@ == unescaped(data@).0,
        rbsp@.len() <= data@.len(),
{
    let mut rbsp: Vec<u8> = Vec::new();
    let mut zeros: usize = 0;
    let mut i: usize = 0;
    while i < data.len()
        invariant
            i <= data@.len(),
            (rbsp@, zeros as nat) == unescaped(data@.take(i as int)),
            zeros <= i,
            rbsp@.len() <= i,
        decreases data@.len() - i,
    {
        let byte: u8 = data[i];
        assert(data@.take(i + 1).drop_last() =~= data@.take(i as int));
        if zeros >= 2 && byte == 3 {
            zeros = 0;
        } else {
            rbsp.push(byte);
            if byte == 0 {
                zeros += 1;
            } else {
                zeros = 0;
            }
        }
        i += 1;
    }
    assert(data@.take(i as int) =~= data@);
    rbsp
}

/// Bit `k` of a byte string, the most significant bit of each byte first.
pub open spec fn bit(d: Seq<u8>, k: int) -> u8 {
    (d[k / 8] >> ((7 - k % 8) as u8)) & 1u8
}

/// The number that the `n` bits from `at` on spell.
pub open spec fn bits(d: Seq<u8>, at: int, n: int) -> nat
    decreases n,
{
    if n <= 0 {
        0
    } else {
        2 * bits(d, at, n - 1) + bit(d, at + n - 1) as nat
    }
}

/// The zero bits in front of the first one bit at or after `at`, counted from
/// `seen` on; none if the bits run out, or if there are 32 of them.
pub open spec fn leading_zeros(d: Seq<u8>, at: int, seen: int) -> Option<int>
    decreases 32 - seen,
{
    if at + seen >= 8 * d.len() {
        None
    } else if bit(d, at + seen) == 1 {
        Some(seen)
    } else if seen + 1 >= 32 {
        None
    } else {
        leading_zeros(d, at, seen + 1)
    }
}

/// The unsigned Exp-Golomb code at bit `at`: its value and where it ends.
pub open spec fn exp_golomb(d: Seq<u8>, at: int) -> Option<(nat, int)> {
    match leading_zeros(d, at, 0) {
        None => None,
        Some(z) => if at + 2 * z + 1 > 8 * d.len() {
            None
        } else {
            Some(
                (
                    (vstd::arithmetic::power2::pow2(z as nat) - 1 + bits(d, at + z + 1, z)) as nat,
                    at + 2 * z + 1,
                ),
            )
        },
    }
}

/// The slice type (modulo 5) of a slice that is no IDR: 0 is P, 1 is B, 2 is I,
/// 3 is SP, 4 is SI.
pub open spec fn slice_type(unit: Seq<u8>) -> Option<nat> {
    let rbsp = unescaped(unit.skip(1)).0;
    match exp_golomb(rbsp, 0) {
        None => None,
        Some((_, next)) => match exp_golomb(rbsp, next) {
            None => None,
            Some((value, _)) => Some(value % 5),
        },
    }
}

/// Whether a unit carries part of a picture.
pub open spec fn is_slice(unit: Seq<u8>) -> bool {
    unit_type(unit) matches Some(t) && 1 <= t <= 5
}

/// Whether a slice stands on its own: an IDR, or an I or SI slice.
pub open spec fn is_intra_slice(unit: Seq<u8>) -> bool {
    unit_type(unit) == Some(5u8) || slice_type(unit) == Some(2nat) || slice_type(unit) == Some(4nat)
}

/// Whether an access unit is a random-access point even without an IDR: it has
/// a slice, and every slice of it stands on its own.
pub open spec fn intra_only(units: Seq<Seq<u8>>) -> bool {
    &&& exists|i: int| 0 <= i < units.len() && is_slice(#[trigger] units[i])
    &&& forall|i: int|
        0 <= i < units.len() && is_slice(#[trigger] units[i]) ==> is_intra_slice(units[i])
}

fn read_bit(data: &[u8], at: usize) -> (b: Option<u8>)
    ensures
        b is Some <==> at < 8 * data@.len(),
        b matches Some(v) ==> v == bit(data@, at as int) && v <= 1,
{
    let index: usize = at / 8;
    if index >= data.len() {
        return None;
    }
    let shift: u8 = (7 - at % 8) as u8;
    let byte: u8 = data[index];
    assert((byte >> shift) & 1u8 <= 1) by (bit_vector);
    Some((byte >> shift) & 1)
}

fn read_bits(data: &[u8], at: usize, count: usize) -> (v: Option<u32>)
    requires
        count <= 31,
        at + count <= usize::MAX,
    ensures
        v is Some <==> at + count <= 8 * data@.len() || count == 0,
        v matches Some(n) ==> n == bits(data@, at as int, count as int) && n
            < vstd::arithmetic::power2::pow2(count as nat),
{
    let mut value: u32 = 0;
    let mut i: usize = 0;
    proof {
        vstd::arithmetic::power2::lemma2_to64();
    }
    while i < count
        invariant
            i <= count <= 31,
            at + count <= usize::MAX,
            value == bits(data@, at as int, i as int),
            value < vstd::arithmetic::power2::pow2(i as nat),
            i > 0 ==> at + i <= 8 * data@.len(),
        decreases count - i,
    {
        proof {
            vstd::arithmetic::power2::lemma_pow2_unfold((i + 1) as nat);
            pow2_is_bounded(i as nat);
        }
        match read_bit(data, at + i) {
            Some(b) => {
                value = value * 2 + b as u32;
            },
            None => return None,
        }
        i += 1;
    }
    Some(value)
}

proof fn pow2_is_bounded(n: nat)
    requires
        n <= 31,
    ensures
        1 <= vstd::arithmetic::power2::pow2(n) <= 0x8000_0000,
{
    vstd::arithmetic::power2::lemma2_to64();
    if n < 31 {
        vstd::arithmetic::power2::lemma_pow2_strictly_increases(n, 31);
    }
    vstd::arithmetic::power2::lemma_pow2_pos(n);
}

fn read_ue(data: &[u8], at: usize) -> (r: Option<(u32, usize)>)
    requires
        at + 64 <= usize::MAX,
    ensures
        match r {
            Some((value, next)) => exp_golomb(data@, at as int) == Some((value as nat, next as int))
                && next <= at + 63,
            None => exp_golomb(data@, at as int) is None,
        },
{
    let mut zeros: usize = 0;
    let mut power: u32 = 1;
    proof {
        vstd::arithmetic::power2::lemma2_to64();
    }
    loop
        invariant_except_break
            leading_zeros(data@, at as int, zeros as int) == leading_zeros(data@, at as int, 0),
        invariant
            zeros < 32,
            at + 64 <= usize::MAX,
            power == vstd::arithmetic::power2::pow2(zeros as nat),
        ensures
            leading_zeros(data@, at as int, 0) == Some(zeros as int),
        decreases 32 - zeros,
    {
        match read_bit(data, at + zeros) {
            None => return None,
            Some(b) => {
                if b != 0 {
                    break;
                }
            },
        }
        if zeros + 1 >= 32 {
            return None;
        }
        proof {
            vstd::arithmetic::power2::lemma_pow2_unfold((zeros + 1) as nat);
            pow2_is_bounded((zeros + 1) as nat);
        }
        zeros += 1;
        power = power * 2;
    }
    proof {
        pow2_is_bounded(zeros as nat);
        leading_zeros_stop_inside(data@, at as int, 0);
    }
    match read_bits(data, at + zeros + 1, zeros) {
        None => None,
        Some(suffix) => Some((power - 1 + suffix, at + 2 * zeros + 1)),
    }
}

proof fn leading_zeros_stop_inside(d: Seq<u8>, at: int, seen: int)
    requires
        leading_zeros(d, at, seen) is Some,
    ensures
        at + leading_zeros(d, at, seen)->0 < 8 * d.len(),
    decreases 32 - seen,
{
    if !(at + seen >= 8 * d.len()) && bit(d, at + seen) != 1 && seen + 1 < 32 {
        leading_zeros_stop_inside(d, at, seen + 1);
    }
}

fn slice_is_intra(unit: &[u8]) -> (b: bool)
    requires
        unit@.len() > 0,
    ensures
        b == (slice_type(unit@) == Some(2nat) || slice_type(unit@) == Some(4nat)),
{
    let body = slice_subrange(unit, 1, unit.len());
    assert(body@ =~= unit@.skip(1));
    let rbsp = rbsp_from_ebsp(body);
    let next: usize = match read_ue(rbsp.as_slice(), 0) {
        Some((_first_mb, next)) => next,
        None => return false,
    };
    match read_ue(rbsp.as_slice(), next) {
        Some((value, _)) => {
            let kind: u32 = value % 5;
            kind == 2 || kind == 4
        },
        None => false,
    }
}

/// True if the access unit contains at least one slice and every slice is
/// intra (IDR, I or SI): it is then a random-access point even if it is no IDR.
pub fn units_are_intra_only(units: &[Vec<u8>]) -> (b: bool)
    ensures
        b == intra_only(bytes::contents(units@)),
{
    let ghost all = bytes::contents(units@);
    let mut saw_slice = false;
    let mut i: usize = 0;
    while i < units.len()
        invariant
            i <= units@.len(),
            all == bytes::contents(units@),
            saw_slice <==> exists|k: int| 0 <= k < i && is_slice(#[trigger] all[k]),
            forall|k: int| 0 <= k < i && is_slice(#[trigger] all[k]) ==> is_intra_slice(all[k]),
        decreases units@.len() - i,
    {
        assert(all[i as int] == units@[i as int]@);
        match nal_type(units[i].as_slice()) {
            Some(kind) => {
                if 1 <= kind && kind <= 5 {
                    assert(is_slice(all[i as int]));
                    saw_slice = true;
                    if kind != 5 && !slice_is_intra(units[i].as_slice()) {
                        return false;
                    }
                }
            },
            None => {},
        }
        i += 1;
    }
    saw_slice
}

/// True if the Annex B access unit is a random-access point even without an
/// IDR (see [`units_are_intra_only`]).
pub fn access_unit_is_intra_only(data: &[u8]) -> (b: bool)
    ensures
        b == intra_only(annex_b_units(data@)),
{
    let units = parse_annex_b_units(data);
    units_are_intra_only(units.as_slice())
}

// ---- normalization ---------------------------------------------------------

/// Cached parameter sets, and the number of packets seen, of one encoder
/// session.
#[derive(Debug)]
pub struct H264BitstreamState {
    pub sps: Option<Vec<u8>>,
    pub pps: Option<Vec<u8>>,
    /// Packets with units so far; the first one is treated specially for AMF.
    pub packet_count: u64,
}

/// The state as a model.
#[verifier::ext_equal]
pub struct SetCache {
    pub sps: Option<Seq<u8>>,
    pub pps: Option<Seq<u8>>,
    pub packet_count: nat,
}

/// What an optional byte vector holds.
pub open spec fn held(v: Option<Vec<u8>>) -> Option<Seq<u8>> {
    match v {
        Some(bytes) => Some(bytes@),
        None => None,
    }
}

impl View for H264BitstreamState {
    type V = SetCache;

    open spec fn view(&self) -> SetCache {
        SetCache {
            sps: held(self.sps),
            pps: held(self.pps),
            packet_count: self.packet_count as nat,
        }
    }
}

impl Default for H264BitstreamState {
    fn default() -> (s: H264BitstreamState)
        ensures
            s@ == (SetCache { sps: None, pps: None, packet_count: 0 }),
    {
        H264BitstreamState { sps: None, pps: None, packet_count: 0 }
    }
}

/// The last unit of type `t`, or what was cached before.
pub open spec fn latest_of_type(units: Seq<Seq<u8>>, t: u8, cached: Option<Seq<u8>>) -> Option<
    Seq<u8>,
>
    decreases units.len(),
{
    if units.len() == 0 {
        cached
    } else if unit_type(units.last()) == Some(t) {
        Some(units.last())
    } else {
        latest_of_type(units.drop_last(), t, cached)
    }
}

/// The sets known once the units of a packet have been seen: sets in the
/// stream always replace the cached ones.
pub open spec fn cache_after(cache: SetCache, units: Seq<Seq<u8>>) -> SetCache {
    SetCache {
        sps: latest_of_type(units, 7, cache.sps),
        pps: latest_of_type(units, 8, cache.pps),
        packet_count: cache.packet_count,
    }
}

/// The units of a packet as Annex B, each behind a four-byte start code.
pub open spec fn annex_b(units: Seq<Seq<u8>>) -> Seq<u8>
    decreases units.len(),
{
    if units.len() == 0 {
        Seq::empty()
    } else {
        annex_b(units.drop_last()) + seq![0u8, 0u8, 0u8, 1u8] + units.last()
    }
}

/// Whether a unit is a parameter set.
pub open spec fn is_parameter_set(unit: Seq<u8>) -> bool {
    unit_type(unit) == Some(7u8) || unit_type(unit) == Some(8u8)
}

/// The units that are no parameter sets.
pub open spec fn without_sets(units: Seq<Seq<u8>>) -> Seq<Seq<u8>>
    decreases units.len(),
{
    if units.len() == 0 {
        units
    } else if is_parameter_set(units.last()) {
        without_sets(units.drop_last())
    } else {
        without_sets(units.drop_last()).push(units.last())
    }
}

/// Whether a packet should start with the cached parameter sets. A keyframe
/// must carry them. AMF repeats them on every random-access point, even one
/// that already has them or that is no IDR, and fills them in on the first
/// packet: the receiving decoder is sensitive to their freshness.
pub open spec fn wants_sets(
    units: Seq<Seq<u8>>,
    packet_is_key: bool,
    is_amf: bool,
    packet_count: nat,
) -> bool {
    let key = packet_is_key || has_type(units, 5);
    let incomplete = !has_type(units, 7) || !has_type(units, 8);
    ||| is_amf && (key || intra_only(units))
    ||| is_amf && incomplete && packet_count == 0
    ||| key && incomplete
}

/// The units that go out for the units of a packet. Where the cached sets are
/// put in front, those inside the packet are dropped.
pub open spec fn normalized_units(
    units: Seq<Seq<u8>>,
    packet_is_key: bool,
    is_amf: bool,
    cache: SetCache,
) -> Seq<Seq<u8>> {
    let known = cache_after(cache, units);
    if wants_sets(units, packet_is_key, is_amf, cache.packet_count) && known.sps is Some
        && known.pps is Some {
        seq![known.sps->0, known.pps->0] + without_sets(units)
    } else {
        units
    }
}

/// The payload that goes out for a packet. One without recognisable units goes
/// out as it is.
pub open spec fn normalized(d: Seq<u8>, packet_is_key: bool, is_amf: bool, cache: SetCache) -> Seq<
    u8,
> {
    let units = bitstream(d).1;
    if units.len() == 0 {
        d
    } else {
        annex_b(normalized_units(units, packet_is_key, is_amf, cache))
    }
}

/// The state after a packet.
pub open spec fn cache_after_packet(d: Seq<u8>, cache: SetCache) -> SetCache {
    let units = bitstream(d).1;
    if units.len() == 0 {
        cache
    } else {
        SetCache { packet_count: cache.packet_count + 1, ..cache_after(cache, units) }
    }
}

/// The cache once encoder extradata has filled in what it lacks.
pub open spec fn with_extradata(c: SetCache, extradata: Option<Seq<u8>>) -> SetCache {
    match extradata {
        None => c,
        Some(d) => match extradata_sets(d) {
            None => c,
            Some((sps, pps)) => SetCache {
                sps: if c.sps is None {
                    Some(sps)
                } else {
                    c.sps
                },
                pps: if c.pps is None {
                    Some(pps)
                } else {
                    c.pps
                },
                ..c
            },
        },
    }
}

impl H264BitstreamState {
    /// Whether a parameter set is still unknown.
    pub fn needs_parameter_sets(&self) -> (b: bool)
        ensures
            b == (self@.sps is None || self@.pps is None),
    {
        self.sps.is_none() || self.pps.is_none()
    }

    /// Fills in the sets that are still unknown from encoder extradata.
    pub fn refresh_parameter_sets_from_extradata(&mut self, extradata: Option<Vec<u8>>)
        ensures
            final(self)@ == with_extradata(
                old(self)@,
                match extradata {
                    Some(d) => Some(d@),
                    None => None,
                },
            ),
    {
        let data = match extradata {
            Some(data) => data,
            None => return ,
        };
        match parameter_sets_from_extradata(data.as_slice()) {
            Some((sps, pps)) => {
                if self.sps.is_none() {
                    self.sps = Some(sps);
                }
                if self.pps.is_none() {
                    self.pps = Some(pps);
                }
            },
            None => {},
        }
    }

    /// Refreshes the cached sets from units in the stream. Always overwrites,
    /// so the cache never goes stale when the encoder changes its sets.
    fn update_parameter_sets_from_units(&mut self, units: &[Vec<u8>])
        ensures
            final(self)@ == cache_after(old(self)@, bytes::contents(units@)),
    {
        let ghost all = bytes::contents(units@);
        let ghost before = self@;
        let mut i: usize = 0;
        assert(all.take(0) =~= Seq::<Seq<u8>>::empty());
        while i < units.len()
            invariant
                i <= units@.len(),
                all == bytes::contents(units@),
                self@ == cache_after(before, all.take(i as int)),
            decreases units@.len() - i,
        {
            assert(all[i as int] == units@[i as int]@);
            assert(all.take(i + 1).drop_last() =~= all.take(i as int));
            match nal_type(units[i].as_slice()) {
                Some(7) => {
                    self.sps = Some(slice_to_vec(units[i].as_slice()));
                },
                Some(8) => {
                    self.pps = Some(slice_to_vec(units[i].as_slice()));
                },
                _ => {},
            }
            i += 1;
        }
        assert(all.take(i as int) =~= all);
    }
}

fn append_annex_b_unit(output: &mut Vec<u8>, unit: &[u8])
    ensures
        final(output)@ == old(output)@ + seq![0u8, 0u8, 0u8, 1u8] + unit@,
{
    output.push(0);
    output.push(0);
    output.push(0);
    output.push(1);
    assert(output@ =~= old(output)@ + seq![0u8, 0u8, 0u8, 1u8]);
    push_all(output, unit);
}

proof fn annex_b_of_push(units: Seq<Seq<u8>>, unit: Seq<u8>)
    ensures
        annex_b(units.push(unit)) == annex_b(units) + seq![0u8, 0u8, 0u8, 1u8] + unit,
{
    assert(units.push(unit).drop_last() =~= units);
}

proof fn without_sets_of_push(units: Seq<Seq<u8>>, unit: Seq<u8>)
    ensures
        without_sets(units.push(unit)) == (if is_parameter_set(unit) {
            without_sets(units)
        } else {
            without_sets(units).push(unit)
        }),
{
    assert(units.push(unit).drop_last() =~= units);
}

/// Appends the units to a stream that holds `head`, leaving out the parameter
/// sets if `drop_sets`.
fn append_units(output: &mut Vec<u8>, units: &[Vec<u8>], drop_sets: bool, head: Ghost<Seq<Seq<u8>>>)
    requires
        old(output)@ == annex_b(head@),
    ensures
        final(output)@ == annex_b(
            head@ + (if drop_sets {
                without_sets(bytes::contents(units@))
            } else {
                bytes::contents(units@)
            }),
        ),
{
    let ghost all = bytes::contents(units@);
    let mut i: usize = 0;
    assert(head@ + Seq::<Seq<u8>>::empty() =~= head@);
    assert(all.take(0) =~= Seq::<Seq<u8>>::empty());
    while i < units.len()
        invariant
            i <= units@.len(),
            all == bytes::contents(units@),
            output@ == annex_b(
                head@ + (if drop_sets {
                    without_sets(all.take(i as int))
                } else {
                    all.take(i as int)
                }),
            ),
        decreases units@.len() - i,
    {
        let ghost done = if drop_sets {
            without_sets(all.take(i as int))
        } else {
            all.take(i as int)
        };
        let ghost unit = all[i as int];
        assert(unit == units@[i as int]@);
        assert(all.take(i + 1) =~= all.take(i as int).push(unit));
        proof {
            without_sets_of_push(all.take(i as int), unit);
            annex_b_of_push(head@ + done, unit);
            assert((head@ + done).push(unit) =~= head@ + done.push(unit));
        }
        let is_set = match nal_type(units[i].as_slice()) {
            Some(7) => true,
            Some(8) => true,
            _ => false,
        };
        if !(drop_sets && is_set) {
            append_annex_b_unit(output, units[i].as_slice());
        }
        i += 1;
    }
    assert(all.take(i as int) =~= all);
}

/// Rewrites one encoded packet into clean Annex B, putting cached parameter
/// sets in front by the rules that the receiving decoder depends on.
pub fn normalize_h264_payload(
    data: &[u8],
    packet_is_key: bool,
    state: &mut H264BitstreamState,
    encoder_name: &str,
) -> (output: Vec<u8>)
    requires
        old(state).packet_count < u64::MAX,
    ensures
        output@ == normalized(
            data@,
            packet_is_key,
            encoder_name@ == AMF_ENCODER_NAME@,
            old(state)@,
        ),
        final(state)@ == cache_after_packet(data@, old(state)@),
{
    let ghost before = state@;
    let (_format, units) = parse_h264_bitstream(data);
    let ghost all = bytes::contents(units@);
    assert(all.len() == units@.len());
    if units.len() == 0 {
        return slice_to_vec(data);
    }
    state.update_parameter_sets_from_units(units.as_slice());
    let contains_idr = any_of_type(units.as_slice(), 5);
    let has_sps = any_of_type(units.as_slice(), 7);
    let has_pps = any_of_type(units.as_slice(), 8);
    let is_amf = is_amf_encoder(encoder_name);
    let intra = is_amf && units_are_intra_only(units.as_slice());
    let startup = is_amf && (!has_sps || !has_pps) && state.packet_count == 0;
    let redundant = is_amf && (packet_is_key || contains_idr || intra);
    state.packet_count = state.packet_count + 1;
    let prefix = redundant || startup || ((packet_is_key || contains_idr) && (!has_sps
        || !has_pps));
    assert(prefix == wants_sets(all, packet_is_key, is_amf, before.packet_count));
    let mut output: Vec<u8> = Vec::new();
    let mut injected = false;
    let ghost mut head = Seq::<Seq<u8>>::empty();
    if prefix {
        match (&state.sps, &state.pps) {
            (Some(sps), Some(pps)) => {
                append_annex_b_unit(&mut output, sps.as_slice());
                append_annex_b_unit(&mut output, pps.as_slice());
                injected = true;
                proof {
                    let one = Seq::<Seq<u8>>::empty().push(sps@);
                    annex_b_of_push(Seq::empty(), sps@);
                    annex_b_of_push(one, pps@);
                    head = seq![sps@, pps@];
                    assert(head =~= one.push(pps@));
                    assert(output@ =~= annex_b(head));
                }
            },
            _ => {},
        }
    }
    append_units(&mut output, units.as_slice(), injected, Ghost(head));
    assert(Seq::<Seq<u8>>::empty() + all =~= all);
    output
}

// ---- laws ------------------------------------------------------------------

/// Whether a unit can be delimited by start codes: it is not empty, does not
/// end in a zero and holds no start code.
pub open spec fn is_clean(unit: Seq<u8>) -> bool {
    &&& unit.len() > 0
    &&& unit.last() != 0
    &&& forall|j: int| #[trigger] start_code_len(unit, j) == 0
}

/// Whether all units can be delimited by start codes.
pub open spec fn all_clean(units: Seq<Seq<u8>>) -> bool {
    forall|i: int| 0 <= i < units.len() ==> is_clean(#[trigger] units[i])
}

proof fn trimmed_is_prefix(s: Seq<u8>)
    ensures
        trimmed(s).len() <= s.len(),
        trimmed(s) == s.take(trimmed(s).len() as int),
        trimmed(s).len() > 0 ==> trimmed(s).last() != 0,
    decreases s.len(),
{
    if s.len() > 0 && s.last() == 0 {
        trimmed_is_prefix(s.drop_last());
        assert(s.drop_last().take(trimmed(s).len() as int) =~= s.take(trimmed(s).len() as int));
    } else {
        assert(s.take(s.len() as int) =~= s);
    }
}

proof fn units_from_are_clean(d: Seq<u8>, at: int)
    ensures
        all_clean(units_from(d, at)),
    decreases d.len() - at,
{
    if !(at < 0 || at >= d.len() || start_code_len(d, at) == 0) {
        let body = at + start_code_len(d, at);
        next_start_is_first(d, body);
        let next = next_start(d, body);
        let whole = d.subrange(body, next);
        let unit = trimmed(whole);
        trimmed_is_prefix(whole);
        let rest = units_from(d, next);
        units_from_are_clean(d, next);
        if unit.len() > 0 {
            assert forall|j: int| #[trigger] start_code_len(unit, j) == 0 by {
                if start_code_len(unit, j) > 0 {
                    assert(unit[j] == d[body + j] && unit[j + 1] == d[body + j + 1] && unit[j + 2]
                        == d[body + j + 2]);
                    if start_code_len(unit, j) == 4 {
                        assert(unit[j + 3] == d[body + j + 3]);
                    }
                    assert(start_code_len(d, body + j) > 0);
                }
            }
            assert(is_clean(unit));
            let all = units_from(d, at);
            assert(all =~= seq![unit] + rest);
            assert forall|i: int| 0 <= i < all.len() implies is_clean(#[trigger] all[i]) by {
                if i > 0 {
                    assert(all[i] == rest[i - 1]);
                }
            }
        }
    }
}

/// Every unit that is split off an Annex B stream can be delimited by start
/// codes again.
pub proof fn annex_b_units_are_clean(d: Seq<u8>)
    ensures
        all_clean(annex_b_units(d)),
{
    units_from_are_clean(d, next_start(d, 0));
}

proof fn annex_b_split(units: Seq<Seq<u8>>, k: int)
    requires
        0 <= k <= units.len(),
    ensures
        annex_b(units) == annex_b(units.take(k)) + annex_b(units.skip(k)),
    decreases units.len(),
{
    if k == units.len() {
        assert(units.take(k) =~= units);
        assert(units.skip(k) =~= Seq::<Seq<u8>>::empty());
        assert(annex_b(units) + Seq::<u8>::empty() =~= annex_b(units));
    } else {
        let w = units.drop_last();
        annex_b_split(w, k);
        assert(w.take(k) =~= units.take(k));
        assert(units.skip(k).drop_last() =~= w.skip(k));
        assert(units.skip(k).last() == units.last());
        assert(annex_b(units) =~= annex_b(units.take(k)) + annex_b(units.skip(k)));
    }
}

proof fn annex_b_first(units: Seq<Seq<u8>>)
    requires
        units.len() > 0,
    ensures
        annex_b(units) == seq![0u8, 0u8, 0u8, 1u8] + units[0] + annex_b(units.drop_first()),
{
    annex_b_split(units, 1);
    assert(units.skip(1) =~= units.drop_first());
    let one = units.take(1);
    assert(one.drop_last() =~= Seq::<Seq<u8>>::empty());
    assert(annex_b(one.drop_last()) =~= Seq::<u8>::empty());
    assert(annex_b(one) =~= seq![0u8, 0u8, 0u8, 1u8] + units[0]);
}

/// No start code begins inside a clean unit that another start code, or the
/// end of the stream, follows.
pub proof fn no_start_inside(s: Seq<u8>, body: int, unit: Seq<u8>, j: int)
    requires
        is_clean(unit),
        0 <= body,
        body + unit.len() <= s.len(),
        s.subrange(body, body + unit.len()) == unit,
        body <= j < body + unit.len(),
    ensures
        start_code_len(s, j) == 0,
{
    let end = body + unit.len();
    let sub = s.subrange(body, end);
    assert(sub[unit.len() - 1] == s[end - 1]);
    assert(s[end - 1] != 0);
    assert(sub[j - body] == s[j]);
    assert(start_code_len(unit, j - body) == 0);
    if j + 3 <= end {
        assert(sub[j - body + 1] == s[j + 1]);
        assert(sub[j - body + 2] == s[j + 2]);
        if j + 4 <= end {
            assert(sub[j - body + 3] == s[j + 3]);
        }
    } else if j + 2 == end {
        assert(s[j + 1] != 0);
    }
}

proof fn tail_parses_back(front: Seq<u8>, units: Seq<Seq<u8>>)
    requires
        all_clean(units),
    ensures
        units_from(front + annex_b(units), front.len() as int) == units,
    decreases units.len(),
{
    let s = front + annex_b(units);
    let at = front.len() as int;
    if units.len() == 0 {
        assert(s.len() == at);
        assert(units_from(s, at) =~= units);
    } else {
        annex_b_first(units);
        let unit = units[0];
        let rest = units.drop_first();
        let code = seq![0u8, 0u8, 0u8, 1u8];
        let more = front + code + unit;
        assert(s =~= more + annex_b(rest));
        assert(s[at] == 0 && s[at + 1] == 0 && s[at + 2] == 0 && s[at + 3] == 1);
        assert(start_code_len(s, at) == 4);
        let body = at + 4;
        let next = body + unit.len();
        assert(s.subrange(body, next) =~= unit);
        assert(is_clean(units[0]));
        assert forall|j: int| body <= j < next implies #[trigger] start_code_len(s, j) == 0 by {
            no_start_inside(s, body, unit, j);
        }
        if rest.len() > 0 {
            annex_b_first(rest);
            assert(s[next] == 0 && s[next + 1] == 0 && s[next + 2] == 0 && s[next + 3] == 1);
            assert(start_code_len(s, next) == 4);
        }
        next_start_is(s, body, next);
        assert(trimmed(unit) == unit);
        assert forall|i: int| 0 <= i < rest.len() implies is_clean(#[trigger] rest[i]) by {
            assert(rest[i] == units[i + 1]);
        }
        tail_parses_back(more, rest);
        assert(seq![unit] + rest =~= units);
    }
}

/// Clean units that are written as Annex B are split off again as they were.
pub proof fn annex_b_round_trip(units: Seq<Seq<u8>>)
    requires
        all_clean(units),
    ensures
        annex_b_units(annex_b(units)) == units,
{
    let s = annex_b(units);
    assert(Seq::<u8>::empty() + s =~= s);
    tail_parses_back(Seq::empty(), units);
    if units.len() > 0 {
        annex_b_first(units);
        assert(start_code_len(s, 0) == 4);
    }
}

/// Where the cached sets are put in front, no other set remains: the access
/// unit holds one of each, and all other units in their order.
pub proof fn sets_are_never_doubled(units: Seq<Seq<u8>>)
    ensures
        forall|i: int|
            0 <= i < without_sets(units).len() ==> !is_parameter_set(
                #[trigger] without_sets(units)[i],
            ),
    decreases units.len(),
{
    if units.len() > 0 {
        let fewer = without_sets(units.drop_last());
        sets_are_never_doubled(units.drop_last());
        assert forall|i: int| 0 <= i < without_sets(units).len() implies !is_parameter_set(
            #[trigger] without_sets(units)[i],
        ) by {
            if i < fewer.len() {
                assert(without_sets(units)[i] == fewer[i]);
            }
        }
    }
}

proof fn latest_has_its_type(units: Seq<Seq<u8>>, t: u8, cached: Option<Seq<u8>>)
    requires
        cached matches Some(c) ==> unit_type(c) == Some(t),
    ensures
        latest_of_type(units, t, cached) matches Some(u) ==> unit_type(u) == Some(t),
        has_type(units, t) ==> latest_of_type(units, t, cached) is Some,
        cached is Some ==> latest_of_type(units, t, cached) is Some,
    decreases units.len(),
{
    if units.len() > 0 {
        latest_has_its_type(units.drop_last(), t, cached);
        if has_type(units, t) && unit_type(units.last()) != Some(t) {
            let i = choose|i: int| 0 <= i < units.len() && unit_type(#[trigger] units[i]) == Some(t);
            assert(units.drop_last()[i] == units[i]);
        }
    }
}

/// A keyframe goes out with both parameter sets, if each of them is cached or
/// in the packet.
pub proof fn keyframes_carry_sets(
    units: Seq<Seq<u8>>,
    packet_is_key: bool,
    is_amf: bool,
    cache: SetCache,
)
    requires
        packet_is_key || has_type(units, 5),
        cache.sps matches Some(s) ==> unit_type(s) == Some(7u8),
        cache.pps matches Some(p) ==> unit_type(p) == Some(8u8),
        cache.sps is Some || has_type(units, 7),
        cache.pps is Some || has_type(units, 8),
    ensures
        has_type(normalized_units(units, packet_is_key, is_amf, cache), 7),
        has_type(normalized_units(units, packet_is_key, is_amf, cache), 8),
{
    latest_has_its_type(units, 7, cache.sps);
    latest_has_its_type(units, 8, cache.pps);
    let out = normalized_units(units, packet_is_key, is_amf, cache);
    let known = cache_after(cache, units);
    if wants_sets(units, packet_is_key, is_amf, cache.packet_count) {
        assert(out[0] == known.sps->0);
        assert(out[1] == known.pps->0);
    }
}

proof fn without_sets_stay_clean(units: Seq<Seq<u8>>)
    requires
        all_clean(units),
    ensures
        all_clean(without_sets(units)),
    decreases units.len(),
{
    if units.len() > 0 {
        let w = units.drop_last();
        assert forall|i: int| 0 <= i < w.len() implies is_clean(#[trigger] w[i]) by {
            assert(w[i] == units[i]);
        }
        without_sets_stay_clean(w);
        assert(is_clean(units[units.len() - 1]));
    }
}

proof fn latest_stays_clean(units: Seq<Seq<u8>>, t: u8, cached: Option<Seq<u8>>)
    requires
        all_clean(units),
        cached matches Some(c) ==> is_clean(c),
    ensures
        latest_of_type(units, t, cached) matches Some(u) ==> is_clean(u),
    decreases units.len(),
{
    if units.len() > 0 {
        let w = units.drop_last();
        assert forall|i: int| 0 <= i < w.len() implies is_clean(#[trigger] w[i]) by {
            assert(w[i] == units[i]);
        }
        latest_stays_clean(w, t, cached);
        assert(is_clean(units[units.len() - 1]));
    }
}

/// What goes out for an Annex B packet is Annex B with exactly the units that
/// the rules call for.
pub proof fn normalized_packets_parse_back(
    d: Seq<u8>,
    packet_is_key: bool,
    is_amf: bool,
    cache: SetCache,
)
    requires
        annex_b_units(d).len() > 0,
        cache.sps matches Some(s) ==> is_clean(s),
        cache.pps matches Some(p) ==> is_clean(p),
    ensures
        annex_b_units(normalized(d, packet_is_key, is_amf, cache)) == normalized_units(
            annex_b_units(d),
            packet_is_key,
            is_amf,
            cache,
        ),
{
    let units = annex_b_units(d);
    annex_b_units_are_clean(d);
    latest_stays_clean(units, 7, cache.sps);
    latest_stays_clean(units, 8, cache.pps);
    without_sets_stay_clean(units);
    let out = normalized_units(units, packet_is_key, is_amf, cache);
    assert forall|i: int| 0 <= i < out.len() implies is_clean(#[trigger] out[i]) by {
        if out != units && i >= 2 {
            assert(out[i] == without_sets(units)[i - 2]);
        }
    }
    annex_b_round_trip(out);
}

/// `v` as `n` bytes, the most significant first.
pub open spec fn as_bytes(v: nat, n: nat) -> Seq<u8>
    decreases n,
{
    if n == 0 {
        Seq::empty()
    } else {
        as_bytes(v / 256, (n - 1) as nat).push((v % 256) as u8)
    }
}

/// Units as a stream in which each stands behind its length of `n` bytes.
pub open spec fn length_prefixed(units: Seq<Seq<u8>>, n: nat) -> Seq<u8>
    decreases units.len(),
{
    if units.len() == 0 {
        Seq::empty()
    } else {
        as_bytes(units[0].len(), n) + units[0] + length_prefixed(units.drop_first(), n)
    }
}

/// Whether units can stand behind lengths of `n` bytes: none is empty, and the
/// length of each fits.
pub open spec fn can_be_prefixed(units: Seq<Seq<u8>>, n: nat) -> bool {
    forall|i: int|
        0 <= i < units.len() ==> 0 < (#[trigger] units[i]).len() < vstd::arithmetic::power::pow(
            256,
            n,
        )
}

/// Bytes that spell a number are read back as that number.
pub proof fn numbers_read_back(v: nat, n: nat)
    requires
        v < vstd::arithmetic::power::pow(256, n),
    ensures
        as_bytes(v, n).len() == n,
        bytes::big_endian(as_bytes(v, n)) == v,
    decreases n,
{
    reveal(vstd::arithmetic::power::pow);
    if n > 0 {
        let p = vstd::arithmetic::power::pow(256, (n - 1) as nat);
        assert(vstd::arithmetic::power::pow(256, n) == 256 * p);
        numbers_read_back(v / 256, (n - 1) as nat);
        let s = as_bytes(v, n);
        assert(s.drop_last() =~= as_bytes(v / 256, (n - 1) as nat));
    }
}

proof fn prefixed_tail_parses_back(front: Seq<u8>, units: Seq<Seq<u8>>, n: nat)
    requires
        n > 0,
        can_be_prefixed(units, n),
    ensures
        counted_units_from(front + length_prefixed(units, n), front.len() as int, n as int) == Some(
            units,
        ),
    decreases units.len(),
{
    let s = front + length_prefixed(units, n);
    let at = front.len() as int;
    if units.len() == 0 {
        assert(s.len() == at);
        assert(units =~= Seq::<Seq<u8>>::empty());
    } else {
        let unit = units[0];
        let rest = units.drop_first();
        let count = as_bytes(unit.len(), n);
        numbers_read_back(unit.len(), n);
        assert(s =~= (front + count + unit) + length_prefixed(rest, n));
        assert(s.subrange(at, at + n) =~= count);
        assert(s.subrange(at + n, at + n + unit.len()) =~= unit);
        assert forall|i: int| 0 <= i < rest.len() implies 0 < (#[trigger] rest[i]).len()
            < vstd::arithmetic::power::pow(256, n) by {
            assert(rest[i] == units[i + 1]);
        }
        prefixed_tail_parses_back(front + count + unit, rest, n);
        assert(seq![unit] + rest =~= units);
    }
}

/// Splitting is the inverse of joining: units that are written behind their
/// lengths are split off again as they were, all of them and in their order.
pub proof fn length_prefixed_round_trip(units: Seq<Seq<u8>>, n: nat)
    requires
        n > 0,
        units.len() > 0,
        can_be_prefixed(units, n),
    ensures
        counted_units(length_prefixed(units, n), n as int) == Some(units),
{
    let s = length_prefixed(units, n);
    assert(Seq::<u8>::empty() + s =~= s);
    prefixed_tail_parses_back(Seq::empty(), units, n);
    assert(units[0].len() > 0);
    numbers_read_back(units[0].len(), n);
}

/// What is split off a length-prefixed stream is all there is in it: written
/// behind their lengths again, the units are the stream.
pub proof fn length_prefixed_streams_are_their_units(d: Seq<u8>, n: nat)
    requires
        0 < n,
        counted_units(d, n as int) is Some,
    ensures
        length_prefixed(counted_units(d, n as int)->0, n) == d,
{
    prefixed_from(d, 0, n);
    assert(d.skip(0) =~= d);
}

proof fn bytes_spell_back(s: Seq<u8>)
    ensures
        as_bytes(bytes::big_endian(s), s.len()) == s,
    decreases s.len(),
{
    if s.len() == 0 {
        assert(as_bytes(0, 0) =~= s);
    } else {
        let w = s.drop_last();
        bytes_spell_back(w);
        let v = bytes::big_endian(s);
        assert(v / 256 == bytes::big_endian(w) && v % 256 == s.last());
        assert(w.push(s.last()) =~= s);
    }
}

proof fn prefixed_from(d: Seq<u8>, at: int, n: nat)
    requires
        0 < n,
        0 <= at <= d.len(),
        counted_units_from(d, at, n as int) is Some,
    ensures
        length_prefixed(counted_units_from(d, at, n as int)->0, n) == d.skip(at),
    decreases d.len() - at,
{
    let units = counted_units_from(d, at, n as int)->0;
    if at == d.len() {
        assert(d.skip(at) =~= Seq::<u8>::empty());
    } else {
        let count = d.subrange(at, at + n);
        let len = bytes::big_endian(count) as int;
        let end = at + n + len;
        let unit = d.subrange(at + n, end);
        prefixed_from(d, end, n);
        let rest = counted_units_from(d, end, n as int)->0;
        bytes_spell_back(count);
        assert(units =~= seq![unit] + rest);
        assert(units.drop_first() =~= rest);
        assert(d.skip(at) =~= count + unit + d.skip(end));
    }
}

/// A packet in the common length-prefixed form, which holds no start code, is
/// taken apart into exactly its units.
pub proof fn length_prefixed_packets_are_taken_apart(units: Seq<Seq<u8>>)
    requires
        units.len() > 0,
        can_be_prefixed(units, 4),
        annex_b_units(length_prefixed(units, 4)).len() == 0,
    ensures
        bitstream(length_prefixed(units, 4)) == (H264PacketFormat::Avcc(4), units),
{
    length_prefixed_round_trip(units, 4);
}

/// Whether a unit carries no parameter set: its type is not that of a sequence
/// or a picture parameter set.
pub open spec fn carries_no_set(unit: Seq<u8>) -> bool {
    unit.len() == 0 || ((unit[0] & 0x1Fu8) != 7 && (unit[0] & 0x1Fu8) != 8)
}

proof fn low_bits(b: u8)
    ensures
        b & 0x1Fu8 == b % 32,
{
    assert(b & 0x1Fu8 == b % 32) by (bit_vector);
}

proof fn sets_are_told(unit: Seq<u8>)
    ensures
        is_parameter_set(unit) == !carries_no_set(unit),
{
    if unit.len() > 0 {
        low_bits(unit[0]);
    }
}

proof fn without_sets_filters(units: Seq<Seq<u8>>)
    ensures
        without_sets(units) == units.filter(|u: Seq<u8>| carries_no_set(u)),
        without_sets(units).filter(|u: Seq<u8>| carries_no_set(u)) == without_sets(units),
    decreases units.len(),
{
    reveal(Seq::filter);
    if units.len() > 0 {
        let w = units.drop_last();
        without_sets_filters(w);
        sets_are_told(units.last());
        if carries_no_set(units.last()) {
            assert(without_sets(units).drop_last() =~= without_sets(w));
        }
    }
}

/// Whether `set` is the newest unit of a type: the last one among the units, or
/// the cached one where there is none among them.
pub open spec fn is_newest(set: Seq<u8>, units: Seq<Seq<u8>>, t: u8, cached: Option<Seq<u8>>) -> bool {
    ||| exists|i: int|
        {
            &&& 0 <= i < units.len()
            &&& #[trigger] units[i] == set
            &&& is_of_type(units[i], t)
            &&& forall|j: int| i < j < units.len() ==> !is_of_type(#[trigger] units[j], t)
        }
    ||| cached == Some(set) && forall|j: int|
        0 <= j < units.len() ==> !is_of_type(#[trigger] units[j], t)
}

/// Whether the low five bits of a unit's first byte name a type.
pub open spec fn is_of_type(unit: Seq<u8>, t: u8) -> bool {
    unit.len() > 0 && unit[0] & 0x1Fu8 == t
}

proof fn types_are_told(unit: Seq<u8>, t: u8)
    ensures
        is_of_type(unit, t) == (unit_type(unit) == Some(t)),
{
    if unit.len() > 0 {
        low_bits(unit[0]);
    }
}

proof fn newest_is_unique(a: Seq<u8>, b: Seq<u8>, units: Seq<Seq<u8>>, t: u8, cached: Option<Seq<u8>>)
    requires
        is_newest(a, units, t, cached),
        is_newest(b, units, t, cached),
    ensures
        a == b,
{
    if exists|j: int| 0 <= j < units.len() && is_of_type(#[trigger] units[j], t) {
        let i = choose|i: int|
            {
                &&& 0 <= i < units.len()
                &&& #[trigger] units[i] == a
                &&& is_of_type(units[i], t)
                &&& forall|j: int| i < j < units.len() ==> !is_of_type(#[trigger] units[j], t)
            };
        let k = choose|i: int|
            {
                &&& 0 <= i < units.len()
                &&& #[trigger] units[i] == b
                &&& is_of_type(units[i], t)
                &&& forall|j: int| i < j < units.len() ==> !is_of_type(#[trigger] units[j], t)
            };
        assert(units[i] == a && units[k] == b);
        assert(i == k);
    }
}

proof fn latest_is_newest(units: Seq<Seq<u8>>, t: u8, cached: Option<Seq<u8>>)
    ensures
        latest_of_type(units, t, cached) matches Some(set) ==> is_newest(set, units, t, cached),
        latest_of_type(units, t, cached) is None <==> cached is None && forall|j: int|
            0 <= j < units.len() ==> !is_of_type(#[trigger] units[j], t),
    decreases units.len(),
{
    if units.len() > 0 {
        let w = units.drop_last();
        let last = units.len() - 1;
        types_are_told(units.last(), t);
        if is_of_type(units.last(), t) {
            assert(units[last] == units.last());
        } else {
            latest_is_newest(w, t, cached);
            assert forall|j: int| 0 <= j < w.len() implies #[trigger] w[j] == units[j] by {}
            let l = latest_of_type(units, t, cached);
            if l is Some {
                let set = l->0;
                if exists|i: int|
                    {
                        &&& 0 <= i < w.len()
                        &&& #[trigger] w[i] == set
                        &&& is_of_type(w[i], t)
                        &&& forall|j: int| i < j < w.len() ==> !is_of_type(#[trigger] w[j], t)
                    } {
                    let i = choose|i: int|
                        {
                            &&& 0 <= i < w.len()
                            &&& #[trigger] w[i] == set
                            &&& is_of_type(w[i], t)
                            &&& forall|j: int| i < j < w.len() ==> !is_of_type(#[trigger] w[j], t)
                        };
                    assert(units[i] == set);
                    assert forall|j: int| i < j < units.len() implies !is_of_type(
                        #[trigger] units[j],
                        t,
                    ) by {
                        if j < last {
                            assert(w[j] == units[j]);
                        }
                    }
                } else {
                    assert forall|j: int| 0 <= j < units.len() implies !is_of_type(
                        #[trigger] units[j],
                        t,
                    ) by {
                        if j < last {
                            assert(w[j] == units[j]);
                        }
                    }
                }
            } else {
                assert forall|j: int| 0 <= j < units.len() implies !is_of_type(
                    #[trigger] units[j],
                    t,
                ) by {
                    if j < last {
                        assert(w[j] == units[j]);
                    }
                }
            }
        }
    }
}

/// Rewriting a packet loses and reorders no picture: what goes out holds, apart
/// from parameter sets, exactly the units of the packet in their order. Either
/// the packet goes out as it is, or with one sequence and one picture parameter
/// set in front, the newest that are known, and no other set.
pub proof fn rewriting_keeps_every_picture(
    units: Seq<Seq<u8>>,
    packet_is_key: bool,
    is_amf: bool,
    cache: SetCache,
)
    ensures
        ({
            let out = normalized_units(units, packet_is_key, is_amf, cache);
            let pictures = |u: Seq<u8>| carries_no_set(u);
            ||| out == units
            ||| {
                &&& out.len() >= 2
                &&& is_newest(out[0], units, 7, cache.sps)
                &&& is_newest(out[1], units, 8, cache.pps)
                &&& out.skip(2) == units.filter(pictures)
                &&& forall|i: int| 2 <= i < out.len() ==> carries_no_set(#[trigger] out[i])
            }
        }),
{
    let out = normalized_units(units, packet_is_key, is_amf, cache);
    latest_is_newest(units, 7, cache.sps);
    latest_is_newest(units, 8, cache.pps);
    without_sets_filters(units);
    if out != units {
        let kept = without_sets(units);
        assert(out.skip(2) =~= kept);
        sets_are_never_doubled(units);
        assert forall|i: int| 2 <= i < out.len() implies carries_no_set(#[trigger] out[i]) by {
            assert(out[i] == kept[i - 2]);
            sets_are_told(kept[i - 2]);
        }
    }
}

/// When the known parameter sets are put in front, provided that both are known.
/// Of any encoder: with a keyframe that lacks one of them. Of AMF besides: with
/// every keyframe, with every access unit that stands on its own, and with the
/// first packet if it lacks one. All other packets go out unit for unit.
pub proof fn sets_go_where_they_are_needed(
    units: Seq<Seq<u8>>,
    packet_is_key: bool,
    is_amf: bool,
    cache: SetCache,
    sps: Seq<u8>,
    pps: Seq<u8>,
)
    requires
        is_newest(sps, units, 7, cache.sps),
        is_newest(pps, units, 8, cache.pps),
    ensures
        ({
            let out = normalized_units(units, packet_is_key, is_amf, cache);
            let key = packet_is_key || exists|i: int|
                0 <= i < units.len() && is_of_type(#[trigger] units[i], 5);
            let lacks = (forall|i: int|
                0 <= i < units.len() ==> !is_of_type(#[trigger] units[i], 7)) || (forall|i: int|
                0 <= i < units.len() ==> !is_of_type(#[trigger] units[i], 8));
            if (key && lacks) || (is_amf && (key || intra_only(units) || (lacks
                && cache.packet_count == 0))) {
                out.len() >= 2 && out[0] == sps && out[1] == pps
            } else {
                out == units
            }
        }),
{
    latest_is_newest(units, 7, cache.sps);
    latest_is_newest(units, 8, cache.pps);
    newest_is_unique(sps, latest_of_type(units, 7, cache.sps)->0, units, 7, cache.sps);
    newest_is_unique(pps, latest_of_type(units, 8, cache.pps)->0, units, 8, cache.pps);
    told_by_type(units, 5);
    told_by_type(units, 7);
    told_by_type(units, 8);
}

/// A unit of a type is among some units if the low five bits of the first byte
/// of one of them name it.
pub proof fn told_by_type(units: Seq<Seq<u8>>, t: u8)
    ensures
        has_type(units, t) <==> exists|i: int|
            0 <= i < units.len() && is_of_type(#[trigger] units[i], t),
{
    if has_type(units, t) {
        let i = choose|i: int| 0 <= i < units.len() && unit_type(#[trigger] units[i]) == Some(t);
        types_are_told(units[i], t);
        assert(is_of_type(units[i], t));
    }
    if exists|i: int| 0 <= i < units.len() && is_of_type(#[trigger] units[i], t) {
        let i = choose|i: int| 0 <= i < units.len() && is_of_type(#[trigger] units[i], t);
        types_are_told(units[i], t);
        assert(unit_type(units[i]) == Some(t));
    }
}

/// A start code: three bytes, or four with one more zero in front.
pub open spec fn start_code(long: bool) -> Seq<u8> {
    if long {
        seq![0u8, 0u8, 0u8, 1u8]
    } else {
        seq![0u8, 0u8, 1u8]
    }
}

/// Units as a byte stream, each behind a long or a short start code.
pub open spec fn byte_stream(units: Seq<Seq<u8>>, long: Seq<bool>) -> Seq<u8>
    decreases units.len(),
{
    if units.len() == 0 {
        Seq::empty()
    } else {
        start_code(long[0]) + units[0] + byte_stream(units.drop_first(), long.drop_first())
    }
}

/// A start code is seen where its bytes stand.
pub proof fn start_code_is_seen(s: Seq<u8>, at: int, long: bool)
    requires
        0 <= at,
        at + start_code(long).len() <= s.len(),
        s.subrange(at, at + start_code(long).len()) == start_code(long),
    ensures
        start_code_len(s, at) == start_code(long).len(),
{
    let c = s.subrange(at, at + start_code(long).len());
    assert(c[0] == s[at] && c[1] == s[at + 1] && c[2] == s[at + 2]);
    assert(long ==> c[3] == s[at + 3]);
}

#[verifier::spinoff_prover]
#[verifier::rlimit(30)]
proof fn stream_tail_parses_back(front: Seq<u8>, units: Seq<Seq<u8>>, long: Seq<bool>)
    requires
        all_clean(units),
        long.len() == units.len(),
    ensures
        units_from(front + byte_stream(units, long), front.len() as int) == units,
    decreases units.len(),
{
    let s = front + byte_stream(units, long);
    let at = front.len() as int;
    if units.len() == 0 {
        assert(s.len() == at);
        assert(units_from(s, at) =~= units);
    } else {
        let unit = units[0];
        let rest = units.drop_first();
        let more_long = long.drop_first();
        let code = start_code(long[0]);
        let tail = byte_stream(rest, more_long);
        let more = front + code + unit;
        assert(s =~= more + tail);
        assert(s.subrange(at, at + code.len()) =~= code);
        start_code_is_seen(s, at, long[0]);
        let body = at + code.len();
        let next = body + unit.len();
        assert(s.subrange(body, next) =~= unit);
        assert(is_clean(units[0]));
        assert forall|j: int| body <= j < next implies #[trigger] start_code_len(s, j) == 0 by {
            no_start_inside(s, body, unit, j);
        }
        if rest.len() > 0 {
            let c = start_code(more_long[0]);
            assert(tail =~= c + (rest[0] + byte_stream(
                rest.drop_first(),
                more_long.drop_first(),
            )));
            assert(s.subrange(next, next + c.len()) =~= c);
            start_code_is_seen(s, next, more_long[0]);
        }
        next_start_is(s, body, next);
        assert(trimmed(unit) == unit);
        assert forall|i: int| 0 <= i < rest.len() implies is_clean(#[trigger] rest[i]) by {
            assert(rest[i] == units[i + 1]);
        }
        stream_tail_parses_back(more, rest, more_long);
        assert(seq![unit] + rest =~= units);
    }
}

/// Start codes of either length delimit units: however they are mixed, the units
/// are split off as they were.
pub proof fn start_codes_of_either_length_delimit(units: Seq<Seq<u8>>, long: Seq<bool>)
    requires
        all_clean(units),
        long.len() == units.len(),
    ensures
        annex_b_units(byte_stream(units, long)) == units,
{
    let s = byte_stream(units, long);
    assert(Seq::<u8>::empty() + s =~= s);
    stream_tail_parses_back(Seq::empty(), units, long);
    if units.len() > 0 {
        let code = start_code(long[0]);
        assert(s =~= code + (units[0] + byte_stream(units.drop_first(), long.drop_first())));
        assert(s[0] == code[0] && s[1] == code[1] && s[2] == code[2]);
        assert(long[0] ==> s[3] == code[3]);
        assert(start_code_len(s, 0) > 0);
    }
}

/// The state remembers the newest parameter set of each kind, of a packet or of
/// before, and counts the packets that held units.
pub proof fn newest_sets_are_remembered(d: Seq<u8>, cache: SetCache)
    ensures
        ({
            let units = bitstream(d).1;
            let after = cache_after_packet(d, cache);
            &&& after.sps matches Some(set) ==> is_newest(set, units, 7, cache.sps)
            &&& after.pps matches Some(set) ==> is_newest(set, units, 8, cache.pps)
            &&& after.sps is None ==> cache.sps is None && forall|j: int|
                0 <= j < units.len() ==> !is_of_type(#[trigger] units[j], 7)
            &&& after.pps is None ==> cache.pps is None && forall|j: int|
                0 <= j < units.len() ==> !is_of_type(#[trigger] units[j], 8)
            &&& after.packet_count == cache.packet_count + (if units.len() > 0 {
                1nat
            } else {
                0
            })
        }),
{
    let units = bitstream(d).1;
    latest_is_newest(units, 7, cache.sps);
    latest_is_newest(units, 8, cache.pps);
}

/// A length-prefixed packet whose units can be delimited by start codes goes
/// out as a byte stream of the units that the rules call for.
pub proof fn length_prefixed_packets_are_rewritten(
    units: Seq<Seq<u8>>,
    packet_is_key: bool,
    is_amf: bool,
    cache: SetCache,
)
    requires
        units.len() > 0,
        can_be_prefixed(units, 4),
        all_clean(units),
        annex_b_units(length_prefixed(units, 4)).len() == 0,
        cache.sps matches Some(s) ==> is_clean(s),
        cache.pps matches Some(p) ==> is_clean(p),
    ensures
        annex_b_units(normalized(length_prefixed(units, 4), packet_is_key, is_amf, cache))
            == normalized_units(units, packet_is_key, is_amf, cache),
{
    length_prefixed_packets_are_taken_apart(units);
    latest_stays_clean(units, 7, cache.sps);
    latest_stays_clean(units, 8, cache.pps);
    without_sets_stay_clean(units);
    let out = normalized_units(units, packet_is_key, is_amf, cache);
    assert forall|i: int| 0 <= i < out.len() implies is_clean(#[trigger] out[i]) by {
        if out != units && i >= 2 {
            assert(out[i] == without_sets(units)[i - 2]);
        }
    }
    annex_b_round_trip(out);
}

/// Parameter sets behind lengths of two bytes.
pub open spec fn set_list(sets: Seq<Seq<u8>>) -> Seq<u8> {
    length_prefixed(sets, 2)
}

/// An AVCC record: five bytes of header, then the sequence parameter sets behind
/// their count, and the picture parameter sets behind theirs.
pub open spec fn avcc_record(
    header: Seq<u8>,
    reserved: u8,
    sps: Seq<Seq<u8>>,
    pps: Seq<Seq<u8>>,
) -> Seq<u8> {
    header + seq![(reserved * 32 + sps.len()) as u8] + set_list(sps) + seq![pps.len() as u8]
        + set_list(pps)
}

proof fn set_list_is_walked(front: Seq<u8>, sets: Seq<Seq<u8>>, tail: Seq<u8>)
    requires
        can_be_prefixed(sets, 2),
    ensures
        sets_end(front + set_list(sets) + tail, front.len() as int, sets.len() as int) == Some(
            (front.len() + set_list(sets).len()) as int,
        ),
        sets.len() > 0 ==> set_at(front + set_list(sets) + tail, front.len() as int) == sets[0],
    decreases sets.len(),
{
    if sets.len() > 0 {
        let d = front + set_list(sets) + tail;
        let at = front.len() as int;
        let count = as_bytes(sets[0].len(), 2);
        let rest = sets.drop_first();
        numbers_read_back(sets[0].len(), 2);
        assert(set_list(sets) =~= count + sets[0] + set_list(rest));
        assert(d.subrange(at, at + 2) =~= count);
        assert(d.subrange(at + 2, at + 2 + sets[0].len()) =~= sets[0]);
        let more = front + count + sets[0];
        assert(d =~= more + set_list(rest) + tail);
        assert forall|i: int| 0 <= i < rest.len() implies 0 < (#[trigger] rest[i]).len()
            < vstd::arithmetic::power::pow(256, 2) by {
            assert(rest[i] == sets[i + 1]);
        }
        set_list_is_walked(more, rest, tail);
    }
}

/// The parameter sets of an AVCC record are its first sequence and its first
/// picture parameter set, however many there are of each, and whatever follows.
#[verifier::spinoff_prover]
pub proof fn avcc_records_give_their_first_sets(
    header: Seq<u8>,
    reserved: u8,
    sps: Seq<Seq<u8>>,
    pps: Seq<Seq<u8>>,
    trailer: Seq<u8>,
)
    requires
        header.len() == 5,
        header[0] == 1,
        reserved < 8,
        0 < sps.len() < 32,
        0 < pps.len() < 256,
        can_be_prefixed(sps, 2),
        can_be_prefixed(pps, 2),
    ensures
        extradata_sets(avcc_record(header, reserved, sps, pps) + trailer) == Some((sps[0], pps[0])),
{
    let d = avcc_record(header, reserved, sps, pps) + trailer;
    let five = seq![(reserved * 32 + sps.len()) as u8];
    let count = seq![pps.len() as u8];
    let front = header + five;
    let tail = count + set_list(pps) + trailer;
    let front2 = front + set_list(sps) + count;
    let c = (front.len() + set_list(sps).len()) as int;
    assert(d =~= front + set_list(sps) + tail);
    assert(d =~= front2 + set_list(pps) + trailer);
    set_list_is_walked(front, sps, tail);
    set_list_is_walked(front2, pps, trailer);
    assert(d[0] == header[0] && d[5] == five[0] && d[c] == count[0]);
    assert(front2.len() == c + 1);
    assert(d.len() >= 7 && c < d.len());
    record_is_read(d, sps.len() as int, pps.len() as int, c);
}

proof fn record_is_read(d: Seq<u8>, sps: int, pps: int, c: int)
    requires
        d.len() >= 7,
        d[0] == 1,
        0 < sps,
        0 < pps,
        d[5] as int % 32 == sps,
        0 <= c < d.len(),
        d[c] == pps,
        sets_end(d, 6, sps) == Some(c),
        sets_end(d, c + 1, pps) is Some,
    ensures
        extradata_sets(d) == Some((set_at(d, 6), set_at(d, c + 1))),
{
}

/// A payload with emulation prevention: a 3 is put in front of every byte up to
/// 3 that would follow two zeros; and the zeros at the end.
pub open spec fn escaped(d: Seq<u8>) -> (Seq<u8>, nat)
    decreases d.len(),
{
    if d.len() == 0 {
        (Seq::empty(), 0)
    } else {
        let (e, zeros) = escaped(d.drop_last());
        let b = d.last();
        if zeros >= 2 && b <= 3 {
            (
                e.push(3u8).push(b),
                if b == 0 {
                    1
                } else {
                    0
                },
            )
        } else {
            (
                e.push(b),
                if b == 0 {
                    zeros + 1
                } else {
                    0
                },
            )
        }
    }
}

/// Taking emulation prevention out gives the payload back that it was put into.
pub proof fn emulation_prevention_is_undone(d: Seq<u8>)
    ensures
        unescaped(escaped(d).0).0 == d,
        unescaped(escaped(d).0).1 == escaped(d).1,
    decreases d.len(),
{
    if d.len() == 0 {
        assert(unescaped(escaped(d).0).0 =~= d);
    } else {
        let w = d.drop_last();
        let b = d.last();
        emulation_prevention_is_undone(w);
        let (e, zeros) = escaped(w);
        assert(w.push(b) =~= d);
        if zeros >= 2 && b <= 3 {
            let three = e.push(3u8);
            assert(three.drop_last() =~= e);
            assert(unescaped(three) == (w, 0nat));
            assert(three.push(b).drop_last() =~= three);
        } else {
            assert(e.push(b).drop_last() =~= e);
        }
    }
}

proof fn byte_from_its_bits(b: u8)
    ensures
        b == 128 * ((b >> 7) & 1) + 64 * ((b >> 6) & 1) + 32 * ((b >> 5) & 1) + 16 * ((b >> 4) & 1)
            + 8 * ((b >> 3) & 1) + 4 * ((b >> 2) & 1) + 2 * ((b >> 1) & 1) + ((b >> 0) & 1),
{
    assert(b == 128 * ((b >> 7) & 1) + 64 * ((b >> 6) & 1) + 32 * ((b >> 5) & 1) + 16 * ((b >> 4)
        & 1) + 8 * ((b >> 3) & 1) + 4 * ((b >> 2) & 1) + 2 * ((b >> 1) & 1) + ((b >> 0) & 1))
        by (bit_vector);
}

/// The eight bits of a byte spell the byte.
pub proof fn bits_spell_bytes(d: Seq<u8>, i: int)
    requires
        0 <= i < d.len(),
    ensures
        bits(d, 8 * i, 8) == d[i],
{
    byte_from_its_bits(d[i]);
    reveal_with_fuel(bits, 9);
    assert forall|k: int| 0 <= k < 8 implies #[trigger] bit(d, 8 * i + k) == (d[i] >> ((7 - k) as u8))
        & 1u8 by {
        assert((8 * i + k) / 8 == i && (8 * i + k) % 8 == k);
    }
    assert(bit(d, 8 * i + 0) == (d[i] >> 7u8) & 1u8);
    assert(bit(d, 8 * i + 1) == (d[i] >> 6u8) & 1u8);
    assert(bit(d, 8 * i + 2) == (d[i] >> 5u8) & 1u8);
    assert(bit(d, 8 * i + 3) == (d[i] >> 4u8) & 1u8);
    assert(bit(d, 8 * i + 4) == (d[i] >> 3u8) & 1u8);
    assert(bit(d, 8 * i + 5) == (d[i] >> 2u8) & 1u8);
    assert(bit(d, 8 * i + 6) == (d[i] >> 1u8) & 1u8);
    assert(bit(d, 8 * i + 7) == (d[i] >> 0u8) & 1u8);
}

proof fn bit_is_a_bit(d: Seq<u8>, k: int)
    ensures
        bit(d, k) == 0 || bit(d, k) == 1,
{
    let b = d[k / 8] >> ((7 - k % 8) as u8);
    assert(b & 1u8 == 0 || b & 1u8 == 1) by (bit_vector);
}

proof fn zeros_then_one(d: Seq<u8>, at: int, seen: int)
    requires
        0 <= seen < 32,
        forall|j: int| 0 <= j < seen ==> #[trigger] bit(d, at + j) == 0,
    ensures
        leading_zeros(d, at, seen) matches Some(z) ==> {
            &&& seen <= z < 32
            &&& bit(d, at + z) == 1
            &&& at + z < 8 * d.len()
            &&& forall|j: int| 0 <= j < z ==> #[trigger] bit(d, at + j) == 0
        },
    decreases 32 - seen,
{
    bit_is_a_bit(d, at + seen);
    if at + seen < 8 * d.len() && bit(d, at + seen) != 1 && seen + 1 < 32 {
        assert forall|j: int| 0 <= j < seen + 1 implies #[trigger] bit(d, at + j) == 0 by {}
        zeros_then_one(d, at, seen + 1);
    }
}

proof fn zeros_spell_nothing(d: Seq<u8>, at: int, n: int)
    requires
        0 <= n,
        forall|j: int| 0 <= j < n ==> #[trigger] bit(d, at + j) == 0,
    ensures
        bits(d, at, n) == 0,
    decreases n,
{
    if n > 0 {
        zeros_spell_nothing(d, at, n - 1);
        assert(bit(d, at + (n - 1)) == 0);
    }
}

proof fn bits_join(d: Seq<u8>, at: int, m: int, n: int)
    requires
        0 <= m,
        0 <= n,
    ensures
        bits(d, at, m + n) == bits(d, at, m) * vstd::arithmetic::power2::pow2(n as nat) + bits(
            d,
            at + m,
            n,
        ),
        bits(d, at, n) < vstd::arithmetic::power2::pow2(n as nat),
    decreases n,
{
    if n == 0 {
        vstd::arithmetic::power2::lemma2_to64();
    } else {
        bits_join(d, at, m, n - 1);
        bits_join(d, at, 0, n - 1);
        bit_is_a_bit(d, at + n - 1);
        vstd::arithmetic::power2::lemma_pow2_unfold(n as nat);
        let p = vstd::arithmetic::power2::pow2((n - 1) as nat);
        let x = bits(d, at, m);
        assert(2 * (x * p) == x * (2 * p)) by (nonlinear_arith);
        assert(at + m + n - 1 == at + m + (n - 1));
    }
}

/// An Exp-Golomb code is the number one above its value in binary, behind as
/// many zeros as that number has digits after the first.
pub proof fn codes_spell_one_more_than_their_value(d: Seq<u8>, at: int)
    requires
        0 <= at,
    ensures
        exp_golomb(d, at) matches Some((value, end)) ==> {
            let z = (end - at) / 2;
            &&& at < end <= 8 * d.len()
            &&& (end - at) % 2 == 1
            &&& forall|j: int| 0 <= j < z ==> #[trigger] bit(d, at + j) == 0
            &&& bit(d, at + z) == 1
            &&& bits(d, at + z, z + 1) == value + 1
            &&& bits(d, at, end - at) == value + 1
        },
{
    zeros_then_one(d, at, 0);
    if let Some((value, end)) = exp_golomb(d, at) {
        let z = leading_zeros(d, at, 0)->0;
        assert(end == at + 2 * z + 1);
        assert((end - at) / 2 == z && (end - at) % 2 == 1);
        zeros_spell_nothing(d, at, z);
        bits_join(d, at, z, z + 1);
        bits_join(d, at + z, 1, z);
        bits_join(d, at + z, 0, 1);
        reveal_with_fuel(bits, 3);
        assert(bits(d, at + z, 1) == 1);
        vstd::arithmetic::power2::lemma_pow2_pos(z as nat);
        let p = vstd::arithmetic::power2::pow2(z as nat);
        assert(bits(d, at + z, 1) * p == p) by (nonlinear_arith)
            requires
                bits(d, at + z, 1) == 1,
        ;
        assert(z + 1 == 1 + z);
        let q = vstd::arithmetic::power2::pow2((z + 1) as nat);
        assert(bits(d, at, z) * q == 0) by (nonlinear_arith)
            requires
                bits(d, at, z) == 0,
        ;
        assert(end - at == z + (z + 1));
    }
}

/// Every Exp-Golomb code that is whole is read: `z` zeros, a one, and `z` more
/// bits.
pub proof fn whole_codes_are_read(d: Seq<u8>, at: int, z: int)
    requires
        0 <= at,
        0 <= z < 32,
        at + 2 * z + 1 <= 8 * d.len(),
        forall|j: int| 0 <= j < z ==> #[trigger] bit(d, at + j) == 0,
        bit(d, at + z) == 1,
    ensures
        exp_golomb(d, at) is Some,
        (exp_golomb(d, at)->0).1 == at + 2 * z + 1,
        (exp_golomb(d, at)->0).0 + 1 == bits(d, at + z, z + 1),
{
    zeros_are_counted(d, at, z, 0);
    codes_spell_one_more_than_their_value(d, at);
    let end = (exp_golomb(d, at)->0).1;
    assert((end - at) / 2 == z);
}

proof fn zeros_are_counted(d: Seq<u8>, at: int, z: int, seen: int)
    requires
        0 <= seen <= z < 32,
        at + z < 8 * d.len(),
        forall|j: int| 0 <= j < z ==> #[trigger] bit(d, at + j) == 0,
        bit(d, at + z) == 1,
    ensures
        leading_zeros(d, at, seen) == Some(z),
    decreases z - seen,
{
    if seen < z {
        assert(bit(d, at + seen) == 0);
        zeros_are_counted(d, at, z, seen + 1);
    }
}

/// A slice stands on its own if it is an IDR, or if the second code of its
/// header, behind whatever emulation prevention was put in, is that of an I or
/// SI slice: 2 or 4, or 7 or 9 where all slices of the picture are alike.
pub proof fn slices_tell_whether_they_stand_alone(head: u8, header: Seq<u8>, next: int, value: nat, end: int)
    requires
        exp_golomb(header, 0) is Some,
        (exp_golomb(header, 0)->0).1 == next,
        exp_golomb(header, next) == Some((value, end)),
        value < 10,
    ensures
        is_intra_slice(seq![head] + escaped(header).0) <==> head & 0x1Fu8 == 5 || value == 2 || value
            == 4 || value == 7 || value == 9,
        is_slice(seq![head] + escaped(header).0) <==> 1 <= head & 0x1Fu8 <= 5,
{
    let unit = seq![head] + escaped(header).0;
    emulation_prevention_is_undone(header);
    assert(unit.skip(1) =~= escaped(header).0);
    assert(unit[0] == head);
    low_bits(head);
}

/// An access unit stands on its own if it has a slice and each of its slices
/// does: one that does not spoils it, and other units do not matter.
pub proof fn one_dependent_slice_spoils_it(units: Seq<Seq<u8>>, i: int)
    requires
        0 <= i < units.len(),
    ensures
        is_slice(units[i]) && !is_intra_slice(units[i]) ==> !intra_only(units),
        (forall|j: int|
            0 <= j < units.len() && is_slice(#[trigger] units[j]) ==> is_intra_slice(units[j]))
            && is_slice(units[i]) ==> intra_only(units),
        (forall|j: int| 0 <= j < units.len() ==> !is_slice(#[trigger] units[j])) ==> !intra_only(
            units,
        ),
{
}

/// The parameter sets of extradata that is a byte stream are the first of each
/// kind in it.
pub proof fn byte_streams_give_their_first_sets(
    units: Seq<Seq<u8>>,
    long: Seq<bool>,
    sps: int,
    pps: int,
)
    requires
        all_clean(units),
        long.len() == units.len(),
        0 <= sps < units.len(),
        0 <= pps < units.len(),
        is_of_type(units[sps], 7),
        is_of_type(units[pps], 8),
        forall|j: int| 0 <= j < sps ==> !is_of_type(#[trigger] units[j], 7),
        forall|j: int| 0 <= j < pps ==> !is_of_type(#[trigger] units[j], 8),
    ensures
        extradata_sets(byte_stream(units, long)) == Some((units[sps], units[pps])),
{
    start_codes_of_either_length_delimit(units, long);
    first_is_found(units, 7, sps);
    first_is_found(units, 8, pps);
    streams_start_with_a_zero(units, long);
}

proof fn streams_start_with_a_zero(units: Seq<Seq<u8>>, long: Seq<bool>)
    requires
        units.len() > 0,
        long.len() == units.len(),
    ensures
        byte_stream(units, long).len() > 0,
        byte_stream(units, long)[0] == 0,
{
    let code = start_code(long[0]);
    let front = code + units[0];
    let rest = byte_stream(units.drop_first(), long.drop_first());
    assert(byte_stream(units, long) == front + rest);
    assert((front + rest)[0] == front[0] && front[0] == code[0]);
}

proof fn first_is_found(units: Seq<Seq<u8>>, t: u8, i: int)
    requires
        0 <= i < units.len(),
        is_of_type(units[i], t),
        forall|j: int| 0 <= j < i ==> !is_of_type(#[trigger] units[j], t),
    ensures
        first_of_type(units, t) == Some(units[i]),
    decreases i,
{
    types_are_told(units[0], t);
    if i > 0 {
        let rest = units.drop_first();
        assert(rest[i - 1] == units[i]);
        assert forall|j: int| 0 <= j < i - 1 implies !is_of_type(#[trigger] rest[j], t) by {
            assert(rest[j] == units[j + 1]);
        }
        first_is_found(rest, t, i - 1);
    }
}

/// Bytes in hexadecimal: two digits for each, in order, and one space between
/// every two of them.
pub proof fn hex_is_spaced(d: Seq<u8>, i: int)
    requires
        0 <= i < d.len(),
    ensures
        spaced_hex(d).len() == 3 * d.len() - 1,
        spaced_hex(d)[3 * i] == text::hex_byte(d[i])[0],
        spaced_hex(d)[3 * i + 1] == text::hex_byte(d[i])[1],
        i + 1 < d.len() ==> spaced_hex(d)[3 * i + 2] == ' ',
    decreases d.len(),
{
    let s = spaced_hex(d);
    if d.len() > 1 {
        let w = d.drop_last();
        let front = spaced_hex(w);
        let k = if i < w.len() {
            i
        } else {
            0
        };
        hex_is_spaced(w, k);
        assert(s == front.push(' ') + text::hex_byte(d.last()));
        assert(front.len() == 3 * d.len() - 4);
    }
}

/// What the form of extradata is called: by its first byte an AVCC record, by a
/// unit behind a start code a byte stream, and nothing where there is none.
#[verifier::spinoff_prover]
pub proof fn extradata_is_called_by_its_form(
    rest: Seq<u8>,
    units: Seq<Seq<u8>>,
    long: Seq<bool>,
)
    requires
        all_clean(units),
        units.len() > 0,
        long.len() == units.len(),
    ensures
        extradata_format(Seq::empty()) == "None"@,
        extradata_format(seq![1u8] + rest) == "AVCC"@,
        extradata_format(byte_stream(units, long)) == "AnnexB"@,
{
    start_codes_of_either_length_delimit(units, long);
    streams_start_with_a_zero(units, long);
    assert((seq![1u8] + rest)[0] == 1);
}

/// The state is seen as the sets and the count that it holds.
pub proof fn states_are_seen(s: H264BitstreamState)
    ensures
        s@.packet_count == s.packet_count,
        s.sps is None <==> s@.sps is None,
        s.pps is None <==> s@.pps is None,
        s.sps matches Some(v) ==> s@.sps == Some(v@),
        s.pps matches Some(v) ==> s@.pps == Some(v@),
{
}

/// Where no three bytes in a row are 0, 0 and 1 there is no unit, and extradata
/// that is no AVCC record either is of no known form.
pub proof fn no_start_code_no_unit(d: Seq<u8>)
    requires
        forall|i: int|
            0 <= i < d.len() - 2 ==> !(#[trigger] d[i] == 0 && d[i + 1] == 0 && d[i + 2] == 1),
    ensures
        annex_b_units(d).len() == 0,
        d.len() > 0 && d[0] != 1 ==> extradata_format(d) == "Unknown"@,
{
    assert forall|j: int| 0 <= j < d.len() implies #[trigger] start_code_len(d, j) == 0 by {
        if j + 3 < d.len() {
            assert(!(d[j + 1] == 0 && d[j + 2] == 0 && d[j + 3] == 1));
        }
    }
    next_start_is_first(d, 0);
}

/// A stream that reads as length-prefixed has a unit in it, and none of its
/// units is empty.
pub proof fn counted_units_are_not_empty(d: Seq<u8>, n: nat)
    requires
        0 < n,
        counted_units(d, n as int) is Some,
    ensures
        counted_units(d, n as int)->0.len() > 0,
        forall|i: int|
            0 <= i < counted_units(d, n as int)->0.len() ==> (#[trigger] counted_units(
                d,
                n as int,
            )->0[i]).len() > 0,
{
    counted_from_are_not_empty(d, 0, n);
}

proof fn counted_from_are_not_empty(d: Seq<u8>, at: int, n: nat)
    requires
        0 < n,
        0 <= at <= d.len(),
        counted_units_from(d, at, n as int) is Some,
    ensures
        at < d.len() ==> counted_units_from(d, at, n as int)->0.len() > 0,
        forall|i: int|
            0 <= i < counted_units_from(d, at, n as int)->0.len() ==> (
            #[trigger] counted_units_from(d, at, n as int)->0[i]).len() > 0,
    decreases d.len() - at,
{
    if at < d.len() {
        let len = bytes::big_endian(d.subrange(at, at + n)) as int;
        let end = at + n + len;
        counted_from_are_not_empty(d, end, n);
        let rest = counted_units_from(d, end, n as int)->0;
        let units = counted_units_from(d, at, n as int)->0;
        assert(units =~= seq![d.subrange(at + n, end)] + rest);
        assert forall|i: int| 0 <= i < units.len() implies (#[trigger] units[i]).len() > 0 by {
            if i > 0 {
                assert(units[i] == rest[i - 1]);
            }
        }
    }
}

} // verus!
