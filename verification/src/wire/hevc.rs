//! H.265 bitstream inspection: NAL classification for keyframe detection.
//! Encoders emit Annex B with in-band parameter sets, so nothing is rewritten.

use vstd::prelude::*;

use crate::wire::h264;

verus! {

pub const NAL_BLA_W_LP: u8 = 16;

pub const NAL_IDR_W_RADL: u8 = 19;

pub const NAL_IDR_N_LP: u8 = 20;

pub const NAL_CRA: u8 = 21;

pub const NAL_VPS: u8 = 32;

pub const NAL_SPS: u8 = 33;

pub const NAL_PPS: u8 = 34;

/// The type that the first byte of a unit carries: bits 1 to 6.
pub open spec fn type_of(first: u8) -> u8 {
    (first / 2 % 64) as u8
}

/// NAL unit type from the first byte after a start code.
pub fn nal_type(unit_first_byte: u8) -> (t: u8)
    ensures
        t == type_of(unit_first_byte),
{
    unit_first_byte / 2 % 64
}

/// Intra random access point: any of these restarts decode cleanly.
pub fn is_irap(nal_type: u8) -> (b: bool)
    ensures
        b == (NAL_BLA_W_LP <= nal_type <= NAL_CRA),
{
    NAL_BLA_W_LP <= nal_type && nal_type <= NAL_CRA
}

/// The first bytes of the NAL units from `at` on. A first byte is not looked
/// at again for a start code.
pub open spec fn first_bytes_from(d: Seq<u8>, at: int) -> Seq<u8>
    decreases d.len() - at,
{
    if at >= d.len() {
        Seq::empty()
    } else {
        let code = h264::start_code_len(d, at);
        if code == 0 {
            first_bytes_from(d, at + 1)
        } else if at + code >= d.len() {
            Seq::empty()
        } else {
            seq![d[at + code]] + first_bytes_from(d, at + code + 1)
        }
    }
}

/// The first bytes of all NAL units of an Annex B stream.
pub open spec fn first_bytes(d: Seq<u8>) -> Seq<u8> {
    first_bytes_from(d, 0)
}

/// Whether the stream has a unit of this type.
pub open spec fn has_unit(d: Seq<u8>, t: u8) -> bool {
    exists|i: int| 0 <= i < first_bytes(d).len() && type_of(#[trigger] first_bytes(d)[i]) == t
}

/// Collects the first byte of every NAL unit (3- or 4-byte start codes).
fn scan_nal_first_bytes(data: &[u8]) -> (firsts: Vec<u8>)
    ensures
        firsts@ == first_bytes(data@),
{
    let mut firsts: Vec<u8> = Vec::new();
    let mut index: usize = 0;
    assert(Seq::<u8>::empty() + first_bytes(data@) =~= first_bytes(data@));
    while index < data.len()
        invariant
            index <= data@.len(),
            first_bytes(data@) == firsts@ + first_bytes_from(data@, index as int),
        decreases data@.len() - index,
    {
        let left: usize = data.len() - index;
        let code: usize = if left >= 3 && data[index] == 0 && data[index + 1] == 0 {
            if data[index + 2] == 1 {
                3
            } else if left >= 4 && data[index + 2] == 0 && data[index + 3] == 1 {
                4
            } else {
                0
            }
        } else {
            0
        };
        assert(code == h264::start_code_len(data@, index as int));
        if code == 0 {
            index += 1;
        } else if code >= left {
            assert(firsts@ + Seq::<u8>::empty() =~= firsts@);
            return firsts;
        } else {
            let ghost before = firsts@;
            let first: u8 = data[index + code];
            firsts.push(first);
            index = index + code + 1;
            assert(before + (seq![first] + first_bytes_from(data@, index as int)) =~= firsts@
                + first_bytes_from(data@, index as int));
        }
    }
    assert(firsts@ + Seq::<u8>::empty() =~= firsts@);
    firsts
}

/// Whether an Annex B stream has a slice of a random access point.
pub fn contains_keyframe(data: &[u8]) -> (b: bool)
    ensures
        b <==> exists|t: u8| NAL_BLA_W_LP <= t <= NAL_CRA && #[trigger] has_unit(data@, t),
{
    let firsts = scan_nal_first_bytes(data);
    let mut i: usize = 0;
    while i < firsts.len()
        invariant
            i <= firsts@.len(),
            firsts@ == first_bytes(data@),
            forall|k: int|
                0 <= k < i ==> !(NAL_BLA_W_LP <= type_of(#[trigger] firsts@[k]) <= NAL_CRA),
        decreases firsts@.len() - i,
    {
        let t: u8 = nal_type(firsts[i]);
        if is_irap(t) {
            assert(type_of(first_bytes(data@)[i as int]) == t);
            assert(has_unit(data@, t));
            return true;
        }
        i += 1;
    }
    assert forall|t: u8| NAL_BLA_W_LP <= t <= NAL_CRA implies !#[trigger] has_unit(data@, t) by {}
    false
}

/// Whether an Annex B stream has all three kinds of parameter sets, so that a
/// decoder can be set up from it alone.
pub fn contains_parameter_sets(data: &[u8]) -> (b: bool)
    ensures
        b == (has_unit(data@, NAL_VPS) && has_unit(data@, NAL_SPS) && has_unit(data@, NAL_PPS)),
{
    let firsts = scan_nal_first_bytes(data);
    let mut vps = false;
    let mut sps = false;
    let mut pps = false;
    let mut i: usize = 0;
    while i < firsts.len()
        invariant
            i <= firsts@.len(),
            vps <==> exists|k: int| 0 <= k < i && type_of(#[trigger] firsts@[k]) == NAL_VPS,
            sps <==> exists|k: int| 0 <= k < i && type_of(#[trigger] firsts@[k]) == NAL_SPS,
            pps <==> exists|k: int| 0 <= k < i && type_of(#[trigger] firsts@[k]) == NAL_PPS,
        decreases firsts@.len() - i,
    {
        let t: u8 = nal_type(firsts[i]);
        assert(type_of(firsts@[i as int]) == t);
        if t == NAL_VPS {
            vps = true;
        }
        if t == NAL_SPS {
            sps = true;
        }
        if t == NAL_PPS {
            pps = true;
        }
        i += 1;
    }
    vps && sps && pps
}

// ---- laws ------------------------------------------------------------------

proof fn no_codes_until(d: Seq<u8>, at: int, next: int)
    requires
        0 <= at <= next <= d.len(),
        forall|j: int| at <= j < next ==> #[trigger] h264::start_code_len(d, j) == 0,
    ensures
        first_bytes_from(d, at) == first_bytes_from(d, next),
    decreases next - at,
{
    if at < next {
        assert(h264::start_code_len(d, at) == 0);
        no_codes_until(d, at + 1, next);
    }
}

proof fn first_bytes_of_tail(front: Seq<u8>, units: Seq<Seq<u8>>, long: Seq<bool>)
    requires
        h264::all_clean(units),
        long.len() == units.len(),
    ensures
        first_bytes_from(front + h264::byte_stream(units, long), front.len() as int) == Seq::new(
            units.len(),
            |i: int| units[i][0],
        ),
    decreases units.len(),
{
    let d = front + h264::byte_stream(units, long);
    let at = front.len() as int;
    let firsts = Seq::new(units.len(), |i: int| units[i][0]);
    if units.len() == 0 {
        assert(d.len() == at);
        assert(first_bytes_from(d, at) =~= firsts);
    } else {
        let unit = units[0];
        let rest = units.drop_first();
        let more_long = long.drop_first();
        let code = h264::start_code(long[0]);
        let more = front + code + unit;
        assert(h264::is_clean(units[0]));
        assert(d =~= more + h264::byte_stream(rest, more_long));
        assert(d.subrange(at, at + code.len()) =~= code);
        h264::start_code_is_seen(d, at, long[0]);
        let body = at + code.len();
        let next = body + unit.len();
        assert(d.subrange(body, next) =~= unit);
        assert(d[body] == unit[0]);
        assert forall|j: int| body <= j < next implies #[trigger] h264::start_code_len(d, j)
            == 0 by {
            h264::no_start_inside(d, body, unit, j);
        }
        no_codes_until(d, body + 1, next);
        assert forall|i: int| 0 <= i < rest.len() implies h264::is_clean(#[trigger] rest[i]) by {
            assert(rest[i] == units[i + 1]);
        }
        first_bytes_of_tail(more, rest, more_long);
        let tail = Seq::new(rest.len(), |i: int| rest[i][0]);
        assert(seq![unit[0]] + tail =~= firsts);
    }
}

/// What a stream of units holds is told by their first bytes: a stream, with
/// start codes of either length, has a unit of a type if and only if bits 1 to 6
/// of the first byte of one of its units name it.
pub proof fn units_are_told_by_their_first_bytes(units: Seq<Seq<u8>>, long: Seq<bool>, t: u8)
    requires
        h264::all_clean(units),
        long.len() == units.len(),
    ensures
        has_unit(h264::byte_stream(units, long), t) <==> exists|i: int|
            0 <= i < units.len() && ((#[trigger] units[i])[0] >> 1u8) & 0x3Fu8 == t,
{
    let d = h264::byte_stream(units, long);
    assert(Seq::<u8>::empty() + d =~= d);
    first_bytes_of_tail(Seq::empty(), units, long);
    assert forall|i: int| 0 <= i < units.len() implies type_of((#[trigger] units[i])[0]) == (
    units[i][0] >> 1u8) & 0x3Fu8 by {
        let b = units[i][0];
        assert((b >> 1u8) & 0x3Fu8 == b / 2 % 64) by (bit_vector);
    }
    if has_unit(d, t) {
        let i = choose|i: int|
            0 <= i < first_bytes(d).len() && type_of(#[trigger] first_bytes(d)[i]) == t;
        assert((units[i][0] >> 1u8) & 0x3Fu8 == t);
    }
    if exists|i: int| 0 <= i < units.len() && ((#[trigger] units[i])[0] >> 1u8) & 0x3Fu8 == t {
        let i = choose|i: int|
            0 <= i < units.len() && ((#[trigger] units[i])[0] >> 1u8) & 0x3Fu8 == t;
        assert(type_of(first_bytes(d)[i]) == t);
    }
}

} // verus!
