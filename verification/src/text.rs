//! Strings, and what the standard library documents of them.

use vstd::prelude::*;
use vstd::slice::slice_subrange;
use vstd::string::StrSliceExecFns;

verus! {

/// `String::push`: appends one character.
pub assume_specification[ String::push ](s: &mut String, c: char)
    ensures
        final(s)@ == old(s)@.push(c),
;

/// `String::from_utf8`: a string if and only if the bytes are well-formed
/// UTF-8, and then the string that those bytes encode.
#[verifier::external_body]
pub(crate) fn string_from_utf8(bytes: Vec<u8>) -> (text: Option<String>)
    ensures
        text is Some <==> vstd::utf8::valid_utf8(bytes@),
        text matches Some(s) ==> s@ == vstd::utf8::decode_utf8(bytes@),
{
    String::from_utf8(bytes).ok()
}

/// Whether two strings are the same.
pub fn same_text(a: &str, b: &str) -> (same: bool)
    ensures
        same == (a@ == b@),
{
    let x = a.as_bytes();
    let y = b.as_bytes();
    proof {
        vstd::utf8::encode_utf8_decode_utf8(a@);
        vstd::utf8::encode_utf8_decode_utf8(b@);
    }
    if x.len() != y.len() {
        return false;
    }
    let mut i: usize = 0;
    while i < x.len()
        invariant
            x@.len() == y@.len(),
            x@ == vstd::utf8::encode_utf8(a@),
            y@ == vstd::utf8::encode_utf8(b@),
            forall|k: int| 0 <= k < i ==> x@[k] == y@[k],
        decreases x@.len() - i,
    {
        if x[i] != y[i] {
            return false;
        }
        i += 1;
    }
    assert(x@ =~= y@);
    true
}

/// The hexadecimal digit of `n`, upper case.
pub open spec fn hex_digit(n: int) -> char {
    if n < 10 {
        ('0' as int + n) as char
    } else {
        ('A' as int + n - 10) as char
    }
}

/// A byte as two hexadecimal digits.
pub open spec fn hex_byte(b: u8) -> Seq<char> {
    seq![hex_digit(b as int / 16), hex_digit(b as int % 16)]
}

fn digit(n: u8) -> (c: char)
    requires
        n < 16,
    ensures
        c == hex_digit(n as int),
{
    if n < 10 {
        (48 + n) as char
    } else {
        (55 + n) as char
    }
}

/// Appends a byte as two hexadecimal digits.
pub fn push_hex(s: &mut String, b: u8)
    ensures
        final(s)@ == old(s)@ + hex_byte(b),
{
    s.push(digit(b / 16));
    s.push(digit(b % 16));
    assert(s@ =~= old(s)@ + hex_byte(b));
}

/// A number in decimal, without leading zeros.
pub open spec fn decimal(n: nat) -> Seq<char>
    decreases n,
{
    if n < 10 {
        seq![hex_digit(n as int)]
    } else {
        decimal(n / 10).push(hex_digit((n % 10) as int))
    }
}

/// Appends a number in decimal.
pub fn push_decimal(s: &mut String, n: u64)
    ensures
        final(s)@ == old(s)@ + decimal(n as nat),
    decreases n,
{
    if n >= 10 {
        push_decimal(s, n / 10);
    }
    s.push(digit((n % 10) as u8));
    assert(s@ =~= old(s)@ + decimal(n as nat));
}

/// Whether a character is white space in Unicode.
pub open spec fn is_white(c: char) -> bool {
    ||| '\u{9}' <= c <= '\u{D}'
    ||| c == '\u{20}' || c == '\u{85}' || c == '\u{A0}' || c == '\u{1680}'
    ||| '\u{2000}' <= c <= '\u{200A}'
    ||| c == '\u{2028}' || c == '\u{2029}' || c == '\u{202F}' || c == '\u{205F}'
    ||| c == '\u{3000}'
}

fn white(c: char) -> (b: bool)
    ensures
        b == is_white(c),
{
    ('\u{9}' <= c && c <= '\u{D}') || c == '\u{20}' || c == '\u{85}' || c == '\u{A0}' || c
        == '\u{1680}' || ('\u{2000}' <= c && c <= '\u{200A}') || c == '\u{2028}' || c == '\u{2029}'
        || c == '\u{202F}' || c == '\u{205F}' || c == '\u{3000}'
}

/// `s` without the white space at its start.
pub open spec fn trim_start(s: Seq<char>) -> Seq<char>
    decreases s.len(),
{
    if s.len() > 0 && is_white(s[0]) {
        trim_start(s.drop_first())
    } else {
        s
    }
}

/// `s` without the white space at its end.
pub open spec fn trim_end(s: Seq<char>) -> Seq<char>
    decreases s.len(),
{
    if s.len() > 0 && is_white(s.last()) {
        trim_end(s.drop_last())
    } else {
        s
    }
}

/// `s` without the white space at both ends.
pub open spec fn trimmed(s: Seq<char>) -> Seq<char> {
    trim_end(trim_start(s))
}

/// The characters of a string.
pub fn characters(s: &str) -> (v: Vec<char>)
    ensures
        v@ == s@,
{
    let n: usize = s.unicode_len();
    let mut v: Vec<char> = Vec::new();
    let mut i: usize = 0;
    while i < n
        invariant
            i <= n,
            n == s@.len(),
            v@ == s@.take(i as int),
        decreases n - i,
    {
        v.push(s.get_char(i));
        assert(s@.take(i + 1) =~= s@.take(i as int).push(s@[i as int]));
        i += 1;
    }
    assert(s@.take(i as int) =~= s@);
    v
}

/// The string of some characters.
pub fn string_of(v: &[char]) -> (s: String)
    ensures
        s@ == v@,
{
    let mut s = String::new();
    let mut i: usize = 0;
    while i < v.len()
        invariant
            i <= v@.len(),
            s@ == v@.take(i as int),
        decreases v@.len() - i,
    {
        s.push(v[i]);
        assert(v@.take(i + 1) =~= v@.take(i as int).push(v@[i as int]));
        i += 1;
    }
    assert(v@.take(i as int) =~= v@);
    s
}

/// The characters without the white space at both ends.
pub fn trim(v: &[char]) -> (kept: &[char])
    ensures
        kept@ == trimmed(v@),
{
    let mut start: usize = 0;
    assert(v@.skip(0) =~= v@);
    while start < v.len() && white(v[start])
        invariant
            start <= v@.len(),
            trim_start(v@.skip(start as int)) == trim_start(v@),
        decreases v@.len() - start,
    {
        assert(v@.skip(start as int).drop_first() =~= v@.skip(start + 1));
        assert(v@.skip(start as int)[0] == v@[start as int]);
        start += 1;
    }
    let ghost rest = v@.skip(start as int);
    assert(trim_start(v@) == rest) by {
        if start < v@.len() {
            assert(rest[0] == v@[start as int]);
        }
    }
    let mut end: usize = v.len();
    assert(v@.subrange(start as int, end as int) =~= rest);
    while end > start && white(v[end - 1])
        invariant
            start <= end <= v@.len(),
            trim_end(v@.subrange(start as int, end as int)) == trim_end(rest),
        decreases end,
    {
        let ghost w = v@.subrange(start as int, end as int);
        assert(w.drop_last() =~= v@.subrange(start as int, end - 1));
        assert(w.last() == v@[end - 1]);
        end -= 1;
    }
    let ghost w = v@.subrange(start as int, end as int);
    assert(trim_end(w) == w) by {
        if w.len() > 0 {
            assert(w.last() == v@[end - 1]);
        }
    }
    slice_subrange(v, start, end)
}

/// Whether a character is a decimal digit.
pub open spec fn is_digit(c: char) -> bool {
    '0' <= c <= '9'
}

/// The number that digits spell; nothing if one is no digit.
pub open spec fn digits_value(s: Seq<char>) -> Option<nat>
    decreases s.len(),
{
    if s.len() == 0 {
        Some(0)
    } else if !is_digit(s.last()) {
        None
    } else {
        match digits_value(s.drop_last()) {
            None => None,
            Some(v) => Some((10 * v + (s.last() as int - '0' as int)) as nat),
        }
    }
}

/// The unsigned number that a string spells: at least one digit, behind a
/// plus sign if there is one, and a value of at most `max`.
pub open spec fn parsed_number(s: Seq<char>, max: nat) -> Option<nat> {
    let digits = if s.len() > 1 && s[0] == '+' {
        s.drop_first()
    } else {
        s
    };
    if digits.len() == 0 {
        None
    } else {
        match digits_value(digits) {
            Some(v) => if v <= max {
                Some(v)
            } else {
                None
            },
            None => None,
        }
    }
}

proof fn digits_only_grow(s: Seq<char>, k: int)
    requires
        0 <= k <= s.len(),
    ensures
        digits_value(s.take(k)) is None ==> digits_value(s) is None,
        digits_value(s) is Some && digits_value(s.take(k)) is Some ==> digits_value(s.take(k))->0
            <= digits_value(s)->0,
    decreases s.len() - k,
{
    if k == s.len() {
        assert(s.take(k) =~= s);
    } else {
        digits_only_grow(s, k + 1);
        assert(s.take(k + 1).drop_last() =~= s.take(k));
    }
}

/// Parses an unsigned number of at most `max`.
pub fn parse_number(s: &[char], max: u64) -> (r: Option<u64>)
    ensures
        match r {
            Some(v) => parsed_number(s@, max as nat) == Some(v as nat),
            None => parsed_number(s@, max as nat) is None,
        },
{
    let from: usize = if s.len() > 1 && s[0] == '+' {
        1
    } else {
        0
    };
    let digits = slice_subrange(s, from, s.len());
    assert(from == 1 ==> digits@ =~= s@.drop_first());
    assert(from == 0 ==> digits@ =~= s@);
    if digits.len() == 0 {
        return None;
    }
    let mut value: u128 = 0;
    let mut i: usize = 0;
    assert(digits@.take(0) =~= Seq::<char>::empty());
    while i < digits.len()
        invariant
            i <= digits@.len(),
            0 < digits@.len(),
            value <= max,
            digits_value(digits@.take(i as int)) == Some(value as nat),
            parsed_number(s@, max as nat) == (match digits_value(digits@) {
                Some(v) => if v <= max {
                    Some(v)
                } else {
                    None
                },
                None => None::<nat>,
            }),
        decreases digits@.len() - i,
    {
        let c: char = digits[i];
        proof {
            assert(digits@.take(i + 1).drop_last() =~= digits@.take(i as int));
            assert(digits@.take(i + 1).last() == c);
            digits_only_grow(digits@, i + 1);
        }
        if c < '0' || c > '9' {
            return None;
        }
        value = value * 10 + (c as u128 - 48);
        if value > max as u128 {
            return None;
        }
        i += 1;
    }
    assert(digits@.take(i as int) =~= digits@);
    Some(value as u64)
}

/// `char::from_u32`: a character if and only if the number is a code point
/// that is no surrogate, and then the character with that code.
pub assume_specification[ char::from_u32 ](code: u32) -> (c: Option<char>)
    ensures
        c is Some <==> code <= 0xD7FF || 0xE000 <= code <= 0x10FFFF,
        c matches Some(v) ==> v as int == code,
;

/// What stands for a piece of text that does not decode.
pub const REPLACEMENT: char = '\u{FFFD}';

/// Whether a unit of UTF-16 is the first of a pair.
pub open spec fn is_high(u: u16) -> bool {
    0xD800 <= u <= 0xDBFF
}

/// Whether a unit of UTF-16 is the second of a pair.
pub open spec fn is_low(u: u16) -> bool {
    0xDC00 <= u <= 0xDFFF
}

/// The character of a pair.
pub open spec fn paired(high: u16, low: u16) -> char {
    (0x1_0000 + (high - 0xD800) * 0x400 + (low - 0xDC00)) as char
}

/// The text that units of UTF-16 spell. A unit without its partner becomes
/// the replacement character.
pub open spec fn from_utf16(units: Seq<u16>) -> Seq<char>
    decreases units.len(),
{
    if units.len() == 0 {
        Seq::empty()
    } else if is_high(units[0]) && units.len() > 1 && is_low(units[1]) {
        seq![paired(units[0], units[1])] + from_utf16(units.skip(2))
    } else if is_high(units[0]) || is_low(units[0]) {
        seq![REPLACEMENT] + from_utf16(units.skip(1))
    } else {
        seq![units[0] as char] + from_utf16(units.skip(1))
    }
}

/// The units in front of the first zero.
pub open spec fn until_zero(units: Seq<u16>) -> Seq<u16>
    decreases units.len(),
{
    if units.len() == 0 || units[0] == 0 {
        Seq::empty()
    } else {
        seq![units[0]] + until_zero(units.skip(1))
    }
}

/// The text in a fixed array of UTF-16 that a zero ends.
pub fn utf16_to_string(buf: &[u16]) -> (s: String)
    ensures
        s@ == from_utf16(until_zero(buf@)),
{
    let mut end: usize = 0;
    let ghost whole = until_zero(buf@);
    assert(buf@.skip(0) =~= buf@);
    assert(buf@.take(0) + whole =~= whole);
    while end < buf.len() && buf[end] != 0
        invariant
            end <= buf@.len(),
            whole == until_zero(buf@),
            buf@.take(end as int) + until_zero(buf@.skip(end as int)) == whole,
        decreases buf@.len() - end,
    {
        assert(buf@.skip(end as int).skip(1) =~= buf@.skip(end + 1));
        assert(buf@.skip(end as int)[0] == buf@[end as int]);
        assert(buf@.take(end as int) + (seq![buf@[end as int]] + until_zero(buf@.skip(end + 1)))
            =~= buf@.take(end + 1) + until_zero(buf@.skip(end + 1)));
        end += 1;
    }
    let units = slice_subrange(buf, 0, end);
    assert(units@ =~= whole) by {
        assert(until_zero(buf@.skip(end as int)) =~= Seq::empty());
    }
    let mut s = String::new();
    let mut i: usize = 0;
    assert(units@.skip(0) =~= units@);
    assert(s@ + from_utf16(units@) =~= from_utf16(units@));
    while i < units.len()
        invariant
            i <= units@.len(),
            s@ + from_utf16(units@.skip(i as int)) == from_utf16(units@),
        decreases units@.len() - i,
    {
        let ghost rest = units@.skip(i as int);
        let ghost done = s@;
        let unit: u16 = units[i];
        assert(rest[0] == unit);
        assert(rest.skip(1) =~= units@.skip(i + 1));
        if 0xD800 <= unit && unit <= 0xDBFF && i + 1 < units.len() && 0xDC00 <= units[i + 1]
            && units[i + 1] <= 0xDFFF {
            let low: u16 = units[i + 1];
            let code: u32 = 0x1_0000 + (unit as u32 - 0xD800) * 0x400 + (low as u32 - 0xDC00);
            assert(rest[1] == low);
            assert(rest.skip(2) =~= units@.skip(i + 2));
            if let Some(c) = char::from_u32(code) {
                s.push(c);
                assert(s@ + from_utf16(rest.skip(2)) =~= done + (seq![c] + from_utf16(
                    rest.skip(2),
                )));
            }
            i += 2;
        } else {
            let c: char = match char::from_u32(unit as u32) {
                Some(c) => c,
                None => REPLACEMENT,
            };
            s.push(c);
            assert(s@ + from_utf16(rest.skip(1)) =~= done + (seq![c] + from_utf16(rest.skip(1))));
            i += 1;
        }
    }
    assert(s@ + from_utf16(units@.skip(i as int)) =~= s@);
    s
}

/// A character with capital ASCII letters made small.
pub open spec fn lower(c: char) -> char {
    if 'A' <= c <= 'Z' {
        (c as int + 32) as char
    } else {
        c
    }
}

/// Whether two texts are the same but for the case of ASCII letters.
pub open spec fn same_letters(a: Seq<char>, b: Seq<char>) -> bool {
    a.len() == b.len() && forall|i: int| 0 <= i < a.len() ==> lower(a[i]) == lower(#[trigger] b[i])
}

fn small(c: char) -> (l: char)
    ensures
        l == lower(c),
{
    if 'A' <= c && c <= 'Z' {
        ((c as u32 + 32) as u8) as char
    } else {
        c
    }
}

/// Whether two texts are the same but for the case of ASCII letters.
pub fn eq_ignore_case(a: &[char], b: &[char]) -> (same: bool)
    ensures
        same == same_letters(a@, b@),
{
    if a.len() != b.len() {
        return false;
    }
    let mut i: usize = 0;
    while i < a.len()
        invariant
            a@.len() == b@.len(),
            forall|k: int| 0 <= k < i ==> lower(a@[k]) == lower(#[trigger] b@[k]),
        decreases a@.len() - i,
    {
        if small(a[i]) != small(b[i]) {
            assert(lower(a@[i as int]) != lower(b@[i as int]));
            return false;
        }
        i += 1;
    }
    true
}

// ---- laws ------------------------------------------------------------------

/// A number in decimal is its digits and nothing else: read as digits it is the
/// number again, and it does not start with a zero unless it is zero.
pub proof fn decimals_read_back(n: nat, max: nat)
    requires
        n <= max,
    ensures
        parsed_number(decimal(n), max) == Some(n),
        decimal(n).len() > 0,
        decimal(n)[0] == '0' ==> n == 0,
        forall|i: int| 0 <= i < decimal(n).len() ==> '0' <= #[trigger] decimal(n)[i] <= '9',
{
    decimal_digits(n);
    let d = decimal(n);
    assert('0' <= d[0] <= '9');
}

proof fn decimal_digits(n: nat)
    ensures
        digits_value(decimal(n)) == Some(n),
        decimal(n).len() > 0,
        decimal(n)[0] == '0' ==> n == 0,
        forall|i: int| 0 <= i < decimal(n).len() ==> '0' <= #[trigger] decimal(n)[i] <= '9',
    decreases n,
{
    let d = decimal(n);
    assert(digits_value(Seq::<char>::empty()) == Some(0nat));
    assert(d.last() as int - '0' as int == n % 10);
    if n >= 10 {
        decimal_digits(n / 10);
        assert(d.drop_last() =~= decimal(n / 10));
        assert(d[0] == decimal(n / 10)[0]);
    } else {
        assert(d.drop_last() =~= Seq::<char>::empty());
    }
}

/// The digit that a character stands for in hexadecimal, in capitals.
pub open spec fn hex_value(c: char) -> int {
    if '0' <= c <= '9' {
        c as int - '0' as int
    } else if 'A' <= c <= 'F' {
        c as int - 'A' as int + 10
    } else {
        -1
    }
}

/// A byte in hexadecimal is two digits, the high one first, that spell it.
pub proof fn hex_spells_bytes(b: u8)
    ensures
        hex_byte(b).len() == 2,
        0 <= hex_value(hex_byte(b)[0]) < 16,
        0 <= hex_value(hex_byte(b)[1]) < 16,
        16 * hex_value(hex_byte(b)[0]) + hex_value(hex_byte(b)[1]) == b,
{
}

/// Trimming takes white space off both ends, all of it, and nothing else.
pub proof fn trimming_takes_white_space_only(s: Seq<char>)
    ensures
        exists|a: int, b: int|
            {
                &&& 0 <= a <= b <= s.len()
                &&& trimmed(s) == #[trigger] s.subrange(a, b)
                &&& forall|i: int| 0 <= i < a || b <= i < s.len() ==> is_white(#[trigger] s[i])
                &&& a < b ==> !is_white(s[a]) && !is_white(s[b - 1])
            },
{
    let a = start_trimmed(s);
    let t = trim_start(s);
    let b = a + end_trimmed(t);
    assert(trimmed(s) =~= s.subrange(a, b));
    assert forall|i: int| 0 <= i < a || b <= i < s.len() implies is_white(#[trigger] s[i]) by {
        if b <= i {
            assert(t[i - a] == s[i]);
        }
    }
    if a < b {
        assert(t[0] == s[a] && t[b - a - 1] == s[b - 1]);
    }
}

proof fn start_trimmed(s: Seq<char>) -> (a: int)
    ensures
        0 <= a <= s.len(),
        trim_start(s) == s.skip(a),
        forall|i: int| 0 <= i < a ==> is_white(#[trigger] s[i]),
        a < s.len() ==> !is_white(s[a]),
    decreases s.len(),
{
    if s.len() > 0 && is_white(s[0]) {
        let rest = s.drop_first();
        let a = start_trimmed(rest);
        assert(rest.skip(a) =~= s.skip(a + 1));
        assert forall|i: int| 0 <= i < a + 1 implies is_white(#[trigger] s[i]) by {
            if i > 0 {
                assert(rest[i - 1] == s[i]);
            }
        }
        if a + 1 < s.len() {
            assert(rest[a] == s[a + 1]);
        }
        a + 1
    } else {
        assert(s.skip(0) =~= s);
        0
    }
}

proof fn end_trimmed(s: Seq<char>) -> (b: int)
    ensures
        0 <= b <= s.len(),
        trim_end(s) == s.take(b),
        forall|i: int| b <= i < s.len() ==> is_white(#[trigger] s[i]),
        b > 0 ==> !is_white(s[b - 1]),
    decreases s.len(),
{
    if s.len() > 0 && is_white(s.last()) {
        let rest = s.drop_last();
        let b = end_trimmed(rest);
        assert(rest.take(b) =~= s.take(b));
        assert forall|i: int| b <= i < s.len() implies is_white(#[trigger] s[i]) by {
            if i < rest.len() {
                assert(rest[i] == s[i]);
            }
        }
        if b > 0 {
            assert(rest[b - 1] == s[b - 1]);
        }
        b
    } else {
        assert(s.take(s.len() as int) =~= s);
        s.len() as int
    }
}

/// The units of UTF-16 that a character takes.
pub open spec fn utf16_of(c: char) -> Seq<u16> {
    let n = c as int;
    if n < 0x1_0000 {
        seq![n as u16]
    } else {
        seq![
            (0xD800 + (n - 0x1_0000) / 0x400) as u16,
            (0xDC00 + (n - 0x1_0000) % 0x400) as u16,
        ]
    }
}

/// A text in UTF-16.
pub open spec fn to_utf16(s: Seq<char>) -> Seq<u16>
    decreases s.len(),
{
    if s.len() == 0 {
        Seq::empty()
    } else {
        utf16_of(s[0]) + to_utf16(s.drop_first())
    }
}

proof fn scalar_values(c: char)
    ensures
        0 <= c as int <= 0x10_FFFF,
        (c as int) < 0xD800 || 0xDFFF < c as int,
{
}

/// A text that is written in UTF-16 is read back from it.
pub proof fn utf16_reads_back(s: Seq<char>)
    ensures
        from_utf16(to_utf16(s)) == s,
    decreases s.len(),
{
    if s.len() == 0 {
        assert(from_utf16(to_utf16(s)) =~= s);
    } else {
        let c = s[0];
        let n = c as int;
        let rest = s.drop_first();
        utf16_reads_back(rest);
        let u = to_utf16(s);
        let head = utf16_of(c);
        assert(u.skip(head.len() as int) =~= to_utf16(rest));
        scalar_values(c);
        assert(u[0] == head[0]);
        if n >= 0x1_0000 {
            assert(u[1] == head[1]);
            let m = n - 0x1_0000;
            assert(0 <= m / 0x400 < 0x400 && 0 <= m % 0x400 < 0x400);
            assert(m == m / 0x400 * 0x400 + m % 0x400);
            assert(u[0] == 0xD800 + m / 0x400 && u[1] == 0xDC00 + m % 0x400);
            assert((0x1_0000 + (u[0] - 0xD800) * 0x400 + (u[1] - 0xDC00)) == n);
            assert(paired(u[0], u[1]) == c);
        }
        assert(seq![c] + rest =~= s);
    }
}

/// What stands in front of the first zero is kept, and nothing behind it.
pub proof fn a_zero_ends_text(front: Seq<u16>, behind: Seq<u16>)
    requires
        forall|i: int| 0 <= i < front.len() ==> #[trigger] front[i] != 0,
    ensures
        until_zero(front) == front,
        until_zero(front + seq![0u16] + behind) == front,
    decreases front.len(),
{
    let all = front + seq![0u16] + behind;
    if front.len() == 0 {
        assert(all[0] == 0);
        assert(until_zero(all) =~= front);
        assert(until_zero(front) =~= front);
    } else {
        let rest = front.skip(1);
        assert forall|i: int| 0 <= i < rest.len() implies #[trigger] rest[i] != 0 by {
            assert(rest[i] == front[i + 1]);
        }
        a_zero_ends_text(rest, behind);
        assert(all[0] == front[0]);
        assert(all.skip(1) =~= rest + seq![0u16] + behind);
        assert(seq![front[0]] + rest =~= front);
    }
}

/// Comparing without case takes a capital ASCII letter for its small one, and
/// tells all other characters apart.
pub proof fn case_is_all_that_is_ignored(a: char, b: char)
    ensures
        lower(a) == lower(b) <==> {
            ||| a == b
            ||| 'A' <= a <= 'Z' && b as int == a as int + 32
            ||| 'A' <= b <= 'Z' && a as int == b as int + 32
        },
{
}

/// Whether all of a text is white space.
pub open spec fn is_blank(s: Seq<char>) -> bool {
    forall|i: int| 0 <= i < s.len() ==> is_white(#[trigger] s[i])
}

/// White space around a text that neither starts nor ends with any is trimmed
/// away, and of white space alone nothing is left.
pub proof fn padding_is_trimmed(a: Seq<char>, t: Seq<char>, b: Seq<char>)
    requires
        is_blank(a),
        is_blank(b),
        t.len() > 0 ==> !is_white(t[0]) && !is_white(t.last()),
    ensures
        trimmed(a + t + b) == t,
{
    let s = a + t + b;
    if t.len() > 0 {
        front_is_trimmed(a, t + b);
        assert((t + b)[0] == t[0]);
        assert(a + (t + b) =~= s);
        back_is_trimmed(t, b);
    } else {
        let i = start_trimmed(s);
        assert(s =~= a + b);
        if i < s.len() {
            if i < a.len() {
                assert(s[i] == a[i]);
            } else {
                assert(s[i] == b[i - a.len()]);
            }
        }
        assert(trim_start(s) =~= t);
        assert(trim_end(t) =~= t);
    }
}

proof fn front_is_trimmed(a: Seq<char>, t: Seq<char>)
    requires
        is_blank(a),
        t.len() > 0,
        !is_white(t[0]),
    ensures
        trim_start(a + t) == t,
    decreases a.len(),
{
    let s = a + t;
    if a.len() == 0 {
        assert(s =~= t);
    } else {
        assert(s[0] == a[0]);
        assert(s.drop_first() =~= a.drop_first() + t);
        assert forall|i: int| 0 <= i < a.drop_first().len() implies is_white(
            #[trigger] a.drop_first()[i],
        ) by {
            assert(a.drop_first()[i] == a[i + 1]);
        }
        front_is_trimmed(a.drop_first(), t);
    }
}

proof fn back_is_trimmed(t: Seq<char>, b: Seq<char>)
    requires
        is_blank(b),
        t.len() > 0,
        !is_white(t.last()),
    ensures
        trim_end(t + b) == t,
    decreases b.len(),
{
    let s = t + b;
    if b.len() == 0 {
        assert(s =~= t);
    } else {
        assert(s.last() == b[b.len() - 1]);
        assert(s.drop_last() =~= t + b.drop_last());
        assert forall|i: int| 0 <= i < b.drop_last().len() implies is_white(
            #[trigger] b.drop_last()[i],
        ) by {
            assert(b.drop_last()[i] == b[i]);
        }
        back_is_trimmed(t, b.drop_last());
    }
}

/// No digit is white space.
pub proof fn digits_are_not_white(n: nat)
    ensures
        decimal(n).len() > 0,
        forall|i: int| 0 <= i < decimal(n).len() ==> !is_white(#[trigger] decimal(n)[i]),
{
    decimal_digits(n);
}

/// A number may have a plus sign in front; one that is too large is none, and
/// neither is a text that is empty or holds anything but digits.
pub proof fn what_a_number_is(n: nat, max: nat, s: Seq<char>, i: int)
    ensures
        n <= max ==> parsed_number(seq!['+'] + decimal(n), max) == Some(n),
        n > max ==> parsed_number(decimal(n), max) is None,
        parsed_number(Seq::empty(), max) is None,
        0 < i < s.len() && !('0' <= s[i] <= '9') ==> parsed_number(s, max) is None,
        s.len() > 0 && s[0] != '+' && !('0' <= s[0] <= '9') ==> parsed_number(s, max) is None,
{
    decimal_digits(n);
    let p = seq!['+'] + decimal(n);
    assert(p.drop_first() =~= decimal(n));
    assert('0' <= decimal(n)[0] <= '9');
    if 0 < i < s.len() && !('0' <= s[i] <= '9') {
        other_characters_spell_nothing(s, i);
        assert(s.drop_first()[i - 1] == s[i]);
        other_characters_spell_nothing(s.drop_first(), i - 1);
    }
    if s.len() > 0 && s[0] != '+' && !('0' <= s[0] <= '9') {
        other_characters_spell_nothing(s, 0);
    }
}

proof fn other_characters_spell_nothing(s: Seq<char>, i: int)
    requires
        0 <= i < s.len(),
        !('0' <= s[i] <= '9'),
    ensures
        digits_value(s) is None,
    decreases s.len(),
{
    if i < s.len() - 1 {
        assert(s.drop_last()[i] == s[i]);
        other_characters_spell_nothing(s.drop_last(), i);
    }
}

/// Texts are the same but for case if they have the same length and differ in
/// nothing but capital and small ASCII letters.
pub proof fn same_but_for_case(a: Seq<char>, b: Seq<char>)
    ensures
        same_letters(a, b) <==> a.len() == b.len() && forall|i: int|
            0 <= i < a.len() ==> {
                ||| a[i] == #[trigger] b[i]
                ||| 'A' <= a[i] <= 'Z' && b[i] as int == a[i] as int + 32
                ||| 'A' <= b[i] <= 'Z' && a[i] as int == b[i] as int + 32
            },
{
    assert forall|i: int| 0 <= i < a.len() && i < b.len() implies (lower(a[i]) == lower(
        #[trigger] b[i],
    ) <==> {
        ||| a[i] == b[i]
        ||| 'A' <= a[i] <= 'Z' && b[i] as int == a[i] as int + 32
        ||| 'A' <= b[i] <= 'Z' && a[i] as int == b[i] as int + 32
    }) by {
        case_is_all_that_is_ignored(a[i], b[i]);
    }
}

} // verus!
