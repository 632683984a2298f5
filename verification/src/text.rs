//! Text as the system exchanges it: UTF-16 code units, little-endian bytes, numerals.

use vstd::prelude::*;

verus! {

/// `String::push` appends one character and leaves what was there before.
pub assume_specification[ String::push ](s: &mut String, c: char)
    ensures
        final(s)@ == old(s)@.push(c),
;

/// `char::from_u32` gives the character of a Unicode scalar value, and `None` for any
/// other number: a surrogate, or one above `0x10FFFF`.
pub assume_specification[ char::from_u32 ](i: u32) -> (r: Option<char>)
    ensures
        r == (if i < 0xD800 || 0xE000 <= i <= 0x10FFFF {
            Some(i as char)
        } else {
            None::<char>
        }),
;

/// The character that stands for code units which encode nothing.
pub const REPLACEMENT: char = '\u{FFFD}';

/// First half of a surrogate pair.
pub open spec fn is_high_surrogate(unit: u16) -> bool {
    0xD800 <= unit < 0xDC00
}

/// Second half of a surrogate pair.
pub open spec fn is_low_surrogate(unit: u16) -> bool {
    0xDC00 <= unit < 0xE000
}

/// The character that a surrogate pair encodes.
pub open spec fn pair_value(high: u16, low: u16) -> char {
    (0x10000 + (high - 0xD800) * 0x400 + (low - 0xDC00)) as char
}

/// The code units of one character.
pub open spec fn utf16_of(c: char) -> Seq<u16> {
    let v = c as int;
    if v < 0x10000 {
        seq![v as u16]
    } else {
        seq![
            (0xD800 + (v - 0x10000) / 0x400) as u16,
            (0xDC00 + (v - 0x10000) % 0x400) as u16,
        ]
    }
}

/// The UTF-16 encoding of a text.
pub open spec fn utf16(s: Seq<char>) -> Seq<u16>
    decreases s.len(),
{
    if s.len() == 0 {
        Seq::empty()
    } else {
        utf16_of(s[0]) + utf16(s.drop_first())
    }
}

/// The text of a run of code units, with one [`REPLACEMENT`] for each surrogate that is
/// not half of a pair.
pub open spec fn utf16_text(v: Seq<u16>) -> Seq<char>
    decreases v.len(),
{
    if v.len() == 0 {
        Seq::empty()
    } else if is_high_surrogate(v[0]) && v.len() > 1 && is_low_surrogate(v[1]) {
        seq![pair_value(v[0], v[1])] + utf16_text(v.skip(2))
    } else if is_high_surrogate(v[0]) || is_low_surrogate(v[0]) {
        seq![REPLACEMENT] + utf16_text(v.skip(1))
    } else {
        seq![v[0] as char] + utf16_text(v.skip(1))
    }
}

/// Append the code units of one character.
fn push_utf16(out: &mut Vec<u16>, c: char)
    ensures
        final(out)@ == old(out)@ + utf16_of(c),
{
    let v: u32 = c as u32;
    if v < 0x10000 {
        out.push(v as u16);
    } else {
        let rest: u32 = v - 0x10000;
        out.push((0xD800 + rest / 0x400) as u16);
        out.push((0xDC00 + rest % 0x400) as u16);
    }
    assert(out@ == old(out)@ + utf16_of(c));
}

/// Encode a text as UTF-16 code units, without a terminator.
pub fn encode_utf16(s: &str) -> (r: Vec<u16>)
    ensures
        r@ == utf16(s@),
{
    let mut out: Vec<u16> = Vec::new();
    assert(s@.skip(0) == s@);
    for c in it: s.chars()
        invariant
            it.seq() == s@,
            utf16(s@) == out@ + utf16(s@.skip(it.index() as int)),
    {
        let ghost i = it.index() as int;
        let ghost before = out@;
        proof {
            assert(s@.skip(i)[0] == c);
            assert(s@.skip(i).drop_first() == s@.skip(i + 1));
        }
        push_utf16(&mut out, c);
        assert(before + (utf16_of(c) + utf16(s@.skip(i + 1))) == out@ + utf16(s@.skip(i + 1)));
    }
    out
}

/// Decode UTF-16 code units, replacing what encodes nothing.
pub fn decode_utf16_lossy(v: &[u16]) -> (r: String)
    ensures
        r@ == utf16_text(v@),
{
    let mut out = String::new();
    let mut i: usize = 0;
    assert(v@.skip(0) == v@);
    while i < v.len()
        invariant
            i <= v.len(),
            utf16_text(v@) == out@ + utf16_text(v@.skip(i as int)),
        decreases v.len() - i,
    {
        let ghost before = out@;
        let ghost rest = v@.skip(i as int);
        let unit: u16 = v[i];
        proof {
            assert(rest[0] == unit);
            assert(rest.skip(1) == v@.skip(i + 1));
            if rest.len() > 1 {
                assert(rest[1] == v@[i + 1]);
                assert(rest.skip(2) == v@.skip(i + 2));
            }
        }
        if 0xD800 <= unit && unit < 0xDC00 && v.len() - i > 1 && 0xDC00 <= v[i + 1] && v[i + 1]
            < 0xE000 {
            let value: u32 = 0x10000 + (unit as u32 - 0xD800) * 0x400 + (v[i + 1] as u32 - 0xDC00);
            match char::from_u32(value) {
                Some(c) => {
                    out.push(c);
                },
                None => {},
            }
            assert(out@ == before + seq![pair_value(unit, v@[i + 1])]);
            i = i + 2;
        } else if 0xD800 <= unit && unit < 0xE000 {
            out.push(REPLACEMENT);
            assert(out@ == before + seq![REPLACEMENT]);
            i = i + 1;
        } else {
            match char::from_u32(unit as u32) {
                Some(c) => {
                    out.push(c);
                },
                None => {},
            }
            assert(out@ == before + seq![unit as char]);
            i = i + 1;
        }
        assert(utf16_text(v@) == out@ + utf16_text(v@.skip(i as int)));
    }
    out
}

/// Whether every surrogate is half of a pair, so that the units encode a text.
pub open spec fn is_utf16(v: Seq<u16>) -> bool
    decreases v.len(),
{
    if v.len() == 0 {
        true
    } else if is_high_surrogate(v[0]) && v.len() > 1 && is_low_surrogate(v[1]) {
        is_utf16(v.skip(2))
    } else {
        !is_high_surrogate(v[0]) && !is_low_surrogate(v[0]) && is_utf16(v.skip(1))
    }
}

/// Decode UTF-16 code units, if they encode a text.
pub fn decode_utf16(v: &[u16]) -> (r: Option<String>)
    ensures
        match r {
            Some(s) => is_utf16(v@) && s@ == utf16_text(v@),
            None => !is_utf16(v@),
        },
{
    let mut i: usize = 0;
    assert(v@.skip(0) == v@);
    while i < v.len()
        invariant
            i <= v.len(),
            is_utf16(v@) == is_utf16(v@.skip(i as int)),
        decreases v.len() - i,
    {
        let ghost rest = v@.skip(i as int);
        let unit: u16 = v[i];
        proof {
            assert(rest[0] == unit);
            assert(rest.skip(1) == v@.skip(i + 1));
            if rest.len() > 1 {
                assert(rest[1] == v@[i + 1]);
                assert(rest.skip(2) == v@.skip(i + 2));
            }
        }
        if 0xD800 <= unit && unit < 0xDC00 && v.len() - i > 1 && 0xDC00 <= v[i + 1] && v[i + 1]
            < 0xE000 {
            i = i + 2;
        } else if 0xD800 <= unit && unit < 0xE000 {
            return None;
        } else {
            i = i + 1;
        }
    }
    Some(decode_utf16_lossy(v))
}

/// What is encoded can be decoded: UTF-16 keeps every text.
pub proof fn law_utf16_round_trip(s: Seq<char>)
    ensures
        utf16_text(utf16(s)) == s,
        is_utf16(utf16(s)),
    decreases s.len(),
{
    if s.len() > 0 {
        law_utf16_round_trip(s.drop_first());
        let v = utf16(s);
        let rest = utf16(s.drop_first());
        let c = s[0];
        lemma_unit_kinds(c);
        assert(v.skip(utf16_of(c).len() as int) == rest);
        assert(s == seq![c] + s.drop_first());
    }
}

/// A character takes one unit that is no surrogate, or a pair that gives it back.
proof fn lemma_unit_kinds(c: char)
    ensures
        c as int >= 0x10000 ==> {
            &&& utf16_of(c).len() == 2
            &&& is_high_surrogate(utf16_of(c)[0])
            &&& is_low_surrogate(utf16_of(c)[1])
            &&& pair_value(utf16_of(c)[0], utf16_of(c)[1]) == c
        },
        (c as int) < 0x10000 ==> {
            &&& utf16_of(c).len() == 1
            &&& utf16_of(c)[0] == c as int
            &&& utf16_of(c)[0] as char == c
            &&& !is_high_surrogate(utf16_of(c)[0])
            &&& !is_low_surrogate(utf16_of(c)[0])
        },
{
}

/// The units before the first zero, or all of them.
pub open spec fn before_nul(v: Seq<u16>) -> Seq<u16>
    decreases v.len(),
{
    if v.len() == 0 || v[0] == 0 {
        Seq::empty()
    } else {
        seq![v[0]] + before_nul(v.skip(1))
    }
}

/// Cut a run of units at its first zero.
pub fn trim_at_nul(v: &[u16]) -> (r: Vec<u16>)
    ensures
        r@ == before_nul(v@),
{
    let mut out: Vec<u16> = Vec::new();
    let mut i: usize = 0;
    assert(v@.skip(0) == v@);
    while i < v.len()
        invariant
            i <= v.len(),
            before_nul(v@) == out@ + before_nul(v@.skip(i as int)),
        decreases v.len() - i,
    {
        let ghost before = out@;
        let ghost rest = v@.skip(i as int);
        proof {
            assert(rest[0] == v@[i as int]);
            assert(rest.skip(1) == v@.skip(i + 1));
        }
        if v[i] == 0 {
            return out;
        }
        out.push(v[i]);
        assert(before + (seq![v@[i as int]] + before_nul(v@.skip(i + 1))) == out@ + before_nul(
            v@.skip(i + 1),
        ));
        i = i + 1;
    }
    assert(out@ + before_nul(v@.skip(i as int)) == out@);
    out
}

/// Appending a zero to units that hold none and cutting at the first zero changes nothing.
pub proof fn lemma_before_nul(v: Seq<u16>, tail: Seq<u16>)
    requires
        !v.contains(0),
        tail.len() == 0 || tail[0] == 0,
    ensures
        before_nul(v + tail) == v,
    decreases v.len(),
{
    if v.len() > 0 {
        assert(v[0] != 0) by {
            assert(v.contains(v[0]));
        }
        assert forall|i: int| 0 <= i < v.skip(1).len() implies v.skip(1)[i] != 0 by {
            assert(v.contains(v[i + 1]));
        }
        assert((v + tail).skip(1) == v.skip(1) + tail);
        lemma_before_nul(v.skip(1), tail);
        assert(seq![v[0]] + v.skip(1) == v);
    } else {
        assert(v + tail == tail);
    }
}

/// A text without a NUL character encodes to units that are not zero.
pub proof fn lemma_utf16_no_nul(s: Seq<char>)
    requires
        !s.contains('\0'),
    ensures
        !utf16(s).contains(0),
    decreases s.len(),
{
    if s.len() > 0 {
        assert(s[0] != '\0') by {
            assert(s.contains(s[0]));
        }
        assert forall|i: int| 0 <= i < s.drop_first().len() implies s.drop_first()[i] != '\0' by {
            assert(s.contains(s[i + 1]));
        }
        lemma_utf16_no_nul(s.drop_first());
        lemma_unit_kinds(s[0]);
        let head = utf16_of(s[0]);
        let rest = utf16(s.drop_first());
        assert forall|i: int| 0 <= i < utf16(s).len() implies utf16(s)[i] != 0 by {
            if i >= head.len() {
                assert(rest.contains(rest[i - head.len()]));
            }
        }
    }
}

/// Code units as bytes, low byte first.
pub open spec fn le_bytes(units: Seq<u16>) -> Seq<u8> {
    Seq::new(
        2 * units.len(),
        |i: int|
            if i % 2 == 0 {
                (units[i / 2] % 256) as u8
            } else {
                (units[i / 2] / 256) as u8
            },
    )
}

/// Bytes as code units, low byte first; an odd byte at the end is left out.
pub open spec fn le_units(bytes: Seq<u8>) -> Seq<u16> {
    Seq::new(bytes.len() / 2, |i: int| (bytes[2 * i] + 256 * bytes[2 * i + 1]) as u16)
}

/// Lay code units out as bytes.
pub fn to_le_bytes(units: &[u16]) -> (r: Vec<u8>)
    ensures
        r@ == le_bytes(units@),
{
    let mut out: Vec<u8> = Vec::new();
    for i in 0..units.len()
        invariant
            out@ == le_bytes(units@.take(i as int)),
    {
        let ghost before = out@;
        out.push((units[i] % 256) as u8);
        out.push((units[i] / 256) as u8);
        proof {
            let next = le_bytes(units@.take(i + 1));
            assert(out@.len() == next.len());
            assert forall|k: int| 0 <= k < next.len() implies out@[k] == next[k] by {
                if k < before.len() {
                    assert(before[k] == out@[k]);
                    assert(units@.take(i + 1)[k / 2] == units@.take(i as int)[k / 2]);
                }
            }
            assert(out@ == next);
        }
    }
    assert(units@.take(units.len() as int) == units@);
    out
}

/// Read code units out of bytes.
pub fn from_le_bytes(bytes: &[u8]) -> (r: Vec<u16>)
    ensures
        r@ == le_units(bytes@),
{
    let mut out: Vec<u16> = Vec::new();
    let n: usize = bytes.len() / 2;
    for i in 0..n
        invariant
            n == bytes.len() / 2,
            out@ == le_units(bytes@).take(i as int),
    {
        out.push(bytes[2 * i] as u16 + 256 * bytes[2 * i + 1] as u16);
        assert(out@ == le_units(bytes@).take(i + 1));
    }
    assert(le_units(bytes@).take(n as int) == le_units(bytes@));
    out
}

/// Bytes written from code units read back as the same units.
pub proof fn law_le_round_trip(units: Seq<u16>)
    ensures
        le_units(le_bytes(units)) == units,
{
    let b = le_bytes(units);
    assert forall|i: int| 0 <= i < units.len() implies le_units(b)[i] == units[i] by {
        assert((2 * i) % 2 == 0 && (2 * i) / 2 == i);
        assert((2 * i + 1) % 2 == 1 && (2 * i + 1) / 2 == i);
        assert(b[2 * i] == (units[i] % 256) as u8);
        assert(b[2 * i + 1] == (units[i] / 256) as u8);
    }
    assert(le_units(b) == units);
}

/// The numeral of one digit: `0` to `9`, then `a` to `f`.
pub open spec fn digit(d: int) -> char {
    if d < 10 {
        (48 + d) as char
    } else {
        (87 + d) as char
    }
}

/// A number in the given base, most significant digit first, without leading zeros.
pub open spec fn numeral(n: nat, base: nat) -> Seq<char>
    decreases n,
{
    if n < base || base < 2 {
        seq![digit(n as int)]
    } else {
        proof {
            assert(n / base < n) by (nonlinear_arith)
                requires
                    n >= base,
                    base >= 2,
            ;
        }
        numeral(n / base, base).push(digit((n % base) as int))
    }
}

/// Write one digit.
fn to_digit(d: u64) -> (c: char)
    requires
        d < 16,
    ensures
        c == digit(d as int),
{
    let code: u8 = if d < 10 {
        48 + d as u8
    } else {
        87 + d as u8
    };
    code as char
}

/// Write a number in base two to sixteen.
pub fn to_numeral(n: u64, base: u64) -> (r: String)
    requires
        2 <= base <= 16,
    ensures
        r@ == numeral(n as nat, base as nat),
    decreases n,
{
    if n < base {
        let mut out = String::new();
        out.push(to_digit(n));
        assert(out@ == seq![digit(n as int)]);
        out
    } else {
        assert(n / base < n) by (nonlinear_arith)
            requires
                n >= base,
                base >= 2,
        ;
        let mut out = to_numeral(n / base, base);
        out.push(to_digit(n % base));
        out
    }
}

/// A signed number in base ten.
pub open spec fn signed_decimal(n: int) -> Seq<char> {
    if n < 0 {
        "-"@ + numeral((-n) as nat, 10)
    } else {
        numeral(n as nat, 10)
    }
}

/// Write a signed number in base ten.
pub fn to_signed_decimal(n: i32) -> (r: String)
    ensures
        r@ == signed_decimal(n as int),
        n >= 0 ==> r@ == numeral(n as nat, 10),
        n < 0 ==> r@ == "-"@ + numeral((-n) as nat, 10),
{
    if n < 0 {
        let mut out = "-".to_owned();
        let magnitude: u64 = (-(n as i64)) as u64;
        out.append(to_numeral(magnitude, 10).as_str());
        out
    } else {
        to_numeral(n as u64, 10)
    }
}

/// An address: `0x` and base sixteen.
pub open spec fn address(h: usize) -> Seq<char> {
    "0x"@ + numeral(h as nat, 16)
}

/// Write an address.
pub fn to_address(h: usize) -> (r: String)
    ensures
        r@ == address(h),
        r@ == "0x"@ + numeral(h as nat, 16),
{
    let mut out = "0x".to_owned();
    out.append(to_numeral(h as u64, 16).as_str());
    out
}

/// A letter `A` to `Z` in lower case; any other character as it is.
pub open spec fn ascii_lower(c: char) -> char {
    if 'A' <= c <= 'Z' {
        (c as int + 32) as char
    } else {
        c
    }
}

/// Two texts that differ at most in the case of ASCII letters.
pub open spec fn same_but_for_case(a: Seq<char>, b: Seq<char>) -> bool {
    a.map_values(|c: char| ascii_lower(c)) == b.map_values(|c: char| ascii_lower(c))
}

/// The characters of a text.
fn characters(s: &str) -> (r: Vec<char>)
    ensures
        r@ == s@,
{
    let mut out: Vec<char> = Vec::new();
    for c in it: s.chars()
        invariant
            it.seq() == s@,
            out@ == s@.take(it.index() as int),
    {
        out.push(c);
        assert(out@ == s@.take(it.index() + 1));
    }
    assert(s@.take(s@.len() as int) == s@);
    out
}

/// Lower the case of an ASCII letter.
fn to_ascii_lower(c: char) -> (r: char)
    ensures
        r == ascii_lower(c),
{
    if 'A' <= c && c <= 'Z' {
        let code: u8 = c as u8 + 32;
        code as char
    } else {
        c
    }
}

/// Compare two texts without regard to the case of ASCII letters.
pub fn eq_ignore_ascii_case(a: &str, b: &str) -> (r: bool)
    ensures
        r == same_but_for_case(a@, b@),
{
    let x = characters(a);
    let y = characters(b);
    let ghost p = a@.map_values(|c: char| ascii_lower(c));
    let ghost q = b@.map_values(|c: char| ascii_lower(c));
    if x.len() != y.len() {
        assert(p.len() != q.len());
        return false;
    }
    for i in 0..x.len()
        invariant
            x@ == a@,
            y@ == b@,
            x.len() == y.len(),
            p == a@.map_values(|c: char| ascii_lower(c)),
            q == b@.map_values(|c: char| ascii_lower(c)),
            forall|k: int| 0 <= k < i ==> p[k] == q[k],
    {
        if to_ascii_lower(x[i]) != to_ascii_lower(y[i]) {
            assert(p[i as int] != q[i as int]);
            return false;
        }
    }
    assert(p == q);
    true
}

/// Compare two texts.
pub fn same_text(a: &str, b: &str) -> (r: bool)
    ensures
        r == (a@ == b@),
{
    a.to_owned() == b.to_owned()
}

/// The encoding goes character by character: one unit below `0x10000`, a pair of surrogates
/// from there on; the encoding of two texts is that of one behind that of the other.
pub proof fn law_utf16_by_character(c: char, a: Seq<char>, b: Seq<char>)
    ensures
        utf16(Seq::empty()) == Seq::<u16>::empty(),
        (c as int) < 0x10000 ==> utf16(seq![c]) == seq![c as u16],
        c as int >= 0x10000 ==> {
            let v = utf16(seq![c]);
            &&& v.len() == 2
            &&& 0xD800 <= v[0] < 0xDC00
            &&& 0xDC00 <= v[1] < 0xE000
            &&& c as int == 0x10000 + (v[0] - 0xD800) * 0x400 + (v[1] - 0xDC00)
        },
        utf16(a + b) == utf16(a) + utf16(b),
    decreases a.len(),
{
    reveal_with_fuel(utf16, 2);
    assert(seq![c].drop_first() == Seq::<char>::empty());
    assert(utf16(seq![c]) == utf16_of(c));
    if a.len() == 0 {
        assert(a + b == b);
        assert(utf16(a) + utf16(b) == utf16(b));
    } else {
        law_utf16_by_character(c, a.drop_first(), b);
        assert((a + b).drop_first() == a.drop_first() + b);
        assert((a + b)[0] == a[0]);
        assert(utf16_of(a[0]) + (utf16(a.drop_first()) + utf16(b)) == (utf16_of(a[0]) + utf16(
            a.drop_first(),
        )) + utf16(b));
    }
}

/// The decoding goes unit by unit: a surrogate alone becomes the replacement character, any
/// other unit the character of its number, a pair of surrogates one character. The text of two
/// runs of units is that of one behind that of the other, unless a pair is cut in two.
pub proof fn law_utf16_text_by_unit(unit: u16, high: u16, low: u16, a: Seq<u16>, b: Seq<u16>)
    requires
        0xD800 <= high < 0xDC00,
        0xDC00 <= low < 0xE000,
        !(a.len() > 0 && b.len() > 0 && 0xD800 <= a.last() < 0xDC00 && 0xDC00 <= b[0] < 0xE000),
    ensures
        utf16_text(Seq::empty()) == Seq::<char>::empty(),
        utf16_text(seq![unit]) == seq![
            if 0xD800 <= unit < 0xE000 {
                '\u{FFFD}'
            } else {
                unit as char
            },
        ],
        utf16_text(seq![high, low]) == seq![
            (0x10000 + (high - 0xD800) * 0x400 + (low - 0xDC00)) as char,
        ],
        utf16_text(a + b) == utf16_text(a) + utf16_text(b),
{
    reveal_with_fuel(utf16_text, 3);
    assert(seq![unit].skip(1) == Seq::<u16>::empty());
    assert(seq![high, low].skip(2) == Seq::<u16>::empty());
    assert(utf16_text(seq![unit]) == seq![
        if 0xD800 <= unit < 0xE000 {
            '\u{FFFD}'
        } else {
            unit as char
        },
    ]);
    lemma_text_of_parts(a, b);
}

proof fn lemma_text_of_parts(a: Seq<u16>, b: Seq<u16>)
    requires
        !(a.len() > 0 && b.len() > 0 && is_high_surrogate(a.last()) && is_low_surrogate(b[0])),
    ensures
        utf16_text(a + b) == utf16_text(a) + utf16_text(b),
    decreases a.len(),
{
    if a.len() == 0 {
        assert(a + b == b);
        assert(utf16_text(a) + utf16_text(b) == utf16_text(b));
    } else {
        let v = a + b;
        assert(v[0] == a[0]);
        let n: int = if is_high_surrogate(a[0]) && a.len() > 1 && is_low_surrogate(a[1]) {
            2
        } else {
            1
        };
        assert(v.skip(n) == a.skip(n) + b);
        if a.len() > n {
            assert(a.skip(n).last() == a.last());
        }
        lemma_text_of_parts(a.skip(n), b);
        if a.len() > 1 {
            assert(v[1] == a[1]);
        } else if b.len() > 0 {
            assert(v[1] == b[0]);
        }
        let head = seq![utf16_text(a)[0]];
        assert(utf16_text(a) == head + utf16_text(a.skip(n)));
        assert(utf16_text(v) == head + utf16_text(v.skip(n)));
        assert(head + (utf16_text(a.skip(n)) + utf16_text(b)) == (head + utf16_text(a.skip(n)))
            + utf16_text(b));
    }
}

/// Units encode a text exactly if encoding what they decode to gives them back.
pub proof fn law_is_utf16(v: Seq<u16>)
    ensures
        is_utf16(v) <==> utf16(utf16_text(v)) == v,
    decreases v.len(),
{
    law_utf16_round_trip(utf16_text(v));
    if utf16(utf16_text(v)) =~= v {
        assert(is_utf16(v));
    }
    if v.len() == 0 {
        assert(utf16(utf16_text(v)) =~= v);
    } else if is_utf16(v) {
        let n: int = if is_high_surrogate(v[0]) {
            2
        } else {
            1
        };
        law_is_utf16(v.skip(n));
        let t = utf16_text(v);
        assert(t.drop_first() == utf16_text(v.skip(n)));
        if n == 2 {
            assert(utf16_of(t[0]) == seq![v[0], v[1]]);
            assert(v == seq![v[0], v[1]] + v.skip(2));
        } else {
            assert(utf16_of(t[0]) == seq![v[0]]);
            assert(v == seq![v[0]] + v.skip(1));
        }
        assert(utf16(t) == utf16_of(t[0]) + utf16(t.drop_first()));
        assert(utf16(t) =~= v);
    }
}

/// What comes before the first zero is the longest beginning without a zero.
pub proof fn law_before_nul(v: Seq<u16>)
    ensures
        before_nul(v).len() <= v.len(),
        before_nul(v) == v.take(before_nul(v).len() as int),
        forall|i: int| 0 <= i < before_nul(v).len() ==> #[trigger] v[i] != 0,
        before_nul(v).len() < v.len() ==> v[before_nul(v).len() as int] == 0,
    decreases v.len(),
{
    if v.len() > 0 && v[0] != 0 {
        let rest = v.skip(1);
        law_before_nul(rest);
        let n = before_nul(rest).len() as int;
        assert forall|i: int| 0 <= i < n + 1 implies #[trigger] v[i] != 0 by {
            if i > 0 {
                assert(rest[i - 1] == v[i]);
            }
        }
        assert(v.take(n + 1) == seq![v[0]] + rest.take(n));
        if n < rest.len() {
            assert(rest[n] == v[n + 1]);
        }
    }
}

/// Each unit takes two bytes, the low one first.
pub proof fn law_low_byte_first(units: Seq<u16>, bytes: Seq<u8>, i: int)
    ensures
        le_bytes(units).len() == 2 * units.len(),
        0 <= i < units.len() ==> units[i] == le_bytes(units)[2 * i] + 256 * le_bytes(units)[2 * i
            + 1],
        le_units(bytes).len() == bytes.len() / 2,
        0 <= i < bytes.len() / 2 ==> le_units(bytes)[i] == bytes[2 * i] + 256 * bytes[2 * i + 1],
{
    if 0 <= i < units.len() {
        assert((2 * i) % 2 == 0 && (2 * i) / 2 == i);
        assert((2 * i + 1) % 2 == 1 && (2 * i + 1) / 2 == i);
    }
}

/// What a character stands for as a digit.
pub open spec fn digit_value(c: char) -> int {
    if '0' <= c <= '9' {
        c as int - '0' as int
    } else if 'a' <= c <= 'f' {
        c as int - 'a' as int + 10
    } else {
        -1
    }
}

/// What a row of digits stands for.
pub open spec fn value_of(digits: Seq<char>, base: int) -> int
    decreases digits.len(),
{
    if digits.len() == 0 {
        0
    } else {
        value_of(digits.drop_last(), base) * base + digit_value(digits.last())
    }
}

/// A numeral is made of digits of its base, stands for its number, and has no zero in front
/// but the numeral of zero itself.
pub proof fn law_numeral_stands_for_number(n: nat, base: nat)
    requires
        2 <= base <= 16,
    ensures
        value_of(numeral(n, base), base as int) == n,
        numeral(n, base).len() > 0,
        forall|i: int|
            0 <= i < numeral(n, base).len() ==> 0 <= digit_value(#[trigger] numeral(n, base)[i])
                < base,
        n > 0 ==> numeral(n, base)[0] != '0',
        n == 0 ==> numeral(n, base) == seq!['0'],
    decreases n,
{
    reveal_with_fuel(value_of, 2);
    let all = numeral(n, base);
    if n < base {
        assert(all.drop_last() == Seq::<char>::empty());
    } else {
        assert(0 < n / base < n) by (nonlinear_arith)
            requires
                n >= base,
                base >= 2,
        ;
        assert(n == (n / base) * base + n % base && 0 <= n % base < base) by (nonlinear_arith)
            requires
                base >= 2,
        ;
        let front = numeral(n / base, base);
        law_numeral_stands_for_number(n / base, base);
        assert(all.drop_last() == front);
        assert(all.last() == digit((n % base) as int));
        assert forall|i: int| 0 <= i < all.len() implies 0 <= digit_value(#[trigger] all[i])
            < base by {
            if i < front.len() {
                assert(all[i] == front[i]);
            }
        }
    }
}

/// Two texts are the same but for case exactly if they are as long, and each character of one
/// is that of the other or the same letter from `A` to `Z` in the other case.
pub proof fn law_same_but_for_case(a: Seq<char>, b: Seq<char>)
    ensures
        same_but_for_case(a, b) <==> a.len() == b.len() && forall|i: int|
            0 <= i < a.len() ==> (#[trigger] a[i] == b[i] || ('A' <= a[i] <= 'Z' && b[i] as int
                == a[i] as int + 32) || ('A' <= b[i] <= 'Z' && a[i] as int == b[i] as int + 32)),
{
    let p = a.map_values(|c: char| ascii_lower(c));
    let q = b.map_values(|c: char| ascii_lower(c));
    if p == q {
        assert(p.len() == q.len());
        assert forall|i: int| 0 <= i < a.len() implies (#[trigger] a[i] == b[i] || ('A' <= a[i]
            <= 'Z' && b[i] as int == a[i] as int + 32) || ('A' <= b[i] <= 'Z' && a[i] as int
            == b[i] as int + 32)) by {
            assert(p[i] == q[i]);
        }
    }
    if a.len() == b.len() && forall|i: int|
        0 <= i < a.len() ==> (#[trigger] a[i] == b[i] || ('A' <= a[i] <= 'Z' && b[i] as int
            == a[i] as int + 32) || ('A' <= b[i] <= 'Z' && a[i] as int == b[i] as int + 32)) {
        assert forall|i: int| 0 <= i < p.len() implies p[i] == q[i] by {
            assert(a[i] == a[i]);
        }
        assert(p == q);
    }
}

} // verus!
