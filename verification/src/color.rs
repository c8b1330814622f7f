//! Colour parsing: `#RRGGBB` hex strings and `R, G, B` decimal triples.

use vstd::prelude::*;
use vstd::string::*;

verus! {

/// Why a colour string was rejected.
#[derive(Clone, Copy, Debug, PartialEq, Eq, Structural)]
pub enum ParseError {
    /// The hex form did not hold exactly six characters after the optional `#`.
    InvalidHexLength,
    /// The hex form held a character that is not a hexadecimal digit.
    InvalidHexDigits,
    /// The decimal form did not hold exactly three comma-separated parts.
    WrongComponentCount,
    /// A part of the decimal form is not an integer between 0 and 255.
    ComponentOutOfRange,
}

impl ParseError {
    /// A human-readable sentence for this error.
    pub fn message(&self) -> (text: String)
        ensures
            text@ == self.message_spec(),
    {
        match self {
            ParseError::InvalidHexLength => "Hex color must have exactly 6 digits".to_string(),
            ParseError::InvalidHexDigits => "Hex color must contain only hexadecimal digits".to_string(),
            ParseError::WrongComponentCount => "Must be in R, G, B format".to_string(),
            ParseError::ComponentOutOfRange => "Each value must be a number between 0 - 255".to_string(),
        }
    }

    /// The text that [`ParseError::message`] returns.
    pub open spec fn message_spec(&self) -> Seq<char> {
        match self {
            ParseError::InvalidHexLength => "Hex color must have exactly 6 digits"@,
            ParseError::InvalidHexDigits => "Hex color must contain only hexadecimal digits"@,
            ParseError::WrongComponentCount => "Must be in R, G, B format"@,
            ParseError::ComponentOutOfRange => "Each value must be a number between 0 - 255"@,
        }
    }
}

/// The code point of a character.
pub open spec fn code(c: char) -> int {
    c as u32 as int
}

/// Unicode white space: what is stripped from both ends of a decimal part.
pub open spec fn is_space(c: char) -> bool {
    let n = code(c);
    ||| 0x09 <= n <= 0x0D
    ||| n == 0x20
    ||| n == 0x85
    ||| n == 0xA0
    ||| n == 0x1680
    ||| 0x2000 <= n <= 0x200A
    ||| n == 0x2028
    ||| n == 0x2029
    ||| n == 0x202F
    ||| n == 0x205F
    ||| n == 0x3000
}

/// `s` without its leading white space.
pub open spec fn trim_start(s: Seq<char>) -> Seq<char>
    decreases s.len(),
{
    if s.len() > 0 && is_space(s[0]) {
        trim_start(s.skip(1))
    } else {
        s
    }
}

/// `s` without its trailing white space.
pub open spec fn trim_end(s: Seq<char>) -> Seq<char>
    decreases s.len(),
{
    if s.len() > 0 && is_space(s.last()) {
        trim_end(s.drop_last())
    } else {
        s
    }
}

/// `s` without the white space at either end.
pub open spec fn trim(s: Seq<char>) -> Seq<char> {
    trim_end(trim_start(s))
}

/// The pieces of `s` between occurrences of `sep`, in order. A string with
/// `n` separators has `n + 1` pieces, some of which may be empty.
pub open spec fn split(s: Seq<char>, sep: char) -> Seq<Seq<char>>
    decreases s.len(),
{
    if s.len() == 0 {
        seq![Seq::<char>::empty()]
    } else {
        let before = split(s.drop_last(), sep);
        if s.last() == sep {
            before.push(Seq::<char>::empty())
        } else {
            before.update(before.len() - 1, before.last().push(s.last()))
        }
    }
}

/// Whether `c` is one of `0` to `9`.
pub open spec fn is_decimal_digit(c: char) -> bool {
    0x30 <= code(c) <= 0x39
}

/// The number that a string of decimal digits writes.
pub open spec fn decimal_value(s: Seq<char>) -> nat
    decreases s.len(),
{
    if s.len() == 0 {
        0
    } else {
        (10 * decimal_value(s.drop_last()) + (code(s.last()) - 0x30)) as nat
    }
}

/// The digits of a decimal part: the part itself, less one leading `+`.
pub open spec fn unsigned_digits(s: Seq<char>) -> Seq<char> {
    if s.len() > 0 && s[0] == '+' {
        s.skip(1)
    } else {
        s
    }
}

/// The byte that a decimal part writes: one or more decimal digits,
/// optionally after a `+`, whose value is at most 255.
pub open spec fn parse_u8_spec(s: Seq<char>) -> Option<u8> {
    let d = unsigned_digits(s);
    if d.len() > 0 && (forall|i: int| 0 <= i < d.len() ==> is_decimal_digit(#[trigger] d[i]))
        && decimal_value(d) <= 255 {
        Some(decimal_value(d) as u8)
    } else {
        None
    }
}

/// What the decimal form of `s` means.
pub open spec fn parse_decimal_spec(s: Seq<char>) -> Result<Seq<u8>, ParseError> {
    let parts = split(s, ',');
    if parts.len() != 3 {
        Err(ParseError::WrongComponentCount)
    } else {
        let r = parse_u8_spec(trim(parts[0]));
        let g = parse_u8_spec(trim(parts[1]));
        let b = parse_u8_spec(trim(parts[2]));
        if r is Some && g is Some && b is Some {
            Ok(seq![r->Some_0, g->Some_0, b->Some_0])
        } else {
            Err(ParseError::ComponentOutOfRange)
        }
    }
}

/// Whether `c` is a hexadecimal digit, in either case.
pub open spec fn is_hex_digit(c: char) -> bool {
    let n = code(c);
    ||| 0x30 <= n <= 0x39
    ||| 0x41 <= n <= 0x46
    ||| 0x61 <= n <= 0x66
}

/// The value, 0 to 15, of a hexadecimal digit.
pub open spec fn hex_value(c: char) -> int {
    let n = code(c);
    if n <= 0x39 {
        n - 0x30
    } else if n <= 0x46 {
        n - 0x41 + 10
    } else {
        n - 0x61 + 10
    }
}

/// The digits of the hex form: the string itself, less one leading `#`.
pub open spec fn hex_digits(s: Seq<char>) -> Seq<char> {
    if s.len() > 0 && s[0] == '#' {
        s.skip(1)
    } else {
        s
    }
}

/// The byte that two hexadecimal digits write.
pub open spec fn hex_pair(hi: char, lo: char) -> u8 {
    (16 * hex_value(hi) + hex_value(lo)) as u8
}

/// The three bytes that six hexadecimal digits write: red, green, blue.
pub open spec fn hex_bytes(d: Seq<char>) -> Seq<u8> {
    seq![hex_pair(d[0], d[1]), hex_pair(d[2], d[3]), hex_pair(d[4], d[5])]
}

/// What the hex form of `s` means. The length is judged before the digits.
pub open spec fn parse_hex_spec(s: Seq<char>) -> Result<Seq<u8>, ParseError> {
    let d = hex_digits(s);
    if d.len() != 6 {
        Err(ParseError::InvalidHexLength)
    } else if exists|i: int| 0 <= i < 6 && !is_hex_digit(#[trigger] d[i]) {
        Err(ParseError::InvalidHexDigits)
    } else {
        Ok(hex_bytes(d))
    }
}

/// What a colour string means: the hex form where it starts with `#`, the
/// decimal form otherwise.
pub open spec fn parse_rgb_spec(s: Seq<char>) -> Result<Seq<u8>, ParseError> {
    if s.len() > 0 && s[0] == '#' {
        parse_hex_spec(s)
    } else {
        parse_decimal_spec(s)
    }
}

/// Whether `out` is the outcome `expected`, an array standing for its view.
pub open spec fn agrees(out: Result<[u8; 3], ParseError>, expected: Result<Seq<u8>, ParseError>) -> bool {
    match out {
        Ok(rgb) => expected is Ok && rgb@ == expected->Ok_0,
        Err(e) => expected == Err::<Seq<u8>, ParseError>(e),
    }
}

fn is_space_char(c: char) -> (r: bool)
    ensures
        r == is_space(c),
{
    let n: u32 = c as u32;
    (0x09 <= n && n <= 0x0D) || n == 0x20 || n == 0x85 || n == 0xA0 || n == 0x1680 || (0x2000 <= n
        && n <= 0x200A) || n == 0x2028 || n == 0x2029 || n == 0x202F || n == 0x205F || n == 0x3000
}

/// The characters of `s`, one by one.
fn to_chars(s: &str) -> (chars: Vec<char>)
    ensures
        chars@ == s@,
{
    let mut chars: Vec<char> = Vec::new();
    for c in it: s.chars()
        invariant
            it.seq() == s@,
            chars@ == s@.take(it.index() as int),
    {
        chars.push(c);
        assert(chars@ =~= s@.take(it.index() + 1));
    }
    assert(s@.take(s@.len() as int) =~= s@);
    chars
}

/// The bounds of `chars[lo..hi]` once the white space at both ends is gone.
fn trim_bounds(chars: &Vec<char>, lo: usize, hi: usize) -> (b: (usize, usize))
    requires
        lo <= hi <= chars@.len(),
    ensures
        lo <= b.0 <= b.1 <= hi,
        chars@.subrange(b.0 as int, b.1 as int) == trim(chars@.subrange(lo as int, hi as int)),
{
    let mut a: usize = lo;
    while a < hi && is_space_char(chars[a])
        invariant
            lo <= a <= hi <= chars@.len(),
            trim_start(chars@.subrange(lo as int, hi as int)) == trim_start(
                chars@.subrange(a as int, hi as int),
            ),
        decreases hi - a,
    {
        assert(chars@.subrange(a as int, hi as int).skip(1) =~= chars@.subrange(
            a as int + 1,
            hi as int,
        ));
        a += 1;
    }
    let mut z: usize = hi;
    while a < z && is_space_char(chars[z - 1])
        invariant
            a <= z <= hi <= chars@.len(),
            trim_end(chars@.subrange(a as int, hi as int)) == trim_end(
                chars@.subrange(a as int, z as int),
            ),
        decreases z - a,
    {
        assert(chars@.subrange(a as int, z as int).drop_last() =~= chars@.subrange(
            a as int,
            z as int - 1,
        ));
        z -= 1;
    }
    (a, z)
}

/// Reads `chars[lo..hi]` as a byte in decimal.
fn parse_u8(chars: &Vec<char>, lo: usize, hi: usize) -> (r: Option<u8>)
    requires
        lo <= hi <= chars@.len(),
    ensures
        r == parse_u8_spec(chars@.subrange(lo as int, hi as int)),
{
    let ghost whole = chars@.subrange(lo as int, hi as int);
    let start: usize = if lo < hi && chars[lo] == '+' {
        lo + 1
    } else {
        lo
    };
    let ghost d = chars@.subrange(start as int, hi as int);
    assert(d =~= unsigned_digits(whole));
    if start == hi {
        return None;
    }
    let mut acc: u32 = 0;
    let mut i: usize = start;
    while i < hi
        invariant
            lo <= start <= i <= hi <= chars@.len(),
            d == chars@.subrange(start as int, hi as int),
            d == unsigned_digits(chars@.subrange(lo as int, hi as int)),
            acc <= 256,
            acc == if decimal_value(chars@.subrange(start as int, i as int)) < 256 {
                decimal_value(chars@.subrange(start as int, i as int))
            } else {
                256
            },
            forall|k: int| 0 <= k < i - start ==> is_decimal_digit(#[trigger] d[k]),
        decreases hi - i,
    {
        let n: u32 = chars[i] as u32;
        if n < 0x30 || n > 0x39 {
            assert(!is_decimal_digit(d[i - start]));
            return None;
        }
        assert(chars@.subrange(start as int, i as int + 1).drop_last() =~= chars@.subrange(
            start as int,
            i as int,
        ));
        let next: u32 = 10 * acc + (n - 0x30);
        acc = if next < 256 {
            next
        } else {
            256
        };
        i += 1;
    }
    assert(chars@.subrange(start as int, i as int) =~= d);
    if acc < 256 {
        Some(acc as u8)
    } else {
        None
    }
}

/// Reads `chars[lo..hi]`, white space at its ends aside, as a byte in decimal.
fn parse_component(chars: &Vec<char>, lo: usize, hi: usize) -> (r: Option<u8>)
    requires
        lo <= hi <= chars@.len(),
    ensures
        r == parse_u8_spec(trim(chars@.subrange(lo as int, hi as int))),
{
    let (a, z) = trim_bounds(chars, lo, hi);
    parse_u8(chars, a, z)
}

/// The bounds of each piece of `chars` between occurrences of `sep`.
fn split_bounds(chars: &Vec<char>, sep: char) -> (parts: Vec<(usize, usize)>)
    ensures
        parts@.len() == split(chars@, sep).len(),
        forall|k: int|
            0 <= k < parts@.len() ==> {
                &&& (#[trigger] parts@[k]).0 <= parts@[k].1 <= chars@.len()
                &&& chars@.subrange(parts@[k].0 as int, parts@[k].1 as int) == split(chars@, sep)[k]
            },
{
    let mut parts: Vec<(usize, usize)> = Vec::new();
    let mut start: usize = 0;
    let mut i: usize = 0;
    assert(chars@.take(0) =~= Seq::<char>::empty());
    assert(chars@.subrange(0, 0) =~= Seq::<char>::empty());
    while i < chars.len()
        invariant
            start <= i <= chars@.len(),
            parts@.len() + 1 == split(chars@.take(i as int), sep).len(),
            chars@.subrange(start as int, i as int) == split(chars@.take(i as int), sep).last(),
            forall|k: int|
                0 <= k < parts@.len() ==> {
                    &&& (#[trigger] parts@[k]).0 <= parts@[k].1 <= i
                    &&& chars@.subrange(parts@[k].0 as int, parts@[k].1 as int) == split(
                        chars@.take(i as int),
                        sep,
                    )[k]
                },
        decreases chars@.len() - i,
    {
        let ghost before = split(chars@.take(i as int), sep);
        assert(chars@.take(i as int + 1).drop_last() =~= chars@.take(i as int));
        assert(chars@.take(i as int + 1).last() == chars@[i as int]);
        if chars[i] == sep {
            parts.push((start, i));
            start = i + 1;
            assert(chars@.subrange(start as int, start as int) =~= Seq::<char>::empty());
        } else {
            assert(chars@.subrange(start as int, i as int + 1) =~= chars@.subrange(
                start as int,
                i as int,
            ).push(chars@[i as int]));
        }
        i += 1;
    }
    assert(chars@.take(i as int) =~= chars@);
    parts.push((start, i));
    parts
}

/// Parses the decimal form: three comma-separated bytes, white space around
/// each ignored.
pub fn parse_decimal(s: &str) -> (out: Result<[u8; 3], ParseError>)
    ensures
        agrees(out, parse_decimal_spec(s@)),
{
    let chars: Vec<char> = to_chars(s);
    let parts: Vec<(usize, usize)> = split_bounds(&chars, ',');
    if parts.len() != 3 {
        return Err(ParseError::WrongComponentCount);
    }
    let r: Option<u8> = parse_component(&chars, parts[0].0, parts[0].1);
    let g: Option<u8> = parse_component(&chars, parts[1].0, parts[1].1);
    let b: Option<u8> = parse_component(&chars, parts[2].0, parts[2].1);
    match (r, g, b) {
        (Some(r), Some(g), Some(b)) => {
            let rgb: [u8; 3] = [r, g, b];
            assert(rgb@ =~= seq![r, g, b]);
            Ok(rgb)
        },
        _ => Err(ParseError::ComponentOutOfRange),
    }
}

/// The value of a hexadecimal digit, or `None` for any other character.
fn hex_digit(c: char) -> (v: Option<u8>)
    ensures
        v is Some <==> is_hex_digit(c),
        v is Some ==> v->Some_0 == hex_value(c) && v->Some_0 < 16,
{
    let n: u32 = c as u32;
    if 0x30 <= n && n <= 0x39 {
        Some((n - 0x30) as u8)
    } else if 0x41 <= n && n <= 0x46 {
        Some((n - 0x41 + 10) as u8)
    } else if 0x61 <= n && n <= 0x66 {
        Some((n - 0x61 + 10) as u8)
    } else {
        None
    }
}

/// Parses the hex form: six hexadecimal digits, optionally after a `#`. The
/// first two digits give red, the next two green, the last two blue.
pub fn parse_hex(s: &str) -> (out: Result<[u8; 3], ParseError>)
    ensures
        agrees(out, parse_hex_spec(s@)),
{
    let chars: Vec<char> = to_chars(s);
    let start: usize = if chars.len() > 0 && chars[0] == '#' {
        1
    } else {
        0
    };
    let ghost d = hex_digits(s@);
    assert(d =~= chars@.subrange(start as int, chars@.len() as int));
    if chars.len() - start != 6 {
        return Err(ParseError::InvalidHexLength);
    }
    let mut vals: [u8; 6] = [0, 0, 0, 0, 0, 0];
    let mut i: usize = 0;
    while i < 6
        invariant
            i <= 6,
            start <= 1,
            chars@.len() == start + 6,
            d == chars@.subrange(start as int, chars@.len() as int),
            d == hex_digits(s@),
            forall|k: int| 0 <= k < i ==> is_hex_digit(#[trigger] d[k]),
            forall|k: int| 0 <= k < i ==> (#[trigger] vals@[k]) == hex_value(d[k]) && vals@[k] < 16,
        decreases 6 - i,
    {
        match hex_digit(chars[start + i]) {
            Some(v) => {
                vals[i] = v;
            },
            None => {
                assert(!is_hex_digit(d[i as int]));
                return Err(ParseError::InvalidHexDigits);
            },
        }
        i += 1;
    }
    let rgb: [u8; 3] = [
        16 * vals[0] + vals[1],
        16 * vals[2] + vals[3],
        16 * vals[4] + vals[5],
    ];
    assert(rgb@ =~= hex_bytes(d));
    Ok(rgb)
}

/// Parses a colour. A string that starts with `#` is read in the hex form
/// and in no other; any other string is read in the decimal form.
pub fn parse_rgb(s: &str) -> (out: Result<[u8; 3], ParseError>)
    ensures
        agrees(out, parse_rgb_spec(s@)),
{
    if s.unicode_len() > 0 && s.get_char(0) == '#' {
        parse_hex(s)
    } else {
        parse_decimal(s)
    }
}

} // verus!
