//! What holds of colour parsing on whole families of strings.

use crate::color::{
    code,
    decimal_value,
    hex_bytes,
    hex_digits,
    hex_pair,
    hex_value,
    is_decimal_digit,
    is_hex_digit,
    is_space,
    parse_decimal_spec,
    parse_hex_spec,
    parse_rgb_spec,
    parse_u8_spec,
    split,
    trim,
    trim_end,
    trim_start,
    unsigned_digits,
    ParseError,
};
use crate::naming::{decimal_text, digit_char};
use vstd::prelude::*;

verus! {

/// Six hexadecimal digits, with a `#` before them or without, are read as
/// the three bytes they write: each byte is sixteen times its first digit
/// plus its second. After a `#` the general parser reads them so too.
pub proof fn lemma_hex_recovers_bytes(d: Seq<char>)
    requires
        d.len() == 6,
        forall|i: int| 0 <= i < 6 ==> is_hex_digit(#[trigger] d[i]),
    ensures
        parse_hex_spec(d) == Ok::<Seq<u8>, ParseError>(hex_bytes(d)),
        parse_hex_spec(seq!['#'] + d) == Ok::<Seq<u8>, ParseError>(hex_bytes(d)),
        parse_rgb_spec(seq!['#'] + d) == Ok::<Seq<u8>, ParseError>(hex_bytes(d)),
        hex_bytes(d).len() == 3,
        forall|k: int|
            0 <= k < 3 ==> (#[trigger] hex_bytes(d)[k]) as int == 16 * hex_value(d[2 * k])
                + hex_value(d[2 * k + 1]),
{
    let h = seq!['#'] + d;
    assert(is_hex_digit(d[0]));
    assert(d[0] != '#');
    assert(hex_digits(d) == d);
    assert(h[0] == '#');
    assert(hex_digits(h) =~= d);
    assert forall|k: int| 0 <= k < 3 implies (#[trigger] hex_bytes(d)[k]) as int == 16 * hex_value(
        d[2 * k],
    ) + hex_value(d[2 * k + 1]) by {
        assert(is_hex_digit(d[2 * k]));
        assert(is_hex_digit(d[2 * k + 1]));
    }
}

/// Whether `s` is one or more decimal digits that write a number up to 255.
pub open spec fn is_byte_text(s: Seq<char>) -> bool {
    &&& s.len() > 0
    &&& forall|i: int| 0 <= i < s.len() ==> is_decimal_digit(#[trigger] s[i])
    &&& decimal_value(s) <= 255
}

/// Whether `s` holds white space and nothing else.
pub open spec fn is_blank(s: Seq<char>) -> bool {
    forall|i: int| 0 <= i < s.len() ==> is_space(#[trigger] s[i])
}

/// Appending text without a separator lengthens the last piece.
proof fn lemma_split_append(s: Seq<char>, t: Seq<char>, sep: char)
    requires
        forall|i: int| 0 <= i < t.len() ==> #[trigger] t[i] != sep,
    ensures
        split(s, sep).len() >= 1,
        split(s + t, sep) == split(s, sep).update(
            split(s, sep).len() - 1,
            split(s, sep).last() + t,
        ),
    decreases t.len(),
{
    lemma_split_nonempty(s, sep);
    let base = split(s, sep);
    if t.len() == 0 {
        assert(s + t =~= s);
        assert(base.last() + t =~= base.last());
        assert(base.update(base.len() - 1, base.last()) =~= base);
    } else {
        let t0 = t.drop_last();
        lemma_split_append(s, t0, sep);
        assert((s + t).drop_last() =~= s + t0);
        assert((s + t).last() == t.last());
        assert((base.last() + t0).push(t.last()) =~= base.last() + t);
        assert(split(s + t, sep) =~= base.update(base.len() - 1, base.last() + t));
    }
}

/// Every string has at least one piece.
proof fn lemma_split_nonempty(s: Seq<char>, sep: char)
    ensures
        split(s, sep).len() >= 1,
    decreases s.len(),
{
    if s.len() > 0 {
        lemma_split_nonempty(s.drop_last(), sep);
    }
}

/// A separator and then text without one add that text as a new piece.
proof fn lemma_split_next_piece(s: Seq<char>, t: Seq<char>, sep: char)
    requires
        forall|i: int| 0 <= i < t.len() ==> #[trigger] t[i] != sep,
    ensures
        split(s + seq![sep] + t, sep) == split(s, sep).push(t),
{
    let s1 = s + seq![sep];
    assert(s1.drop_last() =~= s);
    assert(s1.last() == sep);
    assert(split(s1, sep) == split(s, sep).push(Seq::<char>::empty()));
    lemma_split_append(s1, t, sep);
    assert(Seq::<char>::empty() + t =~= t);
    assert(split(s1 + t, sep) =~= split(s, sep).push(t));
}

/// White space before text that starts with none is trimmed away.
proof fn lemma_trim_start_blank(p: Seq<char>, x: Seq<char>)
    requires
        is_blank(p),
        x.len() == 0 || !is_space(x[0]),
    ensures
        trim_start(p + x) == x,
    decreases p.len(),
{
    if p.len() == 0 {
        assert(p + x =~= x);
    } else {
        assert((p + x)[0] == p[0]);
        assert((p + x).skip(1) =~= p.skip(1) + x);
        assert(is_blank(p.skip(1))) by {
            assert forall|i: int| 0 <= i < p.skip(1).len() implies is_space(
                #[trigger] p.skip(1)[i],
            ) by {
                assert(p.skip(1)[i] == p[i + 1]);
            }
        }
        lemma_trim_start_blank(p.skip(1), x);
    }
}

/// White space after text that ends with none is trimmed away.
proof fn lemma_trim_end_blank(x: Seq<char>, p: Seq<char>)
    requires
        is_blank(p),
        x.len() == 0 || !is_space(x.last()),
    ensures
        trim_end(x + p) == x,
    decreases p.len(),
{
    if p.len() == 0 {
        assert(x + p =~= x);
    } else {
        assert((x + p).last() == p.last());
        assert((x + p).drop_last() =~= x + p.drop_last());
        assert(is_blank(p.drop_last())) by {
            assert forall|i: int| 0 <= i < p.drop_last().len() implies is_space(
                #[trigger] p.drop_last()[i],
            ) by {
                assert(p.drop_last()[i] == p[i]);
            }
        }
        lemma_trim_end_blank(x, p.drop_last());
    }
}

/// A byte in decimal, white space around it, is read as that byte.
proof fn lemma_padded_byte(before: Seq<char>, digits: Seq<char>, after: Seq<char>)
    requires
        is_blank(before),
        is_blank(after),
        is_byte_text(digits),
    ensures
        parse_u8_spec(trim(before + digits + after)) == Some(decimal_value(digits) as u8),
        forall|i: int|
            0 <= i < (before + digits + after).len() ==> (#[trigger] (before + digits + after)[i])
                != ',',
        (before + digits + after).len() > 0,
        (before + digits + after)[0] != '#',
{
    let whole = before + digits + after;
    assert(is_decimal_digit(digits[0]));
    assert(is_decimal_digit(digits.last()));
    assert(whole =~= before + (digits + after));
    assert((digits + after)[0] == digits[0]);
    lemma_trim_start_blank(before, digits + after);
    lemma_trim_end_blank(digits, after);
    assert(trim(whole) == digits);
    assert(unsigned_digits(digits) == digits);
    assert forall|i: int| 0 <= i < whole.len() implies (#[trigger] whole[i]) != ',' && (i == 0
        ==> whole[i] != '#') by {
        if i < before.len() {
            assert(whole[i] == before[i]);
            assert(is_space(before[i]));
        } else if i < before.len() + digits.len() {
            assert(whole[i] == digits[i - before.len()]);
            assert(is_decimal_digit(digits[i - before.len()]));
        } else {
            assert(whole[i] == after[i - before.len() - digits.len()]);
            assert(is_space(after[i - before.len() - digits.len()]));
        }
    }
}

/// Three bytes in decimal with commas between them are read as those
/// bytes, whatever white space stands around each. `r`, `g` and `b` are the
/// three parts, each a byte's digits between two runs of white space.
pub proof fn lemma_decimal_recovers_bytes(
    r: (Seq<char>, Seq<char>, Seq<char>),
    g: (Seq<char>, Seq<char>, Seq<char>),
    b: (Seq<char>, Seq<char>, Seq<char>),
)
    requires
        is_blank(r.0) && is_byte_text(r.1) && is_blank(r.2),
        is_blank(g.0) && is_byte_text(g.1) && is_blank(g.2),
        is_blank(b.0) && is_byte_text(b.1) && is_blank(b.2),
    ensures
        ({
            let text = (r.0 + r.1 + r.2) + seq![','] + (g.0 + g.1 + g.2) + seq![','] + (b.0 + b.1
                + b.2);
            let bytes = seq![
                decimal_value(r.1) as u8,
                decimal_value(g.1) as u8,
                decimal_value(b.1) as u8,
            ];
            &&& parse_decimal_spec(text) == Ok::<Seq<u8>, ParseError>(bytes)
            &&& parse_rgb_spec(text) == Ok::<Seq<u8>, ParseError>(bytes)
        }),
{
    let pr = r.0 + r.1 + r.2;
    let pg = g.0 + g.1 + g.2;
    let pb = b.0 + b.1 + b.2;
    lemma_padded_byte(r.0, r.1, r.2);
    lemma_padded_byte(g.0, g.1, g.2);
    lemma_padded_byte(b.0, b.1, b.2);
    let empty = Seq::<char>::empty();
    assert(split(empty, ',') =~= seq![empty]);
    lemma_split_append(empty, pr, ',');
    assert(empty + pr =~= pr);
    assert(split(pr, ',') =~= seq![pr]);
    lemma_split_next_piece(pr, pg, ',');
    lemma_split_next_piece(pr + seq![','] + pg, pb, ',');
    let text = pr + seq![','] + pg + seq![','] + pb;
    assert(split(text, ',') =~= seq![pr, pg, pb]);
    assert(text[0] == pr[0]);
}

/// A number written in decimal is one or more digits, and reads back as
/// itself.
pub proof fn lemma_decimal_text_reads_back(n: nat)
    ensures
        decimal_text(n).len() > 0,
        forall|i: int| 0 <= i < decimal_text(n).len() ==> is_decimal_digit(#[trigger] decimal_text(n)[i]),
        decimal_value(decimal_text(n)) == n,
    decreases n,
{
    let t = decimal_text(n);
    if n < 10 {
        assert(t =~= seq![digit_char(n as int)]);
        assert(t.drop_last() =~= Seq::<char>::empty());
        assert(decimal_value(t.drop_last()) == 0);
        assert(code(digit_char(n as int)) == 0x30 + n);
    } else {
        let head = decimal_text(n / 10);
        lemma_decimal_text_reads_back(n / 10);
        assert(t.drop_last() =~= head);
        assert(t.last() == digit_char((n % 10) as int));
        assert(code(digit_char((n % 10) as int)) == 0x30 + n % 10);
        assert forall|i: int| 0 <= i < t.len() implies is_decimal_digit(#[trigger] t[i]) by {
            if i < head.len() {
                assert(t[i] == head[i]);
            }
        }
    }
}

/// Any three bytes, written in decimal with a comma and a space between
/// them, are read as those three bytes.
pub proof fn lemma_decimal_round_trip(r: u8, g: u8, b: u8)
    ensures
        parse_rgb_spec(
            decimal_text(r as nat) + seq![',', ' '] + decimal_text(g as nat) + seq![',', ' ']
                + decimal_text(b as nat),
        ) == Ok::<Seq<u8>, ParseError>(seq![r, g, b]),
{
    let none = Seq::<char>::empty();
    let space = seq![' '];
    let tr = decimal_text(r as nat);
    let tg = decimal_text(g as nat);
    let tb = decimal_text(b as nat);
    lemma_decimal_text_reads_back(r as nat);
    lemma_decimal_text_reads_back(g as nat);
    lemma_decimal_text_reads_back(b as nat);
    assert(is_space(space[0]));
    lemma_decimal_recovers_bytes((none, tr, none), (space, tg, none), (space, tb, none));
    assert((none + tr + none) + seq![','] + (space + tg + none) + seq![','] + (space + tb + none)
        =~= tr + seq![',', ' '] + tg + seq![',', ' '] + tb);
}

/// The character that writes the hexadecimal digit `v`, in upper case.
#[verifier::opaque]
pub open spec fn hex_digit_char(v: int) -> char {
    if v < 10 {
        digit_char(v)
    } else if v == 10 {
        'A'
    } else if v == 11 {
        'B'
    } else if v == 12 {
        'C'
    } else if v == 13 {
        'D'
    } else if v == 14 {
        'E'
    } else {
        'F'
    }
}

/// Three bytes as six hexadecimal digits: red, green, blue, two digits each.
pub open spec fn hex_text(r: u8, g: u8, b: u8) -> Seq<char> {
    seq![
        hex_digit_char(r as int / 16),
        hex_digit_char(r as int % 16),
        hex_digit_char(g as int / 16),
        hex_digit_char(g as int % 16),
        hex_digit_char(b as int / 16),
        hex_digit_char(b as int % 16),
    ]
}

/// Each of the sixteen digit characters is a hexadecimal digit of its value.
proof fn lemma_hex_digit_char(v: int)
    requires
        0 <= v < 16,
    ensures
        is_hex_digit(hex_digit_char(v)),
        hex_value(hex_digit_char(v)) == v,
{
    reveal(hex_digit_char);
}

/// A byte's two hexadecimal digits write that byte.
proof fn lemma_hex_pair_of_byte(v: u8)
    ensures
        is_hex_digit(hex_digit_char(v as int / 16)),
        is_hex_digit(hex_digit_char(v as int % 16)),
        hex_pair(hex_digit_char(v as int / 16), hex_digit_char(v as int % 16)) == v,
{
    lemma_hex_digit_char(v as int / 16);
    lemma_hex_digit_char(v as int % 16);
}

/// Any three bytes, written as six hexadecimal digits, are read as those
/// three bytes: by the hex form with a `#` before them or without, and by
/// the general parser with it.
pub proof fn lemma_hex_round_trip(r: u8, g: u8, b: u8)
    ensures
        parse_hex_spec(hex_text(r, g, b)) == Ok::<Seq<u8>, ParseError>(seq![r, g, b]),
        parse_hex_spec(seq!['#'] + hex_text(r, g, b)) == Ok::<Seq<u8>, ParseError>(seq![r, g, b]),
        parse_rgb_spec(seq!['#'] + hex_text(r, g, b)) == Ok::<Seq<u8>, ParseError>(seq![r, g, b]),
{
    let d = hex_text(r, g, b);
    lemma_hex_pair_of_byte(r);
    lemma_hex_pair_of_byte(g);
    lemma_hex_pair_of_byte(b);
    lemma_hex_recovers_bytes(d);
    assert(hex_bytes(d) =~= seq![r, g, b]);
}

} // verus!
