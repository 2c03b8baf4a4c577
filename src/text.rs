//! Building text: appending characters, decimal and fixed-point numbers, hex bytes.

use vstd::prelude::*;
use vstd::std_specs::iter::IteratorSpec;

verus! {

/// Relies on `String::push`: appends one character.
#[verifier::external_body]
pub fn push_char(s: &mut String, c: char)
    ensures
        final(s)@ == old(s)@.push(c),
{
    s.push(c)
}

/// The characters of a string slice, in order.
pub fn str_chars(t: &str) -> (r: Vec<char>)
    ensures
        r@ == t@,
{
    broadcast use vstd::string::group_string_axioms;

    let n = t.unicode_len();
    let mut it = t.chars();
    let mut v: Vec<char> = Vec::new();
    while v.len() < n
        invariant
            n == t@.len(),
            it.obeys_prophetic_iter_laws(),
            v@ + it.remaining() == t@,
        decreases n - v@.len(),
    {
        let ghost before = it.remaining();
        match it.next() {
            Some(c) => {
                v.push(c);
                assert(v@ + it.remaining() =~= t@) by {
                    assert(before =~= seq![c] + it.remaining());
                }
            },
            None => {
                assert(false);
            },
        }
    }
    assert(v@ =~= t@);
    v
}

/// Appends characters `from..to` of `cs`.
pub fn push_chars(s: &mut String, cs: &Vec<char>, from: usize, to: usize)
    requires
        from <= to <= cs@.len(),
    ensures
        final(s)@ == old(s)@ + cs@.subrange(from as int, to as int),
{
    let mut i = from;
    let ghost start = s@;
    while i < to
        invariant
            from <= i <= to,
            to <= cs@.len(),
            s@ == start + cs@.subrange(from as int, i as int),
        decreases to - i,
    {
        push_char(s, cs[i]);
        assert(cs@.subrange(from as int, i + 1) =~= cs@.subrange(from as int, i as int).push(cs@[i as int]));
        i += 1;
    }
}

/// Appends a string slice.
pub fn push_str(s: &mut String, t: &str)
    ensures
        final(s)@ == old(s)@ + t@,
{
    let cs = str_chars(t);
    push_chars(s, &cs, 0, cs.len());
    assert(cs@.subrange(0, cs@.len() as int) =~= t@);
}

/// Lower-case hexadecimal digit for a value below sixteen.
pub open spec fn hex_digit(d: int) -> char {
    if d == 0 { '0' }
    else if d == 1 { '1' }
    else if d == 2 { '2' }
    else if d == 3 { '3' }
    else if d == 4 { '4' }
    else if d == 5 { '5' }
    else if d == 6 { '6' }
    else if d == 7 { '7' }
    else if d == 8 { '8' }
    else if d == 9 { '9' }
    else if d == 10 { 'a' }
    else if d == 11 { 'b' }
    else if d == 12 { 'c' }
    else if d == 13 { 'd' }
    else if d == 14 { 'e' }
    else { 'f' }
}

pub fn hex_digit_exec(d: u8) -> (r: char)
    requires
        d < 16,
    ensures
        r == hex_digit(d as int),
{
    if d == 0 { '0' }
    else if d == 1 { '1' }
    else if d == 2 { '2' }
    else if d == 3 { '3' }
    else if d == 4 { '4' }
    else if d == 5 { '5' }
    else if d == 6 { '6' }
    else if d == 7 { '7' }
    else if d == 8 { '8' }
    else if d == 9 { '9' }
    else if d == 10 { 'a' }
    else if d == 11 { 'b' }
    else if d == 12 { 'c' }
    else if d == 13 { 'd' }
    else if d == 14 { 'e' }
    else { 'f' }
}

/// Decimal notation of a natural number, without leading zeros.
pub open spec fn dec(n: nat) -> Seq<char>
    decreases n,
{
    if n < 10 {
        seq![hex_digit(n as int)]
    } else {
        dec(n / 10).push(hex_digit((n % 10) as int))
    }
}

/// Appends the decimal notation of `n`.
pub fn push_decimal(s: &mut String, n: u128)
    ensures
        final(s)@ == old(s)@ + dec(n as nat),
    decreases n,
{
    if n >= 10 {
        push_decimal(s, n / 10);
    }
    push_char(s, hex_digit_exec((n % 10) as u8));
    assert(final(s)@ =~= old(s)@ + dec(n as nat));
}

/// A value given in hundredths, written with two decimals (`1234` is `12.34`).
pub open spec fn fixed2(h: nat) -> Seq<char> {
    dec(h / 100) + seq!['.', hex_digit(((h / 10) % 10) as int), hex_digit((h % 10) as int)]
}

/// Appends a value given in hundredths with two decimals.
pub fn push_fixed2(s: &mut String, h: u128)
    ensures
        final(s)@ == old(s)@ + fixed2(h as nat),
{
    push_decimal(s, h / 100);
    push_char(s, '.');
    push_char(s, hex_digit_exec(((h / 10) % 10) as u8));
    push_char(s, hex_digit_exec((h % 10) as u8));
    assert(final(s)@ =~= old(s)@ + fixed2(h as nat));
}

/// `num / den` in hundredths, rounded to the nearest, halves upward.
pub open spec fn hundredths(num: nat, den: nat) -> nat
    recommends
        den > 0,
{
    (200 * num + den) / (2 * den)
}

/// Two lower-case hex digits of a byte.
pub open spec fn hex2(b: u8) -> Seq<char> {
    seq![hex_digit(b as int / 16), hex_digit(b as int % 16)]
}

/// Appends a byte as two lower-case hex digits.
pub fn push_hex2(s: &mut String, b: u8)
    ensures
        final(s)@ == old(s)@ + hex2(b),
{
    push_char(s, hex_digit_exec(b / 16));
    push_char(s, hex_digit_exec(b % 16));
    assert(final(s)@ =~= old(s)@ + hex2(b));
}

/// `#rrggbb` notation of the colour part of an RGBA value.
pub open spec fn hex_color(c: [u8; 4]) -> Seq<char> {
    seq!['#'] + hex2(c@[0]) + hex2(c@[1]) + hex2(c@[2])
}

/// Writes the colour part of an RGBA value as `#rrggbb`.
pub fn hex_color_string(c: [u8; 4]) -> (r: String)
    ensures
        r@ == hex_color(c),
{
    let mut s = String::new();
    push_char(&mut s, '#');
    push_hex2(&mut s, c[0]);
    push_hex2(&mut s, c[1]);
    push_hex2(&mut s, c[2]);
    assert(s@ =~= hex_color(c));
    s
}

} // verus!
