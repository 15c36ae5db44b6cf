//! Decimal and hexadecimal rendering of numbers for disassembly text.
use vstd::prelude::*;

verus! {

/// The digit character for `d` (0-15); letters are upper case.
pub open spec fn digit_char(d: u32) -> char {
    if d == 0 { '0' } else if d == 1 { '1' } else if d == 2 { '2' } else if d == 3 { '3' }
    else if d == 4 { '4' } else if d == 5 { '5' } else if d == 6 { '6' } else if d == 7 { '7' }
    else if d == 8 { '8' } else if d == 9 { '9' } else if d == 10 { 'A' } else if d == 11 { 'B' }
    else if d == 12 { 'C' } else if d == 13 { 'D' } else if d == 14 { 'E' } else { 'F' }
}

/// `n` in decimal, without leading zeros.
pub open spec fn dec_text(n: u32) -> Seq<char>
    decreases n,
{
    if n < 10 {
        seq![digit_char(n)]
    } else {
        dec_text(n / 10).push(digit_char(n % 10))
    }
}

/// `n` in upper-case hexadecimal, without leading zeros.
pub open spec fn hex_text(n: u32) -> Seq<char>
    decreases n,
{
    if n < 16 {
        seq![digit_char(n)]
    } else {
        hex_text(n / 16).push(digit_char(n % 16))
    }
}

/// `n` in upper-case hexadecimal, zero-padded to eight digits.
pub open spec fn hex8_text(n: u32) -> Seq<char> {
    Seq::new(8, |i: int| digit_char((n >> (28 - 4 * i) as u32) & 0xF))
}

/// Appends one character (`String::push`).
#[verifier::external_body]
pub(crate) fn push_char(s: &mut String, c: char)
    ensures
        final(s)@ == old(s)@.push(c),
{
    s.push(c);
}

/// Appends a string slice (`String::push_str`).
#[verifier::external_body]
pub(crate) fn push_str(s: &mut String, t: &str)
    ensures
        final(s)@ == old(s)@ + t@,
{
    s.push_str(t);
}

pub fn digit(d: u32) -> (c: char)
    requires
        d < 16,
    ensures
        c == digit_char(d),
{
    match d {
        0 => '0',
        1 => '1',
        2 => '2',
        3 => '3',
        4 => '4',
        5 => '5',
        6 => '6',
        7 => '7',
        8 => '8',
        9 => '9',
        10 => 'A',
        11 => 'B',
        12 => 'C',
        13 => 'D',
        14 => 'E',
        _ => 'F',
    }
}

/// Appends `n` in decimal.
pub fn push_dec(s: &mut String, n: u32)
    ensures
        final(s)@ == old(s)@ + dec_text(n),
    decreases n,
{
    if n >= 10 {
        push_dec(s, n / 10);
    }
    push_char(s, digit(n % 10));
    assert(s@ =~= old(s)@ + dec_text(n));
}

/// Appends `n` in upper-case hexadecimal.
pub fn push_hex(s: &mut String, n: u32)
    ensures
        final(s)@ == old(s)@ + hex_text(n),
    decreases n,
{
    if n >= 16 {
        push_hex(s, n / 16);
    }
    push_char(s, digit(n % 16));
    assert(s@ =~= old(s)@ + hex_text(n));
}

/// Appends `n` as eight upper-case hexadecimal digits.
pub fn push_hex8(s: &mut String, n: u32)
    ensures
        final(s)@ == old(s)@ + hex8_text(n),
{
    let mut i: u32 = 0;
    while i < 8
        invariant
            i <= 8,
            s@ == old(s)@ + hex8_text(n).take(i as int),
        decreases 8 - i,
    {
        let sh: u32 = 28 - 4 * i;
        let d = (n >> sh) & 0xF;
        assert(d < 16) by (bit_vector)
            requires
                d == (n >> sh) & 0xF,
        ;
        push_char(s, digit(d));
        assert(hex8_text(n).take(i as int + 1) =~= hex8_text(n).take(i as int).push(digit_char(d)));
        i = i + 1;
    }
    assert(hex8_text(n).take(8) =~= hex8_text(n));
}


/// The low `w` hexadecimal digits of `n` (at most eight), most significant first.
pub open spec fn hex_digits(n: u32, w: u32) -> Seq<char> {
    Seq::new(w as nat, |i: int| digit_char((n >> (4 * (w - 1 - i)) as u32) & 0xF))
}

/// Appends the low `w` hexadecimal digits of `n`, zero-padded.
pub fn push_hex_digits(s: &mut String, n: u32, w: u32)
    requires
        w <= 8,
    ensures
        final(s)@ == old(s)@ + hex_digits(n, w),
{
    let mut i: u32 = 0;
    while i < w
        invariant
            i <= w <= 8,
            s@ == old(s)@ + hex_digits(n, w).take(i as int),
        decreases w - i,
    {
        let sh: u32 = 4 * (w - 1 - i);
        let d = (n >> sh) & 0xF;
        assert(d < 16) by (bit_vector)
            requires
                d == (n >> sh) & 0xF,
        ;
        push_char(s, digit(d));
        assert(hex_digits(n, w).take(i as int + 1) =~= hex_digits(n, w).take(i as int).push(digit_char(d)));
        i = i + 1;
    }
    assert(hex_digits(n, w).take(w as int) =~= hex_digits(n, w));
}

} // verus!
