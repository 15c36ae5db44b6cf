//! Assembler text of operands, as the interpreter reports it.
use vstd::prelude::*;
use crate::text::{dec_text, hex_text, hex8_text, push_char, push_dec, push_hex, push_hex8};
use crate::opcodes::thumb_runtime::in_mask;

verus! {

/// `r<n>`.
pub open spec fn t_reg(r: u32) -> Seq<char> {
    seq!['r'] + dec_text(r)
}

/// `#0x<hex>`.
pub open spec fn t_hex(v: u32) -> Seq<char> {
    seq!['#', '0', 'x'] + hex_text(v)
}

/// `#<decimal>`.
pub open spec fn t_dec(v: u32) -> Seq<char> {
    seq!['#'] + dec_text(v)
}

/// `#0x<eight hex digits>`.
pub open spec fn t_target(v: u32) -> Seq<char> {
    seq!['#', '0', 'x'] + hex8_text(v)
}

/// `, `.
pub open spec fn t_sep() -> Seq<char> {
    seq![',', ' ']
}

/// The name of a register in a register list: `sp`, `lr`, `pc`, `ip`, or `r<n>`.
pub open spec fn t_list_name(r: u32) -> Seq<char> {
    if r == 13 {
        seq!['s', 'p']
    } else if r == 14 {
        seq!['l', 'r']
    } else if r == 15 {
        seq!['p', 'c']
    } else if r == 12 {
        seq!['i', 'p']
    } else {
        t_reg(r)
    }
}

/// The names of the registers of `mask` below `n`, separated by `, `.
pub open spec fn t_list_body(mask: u16, n: int) -> Seq<char>
    decreases n,
{
    if n <= 0 {
        seq![]
    } else if in_mask(mask, n - 1) {
        if t_list_body(mask, n - 1).len() == 0 {
            t_list_name((n - 1) as u32)
        } else {
            t_list_body(mask, n - 1) + t_sep() + t_list_name((n - 1) as u32)
        }
    } else {
        t_list_body(mask, n - 1)
    }
}

/// `{r0, r1, lr}`.
pub open spec fn t_list(mask: u16) -> Seq<char> {
    seq!['{'] + t_list_body(mask, 16) + seq!['}']
}

pub fn w_reg(s: &mut String, r: u32)
    ensures
        final(s)@ == old(s)@ + t_reg(r),
{
    push_char(s, 'r');
    push_dec(s, r);
    assert(s@ =~= old(s)@ + t_reg(r));
}

pub fn w_hex(s: &mut String, v: u32)
    ensures
        final(s)@ == old(s)@ + t_hex(v),
{
    push_char(s, '#');
    push_char(s, '0');
    push_char(s, 'x');
    push_hex(s, v);
    assert(s@ =~= old(s)@ + t_hex(v));
}

pub fn w_dec(s: &mut String, v: u32)
    ensures
        final(s)@ == old(s)@ + t_dec(v),
{
    push_char(s, '#');
    push_dec(s, v);
    assert(s@ =~= old(s)@ + t_dec(v));
}

pub fn w_target(s: &mut String, v: u32)
    ensures
        final(s)@ == old(s)@ + t_target(v),
{
    push_char(s, '#');
    push_char(s, '0');
    push_char(s, 'x');
    push_hex8(s, v);
    assert(s@ =~= old(s)@ + t_target(v));
}

pub fn w_sep(s: &mut String)
    ensures
        final(s)@ == old(s)@ + t_sep(),
{
    push_char(s, ',');
    push_char(s, ' ');
    assert(s@ =~= old(s)@ + t_sep());
}

pub fn w_list_name(s: &mut String, r: u32)
    ensures
        final(s)@ == old(s)@ + t_list_name(r),
{
    if r == 13 {
        push_char(s, 's');
        push_char(s, 'p');
    } else if r == 14 {
        push_char(s, 'l');
        push_char(s, 'r');
    } else if r == 15 {
        push_char(s, 'p');
        push_char(s, 'c');
    } else if r == 12 {
        push_char(s, 'i');
        push_char(s, 'p');
    } else {
        w_reg(s, r);
    }
    assert(s@ =~= old(s)@ + t_list_name(r));
}

proof fn lemma_list_name_nonempty(r: u32)
    ensures
        t_list_name(r).len() > 0,
{
}

/// The register list of `mask` as text.
pub fn reg_mask_to_string(mask: u16) -> (s: String)
    ensures
        s@ == t_list(mask),
{
    let mut s = String::new();
    push_char(&mut s, '{');
    let mut first = true;
    let mut reg: u32 = 0;
    while reg < 16
        invariant
            reg <= 16,
            s@ == seq!['{'] + t_list_body(mask, reg as int),
            first == (t_list_body(mask, reg as int).len() == 0),
        decreases 16 - reg,
    {
        if (mask >> (reg as u16)) & 1 == 1 {
            if !first {
                w_sep(&mut s);
            }
            w_list_name(&mut s, reg);
            proof {
                lemma_list_name_nonempty(reg);
            }
            first = false;
        }
        assert(s@ =~= seq!['{'] + t_list_body(mask, reg as int + 1));
        reg = reg + 1;
    }
    push_char(&mut s, '}');
    assert(s@ =~= t_list(mask));
    s
}

} // verus!
