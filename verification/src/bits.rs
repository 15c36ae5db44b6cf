//! Bit-level arithmetic of the core: APSR flags, condition codes, barrel shifter,
//! modified immediates and the add/subtract flag rules.
use vstd::prelude::*;
use crate::arch::{ArmCC, cc_bits};

verus! {

/// APSR bit positions of the condition flags.
pub const FLAG_N: u32 = 31;
pub const FLAG_Z: u32 = 30;
pub const FLAG_C: u32 = 29;
pub const FLAG_V: u32 = 28;

/// Bit `n` of `v`, as 0 or 1.
pub open spec fn bit(v: u32, n: u32) -> u32 {
    (v >> n) & 1
}

/// `word` with bit `n` set when `on`, cleared otherwise.
pub open spec fn with_bit(word: u32, n: u32, on: bool) -> u32 {
    if on { word | (1u32 << n) } else { word & !(1u32 << n) }
}

/// The APSR after N and Z are set from `result`.
pub open spec fn nz_flags(apsr: u32, result: u32) -> u32 {
    with_bit(with_bit(apsr, FLAG_N, bit(result, 31) == 1), FLAG_Z, result == 0)
}

/// The APSR after N, Z, C and V are set.
pub open spec fn nzcv_flags(apsr: u32, result: u32, c: bool, v: bool) -> u32 {
    with_bit(with_bit(nz_flags(apsr, result), FLAG_C, c), FLAG_V, v)
}

/// Sets or clears one bit of a word.
pub fn set_bit(word: u32, n: u32, on: bool) -> (r: u32)
    requires
        n < 32,
    ensures
        r == with_bit(word, n, on),
        bit(r, n) == (if on { 1u32 } else { 0u32 }),
        forall|k: u32| k < 32 && k != n ==> #[trigger] bit(r, k) == bit(word, k),
{
    let r = if on { word | (1u32 << n) } else { word & !(1u32 << n) };
    assert(bit(r, n) == (if on { 1u32 } else { 0u32 })) by (bit_vector)
        requires
            n < 32,
            r == (if on { word | (1u32 << n) } else { word & !(1u32 << n) }),
    ;
    assert forall|k: u32| k < 32 && k != n implies #[trigger] bit(r, k) == bit(word, k) by {
        assert(bit(r, k) == bit(word, k)) by (bit_vector)
            requires
                n < 32,
                k < 32,
                k != n,
                r == (if on { word | (1u32 << n) } else { word & !(1u32 << n) }),
        ;
    }
    r
}

/// The APSR after N is set from bit 31 of `result`.
pub fn apsr_with_n(apsr: u32, result: u32) -> (r: u32)
    ensures
        r == with_bit(apsr, FLAG_N, bit(result, 31) == 1),
{
    let on = (result & (1u32 << 31)) != 0;
    assert(on == (bit(result, 31) == 1)) by (bit_vector)
        requires
            on == ((result & (1u32 << 31)) != 0),
    ;
    set_bit(apsr, FLAG_N, on)
}

/// The APSR after Z is set when `result` is zero.
pub fn apsr_with_z(apsr: u32, result: u32) -> (r: u32)
    ensures
        r == with_bit(apsr, FLAG_Z, result == 0),
{
    set_bit(apsr, FLAG_Z, result == 0)
}

/// The APSR after C is set from a nonzero `flag`.
pub fn apsr_with_c(apsr: u32, flag: u8) -> (r: u32)
    ensures
        r == with_bit(apsr, FLAG_C, flag != 0),
{
    set_bit(apsr, FLAG_C, flag != 0)
}

/// The APSR after V is set from a nonzero `flag`.
pub fn apsr_with_v(apsr: u32, flag: u8) -> (r: u32)
    ensures
        r == with_bit(apsr, FLAG_V, flag != 0),
{
    set_bit(apsr, FLAG_V, flag != 0)
}

/// The APSR after N and Z are set from `result`.
pub fn apsr_with_nz(apsr: u32, result: u32) -> (r: u32)
    ensures
        r == nz_flags(apsr, result),
{
    apsr_with_z(apsr_with_n(apsr, result), result)
}

/// The APSR after all four condition flags are set.
pub fn apsr_with_nzcv(apsr: u32, result: u32, c: bool, v: bool) -> (r: u32)
    ensures
        r == nzcv_flags(apsr, result, c, v),
{
    let a = apsr_with_nz(apsr, result);
    let a = set_bit(a, FLAG_C, c);
    set_bit(a, FLAG_V, v)
}

/// Whether condition `cc` holds for the flags in `apsr`, as the architecture defines it.
pub open spec fn condition_holds(apsr: u32, cc: ArmCC) -> bool {
    let n = bit(apsr, FLAG_N) == 1;
    let z = bit(apsr, FLAG_Z) == 1;
    let c = bit(apsr, FLAG_C) == 1;
    let v = bit(apsr, FLAG_V) == 1;
    match cc {
        ArmCC::ARM_CC_EQ => z,
        ArmCC::ARM_CC_NE => !z,
        ArmCC::ARM_CC_HS => c,
        ArmCC::ARM_CC_LO => !c,
        ArmCC::ARM_CC_MI => n,
        ArmCC::ARM_CC_PL => !n,
        ArmCC::ARM_CC_VS => v,
        ArmCC::ARM_CC_VC => !v,
        ArmCC::ARM_CC_HI => c && !z,
        ArmCC::ARM_CC_LS => !c || z,
        ArmCC::ARM_CC_GE => n == v,
        ArmCC::ARM_CC_LT => n != v,
        ArmCC::ARM_CC_GT => !z && n == v,
        ArmCC::ARM_CC_LE => z || n != v,
        ArmCC::ARM_CC_AL => true,
    }
}

/// Evaluates a condition code against an APSR value.
pub fn condition_passed(apsr: u32, cc: ArmCC) -> (r: bool)
    ensures
        r == condition_holds(apsr, cc),
{
    let n = (apsr >> 31) & 1;
    let z = (apsr >> 30) & 1;
    let c = (apsr >> 29) & 1;
    let v = (apsr >> 28) & 1;
    assert(n == bit(apsr, FLAG_N) && z == bit(apsr, FLAG_Z) && c == bit(apsr, FLAG_C) && v == bit(
        apsr,
        FLAG_V,
    ));
    assert(n <= 1 && z <= 1 && c <= 1 && v <= 1) by (bit_vector)
        requires
            n == (apsr >> 31) & 1,
            z == (apsr >> 30) & 1,
            c == (apsr >> 29) & 1,
            v == (apsr >> 28) & 1,
    ;
    match cc {
        ArmCC::ARM_CC_EQ => z == 1,
        ArmCC::ARM_CC_NE => z == 0,
        ArmCC::ARM_CC_HS => c == 1,
        ArmCC::ARM_CC_LO => c == 0,
        ArmCC::ARM_CC_MI => n == 1,
        ArmCC::ARM_CC_PL => n == 0,
        ArmCC::ARM_CC_VS => v == 1,
        ArmCC::ARM_CC_VC => v == 0,
        ArmCC::ARM_CC_HI => c == 1 && z == 0,
        ArmCC::ARM_CC_LS => c == 0 || z == 1,
        ArmCC::ARM_CC_GE => n == v,
        ArmCC::ARM_CC_LT => n != v,
        ArmCC::ARM_CC_GT => z == 0 && n == v,
        ArmCC::ARM_CC_LE => z == 1 || n != v,
        ArmCC::ARM_CC_AL => true,
    }
}

/// The condition codes come in complementary pairs: the even code holds exactly when
/// the odd code that follows it fails, and `AL` always holds.
pub proof fn lemma_condition_pairs_complement(apsr: u32, cc: ArmCC, inverse: ArmCC)
    requires
        cc_bits(cc) % 2 == 0,
        cc_bits(cc) < 14,
        cc_bits(inverse) == cc_bits(cc) + 1,
    ensures
        condition_holds(apsr, cc) == !condition_holds(apsr, inverse),
        condition_holds(apsr, ArmCC::ARM_CC_AL),
{
}

/// LSL with carry out: the result and the last bit shifted out.
pub open spec fn lsl_c(value: u32, amount: u32, carry_in: u8) -> (u32, u8) {
    if amount == 0 {
        (value, carry_in)
    } else if amount < 32 {
        (value << amount, ((value >> (32 - amount) as u32) & 1) as u8)
    } else if amount == 32 {
        (0, (value & 1) as u8)
    } else {
        (0, 0)
    }
}

/// LSR with carry out.
pub open spec fn lsr_c(value: u32, amount: u32, carry_in: u8) -> (u32, u8) {
    if amount == 0 {
        (value, carry_in)
    } else if amount < 32 {
        (value >> amount, ((value >> (amount - 1) as u32) & 1) as u8)
    } else if amount == 32 {
        (0, ((value >> 31) & 1) as u8)
    } else {
        (0, 0)
    }
}

/// Arithmetic shift right by 1 to 31 bits: the sign bit is copied into the vacated bits.
pub open spec fn asr_value(value: u32, amount: u32) -> u32 {
    if bit(value, 31) == 1 { !((!value) >> amount) } else { value >> amount }
}

/// ASR with carry out; shifts of 32 or more fill the word with the sign bit.
pub open spec fn asr_c(value: u32, amount: u32, carry_in: u8) -> (u32, u8) {
    if amount == 0 {
        (value, carry_in)
    } else if amount < 32 {
        (asr_value(value, amount), ((value >> (amount - 1) as u32) & 1) as u8)
    } else {
        (if bit(value, 31) == 1 { 0xFFFF_FFFFu32 } else { 0u32 }, bit(value, 31) as u8)
    }
}

/// Rotate right by 1 to 31 bits.
pub open spec fn rotr(value: u32, amount: u32) -> u32 {
    (value >> amount) | (value << (32 - amount) as u32)
}

/// ROR with carry out; the rotation is taken modulo 32 and the carry is bit 31 of the result.
pub open spec fn ror_c(value: u32, amount: u32, carry_in: u8) -> (u32, u8) {
    if amount == 0 {
        (value, carry_in)
    } else if amount % 32 == 0 {
        (value, ((value >> 31) & 1) as u8)
    } else {
        (rotr(value, amount % 32), ((rotr(value, amount % 32) >> 31) & 1) as u8)
    }
}

/// RRX: rotate right by one through the carry flag.
pub open spec fn rrx_c(value: u32, carry_in: u8) -> (u32, u8) {
    ((value >> 1) | ((carry_in as u32) << 31), (value & 1) as u8)
}

/// Logical shift left with carry out.
pub fn shift_lsl(value: u32, amount: u32, carry_in: u8) -> (r: (u32, u8))
    ensures
        r == lsl_c(value, amount, carry_in),
{
    if amount == 0 {
        (value, carry_in)
    } else if amount < 32 {
        (value << amount, ((value >> (32 - amount)) & 1) as u8)
    } else if amount == 32 {
        (0, (value & 1) as u8)
    } else {
        (0, 0)
    }
}

/// Logical shift right with carry out.
pub fn shift_lsr(value: u32, amount: u32, carry_in: u8) -> (r: (u32, u8))
    ensures
        r == lsr_c(value, amount, carry_in),
{
    if amount == 0 {
        (value, carry_in)
    } else if amount < 32 {
        (value >> amount, ((value >> (amount - 1)) & 1) as u8)
    } else if amount == 32 {
        (0, ((value >> 31) & 1) as u8)
    } else {
        (0, 0)
    }
}

/// Arithmetic shift right with carry out.
pub fn shift_asr(value: u32, amount: u32, carry_in: u8) -> (r: (u32, u8))
    ensures
        r == asr_c(value, amount, carry_in),
{
    if amount == 0 {
        (value, carry_in)
    } else if amount < 32 {
        let negative = (value >> 31) & 1 == 1;
        assert(negative == (bit(value, 31) == 1));
        let res = if negative { !((!value) >> amount) } else { value >> amount };
        (res, ((value >> (amount - 1)) & 1) as u8)
    } else {
        let sign = (value >> 31) & 1;
        (if sign == 1 { 0xFFFF_FFFFu32 } else { 0u32 }, sign as u8)
    }
}

/// Rotate right with carry out.
pub fn shift_ror(value: u32, amount: u32, carry_in: u8) -> (r: (u32, u8))
    ensures
        r == ror_c(value, amount, carry_in),
{
    if amount == 0 {
        (value, carry_in)
    } else {
        let s = amount % 32;
        if s == 0 {
            (value, ((value >> 31) & 1) as u8)
        } else {
            let res = (value >> s) | (value << (32 - s));
            (res, ((res >> 31) & 1) as u8)
        }
    }
}

/// Rotate right through the carry flag.
pub fn shift_rrx(value: u32, carry_in: u8) -> (r: (u32, u8))
    ensures
        r == rrx_c(value, carry_in),
{
    ((value >> 1) | ((carry_in as u32) << 31), (value & 1) as u8)
}

/// Sign-extends the low `bits` bits of `value`.
pub open spec fn sign_extend_spec(value: u32, bits: u32) -> i32 {
    (((value << (32 - bits) as u32) as i32) >> (32 - bits) as u32)
}

/// Sign-extends the low `bits` bits of `value` to 32 bits.
pub fn sign_extend(value: u32, bits: u32) -> (r: i32)
    requires
        1 <= bits <= 32,
    ensures
        r == sign_extend_spec(value, bits),
{
    let shift = 32 - bits;
    ((value << shift) as i32) >> shift
}

/// The Thumb modified-immediate expansion of a 12-bit field (without carry).
pub open spec fn thumb_expand_imm12_spec(imm12: u16) -> u32 {
    let imm8 = (imm12 & 0xFF) as u32;
    if (imm12 >> 10u16) == 0 {
        let mode = (imm12 >> 8u16) & 0x3;
        if mode == 0 {
            imm8
        } else if mode == 1 {
            (imm8 << 16u32) | imm8
        } else if mode == 2 {
            (imm8 << 24u32) | (imm8 << 8u32)
        } else {
            (imm8 << 24u32) | (imm8 << 16u32) | (imm8 << 8u32) | imm8
        }
    } else {
        rotr(0x80 | (imm8 & 0x7F), ((imm12 >> 7u16) & 0x1F) as u32)
    }
}

/// Expands a Thumb modified immediate.
pub fn thumb_expand_imm12(imm12: u16) -> (r: u32)
    requires
        imm12 < 0x1000,
    ensures
        r == thumb_expand_imm12_spec(imm12),
{
    let imm8 = (imm12 & 0xFF) as u32;
    if (imm12 >> 10) == 0 {
        let mode = (imm12 >> 8) & 0x3;
        if mode == 0 {
            imm8
        } else if mode == 1 {
            (imm8 << 16) | imm8
        } else if mode == 2 {
            (imm8 << 24) | (imm8 << 8)
        } else {
            (imm8 << 24) | (imm8 << 16) | (imm8 << 8) | imm8
        }
    } else {
        let unrotated = 0x80 | (imm8 & 0x7F);
        let rot = ((imm12 >> 7) & 0x1F) as u32;
        // the top two bits of imm12 are not both zero, so the rotation is at least 8
        assert(rot >= 8 && rot < 32) by (bit_vector)
            requires
                (imm12 >> 10u16) != 0,
                imm12 < 0x1000,
                rot == ((imm12 >> 7u16) & 0x1F) as u32,
        ;
        (unrotated >> rot) | (unrotated << (32 - rot))
    }
}

/// Sign of a word read as two's complement.
pub open spec fn sign(v: u32) -> u32 {
    v >> 31
}

/// Carry out of `a + b` (plus an optional carry in).
pub open spec fn add_carry(a: u32, b: u32, carry_in: u32) -> bool {
    a as int + b as int + carry_in as int > u32::MAX as int
}

/// Signed overflow of an addition: both operands have the same sign and the result does not.
pub open spec fn add_overflow(a: u32, b: u32, result: u32) -> bool {
    sign(a) == sign(b) && sign(result) != sign(a)
}

/// Signed overflow of `a - b`: the operands have different signs and the result's sign
/// differs from that of `a`.
pub open spec fn sub_overflow(a: u32, b: u32, result: u32) -> bool {
    sign(a) != sign(b) && sign(result) != sign(a)
}

/// Overflow bit of an addition, computed as the hardware does.
pub fn add_overflow_bit(a: u32, b: u32, result: u32) -> (r: u8)
    ensures
        r == (if add_overflow(a, b, result) { 1u8 } else { 0u8 }),
{
    let x = (((a ^ result) & (b ^ result)) >> 31) & 1;
    assert(x == (if sign(a) == sign(b) && sign(result) != sign(a) { 1u32 } else { 0u32 }))
        by (bit_vector)
        requires
            x == (((a ^ result) & (b ^ result)) >> 31) & 1,
    ;
    x as u8
}

/// Overflow bit of a subtraction, computed as the hardware does.
pub fn sub_overflow_bit(a: u32, b: u32, result: u32) -> (r: u8)
    ensures
        r == (if sub_overflow(a, b, result) { 1u8 } else { 0u8 }),
{
    let x = (((a ^ b) & (a ^ result)) >> 31) & 1;
    assert(x == (if sign(a) != sign(b) && sign(result) != sign(a) { 1u32 } else { 0u32 }))
        by (bit_vector)
        requires
            x == (((a ^ b) & (a ^ result)) >> 31) & 1,
    ;
    x as u8
}

/// Carry out of an addition.
pub fn add_carry_bit(a: u32, b: u32) -> (r: u8)
    ensures
        r == (if add_carry(a, b, 0) { 1u8 } else { 0u8 }),
{
    if (a as u64) + (b as u64) > 0xFFFF_FFFF { 1 } else { 0 }
}

} // verus!
