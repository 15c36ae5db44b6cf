use vstd::prelude::*;

verus! {

/// Condition codes of the ARM architecture, in encoding order (`EQ` is 0, `AL` is 14).
#[derive(Clone, Copy, Debug, PartialEq, Eq, Structural)]
pub enum ArmCC {
    ARM_CC_EQ,
    ARM_CC_NE,
    ARM_CC_HS,
    ARM_CC_LO,
    ARM_CC_MI,
    ARM_CC_PL,
    ARM_CC_VS,
    ARM_CC_VC,
    ARM_CC_HI,
    ARM_CC_LS,
    ARM_CC_GE,
    ARM_CC_LT,
    ARM_CC_GT,
    ARM_CC_LE,
    ARM_CC_AL,
}

/// The four-bit encoding of a condition code.
pub open spec fn cc_bits(cc: ArmCC) -> u8 {
    match cc {
        ArmCC::ARM_CC_EQ => 0,
        ArmCC::ARM_CC_NE => 1,
        ArmCC::ARM_CC_HS => 2,
        ArmCC::ARM_CC_LO => 3,
        ArmCC::ARM_CC_MI => 4,
        ArmCC::ARM_CC_PL => 5,
        ArmCC::ARM_CC_VS => 6,
        ArmCC::ARM_CC_VC => 7,
        ArmCC::ARM_CC_HI => 8,
        ArmCC::ARM_CC_LS => 9,
        ArmCC::ARM_CC_GE => 10,
        ArmCC::ARM_CC_LT => 11,
        ArmCC::ARM_CC_GT => 12,
        ArmCC::ARM_CC_LE => 13,
        ArmCC::ARM_CC_AL => 14,
    }
}

impl ArmCC {
    pub open spec fn from_bits_spec(bits: u8) -> ArmCC {
        if bits == 0 { ArmCC::ARM_CC_EQ } else if bits == 1 { ArmCC::ARM_CC_NE }
        else if bits == 2 { ArmCC::ARM_CC_HS } else if bits == 3 { ArmCC::ARM_CC_LO }
        else if bits == 4 { ArmCC::ARM_CC_MI } else if bits == 5 { ArmCC::ARM_CC_PL }
        else if bits == 6 { ArmCC::ARM_CC_VS } else if bits == 7 { ArmCC::ARM_CC_VC }
        else if bits == 8 { ArmCC::ARM_CC_HI } else if bits == 9 { ArmCC::ARM_CC_LS }
        else if bits == 10 { ArmCC::ARM_CC_GE } else if bits == 11 { ArmCC::ARM_CC_LT }
        else if bits == 12 { ArmCC::ARM_CC_GT } else if bits == 13 { ArmCC::ARM_CC_LE }
        else { ArmCC::ARM_CC_AL }
    }

    /// Decodes a four-bit condition field; the values 14 and 15 both mean "always".
    pub fn from_u8(bits: u8) -> (cc: ArmCC)
        ensures
            cc == ArmCC::from_bits_spec(bits),
            bits < 15 ==> cc_bits(cc) == bits,
            bits >= 14 ==> cc == ArmCC::ARM_CC_AL,
    {
        match bits {
            0 => ArmCC::ARM_CC_EQ,
            1 => ArmCC::ARM_CC_NE,
            2 => ArmCC::ARM_CC_HS,
            3 => ArmCC::ARM_CC_LO,
            4 => ArmCC::ARM_CC_MI,
            5 => ArmCC::ARM_CC_PL,
            6 => ArmCC::ARM_CC_VS,
            7 => ArmCC::ARM_CC_VC,
            8 => ArmCC::ARM_CC_HI,
            9 => ArmCC::ARM_CC_LS,
            10 => ArmCC::ARM_CC_GE,
            11 => ArmCC::ARM_CC_LT,
            12 => ArmCC::ARM_CC_GT,
            13 => ArmCC::ARM_CC_LE,
            _ => ArmCC::ARM_CC_AL,
        }
    }
}

/// The instructions that the interpreter and the block builder know by kind.
#[derive(Clone, Copy, Debug, PartialEq, Eq, Structural)]
pub enum ArmInsn {
    ARM_INS_INVALID,
    ARM_INS_ADC,
    ARM_INS_ADD,
    ARM_INS_ADR,
    ARM_INS_AND,
    ARM_INS_ASR,
    ARM_INS_B,
    ARM_INS_BIC,
    ARM_INS_BKPT,
    ARM_INS_BL,
    ARM_INS_BLX,
    ARM_INS_BX,
    ARM_INS_CBNZ,
    ARM_INS_CBZ,
    ARM_INS_CMN,
    ARM_INS_CMP,
    ARM_INS_EOR,
    ARM_INS_HINT,
    ARM_INS_IT,
    ARM_INS_LDM,
    ARM_INS_LDR,
    ARM_INS_LDRB,
    ARM_INS_LDRH,
    ARM_INS_LDRSB,
    ARM_INS_LDRSH,
    ARM_INS_LSL,
    ARM_INS_LSR,
    ARM_INS_MLS,
    ARM_INS_MOV,
    ARM_INS_MOVS,
    ARM_INS_MUL,
    ARM_INS_MVN,
    ARM_INS_NOP,
    ARM_INS_ORN,
    ARM_INS_ORR,
    ARM_INS_POP,
    ARM_INS_PUSH,
    ARM_INS_ROR,
    ARM_INS_RRX,
    ARM_INS_RSB,
    ARM_INS_SBC,
    ARM_INS_STM,
    ARM_INS_STR,
    ARM_INS_STRB,
    ARM_INS_STRH,
    ARM_INS_SUB,
    ARM_INS_TEQ,
    ARM_INS_TST,
    ARM_INS_UBFX,
    ARM_INS_UDIV,
    ARM_INS_UXTB,
    ARM_INS_UXTH,
}

} // verus!
