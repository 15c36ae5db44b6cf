//! Decoding of the Thumb encodings that the interpreter executes.
use vstd::prelude::*;
use crate::arch::ArmCC;
use crate::bits::{sign_extend, sign_extend_spec, thumb_expand_imm12, thumb_expand_imm12_spec};
use crate::opcodes::thumb_runtime::{ShiftKind, shift_kind_of};

verus! {

/// Access sizes of loads and stores.
#[derive(Clone, Copy, PartialEq, Eq, Structural)]
pub enum MemSize {
    Word,
    Byte,
    Half,
    SignedByte,
    SignedHalf,
}

/// A decoded Thumb instruction; addresses that depend only on the instruction's own
/// address (branch targets, ADR values) are resolved.
#[derive(Clone, Copy, PartialEq, Eq, Structural)]
pub enum ThumbInstr {
    B { target: u32 },
    BCond { cond: ArmCC, target: u32 },
    Cbz { nonzero: bool, rn: u32, target: u32 },
    Bl { target: u32 },
    Bx { rm: u32, link: bool },
    LdrLiteral { rt: u32, imm: u32, wide: bool },
    LoadImm { size: MemSize, rt: u32, rn: u32, imm: u32, wide: bool },
    StoreImm { size: MemSize, rt: u32, rn: u32, imm: u32, wide: bool },
    LoadReg { size: MemSize, rt: u32, rn: u32, rm: u32 },
    StoreReg { size: MemSize, rt: u32, rn: u32, rm: u32 },
    LoadSp { rt: u32, imm: u32 },
    StoreSp { rt: u32, imm: u32 },
    AdjustSp { subtract: bool, imm: u32 },
    Adr { rd: u32, value: u32 },
    AddSpImm { rd: u32, imm: u32 },
    Push { mask: u16, wide: bool },
    Pop { mask: u16, wide: bool },
    Ldm { rn: u32, mask: u16, writeback: bool, wide: bool },
    Stm { rn: u32, mask: u16 },
    AddHigh { rdn: u32, rm: u32 },
    CmpHigh { rdn: u32, rm: u32 },
    MovHigh { rdn: u32, rm: u32 },
    DataProc { op: u16, rdn: u32, rm: u32 },
    ShiftImm { kind: ShiftKind, rd: u32, rm: u32, amount: u32 },
    AddSubReg3 { subtract: bool, rd: u32, rn: u32, rm: u32 },
    AddSubImm3 { subtract: bool, rd: u32, rn: u32, imm: u32 },
    Imm8 { op: u16, rd: u32, imm: u32 },
    Bkpt { imm: u32 },
    Nop,
    Movw { rd: u32, imm16: u32 },
    Movt { rd: u32, imm16: u32 },
    Udiv { rd: u32, rn: u32, rm: u32 },
    Mls { rd: u32, rn: u32, rm: u32, ra: u32 },
    Ubfx { rd: u32, rn: u32, lsb: u32, width: u32 },
    ModImm { op: u16, rd: u32, rn: u32, imm: u32, setflags: bool },
    ShiftedReg { op: u16, rd: u32, rn: u32, rm: u32, kind: ShiftKind, amount: u32 },
    LslReg { rd: u32, rm: u32, rs: u32 },
}

/// Whether a first halfword starts a 32-bit instruction.
pub open spec fn thumb32_prefix(hw1: u16) -> bool {
    let top = hw1 >> 11u16;
    top == 0x1D || top == 0x1E || top == 0x1F
}

pub fn is_thumb32(hw1: u16) -> (r: bool)
    ensures
        r == thumb32_prefix(hw1),
{
    let top = hw1 >> 11;
    top == 0x1D || top == 0x1E || top == 0x1F
}

/// PC-relative branch target: the instruction address plus 4 plus a signed offset.
pub open spec fn branch_target(pc: u32, offset_field: u32, bits: u32) -> u32 {
    pc.wrapping_add(4).wrapping_add_signed(sign_extend_spec(offset_field, bits))
}

/// The register list of a 32-bit PUSH: R0-R12 and LR.
pub open spec fn push_mask_of(hw2: u16) -> u16 {
    if (hw2 & 0x4000) != 0 { (hw2 & 0x1FFF) | 0x4000 } else { hw2 & 0x1FFF }
}

/// The register list of a 32-bit POP: R0-R12 and PC.
pub open spec fn pop_mask_of(hw2: u16) -> u16 {
    if (hw2 & 0x8000) != 0 { (hw2 & 0x1FFF) | 0x8000 } else { hw2 & 0x1FFF }
}

pub fn multi_reg_mask_push(hw2: u16) -> (m: u16)
    ensures
        m == push_mask_of(hw2),
{
    let mut mask = hw2 & 0x1FFF;
    if (hw2 & 0x4000) != 0 {
        mask = mask | 0x4000;
    }
    mask
}

pub fn multi_reg_mask_pop(hw2: u16) -> (m: u16)
    ensures
        m == pop_mask_of(hw2),
{
    let mut mask = hw2 & 0x1FFF;
    if (hw2 & 0x8000) != 0 {
        mask = mask | 0x8000;
    }
    mask
}

/// The 16-bit encodings, in the order in which they are recognised.
pub open spec fn decode16_spec(pc: u32, hw: u16) -> Option<ThumbInstr> {
    if (hw & 0xF800) == 0xE000 {
        Some(ThumbInstr::B { target: branch_target(pc, ((hw & 0x07FF) as u32) << 1u32, 12) })
    } else if (hw & 0xF000) == 0xD000 && (hw & 0x0F00) != 0x0F00 {
        Some(ThumbInstr::BCond {
            cond: ArmCC::from_bits_spec(((hw >> 8u16) & 0xF) as u8),
            target: branch_target(pc, ((hw & 0xFF) as u32) << 1u32, 9),
        })
    } else if (hw & 0xF500) == 0xB100 {
        Some(ThumbInstr::Cbz {
            nonzero: (hw & 0x0800) != 0,
            rn: (hw & 0x7) as u32,
            target: pc.wrapping_add(4).wrapping_add(((((hw >> 9u16) & 1) as u32) << 6u32) | ((((hw >> 3u16) & 0x1F) as u32) << 1u32)),
        })
    } else if (hw & 0xF800) == 0x4800 {
        Some(ThumbInstr::LdrLiteral { rt: ((hw >> 8u16) & 0x7) as u32, imm: ((hw & 0xFF) as u32) << 2u32, wide: false })
    } else if (hw & 0xF800) == 0x6800 || (hw & 0xF800) == 0x6000 {
        let imm5 = ((hw >> 6u16) & 0x1F) as u32;
        let rn = ((hw >> 3u16) & 0x7) as u32;
        let rt = (hw & 0x7) as u32;
        if (hw & 0x0800) != 0 {
            Some(ThumbInstr::LoadImm { size: MemSize::Word, rt, rn, imm: imm5 << 2u32, wide: false })
        } else {
            Some(ThumbInstr::StoreImm { size: MemSize::Word, rt, rn, imm: imm5 << 2u32, wide: false })
        }
    } else if (hw & 0xF800) == 0x7000 || (hw & 0xF800) == 0x7800 {
        let imm5 = ((hw >> 6u16) & 0x1F) as u32;
        let rn = ((hw >> 3u16) & 0x7) as u32;
        let rt = (hw & 0x7) as u32;
        if (hw & 0x0800) != 0 {
            Some(ThumbInstr::LoadImm { size: MemSize::Byte, rt, rn, imm: imm5, wide: false })
        } else {
            Some(ThumbInstr::StoreImm { size: MemSize::Byte, rt, rn, imm: imm5, wide: false })
        }
    } else if (hw & 0xF800) == 0x8000 || (hw & 0xF800) == 0x8800 {
        let imm5 = ((hw >> 6u16) & 0x1F) as u32;
        let rn = ((hw >> 3u16) & 0x7) as u32;
        let rt = (hw & 0x7) as u32;
        if (hw & 0x0800) != 0 {
            Some(ThumbInstr::LoadImm { size: MemSize::Half, rt, rn, imm: imm5 << 1u32, wide: false })
        } else {
            Some(ThumbInstr::StoreImm { size: MemSize::Half, rt, rn, imm: imm5 << 1u32, wide: false })
        }
    } else if (hw & 0xF200) == 0x5000 {
        let op = (hw >> 9u16) & 0x7;
        let rm = ((hw >> 6u16) & 0x7) as u32;
        let rn = ((hw >> 3u16) & 0x7) as u32;
        let rt = (hw & 0x7) as u32;
        Some(
            if op == 0 {
                ThumbInstr::StoreReg { size: MemSize::Word, rt, rn, rm }
            } else if op == 1 {
                ThumbInstr::StoreReg { size: MemSize::Half, rt, rn, rm }
            } else if op == 2 {
                ThumbInstr::StoreReg { size: MemSize::Byte, rt, rn, rm }
            } else if op == 3 {
                ThumbInstr::LoadReg { size: MemSize::SignedByte, rt, rn, rm }
            } else if op == 4 {
                ThumbInstr::LoadReg { size: MemSize::Word, rt, rn, rm }
            } else if op == 5 {
                ThumbInstr::LoadReg { size: MemSize::Half, rt, rn, rm }
            } else if op == 6 {
                ThumbInstr::LoadReg { size: MemSize::Byte, rt, rn, rm }
            } else {
                ThumbInstr::LoadReg { size: MemSize::SignedHalf, rt, rn, rm }
            },
        )
    } else if (hw & 0xF000) == 0x9000 {
        let rt = ((hw >> 8u16) & 0x7) as u32;
        let imm = ((hw & 0xFF) as u32) << 2u32;
        if (hw & 0x0800) != 0 {
            Some(ThumbInstr::LoadSp { rt, imm })
        } else {
            Some(ThumbInstr::StoreSp { rt, imm })
        }
    } else if (hw & 0xFF00) == 0xB000 {
        Some(ThumbInstr::AdjustSp { subtract: (hw & 0x0080) != 0, imm: ((hw & 0x7F) as u32) << 2u32 })
    } else if (hw & 0xF800) == 0xA000 {
        Some(ThumbInstr::Adr {
            rd: ((hw >> 8u16) & 0x7) as u32,
            value: (pc.wrapping_add(4) & !3u32).wrapping_add(((hw & 0xFF) as u32) << 2u32),
        })
    } else if (hw & 0xF800) == 0xA800 {
        Some(ThumbInstr::AddSpImm { rd: ((hw >> 8u16) & 0x7) as u32, imm: ((hw & 0xFF) as u32) << 2u32 })
    } else if (hw & 0xFE00) == 0xB400 {
        Some(ThumbInstr::Push {
            mask: if ((hw >> 8u16) & 1) != 0 { (hw & 0xFF) | 0x4000 } else { hw & 0xFF },
            wide: false,
        })
    } else if (hw & 0xFE00) == 0xBC00 {
        Some(ThumbInstr::Pop {
            mask: if ((hw >> 8u16) & 1) != 0 { (hw & 0xFF) | 0x8000 } else { hw & 0xFF },
            wide: false,
        })
    } else if (hw & 0xF000) == 0xC000 {
        let rn = ((hw >> 8u16) & 0x7) as u32;
        let mask = hw & 0xFF;
        if (hw & 0x0800) != 0 {
            Some(ThumbInstr::Ldm { rn, mask, writeback: false, wide: false })
        } else {
            Some(ThumbInstr::Stm { rn, mask })
        }
    } else if (hw & 0xFC00) == 0x4400 {
        let op = (hw >> 8u16) & 0x3;
        let h1 = ((hw >> 7u16) & 0x1) as u32;
        let h2 = ((hw >> 6u16) & 0x1) as u32;
        let rm = ((h2 << 3u32) | ((hw >> 3u16) & 0x7) as u32) & 0xF;
        let rdn = ((h1 << 3u32) | (hw & 0x7) as u32) & 0xF;
        if op == 0 {
            Some(ThumbInstr::AddHigh { rdn, rm })
        } else if op == 1 {
            Some(ThumbInstr::CmpHigh { rdn, rm })
        } else if op == 2 {
            Some(ThumbInstr::MovHigh { rdn, rm })
        } else {
            Some(ThumbInstr::Bx { rm, link: (hw & 0x0080) != 0 })
        }
    } else if (hw & 0xFC00) == 0x4000 {
        let op = (hw >> 6u16) & 0xF;
        if op == 1 {
            None
        } else {
            Some(ThumbInstr::DataProc { op, rdn: (hw & 0x7) as u32, rm: ((hw >> 3u16) & 0x7) as u32 })
        }
    } else if (hw & 0xF800) == 0x0000 || (hw & 0xF800) == 0x0800 || (hw & 0xF800) == 0x1000 {
        let opcode = (hw >> 11u16) & 0x3;
        let imm5 = ((hw >> 6u16) & 0x1F) as u32;
        let rm = ((hw >> 3u16) & 0x7) as u32;
        let rd = (hw & 0x7) as u32;
        if opcode == 0 {
            Some(ThumbInstr::ShiftImm { kind: ShiftKind::Lsl, rd, rm, amount: imm5 })
        } else if opcode == 1 {
            Some(ThumbInstr::ShiftImm { kind: ShiftKind::Lsr, rd, rm, amount: if imm5 == 0 { 32 } else { imm5 } })
        } else {
            Some(ThumbInstr::ShiftImm { kind: ShiftKind::Asr, rd, rm, amount: if imm5 == 0 { 32 } else { imm5 } })
        }
    } else if (hw & 0xF800) == 0x1800 {
        let subtract = ((hw >> 9u16) & 0x1) != 0;
        let rn = ((hw >> 3u16) & 0x7) as u32;
        let rd = (hw & 0x7) as u32;
        let field = ((hw >> 6u16) & 0x7) as u32;
        if ((hw >> 10u16) & 0x1) == 0 {
            Some(ThumbInstr::AddSubReg3 { subtract, rd, rn, rm: field })
        } else {
            Some(ThumbInstr::AddSubImm3 { subtract, rd, rn, imm: field })
        }
    } else if (hw & 0xE000) == 0x2000 {
        Some(ThumbInstr::Imm8 { op: (hw >> 11u16) & 0x3, rd: ((hw >> 8u16) & 0x7) as u32, imm: (hw & 0xFF) as u32 })
    } else if (hw & 0xFF00) == 0xBE00 {
        Some(ThumbInstr::Bkpt { imm: (hw & 0xFF) as u32 })
    } else if hw == 0xBF00 {
        Some(ThumbInstr::Nop)
    } else {
        None
    }
}

/// Decodes a 16-bit instruction at `pc`; `None` for encodings the interpreter does not
/// execute.
pub fn decode16(pc: u32, hw: u16) -> (r: Option<ThumbInstr>)
    ensures
        r == decode16_spec(pc, hw),
{
    if (hw & 0xF800) == 0xE000 {
        let imm11 = (hw & 0x07FF) as u32;
        let offset = sign_extend(imm11 << 1, 12);
        return Some(ThumbInstr::B { target: pc.wrapping_add(4).wrapping_add_signed(offset) });
    }
    if (hw & 0xF000) == 0xD000 && (hw & 0x0F00) != 0x0F00 {
        let cond = ArmCC::from_u8(((hw >> 8) & 0xF) as u8);
        let imm8 = (hw & 0xFF) as u32;
        let offset = sign_extend(imm8 << 1, 9);
        return Some(ThumbInstr::BCond { cond, target: pc.wrapping_add(4).wrapping_add_signed(offset) });
    }
    if (hw & 0xF500) == 0xB100 {
        let nonzero = (hw & 0x0800) != 0;
        let rn = (hw & 0x7) as u32;
        let i = ((hw >> 9) & 0x1) as u32;
        let imm5 = ((hw >> 3) & 0x1F) as u32;
        let offset = (i << 6) | (imm5 << 1);
        return Some(ThumbInstr::Cbz { nonzero, rn, target: pc.wrapping_add(4).wrapping_add(offset) });
    }
    if (hw & 0xF800) == 0x4800 {
        return Some(ThumbInstr::LdrLiteral { rt: ((hw >> 8) & 0x7) as u32, imm: ((hw & 0xFF) as u32) << 2, wide: false });
    }
    if (hw & 0xF800) == 0x6800 || (hw & 0xF800) == 0x6000 {
        let imm5 = ((hw >> 6) & 0x1F) as u32;
        let rn = ((hw >> 3) & 0x7) as u32;
        let rt = (hw & 0x7) as u32;
        if (hw & 0x0800) != 0 {
            return Some(ThumbInstr::LoadImm { size: MemSize::Word, rt, rn, imm: imm5 << 2, wide: false });
        } else {
            return Some(ThumbInstr::StoreImm { size: MemSize::Word, rt, rn, imm: imm5 << 2, wide: false });
        }
    }
    if (hw & 0xF800) == 0x7000 || (hw & 0xF800) == 0x7800 {
        let imm5 = ((hw >> 6) & 0x1F) as u32;
        let rn = ((hw >> 3) & 0x7) as u32;
        let rt = (hw & 0x7) as u32;
        if (hw & 0x0800) != 0 {
            return Some(ThumbInstr::LoadImm { size: MemSize::Byte, rt, rn, imm: imm5, wide: false });
        } else {
            return Some(ThumbInstr::StoreImm { size: MemSize::Byte, rt, rn, imm: imm5, wide: false });
        }
    }
    if (hw & 0xF800) == 0x8000 || (hw & 0xF800) == 0x8800 {
        let imm5 = ((hw >> 6) & 0x1F) as u32;
        let rn = ((hw >> 3) & 0x7) as u32;
        let rt = (hw & 0x7) as u32;
        if (hw & 0x0800) != 0 {
            return Some(ThumbInstr::LoadImm { size: MemSize::Half, rt, rn, imm: imm5 << 1, wide: false });
        } else {
            return Some(ThumbInstr::StoreImm { size: MemSize::Half, rt, rn, imm: imm5 << 1, wide: false });
        }
    }
    if (hw & 0xF200) == 0x5000 {
        let op = (hw >> 9) & 0x7;
        let rm = ((hw >> 6) & 0x7) as u32;
        let rn = ((hw >> 3) & 0x7) as u32;
        let rt = (hw & 0x7) as u32;
        return Some(
            if op == 0 {
                ThumbInstr::StoreReg { size: MemSize::Word, rt, rn, rm }
            } else if op == 1 {
                ThumbInstr::StoreReg { size: MemSize::Half, rt, rn, rm }
            } else if op == 2 {
                ThumbInstr::StoreReg { size: MemSize::Byte, rt, rn, rm }
            } else if op == 3 {
                ThumbInstr::LoadReg { size: MemSize::SignedByte, rt, rn, rm }
            } else if op == 4 {
                ThumbInstr::LoadReg { size: MemSize::Word, rt, rn, rm }
            } else if op == 5 {
                ThumbInstr::LoadReg { size: MemSize::Half, rt, rn, rm }
            } else if op == 6 {
                ThumbInstr::LoadReg { size: MemSize::Byte, rt, rn, rm }
            } else {
                ThumbInstr::LoadReg { size: MemSize::SignedHalf, rt, rn, rm }
            },
        );
    }
    if (hw & 0xF000) == 0x9000 {
        let rt = ((hw >> 8) & 0x7) as u32;
        let imm = ((hw & 0xFF) as u32) << 2;
        if (hw & 0x0800) != 0 {
            return Some(ThumbInstr::LoadSp { rt, imm });
        } else {
            return Some(ThumbInstr::StoreSp { rt, imm });
        }
    }
    if (hw & 0xFF00) == 0xB000 {
        return Some(ThumbInstr::AdjustSp { subtract: (hw & 0x0080) != 0, imm: ((hw & 0x7F) as u32) << 2 });
    }
    if (hw & 0xF800) == 0xA000 {
        let rd = ((hw >> 8) & 0x7) as u32;
        let imm = ((hw & 0xFF) as u32) << 2;
        return Some(ThumbInstr::Adr { rd, value: (pc.wrapping_add(4) & !3u32).wrapping_add(imm) });
    }
    if (hw & 0xF800) == 0xA800 {
        return Some(ThumbInstr::AddSpImm { rd: ((hw >> 8) & 0x7) as u32, imm: ((hw & 0xFF) as u32) << 2 });
    }
    if (hw & 0xFE00) == 0xB400 {
        let mask = if ((hw >> 8) & 1) != 0 { (hw & 0xFF) | 0x4000 } else { hw & 0xFF };
        return Some(ThumbInstr::Push { mask, wide: false });
    }
    if (hw & 0xFE00) == 0xBC00 {
        let mask = if ((hw >> 8) & 1) != 0 { (hw & 0xFF) | 0x8000 } else { hw & 0xFF };
        return Some(ThumbInstr::Pop { mask, wide: false });
    }
    if (hw & 0xF000) == 0xC000 {
        let rn = ((hw >> 8) & 0x7) as u32;
        let mask = hw & 0xFF;
        if (hw & 0x0800) != 0 {
            return Some(ThumbInstr::Ldm { rn, mask, writeback: false, wide: false });
        } else {
            return Some(ThumbInstr::Stm { rn, mask });
        }
    }
    if (hw & 0xFC00) == 0x4400 {
        let op = (hw >> 8) & 0x3;
        let h1 = ((hw >> 7) & 0x1) as u32;
        let h2 = ((hw >> 6) & 0x1) as u32;
        let rm = ((h2 << 3) | ((hw >> 3) & 0x7) as u32) & 0xF;
        let rdn = ((h1 << 3) | (hw & 0x7) as u32) & 0xF;
        if op == 0 {
            return Some(ThumbInstr::AddHigh { rdn, rm });
        } else if op == 1 {
            return Some(ThumbInstr::CmpHigh { rdn, rm });
        } else if op == 2 {
            return Some(ThumbInstr::MovHigh { rdn, rm });
        } else {
            return Some(ThumbInstr::Bx { rm, link: (hw & 0x0080) != 0 });
        }
    }
    if (hw & 0xFC00) == 0x4000 {
        let op = (hw >> 6) & 0xF;
        if op == 1 {
            return None;
        }
        return Some(ThumbInstr::DataProc { op, rdn: (hw & 0x7) as u32, rm: ((hw >> 3) & 0x7) as u32 });
    }
    if (hw & 0xF800) == 0x0000 || (hw & 0xF800) == 0x0800 || (hw & 0xF800) == 0x1000 {
        let opcode = (hw >> 11) & 0x3;
        let imm5 = ((hw >> 6) & 0x1F) as u32;
        let rm = ((hw >> 3) & 0x7) as u32;
        let rd = (hw & 0x7) as u32;
        if opcode == 0 {
            return Some(ThumbInstr::ShiftImm { kind: ShiftKind::Lsl, rd, rm, amount: imm5 });
        } else if opcode == 1 {
            return Some(ThumbInstr::ShiftImm { kind: ShiftKind::Lsr, rd, rm, amount: if imm5 == 0 { 32 } else { imm5 } });
        } else {
            return Some(ThumbInstr::ShiftImm { kind: ShiftKind::Asr, rd, rm, amount: if imm5 == 0 { 32 } else { imm5 } });
        }
    }
    if (hw & 0xF800) == 0x1800 {
        let subtract = ((hw >> 9) & 0x1) != 0;
        let rn = ((hw >> 3) & 0x7) as u32;
        let rd = (hw & 0x7) as u32;
        let field = ((hw >> 6) & 0x7) as u32;
        if ((hw >> 10) & 0x1) == 0 {
            return Some(ThumbInstr::AddSubReg3 { subtract, rd, rn, rm: field });
        } else {
            return Some(ThumbInstr::AddSubImm3 { subtract, rd, rn, imm: field });
        }
    }
    if (hw & 0xE000) == 0x2000 {
        return Some(ThumbInstr::Imm8 { op: (hw >> 11) & 0x3, rd: ((hw >> 8) & 0x7) as u32, imm: (hw & 0xFF) as u32 });
    }
    if (hw & 0xFF00) == 0xBE00 {
        return Some(ThumbInstr::Bkpt { imm: (hw & 0xFF) as u32 });
    }
    if hw == 0xBF00 {
        return Some(ThumbInstr::Nop);
    }
    None
}

/// The 25-bit offset field of a 32-bit BL.
pub open spec fn bl_offset_field(hw1: u16, hw2: u16) -> u32 {
    let s = ((hw1 >> 10u16) & 1) as u32;
    let j1 = ((hw2 >> 13u16) & 1) as u32;
    let j2 = ((hw2 >> 11u16) & 1) as u32;
    let i1 = (!(j1 ^ s)) & 1;
    let i2 = (!(j2 ^ s)) & 1;
    (s << 24u32) | (i1 << 23u32) | (i2 << 22u32) | (((hw1 & 0x03FF) as u32) << 12u32) | (((hw2 & 0x07FF) as u32) << 1u32)
}

/// The 16-bit immediate of MOVW/MOVT.
pub open spec fn imm16_of(hw1: u16, hw2: u16) -> u32 {
    (((hw1 & 0xF) as u32) << 12u32) | ((((hw1 >> 10u16) & 1) as u32) << 11u32) | ((((hw2 >> 12u16) & 0x7) as u32) << 8u32) | ((hw2 & 0xFF) as u32)
}

/// The 12-bit modified-immediate field of a data-processing instruction.
pub open spec fn imm12_of(hw1: u16, hw2: u16) -> u16 {
    (((hw1 >> 10u16) & 1) << 11u16) | (((hw2 >> 12u16) & 0x7) << 8u16) | (hw2 & 0xFF)
}

/// The 32-bit encodings, in the order in which they are recognised.
pub open spec fn decode32_spec(pc: u32, hw1: u16, hw2: u16) -> Option<ThumbInstr> {
    let rn = (hw1 & 0xF) as u32;
    let rt = ((hw2 >> 12u16) & 0xF) as u32;
    let imm12 = (hw2 & 0x0FFF) as u32;
    if (hw1 & 0xF800) == 0xF000 && (hw2 & 0xD000) == 0xD000 {
        Some(ThumbInstr::Bl { target: branch_target(pc, bl_offset_field(hw1, hw2), 25) })
    } else if hw1 == 0xF8DF {
        Some(ThumbInstr::LdrLiteral { rt, imm: imm12, wide: true })
    } else if (hw1 & 0xFFF0) == 0xF890 {
        Some(ThumbInstr::LoadImm { size: MemSize::Byte, rt, rn, imm: imm12, wide: true })
    } else if (hw1 & 0xFFF0) == 0xF8B0 {
        Some(ThumbInstr::LoadImm { size: MemSize::Half, rt, rn, imm: imm12, wide: true })
    } else if (hw1 & 0xFFF0) == 0xF8D0 {
        Some(ThumbInstr::LoadImm { size: MemSize::Word, rt, rn, imm: imm12, wide: true })
    } else if (hw1 & 0xFFF0) == 0xF8C0 {
        Some(ThumbInstr::StoreImm { size: MemSize::Word, rt, rn, imm: imm12, wide: true })
    } else if (hw1 & 0xFFF0) == 0xF880 {
        Some(ThumbInstr::StoreImm { size: MemSize::Byte, rt, rn, imm: imm12, wide: true })
    } else if (hw1 & 0xFFF0) == 0xF8A0 {
        Some(ThumbInstr::StoreImm { size: MemSize::Half, rt, rn, imm: imm12, wide: true })
    } else if (hw1 & 0xFBF0) == 0xF240 && (hw2 & 0x8000) == 0 {
        Some(ThumbInstr::Movw { rd: ((hw2 >> 8u16) & 0xF) as u32, imm16: imm16_of(hw1, hw2) })
    } else if (hw1 & 0xFBF0) == 0xF2C0 && (hw2 & 0x8000) == 0 {
        Some(ThumbInstr::Movt { rd: ((hw2 >> 8u16) & 0xF) as u32, imm16: imm16_of(hw1, hw2) })
    } else if (hw1 & 0xFFF0) == 0xFBB0 && (hw2 & 0x00F0) == 0x00F0 {
        Some(ThumbInstr::Udiv { rd: ((hw2 >> 8u16) & 0xF) as u32, rn, rm: (hw2 & 0xF) as u32 })
    } else if (hw1 & 0xFFF0) == 0xFB00 && (hw2 & 0x00F0) == 0x0010 {
        Some(ThumbInstr::Mls { rd: ((hw2 >> 8u16) & 0xF) as u32, rn, rm: (hw2 & 0xF) as u32, ra: rt })
    } else if (hw1 & 0xFFF0) == 0xF3C0 {
        Some(ThumbInstr::Ubfx {
            rd: ((hw2 >> 8u16) & 0xF) as u32,
            rn,
            lsb: ((((hw2 >> 12u16) & 0x7) as u32) << 2u32) | (((hw2 >> 6u16) & 0x3) as u32),
            width: (((hw2 & 0x1F) as u32) + 1) as u32,
        })
    } else if (hw1 & 0xFA00) == 0xF000 && (hw2 & 0x8000) == 0 {
        let op = (hw1 >> 5u16) & 0xF;
        if op == 0 || op == 1 || op == 2 || op == 8 || op == 13 {
            Some(ThumbInstr::ModImm {
                op,
                rd: ((hw2 >> 8u16) & 0xF) as u32,
                rn,
                imm: thumb_expand_imm12_spec(imm12_of(hw1, hw2)),
                setflags: ((hw1 >> 4u16) & 0x1) != 0,
            })
        } else {
            None
        }
    } else if (hw1 & 0xFE00) == 0xEA00 || (hw1 & 0xFE00) == 0xEB00 {
        let op = (hw1 >> 5u16) & 0xF;
        if op == 0 || op == 2 || op == 8 {
            Some(ThumbInstr::ShiftedReg {
                op,
                rd: ((hw2 >> 8u16) & 0xF) as u32,
                rn,
                rm: (hw2 & 0xF) as u32,
                kind: shift_kind_of(((hw2 >> 4u16) & 0x3) as u32),
                amount: ((((hw2 >> 12u16) & 0x7) as u32) << 2u32) | (((hw2 >> 6u16) & 0x3) as u32),
            })
        } else {
            None
        }
    } else if (hw1 & 0xFFF0) == 0xFA00 {
        Some(ThumbInstr::LslReg { rd: ((hw2 >> 8u16) & 0xF) as u32, rm: (hw1 & 0xF) as u32, rs: (hw2 & 0xF) as u32 })
    } else if hw1 == 0xE92D {
        Some(ThumbInstr::Push { mask: push_mask_of(hw2), wide: true })
    } else if hw1 == 0xE8BD {
        Some(ThumbInstr::Pop { mask: pop_mask_of(hw2), wide: true })
    } else if (hw1 & 0xFFD0) == 0xE890 {
        Some(ThumbInstr::Ldm { rn, mask: hw2, writeback: ((hw1 >> 5u16) & 1) != 0, wide: true })
    } else {
        None
    }
}

/// Decodes a 32-bit instruction at `pc`; `None` for encodings the interpreter does not
/// execute.
pub fn decode32(pc: u32, hw1: u16, hw2: u16) -> (r: Option<ThumbInstr>)
    ensures
        r == decode32_spec(pc, hw1, hw2),
{
    let rn = (hw1 & 0xF) as u32;
    let rt = ((hw2 >> 12) & 0xF) as u32;
    let imm12 = (hw2 & 0x0FFF) as u32;
    if (hw1 & 0xF800) == 0xF000 && (hw2 & 0xD000) == 0xD000 {
        let s = ((hw1 >> 10) & 1) as u32;
        let j1 = ((hw2 >> 13) & 1) as u32;
        let j2 = ((hw2 >> 11) & 1) as u32;
        let i1 = (!(j1 ^ s)) & 1;
        let i2 = (!(j2 ^ s)) & 1;
        let imm10 = (hw1 & 0x03FF) as u32;
        let imm11 = (hw2 & 0x07FF) as u32;
        let imm25 = (s << 24) | (i1 << 23) | (i2 << 22) | (imm10 << 12) | (imm11 << 1);
        let offset = sign_extend(imm25, 25);
        return Some(ThumbInstr::Bl { target: pc.wrapping_add(4).wrapping_add_signed(offset) });
    }
    if hw1 == 0xF8DF {
        return Some(ThumbInstr::LdrLiteral { rt, imm: imm12, wide: true });
    }
    if (hw1 & 0xFFF0) == 0xF890 {
        return Some(ThumbInstr::LoadImm { size: MemSize::Byte, rt, rn, imm: imm12, wide: true });
    }
    if (hw1 & 0xFFF0) == 0xF8B0 {
        return Some(ThumbInstr::LoadImm { size: MemSize::Half, rt, rn, imm: imm12, wide: true });
    }
    if (hw1 & 0xFFF0) == 0xF8D0 {
        return Some(ThumbInstr::LoadImm { size: MemSize::Word, rt, rn, imm: imm12, wide: true });
    }
    if (hw1 & 0xFFF0) == 0xF8C0 {
        return Some(ThumbInstr::StoreImm { size: MemSize::Word, rt, rn, imm: imm12, wide: true });
    }
    if (hw1 & 0xFFF0) == 0xF880 {
        return Some(ThumbInstr::StoreImm { size: MemSize::Byte, rt, rn, imm: imm12, wide: true });
    }
    if (hw1 & 0xFFF0) == 0xF8A0 {
        return Some(ThumbInstr::StoreImm { size: MemSize::Half, rt, rn, imm: imm12, wide: true });
    }
    let imm16 = ((hw1 & 0xF) as u32) << 12 | (((hw1 >> 10) & 1) as u32) << 11 | (((hw2 >> 12) & 0x7) as u32) << 8 | (hw2 & 0xFF) as u32;
    if (hw1 & 0xFBF0) == 0xF240 && (hw2 & 0x8000) == 0 {
        return Some(ThumbInstr::Movw { rd: ((hw2 >> 8) & 0xF) as u32, imm16 });
    }
    if (hw1 & 0xFBF0) == 0xF2C0 && (hw2 & 0x8000) == 0 {
        return Some(ThumbInstr::Movt { rd: ((hw2 >> 8) & 0xF) as u32, imm16 });
    }
    if (hw1 & 0xFFF0) == 0xFBB0 && (hw2 & 0x00F0) == 0x00F0 {
        return Some(ThumbInstr::Udiv { rd: ((hw2 >> 8) & 0xF) as u32, rn, rm: (hw2 & 0xF) as u32 });
    }
    if (hw1 & 0xFFF0) == 0xFB00 && (hw2 & 0x00F0) == 0x0010 {
        return Some(ThumbInstr::Mls { rd: ((hw2 >> 8) & 0xF) as u32, rn, rm: (hw2 & 0xF) as u32, ra: rt });
    }
    if (hw1 & 0xFFF0) == 0xF3C0 {
        let lsb = ((((hw2 >> 12) & 0x7) as u32) << 2) | (((hw2 >> 6) & 0x3) as u32);
        let width = ((hw2 & 0x1F) as u32) + 1;
        return Some(ThumbInstr::Ubfx { rd: ((hw2 >> 8) & 0xF) as u32, rn, lsb, width });
    }
    if (hw1 & 0xFA00) == 0xF000 && (hw2 & 0x8000) == 0 {
        let op = (hw1 >> 5) & 0xF;
        if op == 0 || op == 1 || op == 2 || op == 8 || op == 13 {
            let field = (((hw1 >> 10) & 1) << 11) | (((hw2 >> 12) & 0x7) << 8) | (hw2 & 0xFF);
            assert(field < 0x1000) by (bit_vector)
                requires
                    field == (((hw1 >> 10u16) & 1) << 11u16) | (((hw2 >> 12u16) & 0x7) << 8u16) | (hw2 & 0xFF),
            ;
            let imm = thumb_expand_imm12(field);
            return Some(ThumbInstr::ModImm {
                op,
                rd: ((hw2 >> 8) & 0xF) as u32,
                rn,
                imm,
                setflags: ((hw1 >> 4) & 0x1) != 0,
            });
        }
        return None;
    }
    if (hw1 & 0xFE00) == 0xEA00 || (hw1 & 0xFE00) == 0xEB00 {
        let op = (hw1 >> 5) & 0xF;
        if op == 0 || op == 2 || op == 8 {
            let bits = ((hw2 >> 4) & 0x3) as u32;
            let kind = if bits == 0 {
                ShiftKind::Lsl
            } else if bits == 1 {
                ShiftKind::Lsr
            } else if bits == 2 {
                ShiftKind::Asr
            } else {
                ShiftKind::Ror
            };
            let amount = ((((hw2 >> 12) & 0x7) as u32) << 2) | (((hw2 >> 6) & 0x3) as u32);
            return Some(ThumbInstr::ShiftedReg { op, rd: ((hw2 >> 8) & 0xF) as u32, rn, rm: (hw2 & 0xF) as u32, kind, amount });
        }
        return None;
    }
    if (hw1 & 0xFFF0) == 0xFA00 {
        return Some(ThumbInstr::LslReg { rd: ((hw2 >> 8) & 0xF) as u32, rm: (hw1 & 0xF) as u32, rs: (hw2 & 0xF) as u32 });
    }
    if hw1 == 0xE92D {
        return Some(ThumbInstr::Push { mask: multi_reg_mask_push(hw2), wide: true });
    }
    if hw1 == 0xE8BD {
        return Some(ThumbInstr::Pop { mask: multi_reg_mask_pop(hw2), wide: true });
    }
    if (hw1 & 0xFFD0) == 0xE890 {
        return Some(ThumbInstr::Ldm { rn, mask: hw2, writeback: ((hw1 >> 5) & 1) != 0, wide: true });
    }
    None
}

/// The fields of the 16-bit loads, stores, immediate moves and arithmetic, and shifts by an
/// immediate, as the Thumb encodings place them (`f(lo, n)` being the `n`-bit field that
/// starts at bit `lo` of `hw`):
/// - LDR/STR with an immediate (`hw & 0xF000 == 0x6000`, load when bit 11 is set): Rt
///   `f(0, 3)`, Rn `f(3, 3)`, offset `f(6, 5)` words (times 4); LDRB/STRB (`0x7000`) the same
///   offset in bytes; LDRH/STRH (`0x8000`) in halfwords (times 2);
/// - LDR/STR SP-relative (`0x9000`) and LDR literal (`0x4800`): Rt `f(8, 3)`, offset
///   `f(0, 8)` words; ADD Rd, SP, #imm (`0xA800`) likewise; ADD/SUB SP, SP, #imm
///   (`0xB000`, subtract when bit 7 is set): `f(0, 7)` words;
/// - ADR (`0xA000`): Rd `f(8, 3)`, the value `pc + 4` rounded down to a word plus `f(0, 8)`
///   words, modulo 2^32;
/// - MOVS/CMP/ADDS/SUBS with an 8-bit immediate (`hw & 0xE000 == 0x2000`): operation
///   `f(11, 2)`, Rd `f(8, 3)`, immediate `f(0, 8)`;
/// - LSL/LSR/ASR by an immediate (`f(11, 5)` 0, 1, 2): Rd `f(0, 3)`, Rm `f(3, 3)`, amount
///   `f(6, 5)`, where 0 means 32 for LSR and ASR;
/// - ADDS/SUBS with three registers or a 3-bit immediate (`0x1800`; subtract when bit 9 is
///   set, immediate when bit 10 is set): Rd `f(0, 3)`, Rn `f(3, 3)`, Rm or immediate `f(6, 3)`.
#[verifier::rlimit(100)]
pub proof fn lemma_decode16_fields(pc: u32, hw: u16)
    ensures
        ({
            let rd0 = (hw % 8) as u32;
            let r3 = ((hw / 8) % 8) as u32;
            let r6 = ((hw / 64) % 8) as u32;
            let r8 = ((hw / 256) % 8) as u32;
            let imm5 = ((hw / 64) % 32) as u32;
            let imm8 = (hw % 256) as u32;
            let load = (hw / 2048) % 2 == 1;
            let d = decode16_spec(pc, hw);
            let p4 = pc.wrapping_add(4);
            &&& (hw & 0xF000) == 0x6000 ==> d == Some(if load {
                ThumbInstr::LoadImm { size: MemSize::Word, rt: rd0, rn: r3, imm: (imm5 * 4) as u32, wide: false }
            } else {
                ThumbInstr::StoreImm { size: MemSize::Word, rt: rd0, rn: r3, imm: (imm5 * 4) as u32, wide: false }
            })
            &&& (hw & 0xF000) == 0x7000 ==> d == Some(if load {
                ThumbInstr::LoadImm { size: MemSize::Byte, rt: rd0, rn: r3, imm: imm5, wide: false }
            } else {
                ThumbInstr::StoreImm { size: MemSize::Byte, rt: rd0, rn: r3, imm: imm5, wide: false }
            })
            &&& (hw & 0xF000) == 0x8000 ==> d == Some(if load {
                ThumbInstr::LoadImm { size: MemSize::Half, rt: rd0, rn: r3, imm: (imm5 * 2) as u32, wide: false }
            } else {
                ThumbInstr::StoreImm { size: MemSize::Half, rt: rd0, rn: r3, imm: (imm5 * 2) as u32, wide: false }
            })
            &&& (hw & 0xF000) == 0x9000 ==> d == Some(if load {
                ThumbInstr::LoadSp { rt: r8, imm: (imm8 * 4) as u32 }
            } else {
                ThumbInstr::StoreSp { rt: r8, imm: (imm8 * 4) as u32 }
            })
            &&& (hw & 0xF800) == 0x4800 ==> d == Some(ThumbInstr::LdrLiteral { rt: r8, imm: (imm8 * 4) as u32, wide: false })
            &&& (hw & 0xF800) == 0xA800 ==> d == Some(ThumbInstr::AddSpImm { rd: r8, imm: (imm8 * 4) as u32 })
            &&& (hw & 0xFF00) == 0xB000 ==> d == Some(ThumbInstr::AdjustSp { subtract: (hw / 128) % 2 == 1, imm: ((hw % 128) * 4) as u32 })
            &&& (hw & 0xF800) == 0xA000 ==> d == Some(ThumbInstr::Adr { rd: r8, value: ((p4 - p4 % 4 + imm8 * 4) % 0x1_0000_0000) as u32 })
            &&& (hw & 0xE000) == 0x2000 ==> d == Some(ThumbInstr::Imm8 { op: (hw / 2048) % 4, rd: r8, imm: imm8 })
            &&& (hw & 0xF800) == 0x0000 ==> d == Some(ThumbInstr::ShiftImm { kind: ShiftKind::Lsl, rd: rd0, rm: r3, amount: imm5 })
            &&& (hw & 0xF800) == 0x0800 ==> d == Some(ThumbInstr::ShiftImm { kind: ShiftKind::Lsr, rd: rd0, rm: r3, amount: if imm5 == 0 { 32 } else { imm5 } })
            &&& (hw & 0xF800) == 0x1000 ==> d == Some(ThumbInstr::ShiftImm { kind: ShiftKind::Asr, rd: rd0, rm: r3, amount: if imm5 == 0 { 32 } else { imm5 } })
            &&& (hw & 0xF800) == 0x1800 ==> d == Some(if (hw / 1024) % 2 == 1 {
                ThumbInstr::AddSubImm3 { subtract: (hw / 512) % 2 == 1, rd: rd0, rn: r3, imm: r6 }
            } else {
                ThumbInstr::AddSubReg3 { subtract: (hw / 512) % 2 == 1, rd: rd0, rn: r3, rm: r6 }
            })
        }),
{
    let p4 = pc.wrapping_add(4);
    let w5 = ((hw >> 6u16) & 0x1F) as u32;
    let b8 = (hw & 0xFF) as u32;
    let b7 = (hw & 0x7F) as u32;
    assert(true
        && (hw & 0x7) as u32 == (hw % 8) as u32
        && ((hw >> 3u16) & 0x7) as u32 == ((hw / 8) % 8) as u32
        && ((hw >> 6u16) & 0x7) as u32 == ((hw / 64) % 8) as u32
        && ((hw >> 8u16) & 0x7) as u32 == ((hw / 256) % 8) as u32
        && w5 == ((hw / 64) % 32) as u32
        && b8 == (hw % 256) as u32
        && (w5 << 2u32) == w5 * 4 && (w5 << 1u32) == w5 * 2 && (b8 << 2u32) == b8 * 4
        && (b7 << 2u32) == ((hw % 128) * 4) as u32
        && (hw >> 11u16) & 0x3 == (hw / 2048) % 4
        && ((hw & 0x0800) != 0) == ((hw / 2048) % 2 == 1)
        && ((hw & 0x0080) != 0) == ((hw / 128) % 2 == 1)
        && (((hw >> 9u16) & 0x1) != 0) == ((hw / 512) % 2 == 1)
        && (((hw >> 10u16) & 0x1) == 0) == ((hw / 1024) % 2 == 0)
        && (p4 & !3u32) == p4 - p4 % 4
        && ((hw & 0xF800) == 0x0000 ==> (hw >> 11u16) & 0x3 == 0)
        && ((hw & 0xF800) == 0x0800 ==> (hw >> 11u16) & 0x3 == 1)
        && ((hw & 0xF800) == 0x1000 ==> (hw >> 11u16) & 0x3 == 2)
        && ((hw & 0xF000) == 0x6000 <==> ((hw & 0xF800) == 0x6800 || (hw & 0xF800) == 0x6000))
        && ((hw & 0xF000) == 0x7000 <==> ((hw & 0xF800) == 0x7000 || (hw & 0xF800) == 0x7800))
        && ((hw & 0xF000) == 0x8000 <==> ((hw & 0xF800) == 0x8000 || (hw & 0xF800) == 0x8800))
        && ((hw & 0xF800) == 0x4800 ==> !((hw & 0xF800) == 0xE000 || ((hw & 0xF000) == 0xD000 && (hw & 0x0F00) != 0x0F00) || (hw & 0xF500) == 0xB100))
        && (((hw & 0xF800) == 0x6800 || (hw & 0xF800) == 0x6000) ==> !((hw & 0xF800) == 0xE000 || ((hw & 0xF000) == 0xD000 && (hw & 0x0F00) != 0x0F00) || (hw & 0xF500) == 0xB100 || (hw & 0xF800) == 0x4800))
        && (((hw & 0xF800) == 0x7000 || (hw & 0xF800) == 0x7800) ==> !((hw & 0xF800) == 0xE000 || ((hw & 0xF000) == 0xD000 && (hw & 0x0F00) != 0x0F00) || (hw & 0xF500) == 0xB100 || (hw & 0xF800) == 0x4800 || ((hw & 0xF800) == 0x6800 || (hw & 0xF800) == 0x6000)))
        && (((hw & 0xF800) == 0x8000 || (hw & 0xF800) == 0x8800) ==> !((hw & 0xF800) == 0xE000 || ((hw & 0xF000) == 0xD000 && (hw & 0x0F00) != 0x0F00) || (hw & 0xF500) == 0xB100 || (hw & 0xF800) == 0x4800 || ((hw & 0xF800) == 0x6800 || (hw & 0xF800) == 0x6000) || ((hw & 0xF800) == 0x7000 || (hw & 0xF800) == 0x7800)))
        && ((hw & 0xF000) == 0x9000 ==> !((hw & 0xF800) == 0xE000 || ((hw & 0xF000) == 0xD000 && (hw & 0x0F00) != 0x0F00) || (hw & 0xF500) == 0xB100 || (hw & 0xF800) == 0x4800 || ((hw & 0xF800) == 0x6800 || (hw & 0xF800) == 0x6000) || ((hw & 0xF800) == 0x7000 || (hw & 0xF800) == 0x7800) || ((hw & 0xF800) == 0x8000 || (hw & 0xF800) == 0x8800) || (hw & 0xF200) == 0x5000))
        && ((hw & 0xFF00) == 0xB000 ==> !((hw & 0xF800) == 0xE000 || ((hw & 0xF000) == 0xD000 && (hw & 0x0F00) != 0x0F00) || (hw & 0xF500) == 0xB100 || (hw & 0xF800) == 0x4800 || ((hw & 0xF800) == 0x6800 || (hw & 0xF800) == 0x6000) || ((hw & 0xF800) == 0x7000 || (hw & 0xF800) == 0x7800) || ((hw & 0xF800) == 0x8000 || (hw & 0xF800) == 0x8800) || (hw & 0xF200) == 0x5000 || (hw & 0xF000) == 0x9000))
        && ((hw & 0xF800) == 0xA000 ==> !((hw & 0xF800) == 0xE000 || ((hw & 0xF000) == 0xD000 && (hw & 0x0F00) != 0x0F00) || (hw & 0xF500) == 0xB100 || (hw & 0xF800) == 0x4800 || ((hw & 0xF800) == 0x6800 || (hw & 0xF800) == 0x6000) || ((hw & 0xF800) == 0x7000 || (hw & 0xF800) == 0x7800) || ((hw & 0xF800) == 0x8000 || (hw & 0xF800) == 0x8800) || (hw & 0xF200) == 0x5000 || (hw & 0xF000) == 0x9000 || (hw & 0xFF00) == 0xB000))
        && ((hw & 0xF800) == 0xA800 ==> !((hw & 0xF800) == 0xE000 || ((hw & 0xF000) == 0xD000 && (hw & 0x0F00) != 0x0F00) || (hw & 0xF500) == 0xB100 || (hw & 0xF800) == 0x4800 || ((hw & 0xF800) == 0x6800 || (hw & 0xF800) == 0x6000) || ((hw & 0xF800) == 0x7000 || (hw & 0xF800) == 0x7800) || ((hw & 0xF800) == 0x8000 || (hw & 0xF800) == 0x8800) || (hw & 0xF200) == 0x5000 || (hw & 0xF000) == 0x9000 || (hw & 0xFF00) == 0xB000 || (hw & 0xF800) == 0xA000))
        && (((hw & 0xF800) == 0x0000 || (hw & 0xF800) == 0x0800 || (hw & 0xF800) == 0x1000) ==> !((hw & 0xF800) == 0xE000 || ((hw & 0xF000) == 0xD000 && (hw & 0x0F00) != 0x0F00) || (hw & 0xF500) == 0xB100 || (hw & 0xF800) == 0x4800 || ((hw & 0xF800) == 0x6800 || (hw & 0xF800) == 0x6000) || ((hw & 0xF800) == 0x7000 || (hw & 0xF800) == 0x7800) || ((hw & 0xF800) == 0x8000 || (hw & 0xF800) == 0x8800) || (hw & 0xF200) == 0x5000 || (hw & 0xF000) == 0x9000 || (hw & 0xFF00) == 0xB000 || (hw & 0xF800) == 0xA000 || (hw & 0xF800) == 0xA800 || (hw & 0xFE00) == 0xB400 || (hw & 0xFE00) == 0xBC00 || (hw & 0xF000) == 0xC000 || (hw & 0xFC00) == 0x4400 || (hw & 0xFC00) == 0x4000))
        && ((hw & 0xF800) == 0x1800 ==> !((hw & 0xF800) == 0xE000 || ((hw & 0xF000) == 0xD000 && (hw & 0x0F00) != 0x0F00) || (hw & 0xF500) == 0xB100 || (hw & 0xF800) == 0x4800 || ((hw & 0xF800) == 0x6800 || (hw & 0xF800) == 0x6000) || ((hw & 0xF800) == 0x7000 || (hw & 0xF800) == 0x7800) || ((hw & 0xF800) == 0x8000 || (hw & 0xF800) == 0x8800) || (hw & 0xF200) == 0x5000 || (hw & 0xF000) == 0x9000 || (hw & 0xFF00) == 0xB000 || (hw & 0xF800) == 0xA000 || (hw & 0xF800) == 0xA800 || (hw & 0xFE00) == 0xB400 || (hw & 0xFE00) == 0xBC00 || (hw & 0xF000) == 0xC000 || (hw & 0xFC00) == 0x4400 || (hw & 0xFC00) == 0x4000 || ((hw & 0xF800) == 0x0000 || (hw & 0xF800) == 0x0800 || (hw & 0xF800) == 0x1000)))
        && ((hw & 0xE000) == 0x2000 ==> !((hw & 0xF800) == 0xE000 || ((hw & 0xF000) == 0xD000 && (hw & 0x0F00) != 0x0F00) || (hw & 0xF500) == 0xB100 || (hw & 0xF800) == 0x4800 || ((hw & 0xF800) == 0x6800 || (hw & 0xF800) == 0x6000) || ((hw & 0xF800) == 0x7000 || (hw & 0xF800) == 0x7800) || ((hw & 0xF800) == 0x8000 || (hw & 0xF800) == 0x8800) || (hw & 0xF200) == 0x5000 || (hw & 0xF000) == 0x9000 || (hw & 0xFF00) == 0xB000 || (hw & 0xF800) == 0xA000 || (hw & 0xF800) == 0xA800 || (hw & 0xFE00) == 0xB400 || (hw & 0xFE00) == 0xBC00 || (hw & 0xF000) == 0xC000 || (hw & 0xFC00) == 0x4400 || (hw & 0xFC00) == 0x4000 || ((hw & 0xF800) == 0x0000 || (hw & 0xF800) == 0x0800 || (hw & 0xF800) == 0x1000) || (hw & 0xF800) == 0x1800))
    ) by (bit_vector)
        requires
            w5 == ((hw >> 6u16) & 0x1F) as u32,
            b8 == (hw & 0xFF) as u32,
            b7 == (hw & 0x7F) as u32,
    ;
    let rd0 = (hw % 8) as u32;
    let r3 = ((hw / 8) % 8) as u32;
    let r6 = ((hw / 64) % 8) as u32;
    let r8 = ((hw / 256) % 8) as u32;
    let imm5 = ((hw / 64) % 32) as u32;
    let imm8 = (hw % 256) as u32;
    let d = decode16_spec(pc, hw);
    if (hw & 0xF000) == 0x6000 {
        assert(d == Some(if (hw / 2048) % 2 == 1 {
            ThumbInstr::LoadImm { size: MemSize::Word, rt: rd0, rn: r3, imm: (imm5 * 4) as u32, wide: false }
        } else {
            ThumbInstr::StoreImm { size: MemSize::Word, rt: rd0, rn: r3, imm: (imm5 * 4) as u32, wide: false }
        }));
    }
    if (hw & 0xF000) == 0x9000 {
        assert(d == Some(if (hw / 2048) % 2 == 1 {
            ThumbInstr::LoadSp { rt: r8, imm: (imm8 * 4) as u32 }
        } else {
            ThumbInstr::StoreSp { rt: r8, imm: (imm8 * 4) as u32 }
        }));
    }
    if (hw & 0xF800) == 0xA000 {
        assert(d == Some(ThumbInstr::Adr { rd: r8, value: ((p4 - p4 % 4 + imm8 * 4) % 0x1_0000_0000) as u32 }));
    }
    if (hw & 0xE000) == 0x2000 {
        assert(d == Some(ThumbInstr::Imm8 { op: (hw / 2048) % 4, rd: r8, imm: imm8 }));
    }
    if (hw & 0xF800) == 0x0800 {
        assert(d == Some(ThumbInstr::ShiftImm { kind: ShiftKind::Lsr, rd: rd0, rm: r3, amount: if imm5 == 0 { 32 } else { imm5 } }));
    }
    if (hw & 0xF800) == 0x1800 {
        assert(d == Some(if (hw / 1024) % 2 == 1 {
            ThumbInstr::AddSubImm3 { subtract: (hw / 512) % 2 == 1, rd: rd0, rn: r3, imm: r6 }
        } else {
            ThumbInstr::AddSubReg3 { subtract: (hw / 512) % 2 == 1, rd: rd0, rn: r3, rm: r6 }
        }));
    }
}

} // verus!
