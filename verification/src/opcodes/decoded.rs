//! Decoded instructions: operands in plain form, with the register-level helpers that
//! instruction semantics share (operand 2, addressing, flag updates, conditions).
use vstd::prelude::*;
use crate::arch::{ArmCC, ArmInsn};
use crate::bits::{
    bit, with_bit, condition_holds, condition_passed, lsl_c, lsr_c, asr_c, ror_c, rrx_c, shift_lsl,
    shift_lsr, shift_asr, shift_ror, shift_rrx, apsr_with_n, apsr_with_z, apsr_with_c, apsr_with_v,
    FLAG_N, FLAG_Z, FLAG_C, FLAG_V,
};
use crate::context::CpuContext;
use crate::opcodes::thumb_runtime::{carry_of, current_carry};

verus! {

/// An operand: an immediate, a register, a memory reference, or none that is understood.
#[derive(Clone, Copy, Debug, PartialEq, Eq, Structural)]
pub enum DecodedOperandKind {
    Imm(i64),
    Reg(u32),
    Mem(DecodedMemOperand),
    Invalid,
}

/// The shift applied to a register operand, with its amount.
#[derive(Clone, Copy, Debug, PartialEq, Eq, Structural)]
pub enum DecodedShift {
    Invalid,
    Lsl(u32),
    Lsr(u32),
    Asr(u32),
    Ror(u32),
    Rrx(u32),
}

#[derive(Clone, Copy, Debug, PartialEq, Eq, Structural)]
pub struct DecodedOperand {
    pub op_type: DecodedOperandKind,
    pub shift: DecodedShift,
}

/// `[base, index, #disp]`.
#[derive(Clone, Copy, Debug, PartialEq, Eq, Structural)]
pub struct DecodedMemOperand {
    pub base: u32,
    pub index: Option<u32>,
    pub disp: i32,
}

/// The operands in the shape that execution reads them: condition, destination, first
/// source, second operand, and the addressing details of loads and stores.
#[derive(Clone, Copy, Debug, PartialEq, Eq, Structural)]
pub struct DecodedArmOperands {
    pub condition: ArmCC,
    pub rd: u32,
    pub rn: u32,
    pub op2: Option<DecodedOperand>,
    pub mem_disp: i32,
    pub mem_has_index: bool,
    pub mem_writeback: bool,
    pub mem_post_index: bool,
    pub mem_post_imm: i32,
}

/// One decoded instruction.
#[derive(Clone, Debug)]
pub struct DecodedInstruction {
    pub address: u32,
    pub size: u32,
    pub mnemonic: String,
    pub op_str: String,
    pub operands: Vec<DecodedOperand>,
    pub writeback: bool,
    pub update_flags: bool,
    pub it_mask: u8,
    pub writes_pc: bool,
    pub transed_operands: Vec<u32>,
    pub arm_operands: DecodedArmOperands,
}

/// A decoded instruction whose `arm_operands` are still being filled in.
#[derive(Clone, Debug)]
pub struct DecodedInstructionBuilder {
    pub address: u32,
    pub size: u32,
    pub mnemonic: String,
    pub op_str: String,
    pub operands: Vec<DecodedOperand>,
    pub writeback: bool,
    pub update_flags: bool,
    pub it_mask: u8,
    pub writes_pc: bool,
    pub transed_operands: Vec<u32>,
    pub arm_operands: DecodedArmOperands,
}

/// How many instructions an IT instruction with `mask` covers: four minus the trailing
/// zeros of the mask (none for a zero mask).
pub open spec fn it_count(mask: u8) -> u8 {
    if mask == 0 {
        0
    } else {
        (4u32.saturating_sub(vstd::std_specs::bits::u8_trailing_zeros(mask))) as u8
    }
}

impl DecodedInstruction {
    pub fn from_parts(
        address: u32,
        size: u32,
        mnemonic: String,
        op_str: String,
        operands: Vec<DecodedOperand>,
        writeback: bool,
        update_flags: bool,
        it_mask: u8,
        writes_pc: bool,
        transed_operands: Vec<u32>,
        arm_operands: DecodedArmOperands,
    ) -> (r: Self)
        ensures
            r.address == address,
            r.size == size,
            r.mnemonic@ == mnemonic@,
            r.op_str@ == op_str@,
            r.operands@ == operands@,
            r.writeback == writeback,
            r.update_flags == update_flags,
            r.it_mask == it_mask,
            r.writes_pc == writes_pc,
            r.transed_operands@ == transed_operands@,
            r.arm_operands == arm_operands,
    {
        DecodedInstruction {
            address,
            size,
            mnemonic,
            op_str,
            operands,
            writeback,
            update_flags,
            it_mask,
            writes_pc,
            transed_operands,
            arm_operands,
        }
    }

    pub fn address(&self) -> (r: u32)
        ensures
            r == self.address,
    {
        self.address
    }

    pub fn size(&self) -> (r: u32)
        ensures
            r == self.size,
    {
        self.size
    }

    /// Operand `index`, if there is one.
    pub fn get_operand(&self, index: usize) -> (r: Option<&DecodedOperand>)
        ensures
            index < self.operands@.len() ==> r == Some(&self.operands@[index as int]),
            index >= self.operands@.len() ==> r is None,
    {
        if index < self.operands.len() {
            Some(&self.operands[index])
        } else {
            None
        }
    }

    pub fn mnemonic(&self) -> (r: &str)
        ensures
            r@ == self.mnemonic@,
    {
        self.mnemonic.as_str()
    }

    pub fn op_str(&self) -> (r: &str)
        ensures
            r@ == self.op_str@,
    {
        self.op_str.as_str()
    }

    pub fn writeback(&self) -> (r: bool)
        ensures
            r == self.writeback,
    {
        self.writeback
    }

    pub fn update_flags(&self) -> (r: bool)
        ensures
            r == self.update_flags,
    {
        self.update_flags
    }

    /// How many following instructions an IT instruction covers (see `it_count`).
    pub fn it_following_count(&self) -> (r: u8)
        ensures
            r == it_count(self.it_mask),
    {
        if self.it_mask == 0 {
            return 0;
        }
        4u32.saturating_sub(self.it_mask.trailing_zeros()) as u8
    }

    pub fn writes_pc(&self) -> (r: bool)
        ensures
            r == self.writes_pc,
    {
        self.writes_pc
    }
}

impl DecodedInstructionBuilder {
    /// Operand `index`, if there is one.
    pub fn get_operand(&self, index: usize) -> (r: Option<&DecodedOperand>)
        ensures
            index < self.operands@.len() ==> r == Some(&self.operands@[index as int]),
            index >= self.operands@.len() ==> r is None,
    {
        if index < self.operands.len() {
            Some(&self.operands[index])
        } else {
            None
        }
    }

    /// The finished instruction, with every field carried over.
    pub fn build(self) -> (r: DecodedInstruction)
        ensures
            r.address == self.address,
            r.size == self.size,
            r.mnemonic@ == self.mnemonic@,
            r.op_str@ == self.op_str@,
            r.operands@ == self.operands@,
            r.writeback == self.writeback,
            r.update_flags == self.update_flags,
            r.it_mask == self.it_mask,
            r.writes_pc == self.writes_pc,
            r.transed_operands@ == self.transed_operands@,
            r.arm_operands == self.arm_operands,
    {
        DecodedInstruction {
            address: self.address,
            size: self.size,
            mnemonic: self.mnemonic,
            op_str: self.op_str,
            operands: self.operands,
            writeback: self.writeback,
            update_flags: self.update_flags,
            it_mask: self.it_mask,
            writes_pc: self.writes_pc,
            transed_operands: self.transed_operands,
            arm_operands: self.arm_operands,
        }
    }
}

/// Whether `v` holds `r`.
pub fn contains_reg(v: &Vec<u32>, r: u32) -> (b: bool)
    ensures
        b == v@.contains(r),
{
    let mut i: usize = 0;
    while i < v.len()
        invariant
            i <= v.len(),
            forall|j: int| 0 <= j < i ==> v@[j] != r,
        decreases v.len() - i,
    {
        if v[i] == r {
            assert(v@[i as int] == r);
            return true;
        }
        i = i + 1;
    }
    false
}

/// Cycles that the block engine charges for an instruction: loads and branches two, PUSH one
/// plus one per register, POP also one more when it loads PC, LDM and STM one plus one per
/// listed register (after the base; LDM one more when it loads PC), and one for the other
/// instructions it knows. `None` for instructions it does not know.
pub open spec fn jit_cycles(insn: ArmInsn, regs: Seq<u32>) -> Option<u32> {
    let n = regs.len() as u32;
    match insn {
        ArmInsn::ARM_INS_LDR | ArmInsn::ARM_INS_LDRB | ArmInsn::ARM_INS_LDRSB | ArmInsn::ARM_INS_LDRH
        | ArmInsn::ARM_INS_LDRSH | ArmInsn::ARM_INS_B | ArmInsn::ARM_INS_BL | ArmInsn::ARM_INS_BX
        | ArmInsn::ARM_INS_BLX => Some(2),
        ArmInsn::ARM_INS_PUSH => Some(1u32.saturating_add(n)),
        ArmInsn::ARM_INS_POP => Some(
            if regs.contains(15) { 1u32.saturating_add(n).saturating_add(1) } else { 1u32.saturating_add(n) },
        ),
        ArmInsn::ARM_INS_LDM => Some(
            if regs.len() > 0 && regs.drop_first().contains(15) {
                1u32.saturating_add(n.saturating_sub(1)).saturating_add(1)
            } else {
                1u32.saturating_add(n.saturating_sub(1))
            },
        ),
        ArmInsn::ARM_INS_STM => Some(1u32.saturating_add(n.saturating_sub(1))),
        ArmInsn::ARM_INS_INVALID => None,
        _ => Some(1),
    }
}

/// Whether some element of `v` after the first is `r`.
fn contains_after_first(v: &Vec<u32>, r: u32) -> (b: bool)
    ensures
        b == (v@.len() > 0 && v@.drop_first().contains(r)),
{
    let mut i: usize = 1;
    while i < v.len()
        invariant
            1 <= i,
            i <= v.len() || v.len() == 0,
            forall|j: int| 1 <= j < i && j < v.len() ==> v@[j] != r,
        decreases v.len() - i,
    {
        if v[i] == r {
            assert(v@.drop_first()[i - 1] == r);
            return true;
        }
        i = i + 1;
    }
    proof {
        if v@.len() > 0 {
            assert forall|k: int| 0 <= k < v@.drop_first().len() implies v@.drop_first()[k] != r by {
                assert(v@.drop_first()[k] == v@[k + 1]);
            }
        }
    }
    false
}

pub fn jit_execute_cycles(insn: ArmInsn, instr: &DecodedInstruction) -> (r: Option<u32>)
    ensures
        r == jit_cycles(insn, instr.transed_operands@),
{
    let n = instr.transed_operands.len() as u32;
    match insn {
        ArmInsn::ARM_INS_LDR | ArmInsn::ARM_INS_LDRB | ArmInsn::ARM_INS_LDRSB | ArmInsn::ARM_INS_LDRH
        | ArmInsn::ARM_INS_LDRSH | ArmInsn::ARM_INS_B | ArmInsn::ARM_INS_BL | ArmInsn::ARM_INS_BX
        | ArmInsn::ARM_INS_BLX => Some(2),
        ArmInsn::ARM_INS_PUSH => Some(1u32.saturating_add(n)),
        ArmInsn::ARM_INS_POP => {
            let mut cycles = 1u32.saturating_add(n);
            if contains_reg(&instr.transed_operands, 15) {
                cycles = cycles.saturating_add(1);
            }
            Some(cycles)
        },
        ArmInsn::ARM_INS_LDM => {
            let mut cycles = 1u32.saturating_add(n.saturating_sub(1));
            if contains_after_first(&instr.transed_operands, 15) {
                cycles = cycles.saturating_add(1);
            }
            Some(cycles)
        },
        ArmInsn::ARM_INS_STM => Some(1u32.saturating_add(n.saturating_sub(1))),
        ArmInsn::ARM_INS_INVALID => None,
        _ => Some(1),
    }
}

/// The value an instruction reads from register `reg`: PC reads as the instruction's
/// address plus 4.
pub open spec fn reg_read(regs: Seq<u32>, data: &DecodedInstruction, reg: u32) -> u32 {
    if reg == 15 { data.address.wrapping_add(4) } else { regs[reg as int] }
}

pub fn runtime_read_reg<C: CpuContext>(cpu: &C, data: &DecodedInstruction, reg: u32) -> (v: u32)
    requires
        cpu.ctx_wf(),
        reg < 16,
    ensures
        v == reg_read(cpu.ctx_regs(), data, reg),
{
    if reg == 15 {
        data.address().wrapping_add(4)
    } else {
        cpu.read_reg(reg)
    }
}

/// Shift amounts that the shifter accepts: LSL and LSR by at most 32.
pub open spec fn shift_ok(shift: DecodedShift) -> bool {
    match shift {
        DecodedShift::Lsl(n) => n <= 32,
        DecodedShift::Lsr(n) => n <= 32,
        _ => true,
    }
}

/// The shifter: the shifted value and the carry out.
pub open spec fn decoded_shift_c(shift: DecodedShift, val: u32, c: u8) -> (u32, u8) {
    match shift {
        DecodedShift::Lsl(n) => lsl_c(val, n, c),
        DecodedShift::Lsr(n) => lsr_c(val, n, c),
        DecodedShift::Asr(n) => asr_c(val, n, c),
        DecodedShift::Ror(n) => ror_c(val, n, c),
        DecodedShift::Rrx(_) => rrx_c(val, c),
        DecodedShift::Invalid => (val, c),
    }
}

pub fn op_shift_match_by_shift(shift_kind: DecodedShift, val: u32, current_c: u8) -> (r: (u32, u8))
    requires
        shift_ok(shift_kind),
    ensures
        r == decoded_shift_c(shift_kind, val, current_c),
{
    match shift_kind {
        DecodedShift::Lsl(shift) => shift_lsl(val, shift, current_c),
        DecodedShift::Lsr(shift) => shift_lsr(val, shift, current_c),
        DecodedShift::Asr(shift) => shift_asr(val, shift, current_c),
        DecodedShift::Ror(shift) => shift_ror(val, shift, current_c),
        DecodedShift::Rrx(_) => shift_rrx(val, current_c),
        DecodedShift::Invalid => (val, current_c),
    }
}

/// Operand 2 of `data` can be read: a register operand names R0-R15 and its shift is one the
/// shifter accepts.
pub open spec fn op2_ok(data: &DecodedInstruction) -> bool {
    match data.arm_operands.op2 {
        Some(op) => match op.op_type {
            DecodedOperandKind::Reg(r) => r < 16 && shift_ok(op.shift),
            _ => true,
        },
        None => true,
    }
}

/// Operand 2 and the shifter carry: a shifted register, an immediate (truncated to 32 bits,
/// carry unchanged), or 0 when there is none.
pub open spec fn op2_value(regs: Seq<u32>, apsr: u32, data: &DecodedInstruction) -> (u32, u8) {
    let c = carry_of(apsr);
    match data.arm_operands.op2 {
        Some(op) => match op.op_type {
            DecodedOperandKind::Reg(r) => decoded_shift_c(op.shift, reg_read(regs, data, r), c),
            DecodedOperandKind::Imm(imm) => (imm as u32, c),
            _ => (0, c),
        },
        None => (0, c),
    }
}

pub fn resolve_op2_runtime<C: CpuContext>(cpu: &mut C, data: &DecodedInstruction) -> (r: (u32, u8))
    requires
        old(cpu).ctx_wf(),
        op2_ok(data),
    ensures
        *final(cpu) == *old(cpu),
        r == op2_value(old(cpu).ctx_regs(), old(cpu).ctx_apsr(), data),
{
    let current_c = current_carry(cpu.read_apsr());
    match data.arm_operands.op2 {
        Some(op2) => match op2.op_type {
            DecodedOperandKind::Reg(reg) => {
                let value = runtime_read_reg(cpu, data, reg);
                op_shift_match_by_shift(op2.shift, value, current_c)
            },
            DecodedOperandKind::Imm(imm) => (imm as u32, current_c),
            _ => (0, current_c),
        },
        None => (0, current_c),
    }
}

/// Operand 1 of `data` is a memory operand whose registers name R0-R15 and whose index
/// shift is accepted; with write-back after the access, operand 2 is an immediate or a
/// register R0-R15.
pub open spec fn mem_ok(data: &DecodedInstruction) -> bool {
    mem_ok_wb(data, data.writeback)
}

/// `mem_ok`, with write-back taken from `wb`.
pub open spec fn mem_ok_wb(data: &DecodedInstruction, wb: bool) -> bool {
    &&& data.operands@.len() > 1
    &&& data.operands@[1].op_type matches DecodedOperandKind::Mem(mem)
    &&& mem.base < 16
    &&& (mem.index matches Some(i) ==> i < 16 && shift_ok(data.operands@[1].shift))
    &&& wb && data.arm_operands.mem_post_index ==> data.operands@.len() > 2 && match data.operands@[2].op_type {
        DecodedOperandKind::Imm(_) => true,
        DecodedOperandKind::Reg(r) => r < 16,
        _ => false,
    }
}

/// The base register of the memory operand.
pub open spec fn mem_base(data: &DecodedInstruction) -> u32 {
    data.operands@[1].op_type->Mem_0.base
}

/// The address a load or store uses, and the new value of its base register when it
/// writes back: base plus index (shifted) plus displacement, or, after the access, the base
/// itself with the base then moved by operand 2.
pub open spec fn mem_access(regs: Seq<u32>, apsr: u32, data: &DecodedInstruction) -> (u32, Option<u32>) {
    mem_access_wb(regs, apsr, data, data.writeback)
}

/// `mem_access`, with write-back taken from `wb`.
pub open spec fn mem_access_wb(regs: Seq<u32>, apsr: u32, data: &DecodedInstruction, wb: bool) -> (u32, Option<u32>) {
    let op = data.operands@[1];
    let mem = op.op_type->Mem_0;
    let base_val = reg_read(regs, data, mem.base);
    let index_offset = match mem.index {
        Some(i) => decoded_shift_c(op.shift, reg_read(regs, data, i), carry_of(apsr)).0,
        None => 0u32,
    };
    let pre = base_val.wrapping_add(index_offset.wrapping_add_signed(mem.disp));
    if !wb {
        (pre, None)
    } else if data.arm_operands.mem_post_index {
        let post = match data.operands@[2].op_type {
            DecodedOperandKind::Imm(imm) => imm as u32,
            DecodedOperandKind::Reg(r) => reg_read(regs, data, r),
            _ => 0u32,
        };
        (base_val, Some(base_val.wrapping_add(post)))
    } else {
        (pre, Some(pre))
    }
}

/// `regs` after a write-back of `nb` (if any) into `reg`.
pub open spec fn written_back(regs: Seq<u32>, reg: u32, nb: Option<u32>) -> Seq<u32> {
    match nb {
        Some(v) => regs.update(reg as int, v),
        None => regs,
    }
}

/// Resolves the address of a load or store; with write-back, the base register is
/// updated. Returns the transfer register and the address.
pub fn operand_resolver_multi_runtime<C: CpuContext>(cpu: &mut C, data: &DecodedInstruction) -> (r: (u32, u32))
    requires
        old(cpu).ctx_wf(),
        mem_ok(data),
    ensures
        final(cpu).ctx_wf(),
        r.0 == data.arm_operands.rd,
        r.1 == mem_access(old(cpu).ctx_regs(), old(cpu).ctx_apsr(), data).0,
        final(cpu).ctx_apsr() == old(cpu).ctx_apsr(),
        final(cpu).ctx_is_msp() == old(cpu).ctx_is_msp(),
        final(cpu).ctx_regs() == match mem_access(old(cpu).ctx_regs(), old(cpu).ctx_apsr(), data).1 {
            Some(v) => old(cpu).ctx_regs().update(data.operands@[1].op_type->Mem_0.base as int, v),
            None => old(cpu).ctx_regs(),
        },
{
    let rt = data.arm_operands.rd;
    let op2 = data.operands[1];
    let mem = match op2.op_type {
        DecodedOperandKind::Mem(m) => m,
        _ => {
            assert(false);
            DecodedMemOperand { base: 0, index: None, disp: 0 }
        },
    };
    let base_reg = mem.base;
    let base_val = runtime_read_reg(cpu, data, base_reg);
    let index_offset = match mem.index {
        Some(index_reg) => {
            let val = runtime_read_reg(cpu, data, index_reg);
            let current_c = current_carry(cpu.read_apsr());
            op_shift_match_by_shift(op2.shift, val, current_c).0
        },
        None => 0,
    };
    let pre_offset = index_offset.wrapping_add_signed(mem.disp);
    if !data.writeback() {
        return (rt, base_val.wrapping_add(pre_offset));
    }
    if data.arm_operands.mem_post_index {
        let post_offset = match data.operands[2].op_type {
            DecodedOperandKind::Imm(imm) => imm as u32,
            DecodedOperandKind::Reg(reg) => runtime_read_reg(cpu, data, reg),
            _ => 0,
        };
        let new_base = base_val.wrapping_add(post_offset);
        cpu.write_reg(base_reg, new_base);
        (rt, base_val)
    } else {
        let addr = base_val.wrapping_add(pre_offset);
        cpu.write_reg(base_reg, addr);
        (rt, addr)
    }
}

/// capstone's number for the PC register (`ArmReg::ARM_REG_PC`), which is 11.
#[verifier::external_body]
fn capstone_pc_reg() -> (r: u32)
    ensures
        r == 11,
{
    capstone::arch::arm::ArmReg::ARM_REG_PC as u32
}

/// Whether `reg` names PC: as R15, or by capstone's register number for PC.
pub fn is_pc_reg(reg: u32) -> (r: bool)
    ensures
        r == (reg == 15 || reg == 11),
{
    reg == 15 || reg == capstone_pc_reg()
}

pub fn update_apsr_n<C: CpuContext>(cpu: &mut C, result: u32)
    requires
        old(cpu).ctx_wf(),
    ensures
        final(cpu).ctx_wf(),
        final(cpu).ctx_regs() == old(cpu).ctx_regs(),
        final(cpu).ctx_is_msp() == old(cpu).ctx_is_msp(),
        old(cpu).ctx_same_mem(final(cpu)),
        final(cpu).ctx_apsr() == with_bit(old(cpu).ctx_apsr(), FLAG_N, bit(result, 31) == 1),
{
    let a = apsr_with_n(cpu.read_apsr(), result);
    cpu.write_apsr(a);
}

pub fn update_apsr_z<C: CpuContext>(cpu: &mut C, result: u32)
    requires
        old(cpu).ctx_wf(),
    ensures
        final(cpu).ctx_wf(),
        final(cpu).ctx_regs() == old(cpu).ctx_regs(),
        final(cpu).ctx_is_msp() == old(cpu).ctx_is_msp(),
        old(cpu).ctx_same_mem(final(cpu)),
        final(cpu).ctx_apsr() == with_bit(old(cpu).ctx_apsr(), FLAG_Z, result == 0),
{
    let a = apsr_with_z(cpu.read_apsr(), result);
    cpu.write_apsr(a);
}

pub fn update_apsr_c<C: CpuContext>(cpu: &mut C, flag: u8)
    requires
        old(cpu).ctx_wf(),
    ensures
        final(cpu).ctx_wf(),
        final(cpu).ctx_regs() == old(cpu).ctx_regs(),
        final(cpu).ctx_is_msp() == old(cpu).ctx_is_msp(),
        old(cpu).ctx_same_mem(final(cpu)),
        final(cpu).ctx_apsr() == with_bit(old(cpu).ctx_apsr(), FLAG_C, flag != 0),
{
    let a = apsr_with_c(cpu.read_apsr(), flag);
    cpu.write_apsr(a);
}

pub fn update_apsr_v<C: CpuContext>(cpu: &mut C, flag: u8)
    requires
        old(cpu).ctx_wf(),
    ensures
        final(cpu).ctx_wf(),
        final(cpu).ctx_regs() == old(cpu).ctx_regs(),
        final(cpu).ctx_is_msp() == old(cpu).ctx_is_msp(),
        old(cpu).ctx_same_mem(final(cpu)),
        final(cpu).ctx_apsr() == with_bit(old(cpu).ctx_apsr(), FLAG_V, flag != 0),
{
    let a = apsr_with_v(cpu.read_apsr(), flag);
    cpu.write_apsr(a);
}

/// Whether the condition `cc` holds for the flags in the APSR.
pub fn check_condition<C: CpuContext>(cpu: &C, cc: ArmCC) -> (r: bool)
    requires
        cpu.ctx_wf(),
    ensures
        r == condition_holds(cpu.ctx_apsr(), cc),
{
    condition_passed(cpu.read_apsr(), cc)
}


/// Operand `i` when it is a register.
pub open spec fn reg_at(ops: Seq<DecodedOperand>, i: int) -> Option<u32> {
    if 0 <= i < ops.len() {
        match ops[i].op_type {
            DecodedOperandKind::Reg(r) => Some(r),
            _ => None,
        }
    } else {
        None
    }
}

/// Operand `i`, if there is one.
pub open spec fn op_at(ops: Seq<DecodedOperand>, i: int) -> Option<DecodedOperand> {
    if 0 <= i < ops.len() { Some(ops[i]) } else { None }
}

/// Only `arm_operands` differs between `old` and `new`.
pub open spec fn only_arm_operands_changed(old: &DecodedInstructionBuilder, new: &DecodedInstructionBuilder) -> bool {
    &&& new.address == old.address
    &&& new.size == old.size
    &&& new.mnemonic@ == old.mnemonic@
    &&& new.op_str@ == old.op_str@
    &&& new.operands@ == old.operands@
    &&& new.writeback == old.writeback
    &&& new.update_flags == old.update_flags
    &&& new.it_mask == old.it_mask
    &&& new.writes_pc == old.writes_pc
    &&& new.transed_operands@ == old.transed_operands@
}

/// Operand `index` as a register number, `None` when it is missing or not a register.
pub fn reg_operand(decoded: &DecodedInstructionBuilder, index: usize) -> (r: Option<u32>)
    ensures
        r == reg_at(decoded.operands@, index as int),
{
    match decoded.get_operand(index) {
        Some(op) => match op.op_type {
            DecodedOperandKind::Reg(reg) => Some(reg),
            _ => None,
        },
        None => None,
    }
}

fn operand_copy(decoded: &DecodedInstructionBuilder, index: usize) -> (r: Option<DecodedOperand>)
    ensures
        r == op_at(decoded.operands@, index as int),
{
    match decoded.get_operand(index) {
        Some(op) => Some(*op),
        None => None,
    }
}

/// UBFX: `rd` and `rn` from operands 0 and 1.
pub open spec fn norm_ubfx(ops: Seq<DecodedOperand>, a: DecodedArmOperands) -> (Option<()>, DecodedArmOperands) {
    match reg_at(ops, 0) {
        None => (None, a),
        Some(rd) => match reg_at(ops, 1) {
            None => (None, DecodedArmOperands { rd, ..a }),
            Some(rn) => (Some(()), DecodedArmOperands { rd, rn, ..a }),
        },
    }
}

pub fn normalize_ubfx(decoded: &mut DecodedInstructionBuilder) -> (r: Option<()>)
    ensures
        only_arm_operands_changed(old(decoded), final(decoded)),
        (r, final(decoded).arm_operands) == norm_ubfx(old(decoded).operands@, old(decoded).arm_operands),
{
    let rd = reg_operand(decoded, 0)?;
    decoded.arm_operands.rd = rd;
    let rn = reg_operand(decoded, 1)?;
    decoded.arm_operands.rn = rn;
    Some(())
}

/// UXTB/UXTH: `rd`, `rn` and operand 2 from operands 0, 1 and 1.
pub open spec fn norm_extend(ops: Seq<DecodedOperand>, a: DecodedArmOperands) -> (Option<()>, DecodedArmOperands) {
    match reg_at(ops, 0) {
        None => (None, a),
        Some(rd) => match reg_at(ops, 1) {
            None => (None, DecodedArmOperands { rd, ..a }),
            Some(rn) => (Some(()), DecodedArmOperands { rd, rn, op2: op_at(ops, 1), ..a }),
        },
    }
}

pub fn normalize_extend(decoded: &mut DecodedInstructionBuilder) -> (r: Option<()>)
    ensures
        only_arm_operands_changed(old(decoded), final(decoded)),
        (r, final(decoded).arm_operands) == norm_extend(old(decoded).operands@, old(decoded).arm_operands),
{
    let rd = reg_operand(decoded, 0)?;
    decoded.arm_operands.rd = rd;
    let rn = reg_operand(decoded, 1)?;
    decoded.arm_operands.rn = rn;
    decoded.arm_operands.op2 = operand_copy(decoded, 1);
    Some(())
}

/// CMP/CMN/TST/TEQ and CBZ/CBNZ: `rn` from operand 0, operand 2 from operand 1.
pub open spec fn norm_rn_op2(ops: Seq<DecodedOperand>, a: DecodedArmOperands) -> (Option<()>, DecodedArmOperands) {
    match reg_at(ops, 0) {
        None => (None, a),
        Some(rn) => (Some(()), DecodedArmOperands { rn, op2: op_at(ops, 1), ..a }),
    }
}

pub fn normalize_compare(decoded: &mut DecodedInstructionBuilder) -> (r: Option<()>)
    ensures
        only_arm_operands_changed(old(decoded), final(decoded)),
        (r, final(decoded).arm_operands) == norm_rn_op2(old(decoded).operands@, old(decoded).arm_operands),
{
    let rn = reg_operand(decoded, 0)?;
    decoded.arm_operands.rn = rn;
    decoded.arm_operands.op2 = operand_copy(decoded, 1);
    Some(())
}

pub fn normalize_compare_branch(decoded: &mut DecodedInstructionBuilder) -> (r: Option<()>)
    ensures
        only_arm_operands_changed(old(decoded), final(decoded)),
        (r, final(decoded).arm_operands) == norm_rn_op2(old(decoded).operands@, old(decoded).arm_operands),
{
    let rn = reg_operand(decoded, 0)?;
    decoded.arm_operands.rn = rn;
    decoded.arm_operands.op2 = operand_copy(decoded, 1);
    Some(())
}

/// MOV/MVN/MOVS: `rd` from operand 0, `rn` cleared, operand 2 from operand 1.
pub open spec fn norm_move(ops: Seq<DecodedOperand>, a: DecodedArmOperands) -> (Option<()>, DecodedArmOperands) {
    match reg_at(ops, 0) {
        None => (None, a),
        Some(rd) => (Some(()), DecodedArmOperands { rd, rn: 0, op2: op_at(ops, 1), ..a }),
    }
}

pub fn normalize_move(decoded: &mut DecodedInstructionBuilder) -> (r: Option<()>)
    ensures
        only_arm_operands_changed(old(decoded), final(decoded)),
        (r, final(decoded).arm_operands) == norm_move(old(decoded).operands@, old(decoded).arm_operands),
{
    let rd = reg_operand(decoded, 0)?;
    decoded.arm_operands.rd = rd;
    decoded.arm_operands.rn = 0;
    decoded.arm_operands.op2 = operand_copy(decoded, 1);
    Some(())
}

/// ADR: `rd` from operand 0, operand 2 from operand 1.
pub open spec fn norm_adr(ops: Seq<DecodedOperand>, a: DecodedArmOperands) -> (Option<()>, DecodedArmOperands) {
    match reg_at(ops, 0) {
        None => (None, a),
        Some(rd) => (Some(()), DecodedArmOperands { rd, op2: op_at(ops, 1), ..a }),
    }
}

pub fn normalize_adr(decoded: &mut DecodedInstructionBuilder) -> (r: Option<()>)
    ensures
        only_arm_operands_changed(old(decoded), final(decoded)),
        (r, final(decoded).arm_operands) == norm_adr(old(decoded).operands@, old(decoded).arm_operands),
{
    let rd = reg_operand(decoded, 0)?;
    decoded.arm_operands.rd = rd;
    decoded.arm_operands.op2 = operand_copy(decoded, 1);
    Some(())
}

/// Two- or three-operand data processing: `rd` from operand 0; with three operands `rn` and
/// operand 2 from operands 1 and 2, else `rn = rd` and operand 2 from operand 1.
pub open spec fn norm_binary(ops: Seq<DecodedOperand>, a: DecodedArmOperands) -> (Option<()>, DecodedArmOperands) {
    match reg_at(ops, 0) {
        None => (None, a),
        Some(rd) => if op_at(ops, 2) is Some {
            match reg_at(ops, 1) {
                None => (None, DecodedArmOperands { rd, ..a }),
                Some(rn) => (Some(()), DecodedArmOperands { rd, rn, op2: op_at(ops, 2), ..a }),
            }
        } else {
            (Some(()), DecodedArmOperands { rd, rn: rd, op2: op_at(ops, 1), ..a })
        },
    }
}

pub fn normalize_binary(decoded: &mut DecodedInstructionBuilder) -> (r: Option<()>)
    ensures
        only_arm_operands_changed(old(decoded), final(decoded)),
        (r, final(decoded).arm_operands) == norm_binary(old(decoded).operands@, old(decoded).arm_operands),
{
    let rd = reg_operand(decoded, 0)?;
    decoded.arm_operands.rd = rd;
    if decoded.get_operand(2).is_some() {
        let rn = reg_operand(decoded, 1)?;
        decoded.arm_operands.rn = rn;
        decoded.arm_operands.op2 = operand_copy(decoded, 2);
    } else {
        decoded.arm_operands.rn = rd;
        decoded.arm_operands.op2 = operand_copy(decoded, 1);
    }
    Some(())
}

/// Shifts: `rd` and `rm` from operands 0 and 1; by a register (three operands) `rn = rm` and
/// operand 2 from operand 2, else `rn = rd` and operand 2 from operand 1.
pub open spec fn norm_shift(ops: Seq<DecodedOperand>, a: DecodedArmOperands) -> (Option<()>, DecodedArmOperands) {
    match (reg_at(ops, 0), reg_at(ops, 1)) {
        (Some(rd), Some(rm)) => if op_at(ops, 2) is Some {
            (Some(()), DecodedArmOperands { rd, rn: rm, op2: op_at(ops, 2), ..a })
        } else {
            (Some(()), DecodedArmOperands { rd, rn: rd, op2: op_at(ops, 1), ..a })
        },
        _ => (None, a),
    }
}

pub fn normalize_shift(decoded: &mut DecodedInstructionBuilder) -> (r: Option<()>)
    ensures
        only_arm_operands_changed(old(decoded), final(decoded)),
        (r, final(decoded).arm_operands) == norm_shift(old(decoded).operands@, old(decoded).arm_operands),
{
    let rd = reg_operand(decoded, 0)?;
    let rm = reg_operand(decoded, 1)?;
    decoded.arm_operands.rd = rd;
    if decoded.get_operand(2).is_some() {
        decoded.arm_operands.rn = rm;
        decoded.arm_operands.op2 = operand_copy(decoded, 2);
    } else {
        decoded.arm_operands.rn = rd;
        decoded.arm_operands.op2 = operand_copy(decoded, 1);
    }
    Some(())
}

/// Branches: operand 2 from operand 0.
pub fn normalize_branch(decoded: &mut DecodedInstructionBuilder) -> (r: Option<()>)
    ensures
        only_arm_operands_changed(old(decoded), final(decoded)),
        r is Some,
        final(decoded).arm_operands == (DecodedArmOperands { op2: op_at(old(decoded).operands@, 0), ..old(decoded).arm_operands }),
{
    decoded.arm_operands.op2 = operand_copy(decoded, 0);
    Some(())
}


/// The post-index offset of a load or store: operand 2 when it is an immediate (truncated
/// to 32 bits), else 0.
pub open spec fn post_imm_of(ops: Seq<DecodedOperand>) -> i32 {
    match op_at(ops, 2) {
        Some(op) => match op.op_type {
            DecodedOperandKind::Imm(imm) => imm as i32,
            _ => 0,
        },
        None => 0,
    }
}

/// Loads and stores: `rd` from operand 0 and the addressing fields from the memory operand
/// 1; write-back as given, after the access when there is a third operand.
pub open spec fn norm_memory(ops: Seq<DecodedOperand>, a: DecodedArmOperands, writeback: bool) -> (Option<()>, DecodedArmOperands) {
    match reg_at(ops, 0) {
        None => (None, a),
        Some(rd) => {
            let a1 = DecodedArmOperands {
                rd,
                op2: op_at(ops, 1),
                mem_writeback: writeback,
                mem_post_index: op_at(ops, 2) is Some,
                mem_post_imm: 0,
                mem_disp: 0,
                mem_has_index: false,
                ..a
            };
            match op_at(ops, 1) {
                Some(op) => match op.op_type {
                    DecodedOperandKind::Mem(m) => (Some(()), DecodedArmOperands {
                        rn: m.base,
                        mem_disp: m.disp,
                        mem_has_index: m.index is Some,
                        mem_post_imm: post_imm_of(ops),
                        ..a1
                    }),
                    _ => (None, a1),
                },
                None => (None, a1),
            }
        },
    }
}

pub fn normalize_memory(decoded: &mut DecodedInstructionBuilder, writeback: bool) -> (r: Option<()>)
    ensures
        only_arm_operands_changed(old(decoded), final(decoded)),
        (r, final(decoded).arm_operands) == norm_memory(old(decoded).operands@, old(decoded).arm_operands, writeback),
{
    let rd = reg_operand(decoded, 0)?;
    decoded.arm_operands.rd = rd;
    decoded.arm_operands.op2 = operand_copy(decoded, 1);
    decoded.arm_operands.mem_writeback = writeback;
    decoded.arm_operands.mem_post_index = decoded.get_operand(2).is_some();
    decoded.arm_operands.mem_post_imm = 0;
    decoded.arm_operands.mem_disp = 0;
    decoded.arm_operands.mem_has_index = false;
    let mem = match decoded.get_operand(1)?.op_type {
        DecodedOperandKind::Mem(mem) => mem,
        _ => return None,
    };
    decoded.arm_operands.rn = mem.base;
    decoded.arm_operands.mem_disp = mem.disp;
    decoded.arm_operands.mem_has_index = mem.index.is_some();
    match operand_copy(decoded, 2) {
        Some(op3) => {
            decoded.arm_operands.mem_post_imm = match op3.op_type {
                DecodedOperandKind::Imm(imm) => imm as i32,
                _ => 0,
            };
        },
        None => {},
    }
    Some(())
}

/// The register operands, in order.
pub open spec fn regs_of(ops: Seq<DecodedOperand>) -> Seq<u32>
    decreases ops.len(),
{
    if ops.len() == 0 {
        seq![]
    } else {
        let rest = regs_of(ops.drop_last());
        match ops.last().op_type {
            DecodedOperandKind::Reg(r) => rest.push(r),
            _ => rest,
        }
    }
}

/// Whether `s` is in increasing order from index `start` on.
pub open spec fn sorted_from(s: Seq<u32>, start: int) -> bool {
    forall|a: int, b: int| start <= a <= b < s.len() ==> s[a] <= s[b]
}

proof fn lemma_swap_multiset(s: Seq<u32>, i: int, j: int)
    requires
        0 <= i < s.len(),
        0 <= j < s.len(),
    ensures
        s.update(i, s[j]).update(j, s[i]).to_multiset() == s.to_multiset(),
{
    broadcast use vstd::seq_lib::to_multiset_update, vstd::multiset::group_multiset_axioms;
    let s1 = s.update(i, s[j]);
    assert(s1[j] == s[j]);
    assert(s1.to_multiset() == s.to_multiset().insert(s[j]).remove(s[i]));
    assert(s1.update(j, s[i]).to_multiset() == s1.to_multiset().insert(s[i]).remove(s[j]));
    assert(s.to_multiset().count(s[i]) > 0) by {
        broadcast use vstd::seq_lib::to_multiset_contains;
        assert(s.contains(s[i]));
    }
    assert(s1.update(j, s[i]).to_multiset() =~= s.to_multiset());
}

/// Sorts `v` from index `start` on; the elements before stay where they are.
fn sort_from(v: &mut Vec<u32>, start: usize)
    requires
        start <= old(v)@.len(),
    ensures
        final(v)@.len() == old(v)@.len(),
        final(v)@.subrange(0, start as int) == old(v)@.subrange(0, start as int),
        final(v)@.subrange(start as int, final(v)@.len() as int).to_multiset() == old(v)@.subrange(
            start as int,
            old(v)@.len() as int,
        ).to_multiset(),
        sorted_from(final(v)@, start as int),
{
    let n = v.len();
    let mut i = start;
    while i < n
        invariant
            start <= i <= n,
            n == v@.len(),
            v@.subrange(0, start as int) == old(v)@.subrange(0, start as int),
            v@.subrange(start as int, n as int).to_multiset() == old(v)@.subrange(start as int, n as int).to_multiset(),
            forall|a: int, b: int| start <= a <= b < i ==> v@[a] <= v@[b],
            forall|a: int, b: int| start <= a < i <= b < n ==> v@[a] <= v@[b],
        decreases n - i,
    {
        let mut m = i;
        let mut k = i + 1;
        while k < n
            invariant
                i <= m < n,
                i < k <= n,
                n == v@.len(),
                forall|t: int| i <= t < k ==> v@[m as int] <= v@[t],
            decreases n - k,
        {
            if v[k] < v[m] {
                m = k;
            }
            k = k + 1;
        }
        let ghost before = v@;
        let vi = v[i];
        let vm = v[m];
        v.set(i, vm);
        v.set(m, vi);
        proof {
            let sub = before.subrange(start as int, n as int);
            assert(v@.subrange(start as int, n as int) =~= sub.update(i - start, sub[m - start]).update(m - start, sub[i - start]));
            lemma_swap_multiset(sub, i - start, m - start);
            assert(v@.subrange(0, start as int) =~= before.subrange(0, start as int));
        }
        i = i + 1;
    }
}

/// All fields but `transed_operands` are as in `old`.
pub open spec fn only_transed_changed(old: &DecodedInstructionBuilder, new: &DecodedInstructionBuilder) -> bool {
    &&& new.address == old.address
    &&& new.size == old.size
    &&& new.mnemonic@ == old.mnemonic@
    &&& new.op_str@ == old.op_str@
    &&& new.operands@ == old.operands@
    &&& new.writeback == old.writeback
    &&& new.update_flags == old.update_flags
    &&& new.it_mask == old.it_mask
    &&& new.writes_pc == old.writes_pc
    &&& new.arm_operands == old.arm_operands
}

/// The register list of LDM/STM (after the base register) and PUSH/POP: the register
/// operands, the base first when there is one, the others in increasing order.
pub open spec fn multi_reg_done(ops: Seq<DecodedOperand>, with_base_reg: bool, r: Option<()>, list: Seq<u32>) -> bool {
    let regs = regs_of(ops);
    if with_base_reg {
        if regs.len() == 0 {
            r is None && list.len() == 0
        } else {
            &&& r is Some
            &&& list.len() == regs.len()
            &&& list[0] == regs[0]
            &&& sorted_from(list, 1)
            &&& list.drop_first().to_multiset() == regs.drop_first().to_multiset()
        }
    } else {
        &&& r is Some
        &&& list.len() == regs.len()
        &&& sorted_from(list, 0)
        &&& list.to_multiset() == regs.to_multiset()
    }
}

pub fn normalize_multi_reg(decoded: &mut DecodedInstructionBuilder, with_base_reg: bool) -> (r: Option<()>)
    ensures
        only_transed_changed(old(decoded), final(decoded)),
        multi_reg_done(old(decoded).operands@, with_base_reg, r, final(decoded).transed_operands@),
{
    decoded.transed_operands.clear();
    let mut base_captured = !with_base_reg;
    let mut index: usize = 0;
    while index < decoded.operands.len()
        invariant
            index <= decoded.operands@.len(),
            only_transed_changed(old(decoded), decoded),
            decoded.transed_operands@ == regs_of(decoded.operands@.subrange(0, index as int)),
            base_captured == (!with_base_reg || decoded.transed_operands@.len() > 0),
        decreases decoded.operands@.len() - index,
    {
        let op = decoded.operands[index];
        proof {
            assert(decoded.operands@.subrange(0, index as int + 1).drop_last() =~= decoded.operands@.subrange(0, index as int));
        }
        match op.op_type {
            DecodedOperandKind::Reg(reg) => {
                decoded.transed_operands.push(reg);
                base_captured = true;
            },
            _ => {},
        }
        index = index + 1;
    }
    assert(decoded.operands@.subrange(0, decoded.operands@.len() as int) =~= decoded.operands@);
    let ghost regs = decoded.transed_operands@;
    if with_base_reg {
        if !base_captured {
            return None;
        }
        if decoded.transed_operands.len() > 1 {
            sort_from(&mut decoded.transed_operands, 1);
        }
        proof {
            let list = decoded.transed_operands@;
            assert(list.drop_first() =~= list.subrange(1, list.len() as int));
            assert(regs.drop_first() =~= regs.subrange(1, regs.len() as int));
            assert(list[0] == list.subrange(0, 1)[0]);
            assert(regs[0] == regs.subrange(0, 1)[0]);
        }
    } else {
        sort_from(&mut decoded.transed_operands, 0);
        proof {
            let list = decoded.transed_operands@;
            assert(list =~= list.subrange(0, list.len() as int));
            assert(regs =~= regs.subrange(0, regs.len() as int));
        }
    }
    Some(())
}


/// How the operands of instruction `insn` are normalised for the block engine (see the
/// `norm_*` functions); `None` for instructions it does not know. The multi-register
/// instructions are described by `multi_reg_done`.
pub open spec fn norm_for(insn: ArmInsn, ops: Seq<DecodedOperand>, a: DecodedArmOperands, writeback: bool) -> (Option<()>, DecodedArmOperands) {
    match insn {
        ArmInsn::ARM_INS_UBFX => norm_ubfx(ops, a),
        ArmInsn::ARM_INS_UXTB | ArmInsn::ARM_INS_UXTH => norm_extend(ops, a),
        ArmInsn::ARM_INS_CMP | ArmInsn::ARM_INS_CMN | ArmInsn::ARM_INS_TST | ArmInsn::ARM_INS_TEQ => norm_rn_op2(ops, a),
        ArmInsn::ARM_INS_MOV | ArmInsn::ARM_INS_MVN | ArmInsn::ARM_INS_MOVS => norm_move(ops, a),
        ArmInsn::ARM_INS_AND | ArmInsn::ARM_INS_ORR | ArmInsn::ARM_INS_EOR | ArmInsn::ARM_INS_BIC | ArmInsn::ARM_INS_ORN
        | ArmInsn::ARM_INS_ADD | ArmInsn::ARM_INS_ADC | ArmInsn::ARM_INS_SUB | ArmInsn::ARM_INS_SBC | ArmInsn::ARM_INS_RSB
        | ArmInsn::ARM_INS_MUL | ArmInsn::ARM_INS_UDIV | ArmInsn::ARM_INS_MLS => norm_binary(ops, a),
        ArmInsn::ARM_INS_ASR | ArmInsn::ARM_INS_LSL | ArmInsn::ARM_INS_LSR | ArmInsn::ARM_INS_ROR | ArmInsn::ARM_INS_RRX => norm_shift(ops, a),
        ArmInsn::ARM_INS_B | ArmInsn::ARM_INS_BL | ArmInsn::ARM_INS_BX | ArmInsn::ARM_INS_BLX => (Some(()), DecodedArmOperands { op2: op_at(ops, 0), ..a }),
        ArmInsn::ARM_INS_CBZ | ArmInsn::ARM_INS_CBNZ => norm_rn_op2(ops, a),
        ArmInsn::ARM_INS_ADR => norm_adr(ops, a),
        ArmInsn::ARM_INS_LDR | ArmInsn::ARM_INS_LDRB | ArmInsn::ARM_INS_LDRSB | ArmInsn::ARM_INS_LDRH | ArmInsn::ARM_INS_LDRSH
        | ArmInsn::ARM_INS_STR | ArmInsn::ARM_INS_STRB | ArmInsn::ARM_INS_STRH => norm_memory(ops, a, writeback),
        ArmInsn::ARM_INS_NOP | ArmInsn::ARM_INS_HINT | ArmInsn::ARM_INS_IT => (Some(()), a),
        ArmInsn::ARM_INS_BKPT => (Some(()), DecodedArmOperands { op2: op_at(ops, 0), ..a }),
        _ => (None, a),
    }
}

pub open spec fn is_multi_reg(insn: ArmInsn) -> bool {
    insn is ARM_INS_LDM || insn is ARM_INS_STM || insn is ARM_INS_PUSH || insn is ARM_INS_POP
}

/// Fills in `arm_operands` (and, for the multi-register instructions, the register list)
/// of a decoded instruction of kind `insn`, with condition `condition` and write-back
/// `writeback` as the decoder reported them.
pub fn normalize_jit_builder(insn: ArmInsn, condition: ArmCC, writeback: bool, decoded: &mut DecodedInstructionBuilder) -> (r: Option<()>)
    ensures
        ({
            let a = DecodedArmOperands { condition, ..old(decoded).arm_operands };
            if is_multi_reg(insn) {
                &&& final(decoded).arm_operands == a
                &&& multi_reg_done(old(decoded).operands@, insn is ARM_INS_LDM || insn is ARM_INS_STM, r, final(decoded).transed_operands@)
                &&& final(decoded).operands@ == old(decoded).operands@
            } else {
                &&& only_arm_operands_changed(old(decoded), final(decoded))
                &&& (r, final(decoded).arm_operands) == norm_for(insn, old(decoded).operands@, a, writeback)
            }
        }),
        final(decoded).address == old(decoded).address,
        final(decoded).size == old(decoded).size,
{
    decoded.arm_operands.condition = condition;
    match insn {
        ArmInsn::ARM_INS_UBFX => normalize_ubfx(decoded),
        ArmInsn::ARM_INS_UXTB | ArmInsn::ARM_INS_UXTH => normalize_extend(decoded),
        ArmInsn::ARM_INS_CMP | ArmInsn::ARM_INS_CMN | ArmInsn::ARM_INS_TST | ArmInsn::ARM_INS_TEQ => normalize_compare(decoded),
        ArmInsn::ARM_INS_MOV | ArmInsn::ARM_INS_MVN | ArmInsn::ARM_INS_MOVS => normalize_move(decoded),
        ArmInsn::ARM_INS_AND | ArmInsn::ARM_INS_ORR | ArmInsn::ARM_INS_EOR | ArmInsn::ARM_INS_BIC | ArmInsn::ARM_INS_ORN
        | ArmInsn::ARM_INS_ADD | ArmInsn::ARM_INS_ADC | ArmInsn::ARM_INS_SUB | ArmInsn::ARM_INS_SBC | ArmInsn::ARM_INS_RSB
        | ArmInsn::ARM_INS_MUL | ArmInsn::ARM_INS_UDIV | ArmInsn::ARM_INS_MLS => normalize_binary(decoded),
        ArmInsn::ARM_INS_ASR | ArmInsn::ARM_INS_LSL | ArmInsn::ARM_INS_LSR | ArmInsn::ARM_INS_ROR | ArmInsn::ARM_INS_RRX => normalize_shift(decoded),
        ArmInsn::ARM_INS_B | ArmInsn::ARM_INS_BL | ArmInsn::ARM_INS_BX | ArmInsn::ARM_INS_BLX => normalize_branch(decoded),
        ArmInsn::ARM_INS_CBZ | ArmInsn::ARM_INS_CBNZ => normalize_compare_branch(decoded),
        ArmInsn::ARM_INS_ADR => normalize_adr(decoded),
        ArmInsn::ARM_INS_LDR | ArmInsn::ARM_INS_LDRB | ArmInsn::ARM_INS_LDRSB | ArmInsn::ARM_INS_LDRH | ArmInsn::ARM_INS_LDRSH
        | ArmInsn::ARM_INS_STR | ArmInsn::ARM_INS_STRB | ArmInsn::ARM_INS_STRH => normalize_memory(decoded, writeback),
        ArmInsn::ARM_INS_LDM | ArmInsn::ARM_INS_STM => normalize_multi_reg(decoded, true),
        ArmInsn::ARM_INS_PUSH | ArmInsn::ARM_INS_POP => normalize_multi_reg(decoded, false),
        ArmInsn::ARM_INS_NOP | ArmInsn::ARM_INS_HINT | ArmInsn::ARM_INS_IT => Some(()),
        ArmInsn::ARM_INS_BKPT => {
            decoded.arm_operands.op2 = operand_copy(decoded, 0);
            Some(())
        },
        _ => None,
    }
}

} // verus!
