//! ASR, LSL, LSR, ROR and RRX: `op{S}{cond} Rd, Rm, Rs|#n`, amounts taken from the low byte.
use vstd::prelude::*;
use crate::arch::ArmInsn;
use crate::bits::{apsr_with_nz, apsr_with_c, rrx_c};
use crate::bus::PeripheralBus;
use crate::context::CpuContext;
use crate::cpu::Cpu;
use crate::opcodes::decoded::{
    DecodedArmOperands, DecodedInstruction, DecodedInstructionBuilder, DecodedOperand,
    DecodedOperandKind, check_condition, reg_at, op_at, only_arm_operands_changed, reg_operand,
};
use crate::opcodes::instructions::{cond_passes, after_write, operand_regs_ok};
use crate::opcodes::opcode::{Opcode, OpExec, OpResolve, entry, entry_is};
use crate::opcodes::thumb_exec::{rstep, shifted, shift_flags};
use crate::opcodes::thumb_runtime::{ShiftKind, apply_shift, carry_of, current_carry};

verus! {

/// The shift amount: the low byte of an immediate or of a register's contents, 0 otherwise.
pub open spec fn shift_amount(regs: Seq<u32>, data: &DecodedInstruction) -> u32 {
    match data.arm_operands.op2 {
        Some(op) => match op.op_type {
            DecodedOperandKind::Imm(imm) => (imm as u32) & 0xFF,
            DecodedOperandKind::Reg(r) => regs[r as int] & 0xFF,
            _ => 0,
        },
        None => 0,
    }
}

fn resolve_shift_amount<B: PeripheralBus>(cpu: &Cpu<B>, data: &DecodedInstruction) -> (v: u32)
    requires
        cpu.wf(),
        operand_regs_ok(data.arm_operands.op2),
    ensures
        v == shift_amount(cpu.regs(), data),
{
    match data.arm_operands.op2 {
        Some(op) => match op.op_type {
            DecodedOperandKind::Imm(imm) => (imm as u32) & 0xFF,
            DecodedOperandKind::Reg(r) => cpu.read_reg(r) & 0xFF,
            _ => 0,
        },
        None => 0,
    }
}

/// `rd` and the shifted register (`rn`) are R0-R15, and so is a register amount.
pub open spec fn shift_ready(data: &DecodedInstruction) -> bool {
    &&& data.arm_operands.rd < 16
    &&& data.arm_operands.rn < 16
    &&& operand_regs_ok(data.arm_operands.op2)
}

/// A shift executor: nothing changes when the condition fails (the size is returned);
/// otherwise `rd = rn` shifted by the amount, with N, Z and (for a nonzero amount) C when
/// flags are set.
pub open spec fn shift_exec<B>(old: Cpu<B>, new: Cpu<B>, data: &DecodedInstruction, kind: ShiftKind, r: u32) -> bool {
    if cond_passes(old, data) {
        &&& shifted(old, new, kind, data.arm_operands.rd, old.regs()[data.arm_operands.rn as int], shift_amount(old.regs(), data), data.update_flags)
        &&& r == after_write(data, data.arm_operands.rd)
    } else {
        new == old && r == data.size
    }
}

fn shift_by<B: PeripheralBus>(cpu: &mut Cpu<B>, data: &DecodedInstruction, kind: ShiftKind) -> (r: u32)
    requires
        old(cpu).wf(),
        shift_ready(data),
    ensures
        shift_exec(*old(cpu), *final(cpu), data, kind, r),
{
    if !check_condition(cpu, data.arm_operands.condition) {
        return data.size();
    }
    let rd = data.arm_operands.rd;
    let amount = resolve_shift_amount(cpu, data);
    let value = cpu.read_reg(data.arm_operands.rn);
    let (result, carry) = apply_shift(value, kind, amount, current_carry(cpu.read_apsr()));
    cpu.write_reg(rd, result);
    if data.update_flags() {
        let mut a = apsr_with_nz(cpu.read_apsr(), result);
        if amount > 0 {
            a = apsr_with_c(a, carry);
        }
        cpu.write_apsr(a);
    }
    if rd == 15 { 0 } else { data.size() }
}

pub struct Op_Asr;

impl Op_Asr {
    pub fn execute<B: PeripheralBus>(cpu: &mut Cpu<B>, data: &DecodedInstruction) -> (r: u32)
        requires
            old(cpu).wf(),
            shift_ready(data),
        ensures
            shift_exec(*old(cpu), *final(cpu), data, ShiftKind::Asr, r),
    {
        shift_by(cpu, data, ShiftKind::Asr)
    }
}

pub struct Op_Lsl;

impl Op_Lsl {
    pub fn execute<B: PeripheralBus>(cpu: &mut Cpu<B>, data: &DecodedInstruction) -> (r: u32)
        requires
            old(cpu).wf(),
            shift_ready(data),
        ensures
            shift_exec(*old(cpu), *final(cpu), data, ShiftKind::Lsl, r),
    {
        shift_by(cpu, data, ShiftKind::Lsl)
    }
}

pub struct Op_Lsr;

impl Op_Lsr {
    pub fn execute<B: PeripheralBus>(cpu: &mut Cpu<B>, data: &DecodedInstruction) -> (r: u32)
        requires
            old(cpu).wf(),
            shift_ready(data),
        ensures
            shift_exec(*old(cpu), *final(cpu), data, ShiftKind::Lsr, r),
    {
        shift_by(cpu, data, ShiftKind::Lsr)
    }
}

pub struct Op_Ror;

impl Op_Ror {
    pub fn execute<B: PeripheralBus>(cpu: &mut Cpu<B>, data: &DecodedInstruction) -> (r: u32)
        requires
            old(cpu).wf(),
            shift_ready(data),
        ensures
            shift_exec(*old(cpu), *final(cpu), data, ShiftKind::Ror, r),
    {
        shift_by(cpu, data, ShiftKind::Ror)
    }
}

/// RRX: nothing changes when the condition fails (the size is returned); otherwise `rd`
/// gets `rn` rotated right by one through the carry, with N, Z and C (bit 0 of `rn`) when
/// flags are set.
pub open spec fn rrx_exec<B>(old: Cpu<B>, new: Cpu<B>, data: &DecodedInstruction, r: u32) -> bool {
    let (v, c) = rrx_c(old.regs()[data.arm_operands.rn as int], carry_of(old.apsr()));
    if cond_passes(old, data) {
        &&& rstep(old, new, old.regs().update(data.arm_operands.rd as int, v), if data.update_flags {
            shift_flags(old.apsr(), v, c, 1)
        } else {
            old.apsr()
        })
        &&& r == after_write(data, data.arm_operands.rd)
    } else {
        new == old && r == data.size
    }
}

pub struct Op_Rrx;

impl Op_Rrx {
    pub fn execute<B: PeripheralBus>(cpu: &mut Cpu<B>, data: &DecodedInstruction) -> (r: u32)
        requires
            old(cpu).wf(),
            data.arm_operands.rd < 16,
            data.arm_operands.rn < 16,
        ensures
            rrx_exec(*old(cpu), *final(cpu), data, r),
    {
        if !check_condition(cpu, data.arm_operands.condition) {
            return data.size();
        }
        let rd = data.arm_operands.rd;
        let value = cpu.read_reg(data.arm_operands.rn);
        let carry_in = current_carry(cpu.read_apsr()) as u32;
        let result = (carry_in << 31) | (value >> 1);
        assert(result == (value >> 1) | (((carry_in as u8) as u32) << 31)) by (bit_vector)
            requires
                carry_in <= 1,
                result == (carry_in << 31) | (value >> 1),
        ;
        cpu.write_reg(rd, result);
        if data.update_flags() {
            let a = apsr_with_c(apsr_with_nz(cpu.read_apsr(), result), (value & 1) as u8);
            cpu.write_apsr(a);
        }
        if rd == 15 { 0 } else { data.size() }
    }
}

/// `rd` from operand 0 and the shifted register from operand 1 (R0 when not registers);
/// with a third operand that operand is the amount, otherwise `rd` itself is shifted by
/// operand 1.
pub open spec fn shift_operands(ops: Seq<DecodedOperand>, a: DecodedArmOperands) -> DecodedArmOperands {
    let rd = match reg_at(ops, 0) { Some(r) => r, None => 0 };
    let rm = match reg_at(ops, 1) { Some(r) => r, None => 0 };
    match op_at(ops, 2) {
        Some(o) => DecodedArmOperands { rd, rn: rm, op2: Some(o), ..a },
        None => DecodedArmOperands { rd, rn: rd, op2: op_at(ops, 1), ..a },
    }
}

pub struct OpShiftResolver;

impl OpShiftResolver {
    pub fn resolve(&self, decoded: &mut DecodedInstructionBuilder) -> (r: u32)
        ensures
            only_arm_operands_changed(old(decoded), final(decoded)),
            final(decoded).arm_operands == shift_operands(old(decoded).operands@, old(decoded).arm_operands),
            r == final(decoded).arm_operands.rd,
    {
        let rd = match reg_operand(decoded, 0) {
            Some(r) => r,
            None => 0,
        };
        let rm = match reg_operand(decoded, 1) {
            Some(r) => r,
            None => 0,
        };
        decoded.arm_operands.rd = rd;
        match decoded.get_operand(2) {
            Some(op) => {
                let o = *op;
                decoded.arm_operands.rn = rm;
                decoded.arm_operands.op2 = Some(o);
            },
            None => {
                let o = match decoded.get_operand(1) {
                    Some(op) => Some(*op),
                    None => None,
                };
                decoded.arm_operands.rn = rd;
                decoded.arm_operands.op2 = o;
            },
        }
        rd
    }
}

/// The entries of the shift instructions.
pub open spec fn shift_table(t: Seq<Opcode>) -> bool {
    &&& t.len() == 5
    &&& entry_is(t[0], ArmInsn::ARM_INS_ASR, "ASR"@, 32, 1, 1, OpExec::Asr, OpResolve::Shift, None)
    &&& entry_is(t[1], ArmInsn::ARM_INS_LSL, "LSL"@, 32, 1, 1, OpExec::Lsl, OpResolve::Shift, None)
    &&& entry_is(t[2], ArmInsn::ARM_INS_LSR, "LSR"@, 32, 1, 1, OpExec::Lsr, OpResolve::Shift, None)
    &&& entry_is(t[3], ArmInsn::ARM_INS_ROR, "ROR"@, 32, 1, 1, OpExec::Ror, OpResolve::Shift, None)
    &&& entry_is(t[4], ArmInsn::ARM_INS_RRX, "RRX"@, 32, 1, 1, OpExec::Rrx, OpResolve::Shift, None)
}

pub fn addd_shift_def() -> (t: Vec<Opcode>)
    ensures
        shift_table(t@),
{
    let mut t: Vec<Opcode> = Vec::new();
    t.push(entry(ArmInsn::ARM_INS_ASR, "ASR", 32, 1, 1, OpExec::Asr, OpResolve::Shift, None));
    t.push(entry(ArmInsn::ARM_INS_LSL, "LSL", 32, 1, 1, OpExec::Lsl, OpResolve::Shift, None));
    t.push(entry(ArmInsn::ARM_INS_LSR, "LSR", 32, 1, 1, OpExec::Lsr, OpResolve::Shift, None));
    t.push(entry(ArmInsn::ARM_INS_ROR, "ROR", 32, 1, 1, OpExec::Ror, OpResolve::Shift, None));
    t.push(entry(ArmInsn::ARM_INS_RRX, "RRX", 32, 1, 1, OpExec::Rrx, OpResolve::Shift, None));
    t
}

pub struct Shiift_builder;

impl Shiift_builder {
    pub fn build(&self) -> (t: Vec<Opcode>)
        ensures
            shift_table(t@),
    {
        addd_shift_def()
    }
}

} // verus!
