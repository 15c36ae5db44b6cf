//! ADD, ADC, SUB, SBC, RSB, MUL, UDIV and MLS: `op{S}{cond} {Rd,} Rn, Operand2`.
use vstd::prelude::*;
use crate::arch::ArmInsn;
use crate::bits::{nz_flags, nzcv_flags, add_carry, sub_overflow, apsr_with_nz, apsr_with_nzcv, add_overflow_bit, sub_overflow_bit};
use crate::bus::PeripheralBus;
use crate::context::CpuContext;
use crate::cpu::Cpu;
use crate::opcodes::decoded::{
    DecodedArmOperands, DecodedInstruction, DecodedInstructionBuilder, op2_ok, op2_value,
    resolve_op2_runtime, check_condition, reg_at, op_at, only_arm_operands_changed, reg_operand,
};
use crate::opcodes::instructions::{cond_passes, after_write};
use crate::opcodes::opcode::{Opcode, OpExec, OpResolve, entry, entry_is};
use crate::opcodes::thumb_exec::{rstep, add_flags, sub_flags, udiv_value};
use crate::opcodes::thumb_runtime::{carry_of, current_carry};

verus! {

/// The arithmetic of `Op_Add` .. `Op_Udiv`.
#[derive(Clone, Copy, PartialEq, Eq, Structural)]
pub enum CalcOp {
    Add,
    Adc,
    Sub,
    Sbc,
    Rsb,
    Mul,
    Udiv,
}

/// The result of `lhs op rhs`; ADC adds the carry flag, SBC subtracts its complement.
pub open spec fn calc_value(op: CalcOp, lhs: u32, rhs: u32, apsr: u32) -> u32 {
    let c = carry_of(apsr) as u32;
    match op {
        CalcOp::Add => lhs.wrapping_add(rhs),
        CalcOp::Adc => lhs.wrapping_add(rhs).wrapping_add(c),
        CalcOp::Sub => lhs.wrapping_sub(rhs),
        CalcOp::Sbc => lhs.wrapping_sub(rhs).wrapping_sub((1 - c) as u32),
        CalcOp::Rsb => rhs.wrapping_sub(lhs),
        CalcOp::Mul => lhs.wrapping_mul(rhs),
        CalcOp::Udiv => udiv_value(lhs, rhs),
    }
}

/// Whether `lhs + rhs + carry_in`, read as signed 32-bit values, leaves the signed 32-bit
/// range.
pub open spec fn adc_overflow(lhs: u32, rhs: u32, carry_in: u32) -> bool {
    let s = (lhs as i32) as int + (rhs as i32) as int + carry_in as int;
    s < i32::MIN as int || s > i32::MAX as int
}

/// The APSR after `lhs op rhs`: unchanged without `setflags` and for UDIV; N and Z for
/// MUL; for ADC, C is the carry out and V the signed overflow of the sum with the carry in;
/// for SBC, C is "no borrow".
pub open spec fn calc_apsr(op: CalcOp, lhs: u32, rhs: u32, apsr: u32, setflags: bool) -> u32 {
    let c = carry_of(apsr) as u32;
    let r = calc_value(op, lhs, rhs, apsr);
    if !setflags {
        apsr
    } else {
        match op {
            CalcOp::Add => add_flags(apsr, lhs, rhs),
            CalcOp::Adc => nzcv_flags(apsr, r, add_carry(lhs, rhs, c), adc_overflow(lhs, rhs, c)),
            CalcOp::Sub => sub_flags(apsr, lhs, rhs),
            CalcOp::Sbc => nzcv_flags(apsr, r, lhs as int >= rhs as int + (1 - c), sub_overflow(lhs, rhs, r)),
            CalcOp::Rsb => sub_flags(apsr, rhs, lhs),
            CalcOp::Mul => nz_flags(apsr, r),
            CalcOp::Udiv => apsr,
        }
    }
}

/// The registers the arithmetic executors read and write are R0-R15, and operand 2 can be
/// read.
pub open spec fn calc_ready(data: &DecodedInstruction) -> bool {
    &&& data.arm_operands.rd < 16
    &&& data.arm_operands.rn < 16
    &&& op2_ok(data)
}

/// `rd = rn op operand2`, flags as `calc_apsr` says.
pub open spec fn calc_done<B>(old: Cpu<B>, new: Cpu<B>, data: &DecodedInstruction, op: CalcOp) -> bool {
    let lhs = old.regs()[data.arm_operands.rn as int];
    let rhs = op2_value(old.regs(), old.apsr(), data).0;
    rstep(
        old,
        new,
        old.regs().update(data.arm_operands.rd as int, calc_value(op, lhs, rhs, old.apsr())),
        calc_apsr(op, lhs, rhs, old.apsr(), data.update_flags),
    )
}

/// An arithmetic executor: nothing changes and the size is returned when the condition
/// fails; otherwise `calc_done`, returning 0 when PC was written.
pub open spec fn calc_exec<B>(old: Cpu<B>, new: Cpu<B>, data: &DecodedInstruction, op: CalcOp, r: u32) -> bool {
    if cond_passes(old, data) {
        calc_done(old, new, data, op) && r == after_write(data, data.arm_operands.rd)
    } else {
        new == old && r == data.size
    }
}

fn calculate<B: PeripheralBus>(cpu: &mut Cpu<B>, data: &DecodedInstruction, op: CalcOp) -> (r: u32)
    requires
        old(cpu).wf(),
        calc_ready(data),
    ensures
        calc_exec(*old(cpu), *final(cpu), data, op, r),
{
    if !check_condition(cpu, data.arm_operands.condition) {
        return data.size();
    }
    let rd = data.arm_operands.rd;
    let rn = data.arm_operands.rn;
    let (op2, _) = resolve_op2_runtime(cpu, data);
    let lhs = cpu.read_reg(rn);
    let apsr = cpu.read_apsr();
    let c = current_carry(apsr) as u32;
    let (result, flags) = match op {
        CalcOp::Add => {
            let res = lhs.wrapping_add(op2);
            let carry = (lhs as u64) + (op2 as u64) > 0xFFFF_FFFFu64;
            (res, apsr_with_nzcv(apsr, res, carry, add_overflow_bit(lhs, op2, res) != 0))
        },
        CalcOp::Adc => {
            let res = lhs.wrapping_add(op2).wrapping_add(c);
            let carry = (lhs as u64) + (op2 as u64) + (c as u64) > 0xFFFF_FFFFu64;
            let signed = (lhs as i32 as i64) + (op2 as i32 as i64) + (c as i64);
            let overflow = signed < -0x8000_0000i64 || signed > 0x7FFF_FFFFi64;
            (res, apsr_with_nzcv(apsr, res, carry, overflow))
        },
        CalcOp::Sub => {
            let res = lhs.wrapping_sub(op2);
            (res, apsr_with_nzcv(apsr, res, lhs >= op2, sub_overflow_bit(lhs, op2, res) != 0))
        },
        CalcOp::Sbc => {
            let borrow = 1u32 - c;
            let res = lhs.wrapping_sub(op2).wrapping_sub(borrow);
            let carry = (lhs as u64) >= (op2 as u64) + (borrow as u64);
            (res, apsr_with_nzcv(apsr, res, carry, sub_overflow_bit(lhs, op2, res) != 0))
        },
        CalcOp::Rsb => {
            let res = op2.wrapping_sub(lhs);
            (res, apsr_with_nzcv(apsr, res, op2 >= lhs, sub_overflow_bit(op2, lhs, res) != 0))
        },
        CalcOp::Mul => {
            let res = lhs.wrapping_mul(op2);
            (res, apsr_with_nz(apsr, res))
        },
        CalcOp::Udiv => {
            let res = if op2 == 0 { 0 } else { lhs / op2 };
            (res, apsr)
        },
    };
    cpu.write_reg(rd, result);
    if data.update_flags() {
        cpu.write_apsr(flags);
    }
    if rd == 15 { 0 } else { data.size() }
}

pub struct Op_Add;

impl Op_Add {
    pub fn execute<B: PeripheralBus>(cpu: &mut Cpu<B>, data: &DecodedInstruction) -> (r: u32)
        requires
            old(cpu).wf(),
            calc_ready(data),
        ensures
            calc_exec(*old(cpu), *final(cpu), data, CalcOp::Add, r),
    {
        calculate(cpu, data, CalcOp::Add)
    }
}

pub struct Op_Adc;

impl Op_Adc {
    pub fn execute<B: PeripheralBus>(cpu: &mut Cpu<B>, data: &DecodedInstruction) -> (r: u32)
        requires
            old(cpu).wf(),
            calc_ready(data),
        ensures
            calc_exec(*old(cpu), *final(cpu), data, CalcOp::Adc, r),
    {
        calculate(cpu, data, CalcOp::Adc)
    }
}

pub struct Op_Sub;

impl Op_Sub {
    pub fn execute<B: PeripheralBus>(cpu: &mut Cpu<B>, data: &DecodedInstruction) -> (r: u32)
        requires
            old(cpu).wf(),
            calc_ready(data),
        ensures
            calc_exec(*old(cpu), *final(cpu), data, CalcOp::Sub, r),
    {
        calculate(cpu, data, CalcOp::Sub)
    }
}

pub struct Op_Sbc;

impl Op_Sbc {
    pub fn execute<B: PeripheralBus>(cpu: &mut Cpu<B>, data: &DecodedInstruction) -> (r: u32)
        requires
            old(cpu).wf(),
            calc_ready(data),
        ensures
            calc_exec(*old(cpu), *final(cpu), data, CalcOp::Sbc, r),
    {
        calculate(cpu, data, CalcOp::Sbc)
    }
}

pub struct Op_Rsb;

impl Op_Rsb {
    pub fn execute<B: PeripheralBus>(cpu: &mut Cpu<B>, data: &DecodedInstruction) -> (r: u32)
        requires
            old(cpu).wf(),
            calc_ready(data),
        ensures
            calc_exec(*old(cpu), *final(cpu), data, CalcOp::Rsb, r),
    {
        calculate(cpu, data, CalcOp::Rsb)
    }
}

pub struct Op_Mul;

impl Op_Mul {
    pub fn execute<B: PeripheralBus>(cpu: &mut Cpu<B>, data: &DecodedInstruction) -> (r: u32)
        requires
            old(cpu).wf(),
            calc_ready(data),
        ensures
            calc_exec(*old(cpu), *final(cpu), data, CalcOp::Mul, r),
    {
        calculate(cpu, data, CalcOp::Mul)
    }
}

pub struct Op_Udiv;

impl Op_Udiv {
    pub fn execute<B: PeripheralBus>(cpu: &mut Cpu<B>, data: &DecodedInstruction) -> (r: u32)
        requires
            old(cpu).wf(),
            calc_ready(data),
        ensures
            calc_exec(*old(cpu), *final(cpu), data, CalcOp::Udiv, r),
    {
        calculate(cpu, data, CalcOp::Udiv)
    }
}

/// The accumulator register of MLS: operand 3 when it is a register, R0 otherwise.
pub open spec fn mls_ra(data: &DecodedInstruction) -> u32 {
    match reg_at(data.operands@, 3) {
        Some(r) => r,
        None => 0,
    }
}

/// MLS: `rd = ra - rn * operand2`, wrapping, no flags.
pub open spec fn mls_exec<B>(old: Cpu<B>, new: Cpu<B>, data: &DecodedInstruction, r: u32) -> bool {
    let regs = old.regs();
    let rhs = op2_value(regs, old.apsr(), data).0;
    let v = regs[mls_ra(data) as int].wrapping_sub(regs[data.arm_operands.rn as int].wrapping_mul(rhs));
    if cond_passes(old, data) {
        rstep(old, new, regs.update(data.arm_operands.rd as int, v), old.apsr()) && r == after_write(data, data.arm_operands.rd)
    } else {
        new == old && r == data.size
    }
}

pub struct Op_Mls;

impl Op_Mls {
    pub fn execute<B: PeripheralBus>(cpu: &mut Cpu<B>, data: &DecodedInstruction) -> (r: u32)
        requires
            old(cpu).wf(),
            calc_ready(data),
            mls_ra(data) < 16,
        ensures
            mls_exec(*old(cpu), *final(cpu), data, r),
    {
        if !check_condition(cpu, data.arm_operands.condition) {
            return data.size();
        }
        let rd = data.arm_operands.rd;
        let rn = data.arm_operands.rn;
        let (op2, _) = resolve_op2_runtime(cpu, data);
        let ra = match data.get_operand(3) {
            Some(op) => match op.op_type {
                crate::opcodes::decoded::DecodedOperandKind::Reg(r) => r,
                _ => 0,
            },
            None => 0,
        };
        let result = cpu.read_reg(ra).wrapping_sub(cpu.read_reg(rn).wrapping_mul(op2));
        cpu.write_reg(rd, result);
        if rd == 15 { 0 } else { data.size() }
    }
}

/// `rd` from operand 0 (R0 when it is not a register), `rn` from operand 1 (`rd` when it
/// is not a register), operand 2 from operand 2 or else operand 1.
pub open spec fn calc_operands(ops: Seq<crate::opcodes::decoded::DecodedOperand>, a: DecodedArmOperands) -> DecodedArmOperands {
    let rd = match reg_at(ops, 0) { Some(r) => r, None => 0 };
    let rn = match reg_at(ops, 1) { Some(r) => r, None => rd };
    let op2 = match op_at(ops, 2) { Some(o) => Some(o), None => op_at(ops, 1) };
    DecodedArmOperands { rd, rn, op2, ..a }
}

pub struct OpCalculateResolver;

impl OpCalculateResolver {
    pub fn resolve(&self, decoded: &mut DecodedInstructionBuilder) -> (r: u32)
        ensures
            only_arm_operands_changed(old(decoded), final(decoded)),
            final(decoded).arm_operands == calc_operands(old(decoded).operands@, old(decoded).arm_operands),
            r == final(decoded).arm_operands.rd,
    {
        let rd = match reg_operand(decoded, 0) {
            Some(r) => r,
            None => 0,
        };
        let rn = match reg_operand(decoded, 1) {
            Some(r) => r,
            None => rd,
        };
        let op2 = match decoded.get_operand(2) {
            Some(op) => Some(*op),
            None => match decoded.get_operand(1) {
                Some(op) => Some(*op),
                None => None,
            },
        };
        decoded.arm_operands.rd = rd;
        decoded.arm_operands.rn = rn;
        decoded.arm_operands.op2 = op2;
        rd
    }
}

/// The entries of the arithmetic instructions.
pub open spec fn calculate_table(t: Seq<Opcode>) -> bool {
    &&& t.len() == 8
    &&& entry_is(t[0], ArmInsn::ARM_INS_ADD, "ADD"@, 32, 1, 1, OpExec::Add, OpResolve::Calculate, None)
    &&& entry_is(t[1], ArmInsn::ARM_INS_ADC, "ADC"@, 32, 1, 1, OpExec::Adc, OpResolve::Calculate, None)
    &&& entry_is(t[2], ArmInsn::ARM_INS_SUB, "SUB"@, 32, 1, 1, OpExec::Sub, OpResolve::Calculate, None)
    &&& entry_is(t[3], ArmInsn::ARM_INS_SBC, "SBC"@, 32, 1, 1, OpExec::Sbc, OpResolve::Calculate, None)
    &&& entry_is(t[4], ArmInsn::ARM_INS_RSB, "RSB"@, 32, 1, 1, OpExec::Rsb, OpResolve::Calculate, None)
    &&& entry_is(t[5], ArmInsn::ARM_INS_MUL, "MUL"@, 32, 1, 1, OpExec::Mul, OpResolve::Calculate, None)
    &&& entry_is(t[6], ArmInsn::ARM_INS_UDIV, "UDIV"@, 32, 1, 1, OpExec::Udiv, OpResolve::Calculate, None)
    &&& entry_is(t[7], ArmInsn::ARM_INS_MLS, "MLS"@, 32, 1, 1, OpExec::Mls, OpResolve::Calculate, None)
}

pub fn add_calculate_def() -> (t: Vec<Opcode>)
    ensures
        calculate_table(t@),
{
    let mut t: Vec<Opcode> = Vec::new();
    t.push(entry(ArmInsn::ARM_INS_ADD, "ADD", 32, 1, 1, OpExec::Add, OpResolve::Calculate, None));
    t.push(entry(ArmInsn::ARM_INS_ADC, "ADC", 32, 1, 1, OpExec::Adc, OpResolve::Calculate, None));
    t.push(entry(ArmInsn::ARM_INS_SUB, "SUB", 32, 1, 1, OpExec::Sub, OpResolve::Calculate, None));
    t.push(entry(ArmInsn::ARM_INS_SBC, "SBC", 32, 1, 1, OpExec::Sbc, OpResolve::Calculate, None));
    t.push(entry(ArmInsn::ARM_INS_RSB, "RSB", 32, 1, 1, OpExec::Rsb, OpResolve::Calculate, None));
    t.push(entry(ArmInsn::ARM_INS_MUL, "MUL", 32, 1, 1, OpExec::Mul, OpResolve::Calculate, None));
    t.push(entry(ArmInsn::ARM_INS_UDIV, "UDIV", 32, 1, 1, OpExec::Udiv, OpResolve::Calculate, None));
    t.push(entry(ArmInsn::ARM_INS_MLS, "MLS", 32, 1, 1, OpExec::Mls, OpResolve::Calculate, None));
    t
}

pub struct Calculate_builder;

impl Calculate_builder {
    pub fn build(&self) -> (t: Vec<Opcode>)
        ensures
            calculate_table(t@),
    {
        add_calculate_def()
    }
}

} // verus!
