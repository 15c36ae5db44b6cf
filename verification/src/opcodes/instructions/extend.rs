//! UXTB and UXTH: `op{cond} Rd, Rm`, zero-extending the low byte or halfword.
use vstd::prelude::*;
use crate::arch::ArmInsn;
use crate::bus::PeripheralBus;
use crate::context::CpuContext;
use crate::cpu::Cpu;
use crate::opcodes::decoded::{
    DecodedArmOperands, DecodedInstruction, DecodedInstructionBuilder, DecodedOperand, op2_ok,
    op2_value, resolve_op2_runtime, check_condition, reg_at, op_at, only_arm_operands_changed,
    reg_operand,
};
use crate::opcodes::instructions::{cond_passes, after_write};
use crate::opcodes::opcode::{Opcode, OpExec, OpResolve, entry, entry_is};
use crate::opcodes::thumb_exec::rstep;

verus! {

/// `rd` is a register R0-R15 and operand 2 can be read.
pub open spec fn extend_ready(data: &DecodedInstruction) -> bool {
    &&& data.arm_operands.rd < 16
    &&& op2_ok(data)
}

/// An extend executor: nothing changes when the condition fails (the size is returned);
/// otherwise `rd = operand2 & mask`, flags untouched.
pub open spec fn extend_exec<B>(old: Cpu<B>, new: Cpu<B>, data: &DecodedInstruction, mask: u32, r: u32) -> bool {
    let v = op2_value(old.regs(), old.apsr(), data).0 & mask;
    if cond_passes(old, data) {
        rstep(old, new, old.regs().update(data.arm_operands.rd as int, v), old.apsr()) && r == after_write(data, data.arm_operands.rd)
    } else {
        new == old && r == data.size
    }
}

fn extend<B: PeripheralBus>(cpu: &mut Cpu<B>, data: &DecodedInstruction, mask: u32) -> (r: u32)
    requires
        old(cpu).wf(),
        extend_ready(data),
    ensures
        extend_exec(*old(cpu), *final(cpu), data, mask, r),
{
    if !check_condition(cpu, data.arm_operands.condition) {
        return data.size();
    }
    let rd = data.arm_operands.rd;
    let (op2, _) = resolve_op2_runtime(cpu, data);
    cpu.write_reg(rd, op2 & mask);
    if rd == 15 { 0 } else { data.size() }
}

pub struct Op_Uxtb;

impl Op_Uxtb {
    pub fn execute<B: PeripheralBus>(cpu: &mut Cpu<B>, data: &DecodedInstruction) -> (r: u32)
        requires
            old(cpu).wf(),
            extend_ready(data),
        ensures
            extend_exec(*old(cpu), *final(cpu), data, 0xFF, r),
    {
        extend(cpu, data, 0xFF)
    }
}

pub struct Op_Uxth;

impl Op_Uxth {
    pub fn execute<B: PeripheralBus>(cpu: &mut Cpu<B>, data: &DecodedInstruction) -> (r: u32)
        requires
            old(cpu).wf(),
            extend_ready(data),
        ensures
            extend_exec(*old(cpu), *final(cpu), data, 0xFFFF, r),
    {
        extend(cpu, data, 0xFFFF)
    }
}

/// `rd` and `rn` from operands 0 and 1 (R0 when not registers), operand 2 from operand 1.
pub open spec fn extend_operands(ops: Seq<DecodedOperand>, a: DecodedArmOperands) -> DecodedArmOperands {
    let rd = match reg_at(ops, 0) { Some(r) => r, None => 0 };
    let rn = match reg_at(ops, 1) { Some(r) => r, None => 0 };
    DecodedArmOperands { rd, rn, op2: op_at(ops, 1), ..a }
}

pub struct OpExtendResolver;

impl OpExtendResolver {
    pub fn resolve(&self, decoded: &mut DecodedInstructionBuilder) -> (r: u32)
        ensures
            only_arm_operands_changed(old(decoded), final(decoded)),
            final(decoded).arm_operands == extend_operands(old(decoded).operands@, old(decoded).arm_operands),
            r == final(decoded).arm_operands.rd,
    {
        let rd = match reg_operand(decoded, 0) {
            Some(r) => r,
            None => 0,
        };
        let rn = match reg_operand(decoded, 1) {
            Some(r) => r,
            None => 0,
        };
        let op2 = match decoded.get_operand(1) {
            Some(op) => Some(*op),
            None => None,
        };
        decoded.arm_operands.rd = rd;
        decoded.arm_operands.rn = rn;
        decoded.arm_operands.op2 = op2;
        rd
    }
}

/// The entries of UXTB and UXTH.
pub open spec fn extend_table(t: Seq<Opcode>) -> bool {
    &&& t.len() == 2
    &&& entry_is(t[0], ArmInsn::ARM_INS_UXTB, "UXTB"@, 32, 1, 1, OpExec::Uxtb, OpResolve::Extend, None)
    &&& entry_is(t[1], ArmInsn::ARM_INS_UXTH, "UXTH"@, 32, 1, 1, OpExec::Uxth, OpResolve::Extend, None)
}

pub fn add_extend_def() -> (t: Vec<Opcode>)
    ensures
        extend_table(t@),
{
    let mut t: Vec<Opcode> = Vec::new();
    t.push(entry(ArmInsn::ARM_INS_UXTB, "UXTB", 32, 1, 1, OpExec::Uxtb, OpResolve::Extend, None));
    t.push(entry(ArmInsn::ARM_INS_UXTH, "UXTH", 32, 1, 1, OpExec::Uxth, OpResolve::Extend, None));
    t
}

pub struct Extend_builder;

impl Extend_builder {
    pub fn build(&self) -> (t: Vec<Opcode>)
        ensures
            extend_table(t@),
    {
        add_extend_def()
    }
}

} // verus!
