//! TST and TEQ: `op{cond} Rn, Operand2`, flags only.
use vstd::prelude::*;
use crate::arch::ArmInsn;
use crate::bits::{apsr_with_nz, apsr_with_c};
use crate::bus::PeripheralBus;
use crate::context::CpuContext;
use crate::cpu::Cpu;
use crate::opcodes::decoded::{
    DecodedArmOperands, DecodedInstruction, DecodedInstructionBuilder, DecodedOperand, op2_ok,
    op2_value, resolve_op2_runtime, check_condition, reg_at, op_at, only_arm_operands_changed,
    reg_operand,
};
use crate::opcodes::instructions::cond_passes;
use crate::opcodes::instructions::bitop::logic_apsr;
use crate::opcodes::opcode::{Opcode, OpExec, OpResolve, entry, entry_is};
use crate::opcodes::thumb_exec::rstep;

verus! {

/// `rn` is a register R0-R15 and operand 2 can be read.
pub open spec fn test_ready(data: &DecodedInstruction) -> bool {
    &&& data.arm_operands.rn < 16
    &&& op2_ok(data)
}

/// A flag-only executor: nothing changes when the condition fails; otherwise N and Z follow
/// `rn and operand2` (`xor` for TEQ) and C the shifter carry. The size is returned.
pub open spec fn test_exec<B>(old: Cpu<B>, new: Cpu<B>, data: &DecodedInstruction, xor: bool, r: u32) -> bool {
    let (rhs, carry) = op2_value(old.regs(), old.apsr(), data);
    let lhs = old.regs()[data.arm_operands.rn as int];
    let v = if xor { lhs ^ rhs } else { lhs & rhs };
    &&& r == data.size
    &&& if cond_passes(old, data) {
        rstep(old, new, old.regs(), logic_apsr(old.apsr(), v, carry))
    } else {
        new == old
    }
}

fn test_bits<B: PeripheralBus>(cpu: &mut Cpu<B>, data: &DecodedInstruction, xor: bool) -> (r: u32)
    requires
        old(cpu).wf(),
        test_ready(data),
    ensures
        test_exec(*old(cpu), *final(cpu), data, xor, r),
{
    if !check_condition(cpu, data.arm_operands.condition) {
        return data.size();
    }
    let rn = data.arm_operands.rn;
    let (op2, carry) = resolve_op2_runtime(cpu, data);
    let lhs = cpu.read_reg(rn);
    let result = if xor { lhs ^ op2 } else { lhs & op2 };
    let a = apsr_with_c(apsr_with_nz(cpu.read_apsr(), result), carry);
    cpu.write_apsr(a);
    data.size()
}

pub struct Op_Tst;

impl Op_Tst {
    pub fn execute<B: PeripheralBus>(cpu: &mut Cpu<B>, data: &DecodedInstruction) -> (r: u32)
        requires
            old(cpu).wf(),
            test_ready(data),
        ensures
            test_exec(*old(cpu), *final(cpu), data, false, r),
    {
        test_bits(cpu, data, false)
    }
}

pub struct Op_Teq;

impl Op_Teq {
    pub fn execute<B: PeripheralBus>(cpu: &mut Cpu<B>, data: &DecodedInstruction) -> (r: u32)
        requires
            old(cpu).wf(),
            test_ready(data),
        ensures
            test_exec(*old(cpu), *final(cpu), data, true, r),
    {
        test_bits(cpu, data, true)
    }
}

/// `rn` from operand 0 (R0 when it is not a register), operand 2 from operand 1.
pub open spec fn test_operands(ops: Seq<DecodedOperand>, a: DecodedArmOperands) -> DecodedArmOperands {
    let rn = match reg_at(ops, 0) { Some(r) => r, None => 0 };
    DecodedArmOperands { rn, op2: op_at(ops, 1), ..a }
}

/// Reads `rn` and operand 2 of a two-operand instruction; returns `rn`.
pub(crate) fn resolve_rn_op2(decoded: &mut DecodedInstructionBuilder) -> (r: u32)
    ensures
        only_arm_operands_changed(old(decoded), final(decoded)),
        final(decoded).arm_operands == test_operands(old(decoded).operands@, old(decoded).arm_operands),
        r == final(decoded).arm_operands.rn,
{
    let rn = match reg_operand(decoded, 0) {
        Some(r) => r,
        None => 0,
    };
    let op2 = match decoded.get_operand(1) {
        Some(op) => Some(*op),
        None => None,
    };
    decoded.arm_operands.rn = rn;
    decoded.arm_operands.op2 = op2;
    rn
}

pub struct OpTst_resolver;

impl OpTst_resolver {
    pub fn resolve(&self, decoded: &mut DecodedInstructionBuilder) -> (r: u32)
        ensures
            only_arm_operands_changed(old(decoded), final(decoded)),
            final(decoded).arm_operands == test_operands(old(decoded).operands@, old(decoded).arm_operands),
            r == final(decoded).arm_operands.rn,
    {
        resolve_rn_op2(decoded)
    }
}

/// The entries of TST and TEQ.
pub open spec fn tst_table(t: Seq<Opcode>) -> bool {
    &&& t.len() == 2
    &&& entry_is(t[0], ArmInsn::ARM_INS_TST, "TST"@, 32, 1, 1, OpExec::Tst, OpResolve::Tst, None)
    &&& entry_is(t[1], ArmInsn::ARM_INS_TEQ, "TEQ"@, 32, 1, 1, OpExec::Teq, OpResolve::Tst, None)
}

pub fn add_tst_def() -> (t: Vec<Opcode>)
    ensures
        tst_table(t@),
{
    let mut t: Vec<Opcode> = Vec::new();
    t.push(entry(ArmInsn::ARM_INS_TST, "TST", 32, 1, 1, OpExec::Tst, OpResolve::Tst, None));
    t.push(entry(ArmInsn::ARM_INS_TEQ, "TEQ", 32, 1, 1, OpExec::Teq, OpResolve::Tst, None));
    t
}

pub struct Tst_builder;

impl Tst_builder {
    pub fn build(&self) -> (t: Vec<Opcode>)
        ensures
            tst_table(t@),
    {
        add_tst_def()
    }
}

} // verus!
