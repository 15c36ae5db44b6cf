//! CBZ and CBNZ: `op Rn, label`.
use vstd::prelude::*;
use crate::arch::ArmInsn;
use crate::bus::PeripheralBus;
use crate::context::CpuContext;
use crate::cpu::Cpu;
use crate::opcodes::decoded::{DecodedInstruction, DecodedInstructionBuilder, check_condition, only_arm_operands_changed};
use crate::opcodes::instructions::{cond_passes, operand_regs_ok, operand_value, read_operand};
use crate::opcodes::instructions::tst::{test_operands, resolve_rn_op2};
use crate::opcodes::opcode::{Opcode, OpExec, OpResolve, entry, entry_is};
use crate::opcodes::thumb_exec::rstep;

verus! {

/// `rn` is R0-R15 and the label operand names registers R0-R15 only.
pub open spec fn compare_branch_ready(data: &DecodedInstruction) -> bool {
    &&& data.arm_operands.rn < 16
    &&& operand_regs_ok(data.arm_operands.op2)
}

/// CBZ (`nonzero` false) / CBNZ: nothing changes and the size is returned when the
/// condition fails or `rn` does not meet the test; otherwise PC gets the label and 0 is
/// returned.
pub open spec fn compare_branch_exec<B>(old: Cpu<B>, new: Cpu<B>, data: &DecodedInstruction, nonzero: bool, r: u32) -> bool {
    let taken = cond_passes(old, data) && ((old.regs()[data.arm_operands.rn as int] != 0) == nonzero);
    if taken {
        rstep(old, new, old.regs().update(15, operand_value(old.regs(), data.arm_operands.op2)), old.apsr()) && r == 0
    } else {
        new == old && r == data.size
    }
}

fn compare_branch<B: PeripheralBus>(cpu: &mut Cpu<B>, data: &DecodedInstruction, nonzero: bool) -> (r: u32)
    requires
        old(cpu).wf(),
        compare_branch_ready(data),
    ensures
        compare_branch_exec(*old(cpu), *final(cpu), data, nonzero, r),
{
    if !check_condition(cpu, data.arm_operands.condition) {
        return data.size();
    }
    let target = read_operand(cpu, data.arm_operands.op2);
    let val = cpu.read_reg(data.arm_operands.rn);
    if (val != 0) == nonzero {
        cpu.write_pc(target);
        0
    } else {
        data.size()
    }
}

pub struct Op_Cbz;

impl Op_Cbz {
    pub fn execute<B: PeripheralBus>(cpu: &mut Cpu<B>, data: &DecodedInstruction) -> (r: u32)
        requires
            old(cpu).wf(),
            compare_branch_ready(data),
        ensures
            compare_branch_exec(*old(cpu), *final(cpu), data, false, r),
    {
        compare_branch(cpu, data, false)
    }
}

pub struct Op_Cbnz;

impl Op_Cbnz {
    pub fn execute<B: PeripheralBus>(cpu: &mut Cpu<B>, data: &DecodedInstruction) -> (r: u32)
        requires
            old(cpu).wf(),
            compare_branch_ready(data),
        ensures
            compare_branch_exec(*old(cpu), *final(cpu), data, true, r),
    {
        compare_branch(cpu, data, true)
    }
}

pub struct OpCompareBranchResolver;

impl OpCompareBranchResolver {
    /// `rn` from operand 0, the label from operand 1.
    pub fn resolve(&self, decoded: &mut DecodedInstructionBuilder) -> (r: u32)
        ensures
            only_arm_operands_changed(old(decoded), final(decoded)),
            final(decoded).arm_operands == test_operands(old(decoded).operands@, old(decoded).arm_operands),
            r == final(decoded).arm_operands.rn,
    {
        resolve_rn_op2(decoded)
    }
}

/// The entries of CBZ and CBNZ.
pub open spec fn compare_branch_table(t: Seq<Opcode>) -> bool {
    &&& t.len() == 2
    &&& entry_is(t[0], ArmInsn::ARM_INS_CBZ, "CBZ"@, 16, 1, 1, OpExec::Cbz, OpResolve::CompareBranch, None)
    &&& entry_is(t[1], ArmInsn::ARM_INS_CBNZ, "CBNZ"@, 16, 1, 1, OpExec::Cbnz, OpResolve::CompareBranch, None)
}

pub fn add_compare_branch_def() -> (t: Vec<Opcode>)
    ensures
        compare_branch_table(t@),
{
    let mut t: Vec<Opcode> = Vec::new();
    t.push(entry(ArmInsn::ARM_INS_CBZ, "CBZ", 16, 1, 1, OpExec::Cbz, OpResolve::CompareBranch, None));
    t.push(entry(ArmInsn::ARM_INS_CBNZ, "CBNZ", 16, 1, 1, OpExec::Cbnz, OpResolve::CompareBranch, None));
    t
}

pub struct Compare_branch_builder;

impl Compare_branch_builder {
    pub fn build(&self) -> (t: Vec<Opcode>)
        ensures
            compare_branch_table(t@),
    {
        add_compare_branch_def()
    }
}

} // verus!
