//! B, BL, BX and BLX. The target is the first entry of `transed_operands` when the
//! resolver stored one, and otherwise the value of operand 0.
use vstd::prelude::*;
use crate::arch::ArmInsn;
use crate::bus::PeripheralBus;
use crate::context::CpuContext;
use crate::cpu::Cpu;
use crate::opcodes::decoded::{DecodedInstruction, DecodedInstructionBuilder, check_condition, op_at, only_transed_changed};
use crate::opcodes::instructions::{cond_passes, operand_regs_ok, operand_value, read_operand};
use crate::opcodes::opcode::{Opcode, OpExec, OpResolve, entry, entry_is};
use crate::opcodes::thumb_exec::rstep;

verus! {

/// The branch target: the resolved value when there is one, the value of operand 0
/// otherwise.
pub open spec fn branch_label(regs: Seq<u32>, data: &DecodedInstruction) -> u32 {
    if data.transed_operands@.len() > 0 {
        data.transed_operands@[0]
    } else {
        operand_value(regs, op_at(data.operands@, 0))
    }
}

/// Operand 0 names registers R0-R15 only.
pub open spec fn branch_ready(data: &DecodedInstruction) -> bool {
    operand_regs_ok(op_at(data.operands@, 0))
}

fn label<B: PeripheralBus>(cpu: &Cpu<B>, data: &DecodedInstruction) -> (v: u32)
    requires
        cpu.wf(),
        branch_ready(data),
    ensures
        v == branch_label(cpu.regs(), data),
{
    if data.transed_operands.len() > 0 {
        data.transed_operands[0]
    } else {
        let op = match data.get_operand(0) {
            Some(o) => Some(*o),
            None => None,
        };
        read_operand(cpu, op)
    }
}

/// A branch executor: nothing changes and the size is returned when the condition fails;
/// otherwise `regs` become `new_regs` and 0 is returned.
pub open spec fn branch_exec<B>(old: Cpu<B>, new: Cpu<B>, data: &DecodedInstruction, new_regs: Seq<u32>, r: u32) -> bool {
    if cond_passes(old, data) {
        rstep(old, new, new_regs, old.apsr()) && r == 0
    } else {
        new == old && r == data.size
    }
}

pub struct Op_B;

impl Op_B {
    /// PC = target.
    pub fn execute<B: PeripheralBus>(cpu: &mut Cpu<B>, data: &DecodedInstruction) -> (r: u32)
        requires
            old(cpu).wf(),
            branch_ready(data),
        ensures
            branch_exec(*old(cpu), *final(cpu), data, old(cpu).regs().update(15, branch_label(old(cpu).regs(), data)), r),
    {
        if !check_condition(cpu, data.arm_operands.condition) {
            return data.size();
        }
        let target = label(cpu, data);
        cpu.write_pc(target);
        0
    }
}

pub struct Op_Bl;

impl Op_Bl {
    /// LR = PC | 1, then PC = target.
    pub fn execute<B: PeripheralBus>(cpu: &mut Cpu<B>, data: &DecodedInstruction) -> (r: u32)
        requires
            old(cpu).wf(),
            branch_ready(data),
        ensures
            ({
                let regs = old(cpu).regs();
                branch_exec(*old(cpu), *final(cpu), data, regs.update(14, regs[15] | 1).update(15, branch_label(regs, data)), r)
            }),
    {
        if !check_condition(cpu, data.arm_operands.condition) {
            return data.size();
        }
        let target = label(cpu, data);
        let pc = cpu.read_pc();
        cpu.write_lr(pc | 1);
        cpu.write_pc(target);
        0
    }
}

pub struct Op_Bx;

impl Op_Bx {
    /// PC = target with bit 0 cleared.
    pub fn execute<B: PeripheralBus>(cpu: &mut Cpu<B>, data: &DecodedInstruction) -> (r: u32)
        requires
            old(cpu).wf(),
            branch_ready(data),
        ensures
            branch_exec(*old(cpu), *final(cpu), data, old(cpu).regs().update(15, branch_label(old(cpu).regs(), data) & !1u32), r),
    {
        if !check_condition(cpu, data.arm_operands.condition) {
            return data.size();
        }
        let target = label(cpu, data);
        cpu.write_pc(target & !1u32);
        0
    }
}

pub struct Op_Blx;

impl Op_Blx {
    /// LR = (PC - 4 + size) | 1, then PC = target with bit 0 cleared.
    pub fn execute<B: PeripheralBus>(cpu: &mut Cpu<B>, data: &DecodedInstruction) -> (r: u32)
        requires
            old(cpu).wf(),
            branch_ready(data),
        ensures
            ({
                let regs = old(cpu).regs();
                let ret = regs[15].wrapping_sub(4).wrapping_add(data.size) | 1;
                branch_exec(*old(cpu), *final(cpu), data, regs.update(14, ret).update(15, branch_label(regs, data) & !1u32), r)
            }),
    {
        if !check_condition(cpu, data.arm_operands.condition) {
            return data.size();
        }
        let target = label(cpu, data);
        let pc = cpu.read_pc();
        let ret = pc.wrapping_sub(4).wrapping_add(data.size());
        cpu.write_lr(ret | 1);
        cpu.write_pc(target & !1u32);
        0
    }
}

/// Stores the value of operand 0 (a register's contents as they are now) as the first entry
/// of the register list, and returns it.
fn resolve_target<B: PeripheralBus>(cpu: &Cpu<B>, decoded: &mut DecodedInstructionBuilder) -> (r: u32)
    requires
        cpu.wf(),
        operand_regs_ok(op_at(old(decoded).operands@, 0)),
    ensures
        only_transed_changed(old(decoded), final(decoded)),
        r == operand_value(cpu.regs(), op_at(old(decoded).operands@, 0)),
        final(decoded).transed_operands@ == old(decoded).transed_operands@.push(r),
{
    let op = match decoded.get_operand(0) {
        Some(o) => Some(*o),
        None => None,
    };
    let val = read_operand(cpu, op);
    decoded.transed_operands.push(val);
    val
}

pub struct OpBranchResolver;

impl OpBranchResolver {
    pub fn resolve<B: PeripheralBus>(&self, cpu: &Cpu<B>, decoded: &mut DecodedInstructionBuilder) -> (r: u32)
        requires
            cpu.wf(),
            operand_regs_ok(op_at(old(decoded).operands@, 0)),
        ensures
            only_transed_changed(old(decoded), final(decoded)),
            r == operand_value(cpu.regs(), op_at(old(decoded).operands@, 0)),
            final(decoded).transed_operands@ == old(decoded).transed_operands@.push(r),
    {
        resolve_target(cpu, decoded)
    }
}

pub struct OpBxResolver;

impl OpBxResolver {
    pub fn resolve<B: PeripheralBus>(&self, cpu: &Cpu<B>, decoded: &mut DecodedInstructionBuilder) -> (r: u32)
        requires
            cpu.wf(),
            operand_regs_ok(op_at(old(decoded).operands@, 0)),
        ensures
            only_transed_changed(old(decoded), final(decoded)),
            r == operand_value(cpu.regs(), op_at(old(decoded).operands@, 0)),
            final(decoded).transed_operands@ == old(decoded).transed_operands@.push(r),
    {
        resolve_target(cpu, decoded)
    }
}

/// The entries of the branches.
pub open spec fn branch_table(t: Seq<Opcode>) -> bool {
    &&& t.len() == 4
    &&& entry_is(t[0], ArmInsn::ARM_INS_B, "B"@, 32, 1, 1, OpExec::B, OpResolve::Branch, None)
    &&& entry_is(t[1], ArmInsn::ARM_INS_BL, "BL"@, 32, 1, 1, OpExec::Bl, OpResolve::Branch, None)
    &&& entry_is(t[2], ArmInsn::ARM_INS_BX, "BX"@, 32, 1, 1, OpExec::Bx, OpResolve::Bx, None)
    &&& entry_is(t[3], ArmInsn::ARM_INS_BLX, "BLX"@, 32, 1, 1, OpExec::Blx, OpResolve::Bx, None)
}

pub fn add_branch_def() -> (t: Vec<Opcode>)
    ensures
        branch_table(t@),
{
    let mut t: Vec<Opcode> = Vec::new();
    t.push(entry(ArmInsn::ARM_INS_B, "B", 32, 1, 1, OpExec::B, OpResolve::Branch, None));
    t.push(entry(ArmInsn::ARM_INS_BL, "BL", 32, 1, 1, OpExec::Bl, OpResolve::Branch, None));
    t.push(entry(ArmInsn::ARM_INS_BX, "BX", 32, 1, 1, OpExec::Bx, OpResolve::Bx, None));
    t.push(entry(ArmInsn::ARM_INS_BLX, "BLX", 32, 1, 1, OpExec::Blx, OpResolve::Bx, None));
    t
}

pub struct Branch_builder;

impl Branch_builder {
    pub fn build(&self) -> (t: Vec<Opcode>)
        ensures
            branch_table(t@),
    {
        add_branch_def()
    }
}

} // verus!
