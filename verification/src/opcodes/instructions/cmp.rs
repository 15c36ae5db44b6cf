//! CMP and CMN: `op{cond} Rn, Operand2`, flags only; operand 2 read with the full shifter.
use vstd::prelude::*;
use crate::arch::ArmInsn;
use crate::bits::{apsr_with_nzcv, add_overflow_bit, sub_overflow_bit};
use crate::bus::PeripheralBus;
use crate::context::CpuContext;
use crate::cpu::Cpu;
use crate::opcodes::decoded::{DecodedInstruction, DecodedInstructionBuilder, check_condition, only_arm_operands_changed};
use crate::opcodes::instructions::{cond_passes, operand_regs_ok, op2_plain, resolve_op2_and_carry};
use crate::opcodes::instructions::tst::{test_operands, resolve_rn_op2};
use crate::opcodes::opcode::{Opcode, OpExec, OpResolve, entry, entry_is};
use crate::opcodes::thumb_exec::{rstep, add_flags, sub_flags};

verus! {

/// `rn` is a register R0-R15 and operand 2 names registers R0-R15 only.
pub open spec fn compare_ready(data: &DecodedInstruction) -> bool {
    &&& data.arm_operands.rn < 16
    &&& operand_regs_ok(data.arm_operands.op2)
}

/// A compare executor: nothing changes when the condition fails; otherwise the flags are
/// set as `rn - operand2` sets them (`rn + operand2` for CMN). The size is returned.
pub open spec fn compare_exec<B>(old: Cpu<B>, new: Cpu<B>, data: &DecodedInstruction, negative: bool, r: u32) -> bool {
    let rhs = op2_plain(old.regs(), old.apsr(), data).0;
    let lhs = old.regs()[data.arm_operands.rn as int];
    &&& r == data.size
    &&& if cond_passes(old, data) {
        rstep(old, new, old.regs(), if negative { add_flags(old.apsr(), lhs, rhs) } else { sub_flags(old.apsr(), lhs, rhs) })
    } else {
        new == old
    }
}

/// Sets the flags of `lhs - rhs`.
pub fn cmp_core<B: PeripheralBus>(cpu: &mut Cpu<B>, lhs: u32, rhs: u32)
    requires
        old(cpu).wf(),
    ensures
        rstep(*old(cpu), *final(cpu), old(cpu).regs(), sub_flags(old(cpu).apsr(), lhs, rhs)),
{
    let result = lhs.wrapping_sub(rhs);
    let v = sub_overflow_bit(lhs, rhs, result);
    let a = apsr_with_nzcv(cpu.read_apsr(), result, lhs >= rhs, v != 0);
    cpu.write_apsr(a);
}

/// Sets the flags of `lhs + rhs`.
pub fn cmn_core<B: PeripheralBus>(cpu: &mut Cpu<B>, lhs: u32, rhs: u32)
    requires
        old(cpu).wf(),
    ensures
        rstep(*old(cpu), *final(cpu), old(cpu).regs(), add_flags(old(cpu).apsr(), lhs, rhs)),
{
    let result = lhs.wrapping_add(rhs);
    let v = add_overflow_bit(lhs, rhs, result);
    let c = (lhs as u64) + (rhs as u64) > 0xFFFF_FFFFu64;
    let a = apsr_with_nzcv(cpu.read_apsr(), result, c, v != 0);
    cpu.write_apsr(a);
}

pub struct Op_Cmp;

impl Op_Cmp {
    pub fn execute<B: PeripheralBus>(cpu: &mut Cpu<B>, data: &DecodedInstruction) -> (r: u32)
        requires
            old(cpu).wf(),
            compare_ready(data),
        ensures
            compare_exec(*old(cpu), *final(cpu), data, false, r),
    {
        if !check_condition(cpu, data.arm_operands.condition) {
            return data.size();
        }
        let (op2, _) = resolve_op2_and_carry(cpu, data);
        let lhs = cpu.read_reg(data.arm_operands.rn);
        cmp_core(cpu, lhs, op2);
        data.size()
    }
}

pub struct Op_Cmn;

impl Op_Cmn {
    pub fn execute<B: PeripheralBus>(cpu: &mut Cpu<B>, data: &DecodedInstruction) -> (r: u32)
        requires
            old(cpu).wf(),
            compare_ready(data),
        ensures
            compare_exec(*old(cpu), *final(cpu), data, true, r),
    {
        if !check_condition(cpu, data.arm_operands.condition) {
            return data.size();
        }
        let (op2, _) = resolve_op2_and_carry(cpu, data);
        let lhs = cpu.read_reg(data.arm_operands.rn);
        cmn_core(cpu, lhs, op2);
        data.size()
    }
}

pub struct OpCmpResolver;

impl OpCmpResolver {
    pub fn resolve(&self, decoded: &mut DecodedInstructionBuilder) -> (r: u32)
        ensures
            only_arm_operands_changed(old(decoded), final(decoded)),
            final(decoded).arm_operands == test_operands(old(decoded).operands@, old(decoded).arm_operands),
            r == final(decoded).arm_operands.rn,
    {
        resolve_rn_op2(decoded)
    }
}

/// The entries of CMP and CMN.
pub open spec fn cmp_table(t: Seq<Opcode>) -> bool {
    &&& t.len() == 2
    &&& entry_is(t[0], ArmInsn::ARM_INS_CMP, "CMP"@, 32, 1, 1, OpExec::Cmp, OpResolve::Cmp, None)
    &&& entry_is(t[1], ArmInsn::ARM_INS_CMN, "CMN"@, 32, 1, 1, OpExec::Cmn, OpResolve::Cmp, None)
}

pub fn add_cmp_def() -> (t: Vec<Opcode>)
    ensures
        cmp_table(t@),
{
    let mut t: Vec<Opcode> = Vec::new();
    t.push(entry(ArmInsn::ARM_INS_CMP, "CMP", 32, 1, 1, OpExec::Cmp, OpResolve::Cmp, None));
    t.push(entry(ArmInsn::ARM_INS_CMN, "CMN", 32, 1, 1, OpExec::Cmn, OpResolve::Cmp, None));
    t
}

pub struct Cmp_builder;

impl Cmp_builder {
    pub fn build(&self) -> (t: Vec<Opcode>)
        ensures
            cmp_table(t@),
    {
        add_cmp_def()
    }
}

} // verus!
