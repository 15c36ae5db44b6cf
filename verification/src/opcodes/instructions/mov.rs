//! MOV and MVN: `op{S}{cond} Rd, Operand2`, operand 2 read with the full shifter.
use vstd::prelude::*;
use crate::arch::ArmInsn;
use crate::bits::{apsr_with_nz, apsr_with_c};
use crate::bus::PeripheralBus;
use crate::context::CpuContext;
use crate::cpu::Cpu;
use crate::opcodes::decoded::{
    DecodedArmOperands, DecodedInstruction, DecodedInstructionBuilder, DecodedOperand,
    check_condition, reg_at, op_at, only_arm_operands_changed, reg_operand,
};
use crate::opcodes::instructions::{cond_passes, after_write, operand_regs_ok, op2_plain, resolve_op2_and_carry};
use crate::opcodes::instructions::bitop::logic_apsr;
use crate::opcodes::opcode::{Opcode, OpExec, OpResolve, entry, entry_is};
use crate::opcodes::thumb_exec::rstep;

verus! {

/// A move executor that produced `v` with shifter carry `carry`: nothing changes when the
/// condition fails (the size is returned); otherwise `rd = v`, with N, Z and C when flags
/// are set.
pub open spec fn moved<B>(old: Cpu<B>, new: Cpu<B>, data: &DecodedInstruction, v: u32, carry: u8, r: u32) -> bool {
    if cond_passes(old, data) {
        &&& rstep(old, new, old.regs().update(data.arm_operands.rd as int, v), if data.update_flags {
            logic_apsr(old.apsr(), v, carry)
        } else {
            old.apsr()
        })
        &&& r == after_write(data, data.arm_operands.rd)
    } else {
        new == old && r == data.size
    }
}

/// `rd` is a register R0-R15 and operand 2 names registers R0-R15 only.
pub open spec fn mov_ready(data: &DecodedInstruction) -> bool {
    &&& data.arm_operands.rd < 16
    &&& operand_regs_ok(data.arm_operands.op2)
}

pub(crate) fn move_into<B: PeripheralBus>(cpu: &mut Cpu<B>, data: &DecodedInstruction, v: u32, carry: u8) -> (r: u32)
    requires
        old(cpu).wf(),
        data.arm_operands.rd < 16,
        cond_passes(*old(cpu), data),
    ensures
        moved(*old(cpu), *final(cpu), data, v, carry, r),
{
    let rd = data.arm_operands.rd;
    cpu.write_reg(rd, v);
    if data.update_flags() {
        let a = apsr_with_c(apsr_with_nz(cpu.read_apsr(), v), carry);
        cpu.write_apsr(a);
    }
    if rd == 15 { 0 } else { data.size() }
}

pub struct Op_Mov;

impl Op_Mov {
    /// `rd = operand2`.
    pub fn execute<B: PeripheralBus>(cpu: &mut Cpu<B>, data: &DecodedInstruction) -> (r: u32)
        requires
            old(cpu).wf(),
            mov_ready(data),
        ensures
            ({
                let (v, c) = op2_plain(old(cpu).regs(), old(cpu).apsr(), data);
                moved(*old(cpu), *final(cpu), data, v, c, r)
            }),
    {
        if !check_condition(cpu, data.arm_operands.condition) {
            return data.size();
        }
        let (v, carry) = resolve_op2_and_carry(cpu, data);
        move_into(cpu, data, v, carry)
    }
}

pub struct Op_Mvn;

impl Op_Mvn {
    /// `rd = !operand2`.
    pub fn execute<B: PeripheralBus>(cpu: &mut Cpu<B>, data: &DecodedInstruction) -> (r: u32)
        requires
            old(cpu).wf(),
            mov_ready(data),
        ensures
            ({
                let (v, c) = op2_plain(old(cpu).regs(), old(cpu).apsr(), data);
                moved(*old(cpu), *final(cpu), data, !v, c, r)
            }),
    {
        if !check_condition(cpu, data.arm_operands.condition) {
            return data.size();
        }
        let (v, carry) = resolve_op2_and_carry(cpu, data);
        move_into(cpu, data, !v, carry)
    }
}

/// `rd` from operand 0 (R0 when it is not a register), no `rn`, operand 2 from operand 1.
pub open spec fn mov_operands(ops: Seq<DecodedOperand>, a: DecodedArmOperands) -> DecodedArmOperands {
    let rd = match reg_at(ops, 0) { Some(r) => r, None => 0 };
    DecodedArmOperands { rd, rn: 0, op2: op_at(ops, 1), ..a }
}

pub(crate) fn resolve_move(decoded: &mut DecodedInstructionBuilder) -> (r: u32)
    ensures
        only_arm_operands_changed(old(decoded), final(decoded)),
        final(decoded).arm_operands == mov_operands(old(decoded).operands@, old(decoded).arm_operands),
        r == final(decoded).arm_operands.rd,
{
    let rd = match reg_operand(decoded, 0) {
        Some(r) => r,
        None => 0,
    };
    let op2 = match decoded.get_operand(1) {
        Some(op) => Some(*op),
        None => None,
    };
    decoded.arm_operands.rd = rd;
    decoded.arm_operands.rn = 0;
    decoded.arm_operands.op2 = op2;
    rd
}

pub struct OpMovResolver;

impl OpMovResolver {
    pub fn resolve(&self, decoded: &mut DecodedInstructionBuilder) -> (r: u32)
        ensures
            only_arm_operands_changed(old(decoded), final(decoded)),
            final(decoded).arm_operands == mov_operands(old(decoded).operands@, old(decoded).arm_operands),
            r == final(decoded).arm_operands.rd,
    {
        resolve_move(decoded)
    }
}

/// The entries of MOV and MVN.
pub open spec fn mov_table(t: Seq<Opcode>) -> bool {
    &&& t.len() == 2
    &&& entry_is(t[0], ArmInsn::ARM_INS_MOV, "MOV"@, 32, 0, 1, OpExec::Mov, OpResolve::Mov, None)
    &&& entry_is(t[1], ArmInsn::ARM_INS_MVN, "MVN"@, 32, 0, 1, OpExec::Mvn, OpResolve::Mov, None)
}

pub fn add_mov_def() -> (t: Vec<Opcode>)
    ensures
        mov_table(t@),
{
    let mut t: Vec<Opcode> = Vec::new();
    t.push(entry(ArmInsn::ARM_INS_MOV, "MOV", 32, 0, 1, OpExec::Mov, OpResolve::Mov, None));
    t.push(entry(ArmInsn::ARM_INS_MVN, "MVN", 32, 0, 1, OpExec::Mvn, OpResolve::Mov, None));
    t
}

pub struct Mov_builder;

impl Mov_builder {
    pub fn build(&self) -> (t: Vec<Opcode>)
        ensures
            mov_table(t@),
    {
        add_mov_def()
    }
}

} // verus!
