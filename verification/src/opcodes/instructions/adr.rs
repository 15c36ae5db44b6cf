//! ADR: `ADR{cond} Rd, label`, the label already resolved to an address.
use vstd::prelude::*;
use crate::arch::ArmInsn;
use crate::bus::PeripheralBus;
use crate::context::CpuContext;
use crate::cpu::Cpu;
use crate::opcodes::decoded::{
    DecodedInstruction, DecodedInstructionBuilder, check_condition, only_arm_operands_changed,
};
use crate::opcodes::instructions::{cond_passes, after_write, operand_regs_ok, operand_value, read_operand};
use crate::opcodes::instructions::mov::{mov_operands, resolve_move};
use crate::opcodes::opcode::{Opcode, OpExec, OpResolve, entry, entry_is};
use crate::opcodes::thumb_exec::rstep;

verus! {

/// ADR: nothing changes when the condition fails (the size is returned); otherwise `rd`
/// gets the value of operand 2.
pub open spec fn adr_exec<B>(old: Cpu<B>, new: Cpu<B>, data: &DecodedInstruction, r: u32) -> bool {
    let v = operand_value(old.regs(), data.arm_operands.op2);
    if cond_passes(old, data) {
        rstep(old, new, old.regs().update(data.arm_operands.rd as int, v), old.apsr()) && r == after_write(data, data.arm_operands.rd)
    } else {
        new == old && r == data.size
    }
}

pub struct OpAdr;

impl OpAdr {
    pub fn execute<B: PeripheralBus>(cpu: &mut Cpu<B>, data: &DecodedInstruction) -> (r: u32)
        requires
            old(cpu).wf(),
            data.arm_operands.rd < 16,
            operand_regs_ok(data.arm_operands.op2),
        ensures
            adr_exec(*old(cpu), *final(cpu), data, r),
    {
        if !check_condition(cpu, data.arm_operands.condition) {
            return data.size();
        }
        let rd = data.arm_operands.rd;
        let address = read_operand(cpu, data.arm_operands.op2);
        cpu.write_reg(rd, address);
        if rd == 15 { 0 } else { data.size() }
    }
}

pub struct OpAdrResolver;

impl OpAdrResolver {
    /// `rd` from operand 0, no `rn`, operand 2 from operand 1.
    pub fn resolve(&self, decoded: &mut DecodedInstructionBuilder) -> (r: u32)
        ensures
            only_arm_operands_changed(old(decoded), final(decoded)),
            final(decoded).arm_operands == mov_operands(old(decoded).operands@, old(decoded).arm_operands),
            r == final(decoded).arm_operands.rd,
    {
        resolve_move(decoded)
    }
}

/// The entry of ADR.
pub open spec fn adr_table(t: Seq<Opcode>) -> bool {
    &&& t.len() == 1
    &&& entry_is(t[0], ArmInsn::ARM_INS_ADR, "ADR"@, 32, 1, 1, OpExec::Adr, OpResolve::Adr, None)
}

pub fn add_adr_def() -> (t: Vec<Opcode>)
    ensures
        adr_table(t@),
{
    let mut t: Vec<Opcode> = Vec::new();
    t.push(entry(ArmInsn::ARM_INS_ADR, "ADR", 32, 1, 1, OpExec::Adr, OpResolve::Adr, None));
    t
}

pub struct AdrBuilder;

impl AdrBuilder {
    pub fn build(&self) -> (t: Vec<Opcode>)
        ensures
            adr_table(t@),
    {
        add_adr_def()
    }
}

} // verus!
