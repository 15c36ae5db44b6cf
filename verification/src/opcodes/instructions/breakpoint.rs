//! BKPT: `BKPT #imm`.
use vstd::prelude::*;
use crate::arch::ArmInsn;
use crate::bus::PeripheralBus;
use crate::cpu::Cpu;
use crate::opcodes::decoded::{DecodedArmOperands, DecodedInstruction, DecodedInstructionBuilder, op_at, only_arm_operands_changed};
use crate::opcodes::instructions::{operand_regs_ok, operand_value, read_operand};
use crate::opcodes::opcode::{Opcode, OpExec, OpResolve, entry, entry_is};

verus! {

pub struct Op_Bkpt;

impl Op_Bkpt {
    /// A breakpoint leaves the core as it is and returns 0, whatever the condition.
    pub fn execute<B: PeripheralBus>(cpu: &mut Cpu<B>, data: &DecodedInstruction) -> (r: u32)
        ensures
            *final(cpu) == *old(cpu),
            r == 0,
    {
        0
    }
}

/// The breakpoint number: the value of operand 2.
pub fn resolve_bkpt_imm<B: PeripheralBus>(cpu: &Cpu<B>, data: &DecodedInstruction) -> (v: u32)
    requires
        cpu.wf(),
        operand_regs_ok(data.arm_operands.op2),
    ensures
        v == operand_value(cpu.regs(), data.arm_operands.op2),
{
    read_operand(cpu, data.arm_operands.op2)
}

pub struct OpBkptResolver;

impl OpBkptResolver {
    /// Operand 2 from operand 0.
    pub fn resolve(&self, decoded: &mut DecodedInstructionBuilder) -> (r: u32)
        ensures
            only_arm_operands_changed(old(decoded), final(decoded)),
            final(decoded).arm_operands == (DecodedArmOperands { op2: op_at(old(decoded).operands@, 0), ..old(decoded).arm_operands }),
            r == 0,
    {
        let op = match decoded.get_operand(0) {
            Some(o) => Some(*o),
            None => None,
        };
        decoded.arm_operands.op2 = op;
        0
    }
}

/// The entry of BKPT.
pub open spec fn breakpoint_table(t: Seq<Opcode>) -> bool {
    &&& t.len() == 1
    &&& entry_is(t[0], ArmInsn::ARM_INS_BKPT, "BKPT"@, 16, 1, 1, OpExec::Bkpt, OpResolve::Bkpt, None)
}

pub fn add_breakpoint_def() -> (t: Vec<Opcode>)
    ensures
        breakpoint_table(t@),
{
    let mut t: Vec<Opcode> = Vec::new();
    t.push(entry(ArmInsn::ARM_INS_BKPT, "BKPT", 16, 1, 1, OpExec::Bkpt, OpResolve::Bkpt, None));
    t
}

pub struct Breakpoint_builder;

impl Breakpoint_builder {
    pub fn build(&self) -> (t: Vec<Opcode>)
        ensures
            breakpoint_table(t@),
    {
        add_breakpoint_def()
    }
}

} // verus!
