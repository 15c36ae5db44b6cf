//! Hint: the hint instructions (YIELD, WFE, WFI, SEV), which the core treats as no operation.
use vstd::prelude::*;
use crate::arch::ArmInsn;
use crate::bus::PeripheralBus;
use crate::context::CpuContext;
use crate::cpu::Cpu;
use crate::opcodes::decoded::{DecodedInstruction, DecodedInstructionBuilder, check_condition};
use crate::opcodes::opcode::{Opcode, OpExec, OpResolve, entry, entry_is};

verus! {

pub struct Op_Hint;

impl Op_Hint {
    /// Leaves the core as it is and returns the size, whether the condition holds or not.
    pub fn execute<B: PeripheralBus>(cpu: &mut Cpu<B>, data: &DecodedInstruction) -> (r: u32)
        requires
            old(cpu).wf(),
        ensures
            *final(cpu) == *old(cpu),
            r == data.size,
    {
        if !check_condition(cpu, data.arm_operands.condition) {
            return data.size();
        }
        data.size()
    }
}

pub struct OpHintResolver;

impl OpHintResolver {
    /// Nothing to resolve.
    pub fn resolve(&self, decoded: &mut DecodedInstructionBuilder) -> (r: u32)
        ensures
            *final(decoded) == *old(decoded),
            r == 0,
    {
        0
    }
}

/// The entry of Hint.
pub open spec fn hint_table(t: Seq<Opcode>) -> bool {
    &&& t.len() == 1
    &&& entry_is(t[0], ArmInsn::ARM_INS_HINT, "Hint"@, 32, 1, 1, OpExec::Hint, OpResolve::Hint, None)
}

pub fn add_Hint_def() -> (t: Vec<Opcode>)
    ensures
        hint_table(t@),
{
    let mut t: Vec<Opcode> = Vec::new();
    t.push(entry(ArmInsn::ARM_INS_HINT, "Hint", 32, 1, 1, OpExec::Hint, OpResolve::Hint, None));
    t
}

pub struct Hint_builder;

impl Hint_builder {
    pub fn build(&self) -> (t: Vec<Opcode>)
        ensures
            hint_table(t@),
    {
        add_Hint_def()
    }
}

} // verus!
