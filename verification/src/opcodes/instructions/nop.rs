//! NOP: no operation.
use vstd::prelude::*;
use crate::arch::ArmInsn;
use crate::bus::PeripheralBus;
use crate::context::CpuContext;
use crate::cpu::Cpu;
use crate::opcodes::decoded::{DecodedInstruction, DecodedInstructionBuilder, check_condition};
use crate::opcodes::opcode::{Opcode, OpExec, OpResolve, entry, entry_is};

verus! {

pub struct Op_Nop;

impl Op_Nop {
    /// Leaves the core as it is and returns the size, whether the condition holds or not.
    pub fn execute<B: PeripheralBus>(cpu: &mut Cpu<B>, data: &DecodedInstruction) -> (r: u32)
        requires
            old(cpu).wf(),
        ensures
            *final(cpu) == *old(cpu),
            r == data.size,
    {
        if !check_condition(cpu, data.arm_operands.condition) {
            return data.size();
        }
        data.size()
    }
}

pub struct OpNopResolver;

impl OpNopResolver {
    /// Nothing to resolve.
    pub fn resolve(&self, decoded: &mut DecodedInstructionBuilder) -> (r: u32)
        ensures
            *final(decoded) == *old(decoded),
            r == 0,
    {
        0
    }
}

/// The entry of NOP.
pub open spec fn nop_table(t: Seq<Opcode>) -> bool {
    &&& t.len() == 1
    &&& entry_is(t[0], ArmInsn::ARM_INS_NOP, "NOP"@, 32, 1, 1, OpExec::Nop, OpResolve::Nop, None)
}

pub fn add_nop_def() -> (t: Vec<Opcode>)
    ensures
        nop_table(t@),
{
    let mut t: Vec<Opcode> = Vec::new();
    t.push(entry(ArmInsn::ARM_INS_NOP, "NOP", 32, 1, 1, OpExec::Nop, OpResolve::Nop, None));
    t
}

pub struct Nop_builder;

impl Nop_builder {
    pub fn build(&self) -> (t: Vec<Opcode>)
        ensures
            nop_table(t@),
    {
        add_nop_def()
    }
}

} // verus!
