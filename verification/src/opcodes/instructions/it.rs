//! IT, which the core treats as no operation (the conditions it gives are carried by the instructions it covers).
use vstd::prelude::*;
use crate::arch::ArmInsn;
use crate::bus::PeripheralBus;
use crate::context::CpuContext;
use crate::cpu::Cpu;
use crate::opcodes::decoded::{DecodedInstruction, DecodedInstructionBuilder, check_condition};
use crate::opcodes::opcode::{Opcode, OpExec, OpResolve, entry, entry_is};

verus! {

pub struct Op_It;

impl Op_It {
    /// Leaves the core as it is and returns the size, whether the condition holds or not.
    pub fn execute<B: PeripheralBus>(cpu: &mut Cpu<B>, data: &DecodedInstruction) -> (r: u32)
        requires
            old(cpu).wf(),
        ensures
            *final(cpu) == *old(cpu),
            r == data.size,
    {
        if !check_condition(cpu, data.arm_operands.condition) {
            return data.size();
        }
        data.size()
    }
}

pub struct OpItResolver;

impl OpItResolver {
    /// Nothing to resolve.
    pub fn resolve(&self, decoded: &mut DecodedInstructionBuilder) -> (r: u32)
        ensures
            *final(decoded) == *old(decoded),
            r == 0,
    {
        0
    }
}

/// The entry of IT.
pub open spec fn it_table(t: Seq<Opcode>) -> bool {
    &&& t.len() == 1
    &&& entry_is(t[0], ArmInsn::ARM_INS_IT, "IT"@, 16, 1, 1, OpExec::It, OpResolve::It, None)
}

pub fn add_it_def() -> (t: Vec<Opcode>)
    ensures
        it_table(t@),
{
    let mut t: Vec<Opcode> = Vec::new();
    t.push(entry(ArmInsn::ARM_INS_IT, "IT", 16, 1, 1, OpExec::It, OpResolve::It, None));
    t
}

pub struct It_builder;

impl It_builder {
    pub fn build(&self) -> (t: Vec<Opcode>)
        ensures
            it_table(t@),
    {
        add_it_def()
    }
}

} // verus!
