//! MOVS and MVNS: operand 2 read as the data-processing instructions read it (PC as the
//! instruction's address plus 4).
use vstd::prelude::*;
use crate::arch::ArmInsn;
use crate::bus::PeripheralBus;
use crate::cpu::Cpu;
use crate::opcodes::decoded::{
    DecodedInstruction, DecodedInstructionBuilder, op2_ok, op2_value, resolve_op2_runtime,
    check_condition, only_arm_operands_changed,
};
use crate::opcodes::instructions::mov::{moved, move_into, mov_operands, resolve_move};
use crate::opcodes::opcode::{Opcode, OpExec, OpResolve, entry, entry_is};

verus! {

/// `rd` is a register R0-R15 and operand 2 can be read.
pub open spec fn movs_ready(data: &DecodedInstruction) -> bool {
    &&& data.arm_operands.rd < 16
    &&& op2_ok(data)
}

pub struct Op_Movs;

impl Op_Movs {
    /// `rd = operand2`.
    pub fn execute<B: PeripheralBus>(cpu: &mut Cpu<B>, data: &DecodedInstruction) -> (r: u32)
        requires
            old(cpu).wf(),
            movs_ready(data),
        ensures
            ({
                let (v, c) = op2_value(old(cpu).regs(), old(cpu).apsr(), data);
                moved(*old(cpu), *final(cpu), data, v, c, r)
            }),
    {
        if !check_condition(cpu, data.arm_operands.condition) {
            return data.size();
        }
        let (v, carry) = resolve_op2_runtime(cpu, data);
        move_into(cpu, data, v, carry)
    }
}

pub struct Op_Mvns;

impl Op_Mvns {
    /// `rd = !operand2`.
    pub fn execute<B: PeripheralBus>(cpu: &mut Cpu<B>, data: &DecodedInstruction) -> (r: u32)
        requires
            old(cpu).wf(),
            movs_ready(data),
        ensures
            ({
                let (v, c) = op2_value(old(cpu).regs(), old(cpu).apsr(), data);
                moved(*old(cpu), *final(cpu), data, !v, c, r)
            }),
    {
        if !check_condition(cpu, data.arm_operands.condition) {
            return data.size();
        }
        let (v, carry) = resolve_op2_runtime(cpu, data);
        move_into(cpu, data, !v, carry)
    }
}

pub struct OpMovsResolver;

impl OpMovsResolver {
    pub fn resolve(&self, decoded: &mut DecodedInstructionBuilder) -> (r: u32)
        ensures
            only_arm_operands_changed(old(decoded), final(decoded)),
            final(decoded).arm_operands == mov_operands(old(decoded).operands@, old(decoded).arm_operands),
            r == final(decoded).arm_operands.rd,
    {
        resolve_move(decoded)
    }
}

/// The entry of MOVS.
pub open spec fn movs_table(t: Seq<Opcode>) -> bool {
    &&& t.len() == 1
    &&& entry_is(t[0], ArmInsn::ARM_INS_MOVS, "MOVS"@, 32, 1, 1, OpExec::Movs, OpResolve::Movs, None)
}

pub fn add_movs_def() -> (t: Vec<Opcode>)
    ensures
        movs_table(t@),
{
    let mut t: Vec<Opcode> = Vec::new();
    t.push(entry(ArmInsn::ARM_INS_MOVS, "MOVS", 32, 1, 1, OpExec::Movs, OpResolve::Movs, None));
    t
}

pub struct Movs_builder;

impl Movs_builder {
    pub fn build(&self) -> (t: Vec<Opcode>)
        ensures
            movs_table(t@),
    {
        add_movs_def()
    }
}

} // verus!
