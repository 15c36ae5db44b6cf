//! UBFX: `UBFX{cond} Rd, Rn, #lsb, #width`.
use vstd::prelude::*;
use crate::arch::ArmInsn;
use crate::bus::PeripheralBus;
use crate::context::CpuContext;
use crate::cpu::Cpu;
use crate::opcodes::decoded::{
    DecodedArmOperands, DecodedInstruction, DecodedInstructionBuilder, DecodedOperand,
    check_condition, reg_at, only_arm_operands_changed, reg_operand,
};
use crate::opcodes::instructions::{cond_passes, after_write, imm_at, imm_operand};
use crate::opcodes::opcode::{Opcode, OpExec, OpResolve, entry, entry_is};
use crate::opcodes::thumb_exec::{rstep, ubfx_value};

verus! {

/// The bit field of `source` (see `ubfx_value`).
pub fn calculate_ubfx_core(source: u32, lsb: u32, width: u32) -> (r: u32)
    ensures
        r == ubfx_value(source, lsb, width),
{
    if width == 0 || lsb >= 32 {
        return 0;
    }
    let room = 32 - lsb;
    let eff_width = if width < room { width } else { room };
    if eff_width >= 32 {
        source
    } else {
        assert(1u32 << eff_width >= 1) by (bit_vector)
            requires
                eff_width < 32,
        ;
        (source >> lsb) & ((1u32 << eff_width) - 1)
    }
}

/// UBFX: nothing changes when the condition fails (the size is returned); otherwise `rd`
/// gets the field of `rn` at `#lsb` (operand 2) of `#width` bits (operand 3).
pub open spec fn ubfx_exec<B>(old: Cpu<B>, new: Cpu<B>, data: &DecodedInstruction, r: u32) -> bool {
    let v = ubfx_value(old.regs()[data.arm_operands.rn as int], imm_at(data.operands@, 2), imm_at(data.operands@, 3));
    if cond_passes(old, data) {
        rstep(old, new, old.regs().update(data.arm_operands.rd as int, v), old.apsr()) && r == after_write(data, data.arm_operands.rd)
    } else {
        new == old && r == data.size
    }
}

pub struct Op_Ubfx;

impl Op_Ubfx {
    pub fn execute<B: PeripheralBus>(cpu: &mut Cpu<B>, data: &DecodedInstruction) -> (r: u32)
        requires
            old(cpu).wf(),
            data.arm_operands.rd < 16,
            data.arm_operands.rn < 16,
        ensures
            ubfx_exec(*old(cpu), *final(cpu), data, r),
    {
        if !check_condition(cpu, data.arm_operands.condition) {
            return data.size();
        }
        let rd = data.arm_operands.rd;
        let rn = data.arm_operands.rn;
        let lsb = imm_operand(data, 2);
        let width = imm_operand(data, 3);
        let v = calculate_ubfx_core(cpu.read_reg(rn), lsb, width);
        cpu.write_reg(rd, v);
        if rd == 15 { 0 } else { data.size() }
    }
}

/// `rd` and `rn` from operands 0 and 1 (R0 when not registers).
pub open spec fn bit_field_operands(ops: Seq<DecodedOperand>, a: DecodedArmOperands) -> DecodedArmOperands {
    let rd = match reg_at(ops, 0) { Some(r) => r, None => 0 };
    let rn = match reg_at(ops, 1) { Some(r) => r, None => 0 };
    DecodedArmOperands { rd, rn, ..a }
}

pub struct OpBitFieldResolver;

impl OpBitFieldResolver {
    pub fn resolve(&self, decoded: &mut DecodedInstructionBuilder) -> (r: u32)
        ensures
            only_arm_operands_changed(old(decoded), final(decoded)),
            final(decoded).arm_operands == bit_field_operands(old(decoded).operands@, old(decoded).arm_operands),
            r == final(decoded).arm_operands.rd,
    {
        let rd = match reg_operand(decoded, 0) {
            Some(r) => r,
            None => 0,
        };
        let rn = match reg_operand(decoded, 1) {
            Some(r) => r,
            None => 0,
        };
        decoded.arm_operands.rd = rd;
        decoded.arm_operands.rn = rn;
        rd
    }
}

/// The entry of UBFX.
pub open spec fn bit_field_table(t: Seq<Opcode>) -> bool {
    &&& t.len() == 1
    &&& entry_is(t[0], ArmInsn::ARM_INS_UBFX, "UBFX"@, 32, 1, 1, OpExec::Ubfx, OpResolve::BitField, None)
}

pub fn add_bit_field_def() -> (t: Vec<Opcode>)
    ensures
        bit_field_table(t@),
{
    let mut t: Vec<Opcode> = Vec::new();
    t.push(entry(ArmInsn::ARM_INS_UBFX, "UBFX", 32, 1, 1, OpExec::Ubfx, OpResolve::BitField, None));
    t
}

pub struct Bit_field_builder;

impl Bit_field_builder {
    pub fn build(&self) -> (t: Vec<Opcode>)
        ensures
            bit_field_table(t@),
    {
        add_bit_field_def()
    }
}

} // verus!
