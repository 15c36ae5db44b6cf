//! AND, ORR, EOR, BIC and ORN: `op{S}{cond} {Rd,} Rn, Operand2`.
use vstd::prelude::*;
use crate::arch::ArmInsn;
use crate::bits::{nz_flags, with_bit, apsr_with_nz, apsr_with_c, FLAG_C};
use crate::bus::PeripheralBus;
use crate::context::CpuContext;
use crate::cpu::Cpu;
use crate::opcodes::decoded::{DecodedArmOperands, DecodedInstruction, DecodedInstructionBuilder, DecodedOperand, op2_ok, op2_value, resolve_op2_runtime, check_condition, reg_at, only_arm_operands_changed, reg_operand};
use crate::opcodes::instructions::{cond_passes, after_write};
use crate::opcodes::opcode::{Opcode, OpExec, OpResolve, entry, entry_is};
use crate::opcodes::thumb_exec::rstep;

verus! {

/// The bitwise operation of `Op_And` .. `Op_Orn`.
#[derive(Clone, Copy, PartialEq, Eq, Structural)]
pub enum BitOp {
    And,
    Orr,
    Eor,
    Bic,
    Orn,
}

pub open spec fn bit_value(op: BitOp, lhs: u32, rhs: u32) -> u32 {
    match op {
        BitOp::And => lhs & rhs,
        BitOp::Orr => lhs | rhs,
        BitOp::Eor => lhs ^ rhs,
        BitOp::Bic => lhs & !rhs,
        BitOp::Orn => lhs | !rhs,
    }
}

/// The APSR after a logical operation that sets flags: N and Z from the result, C from the
/// shifter.
pub open spec fn logic_apsr(apsr: u32, result: u32, carry: u8) -> u32 {
    with_bit(nz_flags(apsr, result), FLAG_C, carry != 0)
}

/// The registers a logical executor reads and writes are R0-R15, and operand 2 can be read.
pub open spec fn bit_ready(data: &DecodedInstruction) -> bool {
    &&& data.arm_operands.rd < 16
    &&& data.arm_operands.rn < 16
    &&& op2_ok(data)
}

/// A logical executor: nothing changes when the condition fails (the size is returned);
/// otherwise `rd = rn op operand2`, with N, Z and the shifter carry when flags are set.
pub open spec fn bit_exec<B>(old: Cpu<B>, new: Cpu<B>, data: &DecodedInstruction, op: BitOp, r: u32) -> bool {
    let (rhs, carry) = op2_value(old.regs(), old.apsr(), data);
    let v = bit_value(op, old.regs()[data.arm_operands.rn as int], rhs);
    if cond_passes(old, data) {
        &&& rstep(old, new, old.regs().update(data.arm_operands.rd as int, v), if data.update_flags {
            logic_apsr(old.apsr(), v, carry)
        } else {
            old.apsr()
        })
        &&& r == after_write(data, data.arm_operands.rd)
    } else {
        new == old && r == data.size
    }
}

fn bitop<B: PeripheralBus>(cpu: &mut Cpu<B>, data: &DecodedInstruction, op: BitOp) -> (r: u32)
    requires
        old(cpu).wf(),
        bit_ready(data),
    ensures
        bit_exec(*old(cpu), *final(cpu), data, op, r),
{
    if !check_condition(cpu, data.arm_operands.condition) {
        return data.size();
    }
    let rd = data.arm_operands.rd;
    let rn = data.arm_operands.rn;
    let (op2, carry) = resolve_op2_runtime(cpu, data);
    let lhs = cpu.read_reg(rn);
    let result = match op {
        BitOp::And => lhs & op2,
        BitOp::Orr => lhs | op2,
        BitOp::Eor => lhs ^ op2,
        BitOp::Bic => lhs & !op2,
        BitOp::Orn => lhs | !op2,
    };
    cpu.write_reg(rd, result);
    if data.update_flags() {
        let a = apsr_with_c(apsr_with_nz(cpu.read_apsr(), result), carry);
        cpu.write_apsr(a);
    }
    if rd == 15 { 0 } else { data.size() }
}

pub struct Op_And;

impl Op_And {
    pub fn execute<B: PeripheralBus>(cpu: &mut Cpu<B>, data: &DecodedInstruction) -> (r: u32)
        requires
            old(cpu).wf(),
            bit_ready(data),
        ensures
            bit_exec(*old(cpu), *final(cpu), data, BitOp::And, r),
    {
        bitop(cpu, data, BitOp::And)
    }
}

pub struct Op_Orr;

impl Op_Orr {
    pub fn execute<B: PeripheralBus>(cpu: &mut Cpu<B>, data: &DecodedInstruction) -> (r: u32)
        requires
            old(cpu).wf(),
            bit_ready(data),
        ensures
            bit_exec(*old(cpu), *final(cpu), data, BitOp::Orr, r),
    {
        bitop(cpu, data, BitOp::Orr)
    }
}

pub struct Op_Eor;

impl Op_Eor {
    pub fn execute<B: PeripheralBus>(cpu: &mut Cpu<B>, data: &DecodedInstruction) -> (r: u32)
        requires
            old(cpu).wf(),
            bit_ready(data),
        ensures
            bit_exec(*old(cpu), *final(cpu), data, BitOp::Eor, r),
    {
        bitop(cpu, data, BitOp::Eor)
    }
}

pub struct Op_Bic;

impl Op_Bic {
    pub fn execute<B: PeripheralBus>(cpu: &mut Cpu<B>, data: &DecodedInstruction) -> (r: u32)
        requires
            old(cpu).wf(),
            bit_ready(data),
        ensures
            bit_exec(*old(cpu), *final(cpu), data, BitOp::Bic, r),
    {
        bitop(cpu, data, BitOp::Bic)
    }
}

pub struct Op_Orn;

impl Op_Orn {
    pub fn execute<B: PeripheralBus>(cpu: &mut Cpu<B>, data: &DecodedInstruction) -> (r: u32)
        requires
            old(cpu).wf(),
            bit_ready(data),
        ensures
            bit_exec(*old(cpu), *final(cpu), data, BitOp::Orn, r),
    {
        bitop(cpu, data, BitOp::Orn)
    }
}

/// With three operands, `rd` and `rn` from operands 0 and 1 and operand 2 from operand 2;
/// with two, `rd` = `rn` from operand 0 and operand 2 from operand 1; registers that are
/// not given stay R0.
pub open spec fn bit_operands(ops: Seq<DecodedOperand>, a: DecodedArmOperands) -> DecodedArmOperands {
    if ops.len() > 2 {
        let rd = match reg_at(ops, 0) { Some(r) => r, None => 0 };
        let rn = match reg_at(ops, 1) { Some(r) => r, None => 0 };
        DecodedArmOperands { rd, rn, op2: Some(ops[2]), ..a }
    } else if ops.len() > 1 {
        let rd = match reg_at(ops, 0) { Some(r) => r, None => 0 };
        DecodedArmOperands { rd, rn: rd, op2: Some(ops[1]), ..a }
    } else {
        DecodedArmOperands { rd: 0, rn: 0, op2: None, ..a }
    }
}

pub struct OpBitResolver;

impl OpBitResolver {
    pub fn resolve(&self, decoded: &mut DecodedInstructionBuilder) -> (r: u32)
        ensures
            only_arm_operands_changed(old(decoded), final(decoded)),
            final(decoded).arm_operands == bit_operands(old(decoded).operands@, old(decoded).arm_operands),
            r == final(decoded).arm_operands.rd,
    {
        let mut rd: u32 = 0;
        let mut rn: u32 = 0;
        let n = decoded.operands.len();
        if n > 2 {
            if let Some(r) = reg_operand(decoded, 0) {
                rd = r;
            }
            if let Some(r) = reg_operand(decoded, 1) {
                rn = r;
            }
        } else if n > 1 {
            if let Some(r) = reg_operand(decoded, 0) {
                rd = r;
                rn = r;
            }
        }
        let op2 = if n > 2 {
            Some(decoded.operands[2])
        } else if n > 1 {
            Some(decoded.operands[1])
        } else {
            None
        };
        decoded.arm_operands.rd = rd;
        decoded.arm_operands.rn = rn;
        decoded.arm_operands.op2 = op2;
        rd
    }
}

/// The entries of the logical instructions.
pub open spec fn bitop_table(t: Seq<Opcode>) -> bool {
    &&& t.len() == 5
    &&& entry_is(t[0], ArmInsn::ARM_INS_AND, "AND"@, 16, 1, 1, OpExec::And, OpResolve::Bit, None)
    &&& entry_is(t[1], ArmInsn::ARM_INS_ORR, "ORR"@, 32, 1, 1, OpExec::Orr, OpResolve::Bit, None)
    &&& entry_is(t[2], ArmInsn::ARM_INS_EOR, "EOR"@, 32, 1, 1, OpExec::Eor, OpResolve::Bit, None)
    &&& entry_is(t[3], ArmInsn::ARM_INS_BIC, "BIC"@, 32, 1, 1, OpExec::Bic, OpResolve::Bit, None)
    &&& entry_is(t[4], ArmInsn::ARM_INS_ORN, "ORN"@, 32, 1, 1, OpExec::Orn, OpResolve::Bit, None)
}

pub fn add_bitop_def() -> (t: Vec<Opcode>)
    ensures
        bitop_table(t@),
{
    let mut t: Vec<Opcode> = Vec::new();
    t.push(entry(ArmInsn::ARM_INS_AND, "AND", 16, 1, 1, OpExec::And, OpResolve::Bit, None));
    t.push(entry(ArmInsn::ARM_INS_ORR, "ORR", 32, 1, 1, OpExec::Orr, OpResolve::Bit, None));
    t.push(entry(ArmInsn::ARM_INS_EOR, "EOR", 32, 1, 1, OpExec::Eor, OpResolve::Bit, None));
    t.push(entry(ArmInsn::ARM_INS_BIC, "BIC", 32, 1, 1, OpExec::Bic, OpResolve::Bit, None));
    t.push(entry(ArmInsn::ARM_INS_ORN, "ORN", 32, 1, 1, OpExec::Orn, OpResolve::Bit, None));
    t
}

pub struct Bitop_builder;

impl Bitop_builder {
    pub fn build(&self) -> (t: Vec<Opcode>)
        ensures
            bitop_table(t@),
    {
        add_bitop_def()
    }
}

/// Bit `i` of `x`.
pub open spec fn bit_of(x: u32, i: u32) -> bool {
    (x >> i) & 1 == 1
}

/// The logical executors work bit by bit: when the condition passes, every bit of the word
/// written to Rd is, from the same bits of Rn and operand 2, set for AND when both are set,
/// for ORR when either is, for EOR when exactly one is, for BIC when Rn's is and operand 2's
/// is not, and for ORN when Rn's is or operand 2's is not. Nothing but Rd and the flags
/// changes.
pub proof fn lemma_logical_ops_work_bitwise<B>(old: Cpu<B>, new: Cpu<B>, data: &DecodedInstruction, op: BitOp, r: u32)
    requires
        bit_exec(old, new, data, op, r),
        cond_passes(old, data),
        data.arm_operands.rd < 16,
    ensures
        ({
            let a = old.regs()[data.arm_operands.rn as int];
            let b = op2_value(old.regs(), old.apsr(), data).0;
            let v = new.regs()[data.arm_operands.rd as int];
            &&& forall|i: u32| i < 32 ==> #[trigger] bit_of(v, i) == match op {
                BitOp::And => bit_of(a, i) && bit_of(b, i),
                BitOp::Orr => bit_of(a, i) || bit_of(b, i),
                BitOp::Eor => bit_of(a, i) != bit_of(b, i),
                BitOp::Bic => bit_of(a, i) && !bit_of(b, i),
                BitOp::Orn => bit_of(a, i) || !bit_of(b, i),
            }
            &&& forall|k: int| 0 <= k < 16 && k != data.arm_operands.rd ==> new.regs()[k] == old.regs()[k]
        }),
{
    let a = old.regs()[data.arm_operands.rn as int];
    let b = op2_value(old.regs(), old.apsr(), data).0;
    assert(forall|i: u32| i < 32 ==> {
        &&& (((a & b) >> i) & 1 == 1) == (((a >> i) & 1 == 1) && ((b >> i) & 1 == 1))
        &&& (((a | b) >> i) & 1 == 1) == (((a >> i) & 1 == 1) || ((b >> i) & 1 == 1))
        &&& (((a ^ b) >> i) & 1 == 1) == (((a >> i) & 1 == 1) != ((b >> i) & 1 == 1))
        &&& (((a & !b) >> i) & 1 == 1) == (((a >> i) & 1 == 1) && !((b >> i) & 1 == 1))
        &&& (((a | !b) >> i) & 1 == 1) == (((a >> i) & 1 == 1) || !((b >> i) & 1 == 1))
    }) by (bit_vector);
}

/// The flags of the logical executors: with flags set, N becomes bit 31 of the result, Z is
/// set exactly when the result is 0, C becomes the shifter's carry out, and V and the other
/// APSR bits stay; without, the APSR is unchanged. (The condition is taken to pass.)
pub proof fn lemma_logical_ops_flags<B>(old: Cpu<B>, new: Cpu<B>, data: &DecodedInstruction, op: BitOp, r: u32)
    requires
        bit_exec(old, new, data, op, r),
        cond_passes(old, data),
        data.arm_operands.rd < 16,
    ensures
        ({
            let (b, carry) = op2_value(old.regs(), old.apsr(), data);
            let v = new.regs()[data.arm_operands.rd as int];
            let a0 = old.apsr();
            let a1 = new.apsr();
            &&& data.update_flags ==> bit_of(a1, 31) == bit_of(v, 31) && bit_of(a1, 30) == (v == 0)
                && bit_of(a1, 29) == (carry != 0) && a1 & 0x1FFF_FFFF == a0 & 0x1FFF_FFFF
            &&& !data.update_flags ==> a1 == a0
        }),
{
    let (b, carry) = op2_value(old.regs(), old.apsr(), data);
    let v = new.regs()[data.arm_operands.rd as int];
    let a0 = old.apsr();
    let n = (v >> 31u32) & 1 == 1;
    let z = v == 0;
    let c = carry != 0;
    let s1 = if n { a0 | (1u32 << 31u32) } else { a0 & !(1u32 << 31u32) };
    let s2 = if z { s1 | (1u32 << 30u32) } else { s1 & !(1u32 << 30u32) };
    let s3 = if c { s2 | (1u32 << 29u32) } else { s2 & !(1u32 << 29u32) };
    assert(((s3 >> 31u32) & 1 == 1) == n && ((s3 >> 30u32) & 1 == 1) == z && ((s3 >> 29u32) & 1 == 1) == c
        && s3 & 0x1FFF_FFFF == a0 & 0x1FFF_FFFF) by (bit_vector)
        requires
            s1 == (if n { a0 | (1u32 << 31u32) } else { a0 & !(1u32 << 31u32) }),
            s2 == (if z { s1 | (1u32 << 30u32) } else { s1 & !(1u32 << 30u32) }),
            s3 == (if c { s2 | (1u32 << 29u32) } else { s2 & !(1u32 << 29u32) }),
    ;
    if data.update_flags {
        assert(new.apsr() == s3);
    }
}

} // verus!
