//! Entries of the table-driven interpreter: which instruction an entry handles, its
//! cycle counts, and which executor and operand resolver it uses.
use vstd::prelude::*;
use crate::arch::ArmInsn;
use crate::opcodes::decoded::{
    DecodedInstruction, DecodedOperand, DecodedOperandKind, update_apsr_n, update_apsr_z, update_apsr_c,
    update_apsr_v,
};
use crate::bits::{bit, with_bit, FLAG_N, FLAG_Z, FLAG_C, FLAG_V};
use crate::context::CpuContext;

verus! {

/// Cycles an instruction spends in fetch, decode and execute.
#[derive(Clone, Copy, Debug, PartialEq, Eq, Structural)]
pub struct CycleInfo {
    pub fetch_cycles: u32,
    pub decode_cycles: u32,
    pub execute_cycles: u32,
}

impl CycleInfo {
    pub fn new(fetch: u32, decode: u32, execute: u32) -> (r: CycleInfo)
        ensures
            r.fetch_cycles == fetch,
            r.decode_cycles == decode,
            r.execute_cycles == execute,
    {
        CycleInfo { fetch_cycles: fetch, decode_cycles: decode, execute_cycles: execute }
    }
}

/// The executor an entry runs.
#[derive(Clone, Copy, Debug, PartialEq, Eq, Structural)]
pub enum OpExec {
    Adr,
    Ubfx,
    And,
    Orr,
    Eor,
    Bic,
    Orn,
    B,
    Bl,
    Bx,
    Blx,
    Bkpt,
    Add,
    Adc,
    Sub,
    Sbc,
    Rsb,
    Mul,
    Udiv,
    Mls,
    Cmp,
    Cmn,
    Cbz,
    Cbnz,
    Uxtb,
    Uxth,
    Hint,
    It,
    Ldm,
    Ldr,
    Ldrb,
    Ldrsb,
    Ldrh,
    Ldrsh,
    Mov,
    Mvn,
    Movs,
    Nop,
    Asr,
    Lsl,
    Lsr,
    Ror,
    Rrx,
    Push,
    Pop,
    Stm,
    Str,
    Strb,
    Strh,
    Tst,
    Teq,
}

/// The operand resolver an entry uses.
#[derive(Clone, Copy, Debug, PartialEq, Eq, Structural)]
pub enum OpResolve {
    Adr,
    BitField,
    Bit,
    Branch,
    Bx,
    Bkpt,
    Calculate,
    Cmp,
    CompareBranch,
    Extend,
    Hint,
    It,
    Ldm,
    Ldr,
    Mov,
    Movs,
    Nop,
    Shift,
    Stack,
    Stm,
    Str,
    Tst,
}

/// The adjustment of the execute cycles that an entry makes once its operands are known.
#[derive(Clone, Copy, Debug, PartialEq, Eq, Structural)]
pub enum CycleAdjust {
    Push,
    Pop,
    Ldm,
    Stm,
}

/// One entry of the instruction table.
#[derive(Clone, Debug)]
pub struct Opcode {
    pub insnid: ArmInsn,
    pub name: String,
    pub length: u32,
    pub cycles: CycleInfo,
    pub executor: OpExec,
    pub operand_resolver: OpResolve,
    pub adjust_cycles: Option<CycleAdjust>,
}

/// `op` is the entry for `insn`, named `name`, with the given length, cycles, executor,
/// resolver and cycle adjustment.
pub open spec fn entry_is(
    op: Opcode,
    insn: ArmInsn,
    name: Seq<char>,
    length: u32,
    fetch: u32,
    execute: u32,
    executor: OpExec,
    resolver: OpResolve,
    adjust: Option<CycleAdjust>,
) -> bool {
    &&& op.insnid == insn
    &&& op.name@ == name
    &&& op.length == length
    &&& op.cycles == CycleInfo { fetch_cycles: fetch, decode_cycles: 0, execute_cycles: execute }
    &&& op.executor == executor
    &&& op.operand_resolver == resolver
    &&& op.adjust_cycles == adjust
}

/// Builds a table entry with no decode cycles.
pub fn entry(
    insn: ArmInsn,
    name: &str,
    length: u32,
    fetch: u32,
    execute: u32,
    executor: OpExec,
    resolver: OpResolve,
    adjust: Option<CycleAdjust>,
) -> (op: Opcode)
    ensures
        entry_is(op, insn, name@, length, fetch, execute, executor, resolver, adjust),
{
    Opcode {
        insnid: insn,
        name: name.to_string(),
        length,
        cycles: CycleInfo { fetch_cycles: fetch, decode_cycles: 0, execute_cycles: execute },
        executor,
        operand_resolver: resolver,
        adjust_cycles: adjust,
    }
}

impl Opcode {
    pub fn new(
        insnid: ArmInsn,
        name: String,
        length: u32,
        cycles: CycleInfo,
        executor: OpExec,
        operand_resolver: OpResolve,
        adjust_cycles: Option<CycleAdjust>,
    ) -> (r: Opcode)
        ensures
            r.insnid == insnid,
            r.name@ == name@,
            r.length == length,
            r.cycles == cycles,
            r.executor == executor,
            r.operand_resolver == operand_resolver,
            r.adjust_cycles == adjust_cycles,
    {
        Opcode { insnid, name, length, cycles, executor, operand_resolver, adjust_cycles }
    }
}

/// How many operands are registers.
pub open spec fn reg_count(ops: Seq<DecodedOperand>) -> nat
    decreases ops.len(),
{
    if ops.len() == 0 {
        0
    } else {
        reg_count(ops.drop_last()) + (if ops.last().op_type is Reg { 1nat } else { 0nat })
    }
}

/// `reg_count`, saturated to 32 bits.
pub open spec fn reg_count_u32(ops: Seq<DecodedOperand>) -> u32 {
    if reg_count(ops) > u32::MAX { u32::MAX } else { reg_count(ops) as u32 }
}

/// Whether some operand is the register `reg`.
pub open spec fn lists_reg(ops: Seq<DecodedOperand>, reg: u32) -> bool {
    exists|i: int| 0 <= i < ops.len() && ops[i].op_type == DecodedOperandKind::Reg(reg)
}

pub fn count_reg_operands(operands: &[DecodedOperand]) -> (n: u32)
    ensures
        n == reg_count_u32(operands@),
{
    let mut n: u32 = 0;
    let mut i: usize = 0;
    while i < operands.len()
        invariant
            i <= operands.len(),
            n == reg_count_u32(operands@.subrange(0, i as int)),
        decreases operands.len() - i,
    {
        assert(operands@.subrange(0, i as int + 1).drop_last() == operands@.subrange(0, i as int));
        if let DecodedOperandKind::Reg(_) = operands[i].op_type {
            n = n.saturating_add(1);
        }
        i = i + 1;
    }
    assert(operands@.subrange(0, operands.len() as int) == operands@);
    n
}

pub fn reg_list_contains(operands: &[DecodedOperand], reg: u32) -> (b: bool)
    ensures
        b == lists_reg(operands@, reg),
{
    let mut i: usize = 0;
    while i < operands.len()
        invariant
            i <= operands.len(),
            forall|j: int| 0 <= j < i ==> operands@[j].op_type != DecodedOperandKind::Reg(reg),
        decreases operands.len() - i,
    {
        if let DecodedOperandKind::Reg(r) = operands[i].op_type {
            if r == reg {
                return true;
            }
        }
        i = i + 1;
    }
    false
}

/// PUSH: one cycle plus one per register.
pub fn adjust_push_cycles(cycles: &mut CycleInfo, operands: &[DecodedOperand])
    ensures
        final(cycles).fetch_cycles == old(cycles).fetch_cycles,
        final(cycles).decode_cycles == old(cycles).decode_cycles,
        final(cycles).execute_cycles == 1u32.saturating_add(reg_count_u32(operands@)),
{
    let n = count_reg_operands(operands);
    cycles.execute_cycles = 1u32.saturating_add(n);
}

/// POP: one cycle plus one per register, and one more when PC is loaded.
pub fn adjust_pop_cycles(cycles: &mut CycleInfo, operands: &[DecodedOperand])
    ensures
        final(cycles).fetch_cycles == old(cycles).fetch_cycles,
        final(cycles).decode_cycles == old(cycles).decode_cycles,
        ({
            let base = 1u32.saturating_add(reg_count_u32(operands@));
            final(cycles).execute_cycles == if lists_reg(operands@, 15) { base.saturating_add(1) } else { base }
        }),
{
    let n = count_reg_operands(operands);
    let mut execute = 1u32.saturating_add(n);
    if reg_list_contains(operands, 15) {
        execute = execute.saturating_add(1);
    }
    cycles.execute_cycles = execute;
}

/// Execute cycles of an LDM whose base and register list are `list`: one plus one per
/// listed register (after the base), and one more when PC is loaded.
pub open spec fn ldm_cycles(list: Seq<u32>) -> u32 {
    let n = list.len();
    let listed: u32 = if n == 0 { 0 } else if n - 1 > u32::MAX { u32::MAX } else { (n - 1) as u32 };
    let base = 1u32.saturating_add(listed);
    if exists|i: int| 1 <= i < n && list[i] == 15 { base.saturating_add(1) } else { base }
}

pub fn adjust_ldm_cycles(cycles: &mut CycleInfo, instr: &DecodedInstruction)
    ensures
        final(cycles).fetch_cycles == old(cycles).fetch_cycles,
        final(cycles).decode_cycles == old(cycles).decode_cycles,
        final(cycles).execute_cycles == ldm_cycles(instr.transed_operands@),
{
    let len = instr.transed_operands.len();
    let listed: u32 = if len == 0 { 0 } else if len - 1 > 0xFFFF_FFFFusize { 0xFFFF_FFFFu32 } else { (len - 1) as u32 };
    let mut execute = 1u32.saturating_add(listed);
    let mut i: usize = 1;
    let mut pc = false;
    while i < len
        invariant
            1 <= i,
            len == instr.transed_operands@.len(),
            i <= len || i == 1,
            pc == exists|j: int| 1 <= j < i && instr.transed_operands@[j] == 15,
        decreases len - i,
    {
        if instr.transed_operands[i] == 15 {
            pc = true;
        }
        i = i + 1;
    }
    if pc {
        execute = execute.saturating_add(1);
    }
    cycles.execute_cycles = execute;
}

/// STM: one cycle plus one per register operand after the base.
pub fn adjust_stm_cycles(cycles: &mut CycleInfo, operands: &[DecodedOperand])
    ensures
        final(cycles).fetch_cycles == old(cycles).fetch_cycles,
        final(cycles).decode_cycles == old(cycles).decode_cycles,
        ({
            final(cycles).execute_cycles == 1u32.saturating_add(reg_count_u32(operands@).saturating_sub(1))
        }),
{
    let n = count_reg_operands(operands);
    cycles.execute_cycles = 1u32.saturating_add(n.saturating_sub(1));
}


/// Sets N from bit 31 of `result`; nothing else changes.
pub fn UpdateApsr_N<C: CpuContext>(cpu: &mut C, result: u32)
    requires
        old(cpu).ctx_wf(),
    ensures
        final(cpu).ctx_wf(),
        final(cpu).ctx_regs() == old(cpu).ctx_regs(),
        final(cpu).ctx_is_msp() == old(cpu).ctx_is_msp(),
        old(cpu).ctx_same_mem(final(cpu)),
        final(cpu).ctx_apsr() == with_bit(old(cpu).ctx_apsr(), FLAG_N, bit(result, 31) == 1),
{
    update_apsr_n(cpu, result)
}

/// Sets Z when `result` is zero, clears it otherwise; nothing else changes.
pub fn UpdateApsr_Z<C: CpuContext>(cpu: &mut C, result: u32)
    requires
        old(cpu).ctx_wf(),
    ensures
        final(cpu).ctx_wf(),
        final(cpu).ctx_regs() == old(cpu).ctx_regs(),
        final(cpu).ctx_is_msp() == old(cpu).ctx_is_msp(),
        old(cpu).ctx_same_mem(final(cpu)),
        final(cpu).ctx_apsr() == with_bit(old(cpu).ctx_apsr(), FLAG_Z, result == 0),
{
    update_apsr_z(cpu, result)
}

/// Sets C when `flag` is nonzero, clears it otherwise; nothing else changes.
pub fn UpdateApsr_C<C: CpuContext>(cpu: &mut C, flag: u8)
    requires
        old(cpu).ctx_wf(),
    ensures
        final(cpu).ctx_wf(),
        final(cpu).ctx_regs() == old(cpu).ctx_regs(),
        final(cpu).ctx_is_msp() == old(cpu).ctx_is_msp(),
        old(cpu).ctx_same_mem(final(cpu)),
        final(cpu).ctx_apsr() == with_bit(old(cpu).ctx_apsr(), FLAG_C, flag != 0),
{
    update_apsr_c(cpu, flag)
}

/// Sets V when `flag` is nonzero, clears it otherwise; nothing else changes.
pub fn UpdateApsr_V<C: CpuContext>(cpu: &mut C, flag: u8)
    requires
        old(cpu).ctx_wf(),
    ensures
        final(cpu).ctx_wf(),
        final(cpu).ctx_regs() == old(cpu).ctx_regs(),
        final(cpu).ctx_is_msp() == old(cpu).ctx_is_msp(),
        old(cpu).ctx_same_mem(final(cpu)),
        final(cpu).ctx_apsr() == with_bit(old(cpu).ctx_apsr(), FLAG_V, flag != 0),
{
    update_apsr_v(cpu, flag)
}

} // verus!
