//! STM: `STM{cond} Rn{!}, {reglist}`, registers stored from the address in `Rn` upwards.
use vstd::prelude::*;
use crate::arch::ArmInsn;
use crate::bus::PeripheralBus;
use crate::context::CpuContext;
use crate::cpu::Cpu;
use crate::opcodes::decoded::{
    DecodedInstruction, DecodedInstructionBuilder, check_condition, multi_reg_done, regs_of,
    only_transed_changed,
};
use crate::opcodes::instructions::{cond_passes, core_kept};
use crate::opcodes::instructions::ldm::{listed, lemma_listed_ok, listed_count, resolve_base_and_list};
use crate::opcodes::instructions::reg_list::{list_ok, list_values, mem_of, mem_store_block, store_list};
use crate::opcodes::opcode::{Opcode, OpExec, OpResolve, CycleAdjust, entry, entry_is};
use crate::opcodes::thumb_runtime::block_mapped;

verus! {

/// What STM may ask for: the stored words are mapped.
pub open spec fn stm_ready<B>(cpu: Cpu<B>, data: &DecodedInstruction) -> bool {
    let t = data.transed_operands@;
    t.len() > 0 ==> block_mapped(cpu, cpu.regs()[t[0] as int], listed(t).len())
}

/// STM: nothing changes when the condition fails or the list is empty. Otherwise the
/// registers after the base are stored in list order from the address in the base; with
/// write-back the base then points past the stored words. The size is returned.
pub open spec fn stm_exec<B>(old: Cpu<B>, new: Cpu<B>, data: &DecodedInstruction, r: u32) -> bool {
    let t = data.transed_operands@;
    &&& r == data.size
    &&& if cond_passes(old, data) && t.len() > 0 {
        let list = listed(t);
        let start = old.regs()[t[0] as int];
        let end = start.wrapping_add((4 * list.len()) as u32);
        &&& core_kept(old, new)
        &&& new.regs() == (if data.writeback { old.regs().update(t[0] as int, end) } else { old.regs() })
        &&& new.apsr() == old.apsr()
        &&& mem_of(new) == mem_store_block(mem_of(old), start, list_values(old.regs(), list))
    } else {
        new == old
    }
}

pub fn stm<B: PeripheralBus>(cpu: &mut Cpu<B>, data: &DecodedInstruction) -> (r: u32)
    requires
        old(cpu).wf(),
        list_ok(data.transed_operands@),
        cond_passes(*old(cpu), data) ==> stm_ready(*old(cpu), data),
    ensures
        stm_exec(*old(cpu), *final(cpu), data, r),
{
    if !check_condition(cpu, data.arm_operands.condition) {
        return data.size();
    }
    if data.transed_operands.len() == 0 {
        return data.size();
    }
    proof {
        lemma_listed_ok(data.transed_operands@);
    }
    let base_reg = data.transed_operands[0];
    let base_addr = cpu.read_reg(base_reg);
    let count = (data.transed_operands.len() - 1) as u32;
    store_list(cpu, &data.transed_operands, 1, base_addr);
    if data.writeback() {
        cpu.write_reg(base_reg, base_addr.wrapping_add(4 * count));
    }
    data.size()
}

pub struct Op_Stm;

impl Op_Stm {
    pub fn execute<B: PeripheralBus>(cpu: &mut Cpu<B>, data: &DecodedInstruction) -> (r: u32)
        requires
            old(cpu).wf(),
            list_ok(data.transed_operands@),
            cond_passes(*old(cpu), data) ==> stm_ready(*old(cpu), data),
        ensures
            stm_exec(*old(cpu), *final(cpu), data, r),
    {
        stm(cpu, data)
    }
}

pub struct OpStm_resolver;

impl OpStm_resolver {
    pub fn resolve(&self, decoded: &mut DecodedInstructionBuilder) -> (r: u32)
        requires
            regs_of(old(decoded).operands@).len() > 0,
        ensures
            only_transed_changed(old(decoded), final(decoded)),
            multi_reg_done(old(decoded).operands@, true, Some(()), final(decoded).transed_operands@),
            final(decoded).transed_operands@.len() > 0,
            r == listed_count(final(decoded).transed_operands@),
    {
        resolve_base_and_list(decoded)
    }
}

/// The entry of STM.
pub open spec fn stm_table(t: Seq<Opcode>) -> bool {
    &&& t.len() == 1
    &&& entry_is(t[0], ArmInsn::ARM_INS_STM, "STM"@, 32, 1, 1, OpExec::Stm, OpResolve::Stm, Some(CycleAdjust::Stm))
}

pub fn add_stm_def() -> (t: Vec<Opcode>)
    ensures
        stm_table(t@),
{
    let mut t: Vec<Opcode> = Vec::new();
    t.push(entry(ArmInsn::ARM_INS_STM, "STM", 32, 1, 1, OpExec::Stm, OpResolve::Stm, Some(CycleAdjust::Stm)));
    t
}

pub struct Stm_builder;

impl Stm_builder {
    pub fn build(&self) -> (t: Vec<Opcode>)
        ensures
            stm_table(t@),
    {
        add_stm_def()
    }
}

} // verus!
