//! PUSH and POP: `op{cond} {reglist}`, registers stored below SP in list order and loaded
//! back from SP upwards.
use vstd::prelude::*;
use crate::arch::ArmInsn;
use crate::bus::PeripheralBus;
use crate::context::CpuContext;
use crate::cpu::{Cpu, exc_return_value};
use crate::opcodes::decoded::{
    DecodedInstruction, DecodedInstructionBuilder, check_condition, multi_reg_done,
    only_transed_changed, normalize_multi_reg,
};
use crate::opcodes::instructions::{cond_passes, core_kept};
use crate::opcodes::instructions::reg_list::{
    list_ok, list_values, mem_of, mem_store_block, read_block, loaded_regs, pc_slot, store_list,
    load_list, lemma_loaded_regs_len,
};
use crate::opcodes::opcode::{Opcode, OpExec, OpResolve, CycleAdjust, entry, entry_is};
use crate::opcodes::thumb_exec::rstep;
use crate::opcodes::thumb_runtime::block_mapped;

verus! {

/// Where PUSH stores its first register: four bytes per register below SP.
pub open spec fn push_start<B>(cpu: Cpu<B>, data: &DecodedInstruction) -> u32 {
    cpu.regs()[13].wrapping_sub((4 * data.transed_operands@.len()) as u32)
}

/// PUSH: nothing changes when the condition fails; otherwise the registers of the list are
/// stored in list order from `push_start` on and SP is lowered to it. The size is returned.
pub open spec fn push_exec<B>(old: Cpu<B>, new: Cpu<B>, data: &DecodedInstruction, r: u32) -> bool {
    let start = push_start(old, data);
    &&& r == data.size
    &&& if cond_passes(old, data) {
        &&& core_kept(old, new)
        &&& new.regs() == old.regs().update(13, start)
        &&& new.apsr() == old.apsr()
        &&& mem_of(new) == mem_store_block(mem_of(old), start, list_values(old.regs(), data.transed_operands@))
    } else {
        new == old
    }
}

pub fn stack_push<B: PeripheralBus>(cpu: &mut Cpu<B>, data: &DecodedInstruction) -> (r: u32)
    requires
        old(cpu).wf(),
        list_ok(data.transed_operands@),
        cond_passes(*old(cpu), data) ==> block_mapped(*old(cpu), push_start(*old(cpu), data), data.transed_operands@.len()),
    ensures
        push_exec(*old(cpu), *final(cpu), data, r),
{
    if !check_condition(cpu, data.arm_operands.condition) {
        return data.size();
    }
    let sp = cpu.read_reg(13);
    let count = data.transed_operands.len() as u32;
    let start = sp.wrapping_sub(4 * count);
    assert(data.transed_operands@.subrange(0, data.transed_operands@.len() as int) =~= data.transed_operands@);
    store_list(cpu, &data.transed_operands, 0, start);
    cpu.write_reg(13, start);
    data.size()
}

/// Where POP leaves SP: four bytes per register above the old SP.
pub open spec fn pop_end<B>(cpu: Cpu<B>, data: &DecodedInstruction) -> u32 {
    cpu.regs()[13].wrapping_add((4 * data.transed_operands@.len()) as u32)
}

/// What POP may ask for: the popped words are mapped, and when PC is popped while an
/// exception is active, so is the frame above the popped words.
pub open spec fn pop_ready<B>(cpu: Cpu<B>, data: &DecodedInstruction) -> bool {
    let list = data.transed_operands@;
    &&& block_mapped(cpu, cpu.regs()[13], list.len())
    &&& list.contains(15) && cpu.exception_stack@.len() > 0 ==> cpu.frame_mapped(pop_end(cpu, data))
}

/// POP: nothing changes and the size is returned when the condition fails. Otherwise the
/// registers of the list but PC are loaded from SP upwards (`vals`, known for words the
/// core holds) and SP is raised past them; a popped PC either returns from the active
/// exception (an EXC_RETURN value while one is active) or becomes the new PC with bit 0
/// cleared, and then 0 is returned.
pub open spec fn pop_exec<B>(old: Cpu<B>, new: Cpu<B>, data: &DecodedInstruction, r: u32) -> bool {
    let list = data.transed_operands@;
    let n = list.len() as int;
    let sp = old.regs()[13];
    if cond_passes(old, data) {
        exists|vals: Seq<u32>|
            #![trigger read_block(old, sp, vals)]
            {
                let regs = loaded_regs(old.regs(), list, vals, n, true).update(13, pop_end(old, data));
                &&& vals.len() == n
                &&& read_block(old, sp, vals)
                &&& match pc_slot(list, vals, n) {
                    None => rstep(old, new, regs, old.apsr()) && r == data.size,
                    Some(pc) => r == 0 && if exc_return_value(pc) && old.exception_stack@.len() > 0 {
                        old.returned_from_exception_at(&new, pop_end(old, data), regs)
                    } else {
                        rstep(old, new, regs.update(15, pc & !1u32), old.apsr())
                    },
                }
            }
    } else {
        new == old && r == data.size
    }
}

proof fn lemma_pc_slot_listed(list: Seq<u32>, vals: Seq<u32>, k: int)
    requires
        0 <= k <= list.len(),
        pc_slot(list, vals, k) is Some,
    ensures
        list.contains(15),
    decreases k,
{
    if list[k - 1] == 15 {
        assert(list[k - 1] == 15);
    } else {
        lemma_pc_slot_listed(list, vals, k - 1);
    }
}

pub fn stack_pop<B: PeripheralBus>(cpu: &mut Cpu<B>, data: &DecodedInstruction) -> (r: u32)
    requires
        old(cpu).wf(),
        list_ok(data.transed_operands@),
        cond_passes(*old(cpu), data) ==> pop_ready(*old(cpu), data),
    ensures
        pop_exec(*old(cpu), *final(cpu), data, r),
{
    if !check_condition(cpu, data.arm_operands.condition) {
        return data.size();
    }
    let ghost old_cpu = *cpu;
    let sp = cpu.read_reg(13);
    let count = data.transed_operands.len() as u32;
    assert(data.transed_operands@.subrange(0, data.transed_operands@.len() as int) =~= data.transed_operands@);
    let pc = load_list(cpu, &data.transed_operands, 0, sp, true);
    let new_sp = sp.wrapping_add(4 * count);
    cpu.write_reg(13, new_sp);
    let ghost list = data.transed_operands@;
    let ghost vals = choose|vals: Seq<u32>|
        #![trigger read_block(old_cpu, sp, vals)]
        {
            &&& vals.len() == list.len()
            &&& read_block(old_cpu, sp, vals)
            &&& loaded_regs(old_cpu.regs(), list, vals, list.len() as int, true).update(13, new_sp) == cpu.regs()
            &&& pc == pc_slot(list, vals, list.len() as int)
        };
    proof {
        lemma_loaded_regs_len(old_cpu.regs(), list, vals, list.len() as int, true);
    }
    match pc {
        Some(pc_val) => {
            proof {
                lemma_pc_slot_listed(list, vals, list.len() as int);
                if exc_return_value(pc_val) && cpu.exception_stack@.len() > 0 {
                    assert forall|i: int| 0 <= i < 8 implies #[trigger] cpu.mapped(crate::cpu::frame_addr(new_sp, i)) by {
                        assert(old_cpu.mapped(crate::cpu::frame_addr(new_sp, i)));
                    }
                }
            }
            if !cpu.try_exception_return(pc_val) {
                cpu.write_reg(15, pc_val & !1u32);
            }
            0
        },
        None => data.size(),
    }
}

pub struct Op_Push;

impl Op_Push {
    pub fn execute<B: PeripheralBus>(cpu: &mut Cpu<B>, data: &DecodedInstruction) -> (r: u32)
        requires
            old(cpu).wf(),
            list_ok(data.transed_operands@),
            cond_passes(*old(cpu), data) ==> block_mapped(*old(cpu), push_start(*old(cpu), data), data.transed_operands@.len()),
        ensures
            push_exec(*old(cpu), *final(cpu), data, r),
    {
        stack_push(cpu, data)
    }
}

pub struct Op_Pop;

impl Op_Pop {
    pub fn execute<B: PeripheralBus>(cpu: &mut Cpu<B>, data: &DecodedInstruction) -> (r: u32)
        requires
            old(cpu).wf(),
            list_ok(data.transed_operands@),
            cond_passes(*old(cpu), data) ==> pop_ready(*old(cpu), data),
        ensures
            pop_exec(*old(cpu), *final(cpu), data, r),
    {
        stack_pop(cpu, data)
    }
}

pub struct OpStackResolver;

impl OpStackResolver {
    /// The register list: the register operands in increasing order. Returns their number.
    pub fn resolve(&self, decoded: &mut DecodedInstructionBuilder) -> (r: u32)
        ensures
            only_transed_changed(old(decoded), final(decoded)),
            multi_reg_done(old(decoded).operands@, false, Some(()), final(decoded).transed_operands@),
            r == final(decoded).transed_operands@.len() as u32,
    {
        let done = normalize_multi_reg(decoded, false);
        decoded.transed_operands.len() as u32
    }
}

/// The entries of PUSH and POP.
pub open spec fn stack_table(t: Seq<Opcode>) -> bool {
    &&& t.len() == 2
    &&& entry_is(t[0], ArmInsn::ARM_INS_PUSH, "PUSH"@, 32, 1, 1, OpExec::Push, OpResolve::Stack, Some(CycleAdjust::Push))
    &&& entry_is(t[1], ArmInsn::ARM_INS_POP, "POP"@, 32, 1, 1, OpExec::Pop, OpResolve::Stack, Some(CycleAdjust::Pop))
}

pub fn add_stack_def() -> (t: Vec<Opcode>)
    ensures
        stack_table(t@),
{
    let mut t: Vec<Opcode> = Vec::new();
    t.push(entry(ArmInsn::ARM_INS_PUSH, "PUSH", 32, 1, 1, OpExec::Push, OpResolve::Stack, Some(CycleAdjust::Push)));
    t.push(entry(ArmInsn::ARM_INS_POP, "POP", 32, 1, 1, OpExec::Pop, OpResolve::Stack, Some(CycleAdjust::Pop)));
    t
}

pub struct Stack_builder;

impl Stack_builder {
    pub fn build(&self) -> (t: Vec<Opcode>)
        ensures
            stack_table(t@),
    {
        add_stack_def()
    }
}

} // verus!
