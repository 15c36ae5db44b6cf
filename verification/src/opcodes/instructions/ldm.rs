//! LDM: `LDM{cond} Rn{!}, {reglist}`, registers loaded from the address in `Rn` upwards.
use vstd::prelude::*;
use crate::arch::ArmInsn;
use crate::bus::PeripheralBus;
use crate::context::CpuContext;
use crate::cpu::Cpu;
use crate::opcodes::decoded::{
    DecodedInstruction, DecodedInstructionBuilder, check_condition, multi_reg_done, regs_of,
    only_transed_changed, normalize_multi_reg,
};
use crate::opcodes::instructions::cond_passes;
use crate::opcodes::instructions::reg_list::{list_ok, read_block, loaded_regs, load_list, lemma_loaded_regs_len};
use crate::opcodes::opcode::{Opcode, OpExec, OpResolve, CycleAdjust, entry, entry_is};
use crate::opcodes::thumb_exec::rstep;
use crate::opcodes::thumb_runtime::block_mapped;

verus! {

/// The registers of a multi-register list after the base (entry 0).
pub open spec fn listed(t: Seq<u32>) -> Seq<u32> {
    t.subrange(1, t.len() as int)
}

/// A base-and-list register list is short and names R0-R15 only.
pub proof fn lemma_listed_ok(t: Seq<u32>)
    requires
        list_ok(t),
        t.len() > 0,
    ensures
        list_ok(listed(t)),
        t[0] < 16,
{
    assert forall|i: int| 0 <= i < listed(t).len() implies #[trigger] listed(t)[i] < 16 by {
        assert(listed(t)[i] == t[i + 1]);
    }
}

/// Whether PC is among the registers after the base.
pub fn lists_pc_after_base(t: &Vec<u32>) -> (b: bool)
    requires
        t@.len() > 0,
    ensures
        b == listed(t@).contains(15),
{
    let mut i: usize = 1;
    while i < t.len()
        invariant
            1 <= i <= t@.len(),
            forall|j: int| 1 <= j < i ==> t@[j] != 15,
        decreases t@.len() - i,
    {
        if t[i] == 15 {
            assert(listed(t@)[i - 1] == 15);
            return true;
        }
        i = i + 1;
    }
    assert forall|j: int| 0 <= j < listed(t@).len() implies listed(t@)[j] != 15 by {
        assert(listed(t@)[j] == t@[j + 1]);
    }
    false
}

/// What LDM may ask for: the loaded words are mapped.
pub open spec fn ldm_ready<B>(cpu: Cpu<B>, data: &DecodedInstruction) -> bool {
    let t = data.transed_operands@;
    t.len() > 0 ==> block_mapped(cpu, cpu.regs()[t[0] as int], listed(t).len())
}

/// LDM: nothing changes and the size is returned when the condition fails or the list is
/// empty. Otherwise the registers after the base are loaded in list order from the address
/// in the base (`vals`, known for words the core holds), PC included as loaded; with
/// write-back the base then points past the loaded words. 0 is returned when PC was loaded.
pub open spec fn ldm_exec<B>(old: Cpu<B>, new: Cpu<B>, data: &DecodedInstruction, r: u32) -> bool {
    let t = data.transed_operands@;
    if cond_passes(old, data) && t.len() > 0 {
        let list = listed(t);
        let start = old.regs()[t[0] as int];
        let end = start.wrapping_add((4 * list.len()) as u32);
        &&& r == (if list.contains(15) { 0 } else { data.size })
        &&& exists|vals: Seq<u32>|
            #![trigger read_block(old, start, vals)]
            {
                let regs = loaded_regs(old.regs(), list, vals, list.len() as int, false);
                &&& vals.len() == list.len()
                &&& read_block(old, start, vals)
                &&& rstep(old, new, if data.writeback { regs.update(t[0] as int, end) } else { regs }, old.apsr())
            }
    } else {
        new == old && r == data.size
    }
}

pub fn ldm<B: PeripheralBus>(cpu: &mut Cpu<B>, data: &DecodedInstruction) -> (r: u32)
    requires
        old(cpu).wf(),
        list_ok(data.transed_operands@),
        cond_passes(*old(cpu), data) ==> ldm_ready(*old(cpu), data),
    ensures
        ldm_exec(*old(cpu), *final(cpu), data, r),
{
    if !check_condition(cpu, data.arm_operands.condition) {
        return data.size();
    }
    if data.transed_operands.len() == 0 {
        return data.size();
    }
    proof {
        lemma_listed_ok(data.transed_operands@);
    }
    let ghost old_cpu = *cpu;
    let base_reg = data.transed_operands[0];
    let base_addr = cpu.read_reg(base_reg);
    let count = (data.transed_operands.len() - 1) as u32;
    let _pc = load_list(cpu, &data.transed_operands, 1, base_addr, false);
    let ghost list = listed(data.transed_operands@);
    let ghost vals = choose|vals: Seq<u32>|
        #![trigger read_block(old_cpu, base_addr, vals)]
        {
            &&& vals.len() == list.len()
            &&& read_block(old_cpu, base_addr, vals)
            &&& cpu.regs() == loaded_regs(old_cpu.regs(), list, vals, list.len() as int, false)
        };
    proof {
        lemma_loaded_regs_len(old_cpu.regs(), list, vals, list.len() as int, false);
    }
    if data.writeback() {
        cpu.write_reg(base_reg, base_addr.wrapping_add(4 * count));
    }
    if lists_pc_after_base(&data.transed_operands) {
        0
    } else {
        data.size()
    }
}

pub struct Op_Ldm;

impl Op_Ldm {
    pub fn execute<B: PeripheralBus>(cpu: &mut Cpu<B>, data: &DecodedInstruction) -> (r: u32)
        requires
            old(cpu).wf(),
            list_ok(data.transed_operands@),
            cond_passes(*old(cpu), data) ==> ldm_ready(*old(cpu), data),
        ensures
            ldm_exec(*old(cpu), *final(cpu), data, r),
    {
        ldm(cpu, data)
    }
}

/// The count a base-and-list resolver returns: the registers after the base, saturated to
/// 32 bits.
pub open spec fn listed_count(t: Seq<u32>) -> u32 {
    if t.len() - 1 > u32::MAX { u32::MAX } else { (t.len() - 1) as u32 }
}

/// Builds the base-and-list register list (the base first, the others in increasing
/// order) and returns how many registers follow the base.
pub fn resolve_base_and_list(decoded: &mut DecodedInstructionBuilder) -> (r: u32)
    requires
        regs_of(old(decoded).operands@).len() > 0,
    ensures
        only_transed_changed(old(decoded), final(decoded)),
        multi_reg_done(old(decoded).operands@, true, Some(()), final(decoded).transed_operands@),
        final(decoded).transed_operands@.len() > 0,
        r == listed_count(final(decoded).transed_operands@),
{
    let done = normalize_multi_reg(decoded, true);
    let n = decoded.transed_operands.len();
    if n - 1 > 0xFFFF_FFFFusize { 0xFFFF_FFFFu32 } else { (n - 1) as u32 }
}

pub struct OpLdm_resolver;

impl OpLdm_resolver {
    pub fn resolve(&self, decoded: &mut DecodedInstructionBuilder) -> (r: u32)
        requires
            regs_of(old(decoded).operands@).len() > 0,
        ensures
            only_transed_changed(old(decoded), final(decoded)),
            multi_reg_done(old(decoded).operands@, true, Some(()), final(decoded).transed_operands@),
            final(decoded).transed_operands@.len() > 0,
            r == listed_count(final(decoded).transed_operands@),
    {
        resolve_base_and_list(decoded)
    }
}

/// The entry of LDM.
pub open spec fn ldm_table(t: Seq<Opcode>) -> bool {
    &&& t.len() == 1
    &&& entry_is(t[0], ArmInsn::ARM_INS_LDM, "LDM"@, 32, 1, 1, OpExec::Ldm, OpResolve::Ldm, Some(CycleAdjust::Ldm))
}

pub fn add_ldm_def() -> (t: Vec<Opcode>)
    ensures
        ldm_table(t@),
{
    let mut t: Vec<Opcode> = Vec::new();
    t.push(entry(ArmInsn::ARM_INS_LDM, "LDM", 32, 1, 1, OpExec::Ldm, OpResolve::Ldm, Some(CycleAdjust::Ldm)));
    t
}

pub struct Ldm_builder;

impl Ldm_builder {
    pub fn build(&self) -> (t: Vec<Opcode>)
        ensures
            ldm_table(t@),
    {
        add_ldm_def()
    }
}

} // verus!
