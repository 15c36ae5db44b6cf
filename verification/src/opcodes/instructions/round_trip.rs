//! What a store of a register list followed by a load of the same list gives back.
use vstd::prelude::*;
use crate::cpu::{Cpu, RAM_BASE};
use crate::memory::{store_words, lemma_store_words};
use crate::opcodes::decoded::DecodedInstruction;
use crate::opcodes::instructions::cond_passes;
use crate::opcodes::instructions::ldm::{listed, ldm_exec, lemma_listed_ok};
use crate::opcodes::instructions::reg_list::{
    list_ok, list_values, mem_of, mem_store_block, read_block, loaded_regs, pc_slot,
};
use crate::opcodes::instructions::stack::{push_start, push_exec, pop_exec, pop_end};
use crate::opcodes::instructions::stm::stm_exec;
use crate::opcodes::thumb_runtime::{block_addr, block_in_ram};

verus! {

/// A block of words that lies in RAM is written as `store_words` writes it; flash is
/// untouched.
proof fn lemma_store_block_in_ram(m: (Seq<u8>, Seq<u8>), start: u32, vals: Seq<u32>)
    requires
        block_in_ram(start, vals.len()),
    ensures
        mem_store_block(m, start, vals) == (store_words(m.0, start - RAM_BASE, vals), m.1),
    decreases vals.len(),
{
    if vals.len() > 0 {
        let pre = vals.drop_last();
        lemma_store_block_in_ram(m, start, pre);
        let k = vals.len() - 1;
        assert(block_addr(start, k) == start + 4 * k);
    }
}

/// Right after a block was written into RAM, reading it back gives the words written.
proof fn lemma_read_back<B>(old: Cpu<B>, new: Cpu<B>, start: u32, vals: Seq<u32>, got: Seq<u32>)
    requires
        old.wf(),
        block_in_ram(start, vals.len()),
        mem_of(new) == mem_store_block(mem_of(old), start, vals),
        got.len() == vals.len(),
        read_block(new, start, got),
    ensures
        got == vals,
{
    lemma_store_block_in_ram(mem_of(old), start, vals);
    let off = start - RAM_BASE;
    lemma_store_words(old.ram@, off, vals);
    assert forall|k: int| 0 <= k < vals.len() implies got[k] == vals[k] by {
        let a = block_addr(start, k);
        assert(a == start + 4 * k);
        assert(new.word(a) == Some(crate::memory::le32(new.ram@, off + 4 * k)));
    }
    assert(got =~= vals);
}

/// Loading `list` with the values its registers had in `r0` gives those registers back;
/// the registers off the list keep their values.
proof fn lemma_loaded_restores(regs: Seq<u32>, r0: Seq<u32>, list: Seq<u32>, vals: Seq<u32>, k: int, skip_pc: bool)
    requires
        regs.len() == 16,
        r0.len() == 16,
        list_ok(list),
        0 <= k <= list.len(),
        !list.contains(15),
        forall|i: int| 0 <= i < k ==> vals[i] == #[trigger] r0[list[i] as int],
    ensures
        loaded_regs(regs, list, vals, k, skip_pc).len() == 16,
        forall|j: int|
            0 <= j < 16 ==> #[trigger] loaded_regs(regs, list, vals, k, skip_pc)[j] == (if list.subrange(0, k).contains(j as u32) {
                r0[j]
            } else {
                regs[j]
            }),
    decreases k,
{
    if k > 0 {
        lemma_loaded_restores(regs, r0, list, vals, k - 1, skip_pc);
        let r = list[k - 1];
        assert(r < 16);
        assert(list[k - 1] != 15) by {
            if list[k - 1] == 15 {
                assert(list.contains(15));
            }
        }
        assert(vals[k - 1] == r0[r as int]);
        assert forall|j: int| 0 <= j < 16 implies #[trigger] loaded_regs(regs, list, vals, k, skip_pc)[j] == (if list.subrange(0, k).contains(j as u32) {
            r0[j]
        } else {
            regs[j]
        }) by {
            let prev = list.subrange(0, k - 1);
            let cur = list.subrange(0, k);
            assert(cur =~= prev.push(r));
            if j == r as int {
                assert(cur[k - 1] == r);
            } else {
                if prev.contains(j as u32) {
                    let i = choose|i: int| 0 <= i < prev.len() && prev[i] == j as u32;
                    assert(cur[i] == j as u32);
                }
                if cur.contains(j as u32) {
                    let i = choose|i: int| 0 <= i < cur.len() && cur[i] == j as u32;
                    assert(i != k - 1);
                    assert(prev[i] == j as u32);
                }
            }
        }
    }
}

/// Registers that were loaded with their own values, and SP put back, are the registers
/// before.
proof fn lemma_restored(r0: Seq<u32>, regs: Seq<u32>, list: Seq<u32>, vals: Seq<u32>, skip_pc: bool)
    requires
        r0.len() == 16,
        regs.len() == 16,
        forall|j: int| 0 <= j < 16 && j != 13 ==> regs[j] == r0[j],
        list_ok(list),
        !list.contains(15),
        vals == list_values(r0, list),
    ensures
        loaded_regs(regs, list, vals, list.len() as int, skip_pc).update(13, r0[13]) == r0,
{
    lemma_loaded_restores(regs, r0, list, vals, list.len() as int, skip_pc);
    assert(list.subrange(0, list.len() as int) =~= list);
    let l = loaded_regs(regs, list, vals, list.len() as int, skip_pc);
    assert forall|j: int| 0 <= j < 16 implies #[trigger] l.update(13, r0[13])[j] == r0[j] by {
        if j != 13 {
            assert(l[j] == (if list.contains(j as u32) { r0[j] } else { regs[j] }));
        }
    }
    assert(l.update(13, r0[13]) =~= r0);
}

/// PUSH followed by POP of the same register list (PC not in it), both executed, with the
/// stack block in RAM, gives every register back its value from before the PUSH; POP then
/// returns the instruction size.
pub proof fn lemma_push_then_pop_restores<B>(
    c0: Cpu<B>,
    c1: Cpu<B>,
    c2: Cpu<B>,
    push: &DecodedInstruction,
    pop: &DecodedInstruction,
    r1: u32,
    r2: u32,
)
    requires
        c0.wf(),
        list_ok(push.transed_operands@),
        pop.transed_operands@ == push.transed_operands@,
        !push.transed_operands@.contains(15),
        cond_passes(c0, push),
        cond_passes(c0, pop),
        block_in_ram(push_start(c0, push), push.transed_operands@.len()),
        push_exec(c0, c1, push, r1),
        pop_exec(c1, c2, pop, r2),
    ensures
        c2.regs() == c0.regs(),
        r2 == pop.size,
{
    let list = push.transed_operands@;
    let n = list.len() as int;
    let start = push_start(c0, push);
    let pushed = list_values(c0.regs(), list);
    assert(c1.apsr() == c0.apsr());
    assert(cond_passes(c1, pop));
    assert(c1.regs()[13] == start);
    let vals = choose|vals: Seq<u32>|
        #![trigger read_block(c1, c1.regs()[13], vals)]
        {
            let regs = loaded_regs(c1.regs(), list, vals, n, true).update(13, pop_end(c1, pop));
            &&& vals.len() == n
            &&& read_block(c1, c1.regs()[13], vals)
            &&& match pc_slot(list, vals, n) {
                None => crate::opcodes::thumb_exec::rstep(c1, c2, regs, c1.apsr()) && r2 == pop.size,
                Some(pc) => r2 == 0 && if crate::cpu::exc_return_value(pc) && c1.exception_stack@.len() > 0 {
                    c1.returned_from_exception_at(&c2, pop_end(c1, pop), regs)
                } else {
                    crate::opcodes::thumb_exec::rstep(c1, c2, regs.update(15, pc & !1u32), c1.apsr())
                },
            }
        };
    lemma_read_back(c0, c1, start, pushed, vals);
    assert(pc_slot(list, vals, n) is None) by {
        lemma_no_pc_slot(list, vals, n);
    }
    assert(pop_end(c1, pop) == c0.regs()[13]);
    lemma_restored(c0.regs(), c1.regs(), list, vals, true);
}

proof fn lemma_no_pc_slot(list: Seq<u32>, vals: Seq<u32>, k: int)
    requires
        0 <= k <= list.len(),
        !list.contains(15),
    ensures
        pc_slot(list, vals, k) is None,
    decreases k,
{
    if k > 0 {
        assert(list[k - 1] != 15) by {
            if list[k - 1] == 15 {
                assert(list.contains(15));
            }
        }
        lemma_no_pc_slot(list, vals, k - 1);
    }
}

/// STM followed by LDM of the same base and register list (PC not in it, no write-back
/// on either), both executed, with the block in RAM, leaves every register as it was
/// before the STM; LDM returns the instruction size.
pub proof fn lemma_stm_then_ldm_restores<B>(
    c0: Cpu<B>,
    c1: Cpu<B>,
    c2: Cpu<B>,
    stm: &DecodedInstruction,
    ldm: &DecodedInstruction,
    r1: u32,
    r2: u32,
)
    requires
        c0.wf(),
        list_ok(stm.transed_operands@),
        stm.transed_operands@.len() > 0,
        ldm.transed_operands@ == stm.transed_operands@,
        !listed(stm.transed_operands@).contains(15),
        !stm.writeback,
        !ldm.writeback,
        cond_passes(c0, stm),
        cond_passes(c0, ldm),
        block_in_ram(c0.regs()[stm.transed_operands@[0] as int], listed(stm.transed_operands@).len()),
        stm_exec(c0, c1, stm, r1),
        ldm_exec(c1, c2, ldm, r2),
    ensures
        c2.regs() == c0.regs(),
        r2 == ldm.size,
{
    let t = stm.transed_operands@;
    let list = listed(t);
    lemma_listed_ok(t);
    let n = list.len() as int;
    let start = c0.regs()[t[0] as int];
    let stored = list_values(c0.regs(), list);
    assert(c1.apsr() == c0.apsr());
    assert(cond_passes(c1, ldm));
    assert(c1.regs() == c0.regs());
    let vals = choose|vals: Seq<u32>|
        #![trigger read_block(c1, start, vals)]
        {
            let regs = loaded_regs(c1.regs(), list, vals, n, false);
            &&& vals.len() == n
            &&& read_block(c1, start, vals)
            &&& crate::opcodes::thumb_exec::rstep(c1, c2, regs, c1.apsr())
        };
    lemma_read_back(c0, c1, start, stored, vals);
    lemma_restored(c0.regs(), c1.regs(), list, vals, false);
    lemma_loaded_restores(c1.regs(), c0.regs(), list, vals, n, false);
    let l = loaded_regs(c1.regs(), list, vals, n, false);
    assert(l =~= c0.regs()) by {
        assert(list.subrange(0, n) =~= list);
        assert forall|j: int| 0 <= j < 16 implies #[trigger] l[j] == c0.regs()[j] by {
            assert(l[j] == (if list.contains(j as u32) { c0.regs()[j] } else { c1.regs()[j] }));
        }
    }
}

} // verus!
