//! Register lists: storing the registers of a list to consecutive words and loading them
//! back, as PUSH, POP, LDM and STM do.
use vstd::prelude::*;
use crate::bus::PeripheralBus;
use crate::context::CpuContext;
use crate::cpu::{Cpu, MemRegion, region_of, RAM_BASE, FLASH_BASE};
use crate::memory::store_le32;
use crate::opcodes::instructions::core_kept;
use crate::opcodes::thumb_runtime::{block_addr, block_mapped};

verus! {

/// The registers of `list` are R0-R15, and the list is short enough that its words can be
/// counted in bytes with 32 bits.
pub open spec fn list_ok(list: Seq<u32>) -> bool {
    &&& list.len() < 0x4000_0000
    &&& forall|i: int| 0 <= i < list.len() ==> #[trigger] list[i] < 16
}

/// The values of the registers of `list`, in list order.
pub open spec fn list_values(regs: Seq<u32>, list: Seq<u32>) -> Seq<u32> {
    Seq::new(list.len(), |i: int| regs[list[i] as int])
}

/// RAM and flash contents after a word write of `v` at `addr`: the bytes of the region
/// that holds `addr` change; writes elsewhere leave both as they are.
pub open spec fn mem_store(m: (Seq<u8>, Seq<u8>), addr: u32, v: u32) -> (Seq<u8>, Seq<u8>) {
    match region_of(addr) {
        MemRegion::Ram => (store_le32(m.0, addr - RAM_BASE, v), m.1),
        MemRegion::Flash => (m.0, store_le32(m.1, addr - FLASH_BASE, v)),
        _ => m,
    }
}

/// RAM and flash contents after `vals` were written word by word from `start` on.
pub open spec fn mem_store_block(m: (Seq<u8>, Seq<u8>), start: u32, vals: Seq<u32>) -> (Seq<u8>, Seq<u8>)
    decreases vals.len(),
{
    if vals.len() == 0 {
        m
    } else {
        mem_store(mem_store_block(m, start, vals.drop_last()), block_addr(start, vals.len() - 1), vals.last())
    }
}

/// The memory of a core: RAM and flash.
pub open spec fn mem_of<B>(cpu: Cpu<B>) -> (Seq<u8>, Seq<u8>) {
    (cpu.ram@, cpu.flash@)
}

/// `vals` agree with the words from `start` on wherever the core holds them (words of
/// peripheral space give values not known here).
pub open spec fn read_block<B>(cpu: Cpu<B>, start: u32, vals: Seq<u32>) -> bool {
    forall|k: int| 0 <= k < vals.len() ==> (cpu.word(#[trigger] block_addr(start, k)) matches Some(w) ==> vals[k] == w)
}

/// `regs` after the first `k` entries of `list` were loaded with `vals`, in order; with
/// `skip_pc`, entries naming PC are left out.
pub open spec fn loaded_regs(regs: Seq<u32>, list: Seq<u32>, vals: Seq<u32>, k: int, skip_pc: bool) -> Seq<u32>
    decreases k,
{
    if k <= 0 {
        regs
    } else {
        let prev = loaded_regs(regs, list, vals, k - 1, skip_pc);
        if skip_pc && list[k - 1] == 15 {
            prev
        } else {
            prev.update(list[k - 1] as int, vals[k - 1])
        }
    }
}

/// The value loaded for the last entry naming PC among the first `k` entries of `list`.
pub open spec fn pc_slot(list: Seq<u32>, vals: Seq<u32>, k: int) -> Option<u32>
    decreases k,
{
    if k <= 0 {
        None
    } else if list[k - 1] == 15 {
        Some(vals[k - 1])
    } else {
        pc_slot(list, vals, k - 1)
    }
}

pub proof fn lemma_loaded_regs_len(regs: Seq<u32>, list: Seq<u32>, vals: Seq<u32>, k: int, skip_pc: bool)
    requires
        list_ok(list),
        regs.len() == 16,
        k <= list.len(),
    ensures
        loaded_regs(regs, list, vals, k, skip_pc).len() == regs.len(),
    decreases k,
{
    if k > 0 {
        lemma_loaded_regs_len(regs, list, vals, k - 1, skip_pc);
    }
}

/// Writes the registers of `list` from entry `from` on, in list order, to the words from
/// `start` on.
pub fn store_list<B: PeripheralBus>(cpu: &mut Cpu<B>, list: &Vec<u32>, from: usize, start: u32)
    requires
        old(cpu).wf(),
        from <= list@.len(),
        list_ok(list@.subrange(from as int, list@.len() as int)),
        block_mapped(*old(cpu), start, (list@.len() - from) as nat),
    ensures
        core_kept(*old(cpu), *final(cpu)),
        final(cpu).regs() == old(cpu).regs(),
        final(cpu).apsr() == old(cpu).apsr(),
        mem_of(*final(cpu)) == mem_store_block(mem_of(*old(cpu)), start, list_values(old(cpu).regs(), list@.subrange(from as int, list@.len() as int))),
{
    let ghost l = list@.subrange(from as int, list@.len() as int);
    let ghost regs = old(cpu).regs();
    let ghost vals = list_values(regs, l);
    let mut addr = start;
    let mut i: usize = from;
    while i < list.len()
        invariant
            from <= i <= list@.len(),
            l == list@.subrange(from as int, list@.len() as int),
            list_ok(l),
            old(cpu).wf(),
            block_mapped(*old(cpu), start, l.len()),
            core_kept(*old(cpu), *cpu),
            cpu.regs() == regs,
            regs == old(cpu).regs(),
            vals == list_values(regs, l),
            cpu.apsr() == old(cpu).apsr(),
            addr == block_addr(start, i - from),
            mem_of(*cpu) == mem_store_block(mem_of(*old(cpu)), start, vals.subrange(0, i - from)),
        decreases list@.len() - i,
    {
        let ghost k = i - from;
        let r = list[i];
        assert(l[k] == r);
        let v = cpu.read_reg(r);
        assert(old(cpu).mapped(block_addr(start, k)));
        cpu.write_mem(addr, v);
        proof {
            assert(vals.subrange(0, k + 1).drop_last() =~= vals.subrange(0, k));
            assert(vals[k] == v);
        }
        addr = addr.wrapping_add(4);
        i = i + 1;
        proof {
            assert(addr == block_addr(start, k + 1));
        }
    }
    assert(vals.subrange(0, l.len() as int) =~= vals);
}

/// Loads the registers of `list` from entry `from` on, in list order, from the words from
/// `start` on (PC left out with `skip_pc`). Returns the value loaded for the last entry
/// naming PC.
pub fn load_list<B: PeripheralBus>(cpu: &mut Cpu<B>, list: &Vec<u32>, from: usize, start: u32, skip_pc: bool) -> (pc: Option<u32>)
    requires
        old(cpu).wf(),
        from <= list@.len(),
        list_ok(list@.subrange(from as int, list@.len() as int)),
        block_mapped(*old(cpu), start, (list@.len() - from) as nat),
    ensures
        final(cpu).same_except_regs(old(cpu)),
        final(cpu).apsr() == old(cpu).apsr(),
        exists|vals: Seq<u32>|
            #![trigger read_block(*old(cpu), start, vals)]
            {
                let l = list@.subrange(from as int, list@.len() as int);
                &&& vals.len() == l.len()
                &&& read_block(*old(cpu), start, vals)
                &&& final(cpu).regs() == loaded_regs(old(cpu).regs(), l, vals, l.len() as int, skip_pc)
                &&& pc == pc_slot(l, vals, l.len() as int)
            },
{
    let ghost l = list@.subrange(from as int, list@.len() as int);
    let ghost mut vals: Seq<u32> = seq![];
    let mut addr = start;
    let mut i: usize = from;
    let mut pc: Option<u32> = None;
    while i < list.len()
        invariant
            from <= i <= list@.len(),
            l == list@.subrange(from as int, list@.len() as int),
            list_ok(l),
            old(cpu).wf(),
            cpu.wf(),
            block_mapped(*old(cpu), start, l.len()),
            cpu.same_except_regs(old(cpu)),
            cpu.apsr() == old(cpu).apsr(),
            addr == block_addr(start, i - from),
            vals.len() == i - from,
            read_block(*old(cpu), start, vals),
            cpu.regs() == loaded_regs(old(cpu).regs(), l, vals, i - from, skip_pc),
            pc == pc_slot(l, vals, i - from),
        decreases list@.len() - i,
    {
        let ghost k = i - from;
        let r = list[i];
        assert(l[k] == r);
        assert(old(cpu).mapped(block_addr(start, k)));
        let v = cpu.read_mem(addr);
        let ghost prev = vals;
        proof {
            vals = vals.push(v);
            assert forall|j: int| 0 <= j < vals.len() implies (old(cpu).word(#[trigger] block_addr(start, j)) matches Some(w) ==> vals[j] == w) by {
                if j < k {
                    assert(vals[j] == prev[j]);
                }
            }
            lemma_loaded_regs_prefix(old(cpu).regs(), l, vals, prev, k, skip_pc);
            lemma_pc_slot_prefix(l, vals, prev, k);
            assert(vals[k] == v);
        }
        if skip_pc && r == 15 {
            pc = Some(v);
        } else {
            if r == 15 {
                pc = Some(v);
            }
            cpu.write_reg(r, v);
        }
        assert(cpu.regs() == loaded_regs(old(cpu).regs(), l, vals, k + 1, skip_pc));
        assert(pc == pc_slot(l, vals, k + 1));
        addr = addr.wrapping_add(4);
        i = i + 1;
        proof {
            assert(addr == block_addr(start, k + 1));
        }
    }
    pc
}

proof fn lemma_loaded_regs_prefix(regs: Seq<u32>, list: Seq<u32>, a: Seq<u32>, b: Seq<u32>, k: int, skip_pc: bool)
    requires
        forall|j: int| 0 <= j < k ==> a[j] == b[j],
    ensures
        loaded_regs(regs, list, a, k, skip_pc) == loaded_regs(regs, list, b, k, skip_pc),
    decreases k,
{
    if k > 0 {
        lemma_loaded_regs_prefix(regs, list, a, b, k - 1, skip_pc);
    }
}

proof fn lemma_pc_slot_prefix(list: Seq<u32>, a: Seq<u32>, b: Seq<u32>, k: int)
    requires
        forall|j: int| 0 <= j < k ==> a[j] == b[j],
    ensures
        pc_slot(list, a, k) == pc_slot(list, b, k),
    decreases k,
{
    if k > 0 {
        lemma_pc_slot_prefix(list, a, b, k - 1);
    }
}

} // verus!
