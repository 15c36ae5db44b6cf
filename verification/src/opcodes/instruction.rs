//! The table-driven interpreter: an instruction paired with its table entry, and one step of
//! the core that runs such an instruction.
use vstd::prelude::*;
use crate::arch::ArmInsn;
use crate::bus::PeripheralBus;
use crate::cpu::Cpu;
use crate::opcodes::decoded::{DecodedInstruction, DecodedInstructionBuilder};
use crate::opcodes::opcode::{
    Opcode, CycleInfo, CycleAdjust, reg_count_u32, lists_reg, ldm_cycles, adjust_push_cycles,
    adjust_pop_cycles, adjust_ldm_cycles, adjust_stm_cycles,
};
use crate::opcodes::instructions::dispatch::{exec_ready, exec_effect, run_exec, resolve_ready, resolve_effect, run_resolver};
use crate::opcodes::thumb_step::{step_finished, step_without_instruction};
use crate::opcodes::instructions::adr::{AdrBuilder, adr_table};
use crate::opcodes::instructions::bit_field::{Bit_field_builder, bit_field_table};
use crate::opcodes::instructions::bitop::{Bitop_builder, bitop_table};
use crate::opcodes::instructions::branch::{Branch_builder, branch_table};
use crate::opcodes::instructions::breakpoint::{Breakpoint_builder, breakpoint_table};
use crate::opcodes::instructions::calculate::{Calculate_builder, calculate_table};
use crate::opcodes::instructions::cmp::{Cmp_builder, cmp_table};
use crate::opcodes::instructions::compare_branch::{Compare_branch_builder, compare_branch_table};
use crate::opcodes::instructions::extend::{Extend_builder, extend_table};
use crate::opcodes::instructions::hint::{Hint_builder, hint_table};
use crate::opcodes::instructions::it::{It_builder, it_table};
use crate::opcodes::instructions::ldm::{Ldm_builder, ldm_table};
use crate::opcodes::instructions::ldr::{Ldr_builder, ldr_table};
use crate::opcodes::instructions::mov::{Mov_builder, mov_table};
use crate::opcodes::instructions::movs::{Movs_builder, movs_table};
use crate::opcodes::instructions::nop::{Nop_builder, nop_table};
use crate::opcodes::instructions::shift::{Shiift_builder, shift_table};
use crate::opcodes::instructions::stack::{Stack_builder, stack_table};
use crate::opcodes::instructions::stm::{Stm_builder, stm_table};
use crate::opcodes::instructions::store::{Str_builder, str_table};
use crate::opcodes::instructions::tst::{Tst_builder, tst_table};

verus! {

/// An instruction with the table entry that executes it.
pub struct Cpu_Instruction {
    pub op: Opcode,
    pub data: DecodedInstruction,
}

impl Cpu_Instruction {
    pub fn new(op: Opcode, data: DecodedInstruction) -> (r: Cpu_Instruction)
        ensures
            r.op == op,
            r.data == data,
    {
        Cpu_Instruction { op, data }
    }
}

/// The executor of `ins` can run on every core that differs from `cpu` only in what a
/// step does before the instruction (bus and timing state).
pub open spec fn ready_on_machine<B>(cpu: Cpu<B>, ins: Cpu_Instruction) -> bool {
    forall|c: Cpu<B>| cpu.same_machine(&c) && c.Cpu_pipeline.remain_cycles == 0 ==> #[trigger] exec_ready(ins.op.executor, c, &ins.data)
}

impl<B: PeripheralBus> Cpu<B> {
    /// Ends a step that executed `ins`: the PC update, the entry's execute cycles as stalls,
    /// and a pending interrupt.
    pub fn finish_step(&mut self, ins: &Cpu_Instruction, current_pc: u32, pc_update: u32) -> (cycles: u32)
        requires
            old(self).wf(),
        ensures
            cycles == 1,
            final(self).wf(),
            step_finished(*old(self), *final(self), ins.op.cycles.execute_cycles, current_pc, pc_update),
    {
        self.finish_step_cycles(ins.op.cycles.execute_cycles, current_pc, pc_update)
    }

    /// One cycle of the core: a stall or interrupt entry, or the instruction `ins` at
    /// `current_pc`, run by the executor of its entry.
    pub fn step(&mut self, ins: &Cpu_Instruction, current_pc: u32) -> (cycles: u32)
        requires
            old(self).wf(),
            ready_on_machine(*old(self), *ins),
        ensures
            cycles == 1,
            final(self).wf(),
            step_without_instruction(*old(self), *final(self))
            || exists|mid: Cpu<B>, after: Cpu<B>, pc_update: u32|
                #![trigger exec_effect(ins.op.executor, mid, after, &ins.data, pc_update)]
            {
                &&& old(self).same_machine(&mid)
                &&& old(self).begins_step(&mid, None)
                &&& mid.Cpu_pipeline.remain_cycles == 0
                &&& exec_effect(ins.op.executor, mid, after, &ins.data, pc_update)
                &&& step_finished(after, *final(self), ins.op.cycles.execute_cycles, current_pc, pc_update)
            },
    {
        if let Some(cycles) = self.begin_step() {
            return cycles;
        }
        let ghost mid = *self;
        assert(exec_ready(ins.op.executor, mid, &ins.data));
        let pc_update = run_exec(ins.op.executor, self, &ins.data);
        let ghost after = *self;
        let cycles = self.finish_step(ins, current_pc, pc_update);
        assert(exec_effect(ins.op.executor, mid, after, &ins.data, pc_update));
        cycles
    }
}


/// `d` is `b` finished: every field carried over.
pub open spec fn built_from(d: DecodedInstruction, b: DecodedInstructionBuilder) -> bool {
    &&& d.address == b.address
    &&& d.size == b.size
    &&& d.mnemonic@ == b.mnemonic@
    &&& d.op_str@ == b.op_str@
    &&& d.operands@ == b.operands@
    &&& d.writeback == b.writeback
    &&& d.update_flags == b.update_flags
    &&& d.it_mask == b.it_mask
    &&& d.writes_pc == b.writes_pc
    &&& d.transed_operands@ == b.transed_operands@
    &&& d.arm_operands == b.arm_operands
}

/// The execute cycles of an entry once the operands of `data` are known.
pub open spec fn adjusted_cycles(c: CycleInfo, adjust: Option<CycleAdjust>, data: DecodedInstruction) -> CycleInfo {
    match adjust {
        None => c,
        Some(CycleAdjust::Push) => CycleInfo { execute_cycles: 1u32.saturating_add(reg_count_u32(data.operands@)), ..c },
        Some(CycleAdjust::Pop) => {
            let base = 1u32.saturating_add(reg_count_u32(data.operands@));
            CycleInfo { execute_cycles: if lists_reg(data.operands@, 15) { base.saturating_add(1) } else { base }, ..c }
        },
        Some(CycleAdjust::Ldm) => CycleInfo { execute_cycles: ldm_cycles(data.transed_operands@), ..c },
        Some(CycleAdjust::Stm) => CycleInfo {
            execute_cycles: 1u32.saturating_add(reg_count_u32(data.operands@).saturating_sub(1)),
            ..c
        },
    }
}

/// `e` is what adding `decoded` with entry `op` gives: the operands resolved by the
/// entry's resolver, the instruction finished, and the cycles adjusted to its operands.
pub open spec fn added_entry<B>(cpu: Cpu<B>, op: Opcode, decoded: DecodedInstructionBuilder, e: Cpu_Instruction) -> bool {
    &&& exists|resolved: DecodedInstructionBuilder, r: u32|
        #[trigger] resolve_effect(op.operand_resolver, cpu, decoded, resolved, r) && built_from(e.data, resolved)
    &&& e.op.insnid == op.insnid
    &&& e.op.name@ == op.name@
    &&& e.op.length == op.length
    &&& e.op.executor == op.executor
    &&& e.op.operand_resolver == op.operand_resolver
    &&& e.op.adjust_cycles == op.adjust_cycles
    &&& e.op.cycles == adjusted_cycles(op.cycles, op.adjust_cycles, e.data)
}

/// Addresses strictly increase along `t`.
pub open spec fn sorted_entries(t: Seq<Cpu_Instruction>) -> bool {
    forall|i: int, j: int| 0 <= i < j < t.len() ==> #[trigger] t[i].data.address < #[trigger] t[j].data.address
}

/// The entry of `t` at `addr`, if there is one.
pub open spec fn entry_in(t: Seq<Cpu_Instruction>, addr: u32) -> Option<Cpu_Instruction> {
    if exists|i: int| 0 <= i < t.len() && t[i].data.address == addr {
        Some(t[choose|i: int| 0 <= i < t.len() && t[i].data.address == addr])
    } else {
        None
    }
}

/// The slot of the direct-mapped table that `addr` falls in, counted from `base`.
pub open spec fn slot_of(base: u32, addr: u32) -> int {
    (addr - base) / 2
}

/// The entry of greatest address among `t[n..]` that falls in slot `k`.
pub open spec fn last_in_slot(t: Seq<Cpu_Instruction>, base: u32, k: int, n: int) -> Option<Cpu_Instruction>
    decreases t.len() - n,
{
    if n < 0 || n >= t.len() {
        None
    } else {
        match last_in_slot(t, base, k, n + 1) {
            Some(e) => Some(e),
            None => if slot_of(base, t[n].data.address) == k { Some(t[n]) } else { None },
        }
    }
}

/// The instructions of a program by address. Entries are kept in address order; after
/// `optimize` they move to a table indexed directly by address.
pub struct Cpu_InstrTable {
    table: Vec<Cpu_Instruction>,
    fast_table: Vec<Option<Cpu_Instruction>>,
    fast_base: u32,
}

impl Cpu_InstrTable {
    /// The entries still kept in address order.
    pub closed spec fn entries(self) -> Seq<Cpu_Instruction> {
        self.table@
    }

    /// The directly indexed table.
    pub closed spec fn fast(self) -> Seq<Option<Cpu_Instruction>> {
        self.fast_table@
    }

    /// The address of slot 0 of the directly indexed table.
    pub closed spec fn base(self) -> u32 {
        self.fast_base
    }

    pub open spec fn wf(self) -> bool {
        sorted_entries(self.entries())
    }

    /// What `get(addr)` finds: the direct slot of `addr` when it is filled, the entry at
    /// `addr` otherwise.
    pub open spec fn lookup(self, addr: u32) -> Option<Cpu_Instruction> {
        let off = (addr.wrapping_sub(self.base()) >> 1) as int;
        if off < self.fast().len() && self.fast()[off] is Some {
            self.fast()[off]
        } else {
            entry_in(self.entries(), addr)
        }
    }

    pub fn new() -> (t: Cpu_InstrTable)
        ensures
            t.wf(),
            t.entries().len() == 0,
            t.fast().len() == 0,
            t.base() == 0,
    {
        Cpu_InstrTable { table: Vec::new(), fast_table: Vec::new(), fast_base: 0 }
    }

    /// Resolves the operands of `decoded` with the resolver of `op`, adjusts the entry's
    /// cycles to them, and enters the instruction at its address, replacing an earlier one.
    pub fn add_instruction<B: PeripheralBus>(&mut self, cpu: &Cpu<B>, op: Opcode, decoded: DecodedInstructionBuilder)
        requires
            old(self).wf(),
            resolve_ready(op.operand_resolver, *cpu, decoded),
        ensures
            final(self).wf(),
            final(self).fast() == old(self).fast(),
            final(self).base() == old(self).base(),
            entry_in(final(self).entries(), decoded.address) matches Some(e) && added_entry(*cpu, op, decoded, e),
            forall|a: u32| a != decoded.address ==> #[trigger] entry_in(final(self).entries(), a) == entry_in(old(self).entries(), a),
    {
        let ghost d0 = decoded;
        let mut decoded = decoded;
        let r = run_resolver(op.operand_resolver, cpu, &mut decoded);
        let ghost resolved = decoded;
        let data = decoded.build();
        let mut op = op;
        let ghost op0 = op;
        match op.adjust_cycles {
            Some(CycleAdjust::Push) => adjust_push_cycles(&mut op.cycles, data.operands.as_slice()),
            Some(CycleAdjust::Pop) => adjust_pop_cycles(&mut op.cycles, data.operands.as_slice()),
            Some(CycleAdjust::Ldm) => adjust_ldm_cycles(&mut op.cycles, &data),
            Some(CycleAdjust::Stm) => adjust_stm_cycles(&mut op.cycles, data.operands.as_slice()),
            None => {},
        }
        let instr = Cpu_Instruction { op, data };
        assert(added_entry(*cpu, op0, d0, instr)) by {
            assert(resolve_effect(op0.operand_resolver, *cpu, d0, resolved, r) && built_from(instr.data, resolved));
        }
        insert_entry(&mut self.table, instr);
    }

    /// The instruction at `addr`.
    pub fn get(&self, addr: u32) -> (r: Option<&Cpu_Instruction>)
        requires
            self.wf(),
        ensures
            match r {
                Some(e) => self.lookup(addr) == Some(*e),
                None => self.lookup(addr) is None,
            },
    {
        let offset = addr.wrapping_sub(self.fast_base) >> 1;
        if (offset as usize) < self.fast_table.len() {
            match &self.fast_table[offset as usize] {
                Some(ins) => {
                    return Some(ins);
                },
                None => {},
            }
        }
        find_entry(&self.table, addr)
    }

    /// Moves the entries into a table indexed directly by `(address - base) / 2`, with base
    /// the lowest address, when the addresses span at most 16 MiB. Each slot holds the
    /// entry of greatest address that falls in it. Nothing changes when there are no
    /// entries or they span more.
    pub fn optimize(&mut self)
        requires
            old(self).wf(),
        ensures
            final(self).wf(),
            ({
                let t = old(self).entries();
                if t.len() == 0 || t.last().data.address - t[0].data.address > 16 * 1024 * 1024 {
                    final(self).entries() == t && final(self).fast() == old(self).fast() && final(self).base() == old(self).base()
                } else {
                    let base = t[0].data.address;
                    &&& final(self).base() == base
                    &&& final(self).entries().len() == 0
                    &&& final(self).fast().len() == (t.last().data.address - base) / 2 + 2
                    &&& forall|k: int| 0 <= k < final(self).fast().len() ==> #[trigger] final(self).fast()[k] == last_in_slot(t, base, k, 0)
                }
            }),
    {
        if self.table.len() == 0 {
            return;
        }
        let ghost t = self.table@;
        let min_addr = self.table[0].data.address;
        let max_addr = self.table[self.table.len() - 1].data.address;
        proof {
            if self.table.len() > 1 {
                assert(t[0].data.address < t[t.len() - 1].data.address);
            }
        }
        let range = max_addr - min_addr;
        if range > 16 * 1024 * 1024 {
            return;
        }
        let size = (range / 2) as usize + 2;
        let mut fast: Vec<Option<Cpu_Instruction>> = Vec::new();
        let mut i: usize = 0;
        while i < size
            invariant
                i <= size,
                fast@.len() == i,
                forall|k: int| 0 <= k < i ==> #[trigger] fast@[k] is None,
            decreases size - i,
        {
            fast.push(None);
            i = i + 1;
        }
        let mut entries: Vec<Cpu_Instruction> = Vec::new();
        std::mem::swap(&mut entries, &mut self.table);
        while entries.len() > 0
            invariant
                sorted_entries(t),
                t.len() > 0,
                min_addr == t[0].data.address,
                max_addr == t[t.len() - 1].data.address,
                size == (max_addr - min_addr) / 2 + 2,
                entries@ == t.take(entries@.len() as int),
                entries@.len() <= t.len(),
                fast@.len() == size,
                forall|k: int| 0 <= k < size ==> #[trigger] fast@[k] == last_in_slot(t, min_addr, k, entries@.len() as int),
                self.table@.len() == 0,
            decreases entries@.len(),
        {
            let ghost n = entries@.len() as int;
            let e = entries.pop().unwrap();
            assert(e == t[n - 1]);
            assert(entries@ =~= t.take(n - 1));
            proof {
                if n - 1 > 0 {
                    assert(t[0].data.address < t[n - 1].data.address);
                }
                if n - 1 < t.len() - 1 {
                    assert(t[n - 1].data.address < t[t.len() - 1].data.address);
                }
            }
            let off = ((e.data.address - min_addr) / 2) as usize;
            if fast[off].is_none() {
                fast.set(off, Some(e));
            }
            proof {
                assert forall|k: int| 0 <= k < size implies #[trigger] fast@[k] == last_in_slot(t, min_addr, k, n - 1) by {
                    assert(last_in_slot(t, min_addr, k, n - 1) == match last_in_slot(t, min_addr, k, n) {
                        Some(x) => Some(x),
                        None => if slot_of(min_addr, t[n - 1].data.address) == k { Some(t[n - 1]) } else { None },
                    });
                }
            }
        }
        self.fast_table = fast;
        self.fast_base = min_addr;
    }
}

/// Puts `instr` in address order into `t`, replacing an entry at the same address.
fn insert_entry(t: &mut Vec<Cpu_Instruction>, instr: Cpu_Instruction)
    requires
        sorted_entries(old(t)@),
    ensures
        sorted_entries(final(t)@),
        entry_in(final(t)@, instr.data.address) == Some(instr),
        forall|a: u32| a != instr.data.address ==> #[trigger] entry_in(final(t)@, a) == entry_in(old(t)@, a),
{
    let key = instr.data.address;
    let mut lo: usize = 0;
    let mut hi: usize = t.len();
    while lo < hi
        invariant
            sorted_entries(t@),
            lo <= hi <= t.len(),
            forall|i: int| 0 <= i < lo ==> #[trigger] t@[i].data.address < key,
            forall|i: int| hi <= i < t.len() ==> key <= #[trigger] t@[i].data.address,
        decreases hi - lo,
    {
        let mid = lo + (hi - lo) / 2;
        if t[mid].data.address < key {
            lo = mid + 1;
        } else {
            hi = mid;
        }
    }
    let p = lo;
    let ghost old_t = t@;
    if p < t.len() && t[p].data.address == key {
        t.set(p, instr);
        proof {
            assert forall|i: int, j: int| 0 <= i < j < t@.len() implies #[trigger] t@[i].data.address < #[trigger] t@[j].data.address by {
                assert(old_t[i].data.address < old_t[j].data.address);
            }
            lemma_entry_in_at(t@, p as int);
            assert forall|a: u32| a != key implies #[trigger] entry_in(t@, a) == entry_in(old_t, a) by {
                lemma_entry_in_same(old_t, t@, a, p as int);
            }
        }
    } else {
        t.insert(p, instr);
        proof {
            assert forall|i: int, j: int| 0 <= i < j < t@.len() implies #[trigger] t@[i].data.address < #[trigger] t@[j].data.address by {
                if i < p && j < p {
                    assert(old_t[i].data.address < old_t[j].data.address);
                } else if i < p && j == p {
                } else if i < p {
                    assert(old_t[j - 1] == t@[j]);
                } else if i == p {
                    assert(old_t[j - 1] == t@[j]);
                } else {
                    assert(old_t[i - 1].data.address < old_t[j - 1].data.address);
                }
            }
            lemma_entry_in_at(t@, p as int);
            assert forall|a: u32| a != key implies #[trigger] entry_in(t@, a) == entry_in(old_t, a) by {
                lemma_entry_in_shift(old_t, t@, a, p as int);
            }
        }
    }
}

/// In a sorted sequence the entry at an address is the one at the index that holds it.
proof fn lemma_entry_in_at(t: Seq<Cpu_Instruction>, i: int)
    requires
        sorted_entries(t),
        0 <= i < t.len(),
    ensures
        entry_in(t, t[i].data.address) == Some(t[i]),
{
    let a = t[i].data.address;
    let j = choose|j: int| 0 <= j < t.len() && t[j].data.address == a;
    if j < i {
        assert(t[j].data.address < t[i].data.address);
    } else if i < j {
        assert(t[i].data.address < t[j].data.address);
    }
}

/// Replacing the entry at index `p` leaves the entries at other addresses as they were.
proof fn lemma_entry_in_same(old_t: Seq<Cpu_Instruction>, t: Seq<Cpu_Instruction>, a: u32, p: int)
    requires
        sorted_entries(old_t),
        sorted_entries(t),
        0 <= p < old_t.len(),
        t.len() == old_t.len(),
        forall|i: int| 0 <= i < t.len() && i != p ==> t[i] == old_t[i],
        t[p].data.address == old_t[p].data.address,
        a != t[p].data.address,
    ensures
        entry_in(t, a) == entry_in(old_t, a),
{
    if exists|i: int| 0 <= i < t.len() && t[i].data.address == a {
        let i = choose|i: int| 0 <= i < t.len() && t[i].data.address == a;
        assert(old_t[i].data.address == a);
        lemma_entry_in_at(t, i);
        lemma_entry_in_at(old_t, i);
    } else if exists|i: int| 0 <= i < old_t.len() && old_t[i].data.address == a {
        let i = choose|i: int| 0 <= i < old_t.len() && old_t[i].data.address == a;
        assert(t[i].data.address == a);
    }
}

/// Inserting an entry at index `p` leaves the entries at other addresses as they were.
proof fn lemma_entry_in_shift(old_t: Seq<Cpu_Instruction>, t: Seq<Cpu_Instruction>, a: u32, p: int)
    requires
        sorted_entries(old_t),
        sorted_entries(t),
        0 <= p <= old_t.len(),
        t.len() == old_t.len() + 1,
        forall|i: int| 0 <= i < p ==> t[i] == old_t[i],
        forall|i: int| p < i < t.len() ==> t[i] == old_t[i - 1],
        a != t[p].data.address,
    ensures
        entry_in(t, a) == entry_in(old_t, a),
{
    if exists|i: int| 0 <= i < t.len() && t[i].data.address == a {
        let i = choose|i: int| 0 <= i < t.len() && t[i].data.address == a;
        lemma_entry_in_at(t, i);
        if i < p {
            lemma_entry_in_at(old_t, i);
        } else {
            lemma_entry_in_at(old_t, i - 1);
        }
    } else if exists|i: int| 0 <= i < old_t.len() && old_t[i].data.address == a {
        let i = choose|i: int| 0 <= i < old_t.len() && old_t[i].data.address == a;
        if i < p {
            assert(t[i].data.address == a);
        } else {
            assert(t[i + 1].data.address == a);
        }
    }
}

/// The entry at `addr` in the sorted entries `t`.
fn find_entry(t: &Vec<Cpu_Instruction>, addr: u32) -> (r: Option<&Cpu_Instruction>)
    requires
        sorted_entries(t@),
    ensures
        match r {
            Some(e) => entry_in(t@, addr) == Some(*e),
            None => entry_in(t@, addr) is None,
        },
{
    let mut lo: usize = 0;
    let mut hi: usize = t.len();
    while lo < hi
        invariant
            sorted_entries(t@),
            lo <= hi <= t.len(),
            forall|i: int| 0 <= i < lo ==> #[trigger] t@[i].data.address < addr,
            forall|i: int| hi <= i < t.len() ==> addr <= #[trigger] t@[i].data.address,
        decreases hi - lo,
    {
        let mid = lo + (hi - lo) / 2;
        if t[mid].data.address < addr {
            lo = mid + 1;
        } else {
            hi = mid;
        }
    }
    if lo < t.len() && t[lo].data.address == addr {
        proof { lemma_entry_in_at(t@, lo as int); }
        Some(&t[lo])
    } else {
        proof {
            if exists|i: int| 0 <= i < t@.len() && t@[i].data.address == addr {
                let i = choose|i: int| 0 <= i < t@.len() && t@[i].data.address == addr;
                if i >= lo && (lo as int) < i {
                    assert(t@[lo as int].data.address < t@[i].data.address);
                }
            }
        }
        None
    }
}


/// The entries of `all` for instruction `insn`, in order.
pub open spec fn opcodes_for(all: Seq<Opcode>, insn: ArmInsn) -> Seq<Opcode>
    decreases all.len(),
{
    if all.len() == 0 {
        Seq::empty()
    } else if all.last().insnid == insn {
        opcodes_for(all.drop_last(), insn).push(all.last())
    } else {
        opcodes_for(all.drop_last(), insn)
    }
}

/// `t` groups the entries of `all` by instruction: one group per instruction that occurs,
/// holding its entries in order.
pub open spec fn grouped(all: Seq<Opcode>, t: Seq<(ArmInsn, Vec<Opcode>)>) -> bool {
    &&& forall|i: int, j: int| 0 <= i < j < t.len() ==> #[trigger] t[i].0 != #[trigger] t[j].0
    &&& forall|i: int| 0 <= i < t.len() ==> #[trigger] t[i].1@ == opcodes_for(all, t[i].0) && t[i].1@.len() > 0
    &&& forall|k: int| 0 <= k < all.len() ==> exists|i: int| 0 <= i < t.len() && #[trigger] t[i].0 == #[trigger] all[k].insnid
}

/// The concatenation of `parts`, in order.
pub open spec fn concat_parts(parts: Seq<Seq<Opcode>>) -> Seq<Opcode>
    decreases parts.len(),
{
    if parts.len() == 0 {
        Seq::empty()
    } else {
        concat_parts(parts.drop_last()) + parts.last()
    }
}

/// The definitions of the instruction groups, in the order the table takes them.
pub open spec fn group_definitions(parts: Seq<Seq<Opcode>>) -> bool {
    &&& parts.len() == 21
    &&& bit_field_table(parts[0])
    &&& bitop_table(parts[1])
    &&& branch_table(parts[2])
    &&& mov_table(parts[3])
    &&& shift_table(parts[4])
    &&& cmp_table(parts[5])
    &&& compare_branch_table(parts[6])
    &&& extend_table(parts[7])
    &&& nop_table(parts[8])
    &&& stack_table(parts[9])
    &&& ldr_table(parts[10])
    &&& str_table(parts[11])
    &&& calculate_table(parts[12])
    &&& breakpoint_table(parts[13])
    &&& adr_table(parts[14])
    &&& movs_table(parts[15])
    &&& hint_table(parts[16])
    &&& ldm_table(parts[17])
    &&& stm_table(parts[18])
    &&& it_table(parts[19])
    &&& tst_table(parts[20])
}

/// The entries of all instruction groups, grouped by instruction.
pub struct OpcodeTable {
    pub table: Vec<(ArmInsn, Vec<Opcode>)>,
}

fn append_part(all: &mut Vec<Opcode>, part: Vec<Opcode>, Ghost(parts): Ghost<Seq<Seq<Opcode>>>) -> (r: Ghost<Seq<Seq<Opcode>>>)
    requires
        old(all)@ == concat_parts(parts),
    ensures
        final(all)@ == concat_parts(r@),
        r@ == parts.push(part@),
{
    let mut part = part;
    let ghost p = part@;
    all.append(&mut part);
    assert(parts.push(p).drop_last() =~= parts);
    Ghost(parts.push(p))
}

impl OpcodeTable {
    /// The table of all instruction groups' entries.
    pub fn new() -> (t: OpcodeTable)
        ensures
            exists|parts: Seq<Seq<Opcode>>| group_definitions(parts) && grouped(concat_parts(parts), t.table@),
    {
        let mut all: Vec<Opcode> = Vec::new();
        let ghost parts: Seq<Seq<Opcode>> = Seq::empty();
        assert(all@ =~= concat_parts(parts));
        let Ghost(parts) = append_part(&mut all, Bit_field_builder.build(), Ghost(parts));
        let Ghost(parts) = append_part(&mut all, Bitop_builder.build(), Ghost(parts));
        let Ghost(parts) = append_part(&mut all, Branch_builder.build(), Ghost(parts));
        let Ghost(parts) = append_part(&mut all, Mov_builder.build(), Ghost(parts));
        let Ghost(parts) = append_part(&mut all, Shiift_builder.build(), Ghost(parts));
        let Ghost(parts) = append_part(&mut all, Cmp_builder.build(), Ghost(parts));
        let Ghost(parts) = append_part(&mut all, Compare_branch_builder.build(), Ghost(parts));
        let Ghost(parts) = append_part(&mut all, Extend_builder.build(), Ghost(parts));
        let Ghost(parts) = append_part(&mut all, Nop_builder.build(), Ghost(parts));
        let Ghost(parts) = append_part(&mut all, Stack_builder.build(), Ghost(parts));
        let Ghost(parts) = append_part(&mut all, Ldr_builder.build(), Ghost(parts));
        let Ghost(parts) = append_part(&mut all, Str_builder.build(), Ghost(parts));
        let Ghost(parts) = append_part(&mut all, Calculate_builder.build(), Ghost(parts));
        let Ghost(parts) = append_part(&mut all, Breakpoint_builder.build(), Ghost(parts));
        let Ghost(parts) = append_part(&mut all, AdrBuilder.build(), Ghost(parts));
        let Ghost(parts) = append_part(&mut all, Movs_builder.build(), Ghost(parts));
        let Ghost(parts) = append_part(&mut all, Hint_builder.build(), Ghost(parts));
        let Ghost(parts) = append_part(&mut all, Ldm_builder.build(), Ghost(parts));
        let Ghost(parts) = append_part(&mut all, Stm_builder.build(), Ghost(parts));
        let Ghost(parts) = append_part(&mut all, It_builder.build(), Ghost(parts));
        let Ghost(parts) = append_part(&mut all, Tst_builder.build(), Ghost(parts));
        let t = OpcodeTable::from_opcodes(all);
        assert(group_definitions(parts));
        t
    }

    /// Groups `all` by instruction, keeping the order of the entries.
    pub fn from_opcodes(all: Vec<Opcode>) -> (t: OpcodeTable)
        ensures
            grouped(all@, t.table@),
    {
        let ghost a = all@;
        let mut all = all;
        let mut rev: Vec<Opcode> = Vec::new();
        while all.len() > 0
            invariant
                a == all@ + rev@.reverse(),
            decreases all@.len(),
        {
            let ghost before_all = all@;
            let ghost before_rev = rev@;
            let op = all.pop().unwrap();
            rev.push(op);
            assert(before_all =~= all@.push(op));
            assert(rev@.reverse() =~= seq![op] + before_rev.reverse());
            assert(a =~= all@ + rev@.reverse());
        }
        assert(a =~= rev@.reverse());
        let mut table: Vec<(ArmInsn, Vec<Opcode>)> = Vec::new();
        let ghost mut done: Seq<Opcode> = Seq::empty();
        while rev.len() > 0
            invariant
                a == done + rev@.reverse(),
                grouped(done, table@),
            decreases rev@.len(),
        {
            let ghost before_rev = rev@;
            let op = rev.pop().unwrap();
            assert(before_rev.reverse() =~= seq![op] + rev@.reverse());
            let key = op.insnid;
            let mut j: usize = 0;
            while j < table.len()
                invariant
                    j <= table.len(),
                    forall|i: int| 0 <= i < j ==> #[trigger] table@[i].0 != key,
                ensures
                    j <= table.len(),
                    forall|i: int| 0 <= i < j ==> #[trigger] table@[i].0 != key,
                    j < table.len() ==> table@[j as int].0 == key,
                decreases table.len() - j,
            {
                if table[j].0 == key {
                    break;
                }
                j = j + 1;
            }
            let ghost old_table = table@;
            let ghost nd = done.push(op);
            assert(nd.drop_last() =~= done);
            if j < table.len() {
                let (k, mut g) = table.remove(j);
                g.push(op);
                table.insert(j, (k, g));
                proof {
                    assert(k == key);
                    assert forall|i: int| 0 <= i < table@.len() implies #[trigger] table@[i].1@ == opcodes_for(nd, table@[i].0) && table@[i].1@.len() > 0 by {
                        if i != j {
                            assert(table@[i] == old_table[i]);
                        }
                    }
                    assert forall|i: int, i2: int| 0 <= i < i2 < table@.len() implies #[trigger] table@[i].0 != #[trigger] table@[i2].0 by {
                        assert(table@[i].0 == old_table[i].0);
                        assert(table@[i2].0 == old_table[i2].0);
                    }
                    assert forall|k2: int| 0 <= k2 < nd.len() implies exists|i: int| 0 <= i < table@.len() && #[trigger] table@[i].0 == #[trigger] nd[k2].insnid by {
                        if k2 < done.len() {
                            let i = choose|i: int| 0 <= i < old_table.len() && #[trigger] old_table[i].0 == #[trigger] done[k2].insnid;
                            assert(table@[i].0 == old_table[i].0);
                        } else {
                            assert(table@[j as int].0 == nd[k2].insnid);
                        }
                    }
                }
            } else {
                let mut g: Vec<Opcode> = Vec::new();
                g.push(op);
                table.push((key, g));
                proof {
                    assert(opcodes_for(done, key) =~= Seq::<Opcode>::empty()) by {
                        lemma_opcodes_for_absent(done, key);
                    }
                    assert forall|i: int| 0 <= i < table@.len() implies #[trigger] table@[i].1@ == opcodes_for(nd, table@[i].0) && table@[i].1@.len() > 0 by {
                        if i < old_table.len() {
                            assert(table@[i] == old_table[i]);
                        } else {
                            assert(g@ =~= seq![op]);
                        }
                    }
                    assert forall|i: int, i2: int| 0 <= i < i2 < table@.len() implies #[trigger] table@[i].0 != #[trigger] table@[i2].0 by {
                        if i2 < old_table.len() {
                            assert(table@[i] == old_table[i]);
                            assert(table@[i2] == old_table[i2]);
                        } else {
                            assert(table@[i] == old_table[i]);
                        }
                    }
                    assert forall|k2: int| 0 <= k2 < nd.len() implies exists|i: int| 0 <= i < table@.len() && #[trigger] table@[i].0 == #[trigger] nd[k2].insnid by {
                        if k2 < done.len() {
                            let i = choose|i: int| 0 <= i < old_table.len() && #[trigger] old_table[i].0 == #[trigger] done[k2].insnid;
                            assert(table@[i] == old_table[i]);
                        } else {
                            assert(table@[old_table.len() as int].0 == nd[k2].insnid);
                        }
                    }
                }
            }
            proof {
                done = nd;
                assert(a =~= done + rev@.reverse());
            }
        }
        assert(done =~= a);
        OpcodeTable { table }
    }

    pub fn get_table(&self) -> (r: &Vec<(ArmInsn, Vec<Opcode>)>)
        ensures
            r@ == self.table@,
    {
        &self.table
    }
}

/// An instruction that no entry of `all` has gets no entries.
proof fn lemma_opcodes_for_absent(all: Seq<Opcode>, insn: ArmInsn)
    requires
        forall|k: int| 0 <= k < all.len() ==> all[k].insnid != insn,
    ensures
        opcodes_for(all, insn) == Seq::<Opcode>::empty(),
    decreases all.len(),
{
    if all.len() > 0 {
        lemma_opcodes_for_absent(all.drop_last(), insn);
    }
}

} // verus!
