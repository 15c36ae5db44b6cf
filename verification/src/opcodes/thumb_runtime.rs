//! The Thumb interpreter: decodes one 16- or 32-bit instruction at a time and executes it
//! against the core.
use vstd::prelude::*;

use crate::bits::{bit, lsl_c, lsr_c, asr_c, ror_c, shift_lsl, shift_lsr, shift_asr, shift_ror, FLAG_C};
use crate::bus::PeripheralBus;
use crate::context::CpuContext;
use crate::cpu::{Cpu, region_of, exc_return_value, frame_addr, RAM_BASE};
use crate::memory::{le32, store_le32, store_words, lemma_store_words};

verus! {

/// The four shift types of the barrel shifter, in encoding order.
#[derive(Clone, Copy, PartialEq, Eq, Structural)]
pub enum ShiftKind {
    Lsl,
    Lsr,
    Asr,
    Ror,
}

/// The shifter result and carry out.
pub open spec fn shift_c(value: u32, kind: ShiftKind, amount: u32, carry_in: u8) -> (u32, u8) {
    match kind {
        ShiftKind::Lsl => lsl_c(value, amount, carry_in),
        ShiftKind::Lsr => lsr_c(value, amount, carry_in),
        ShiftKind::Asr => asr_c(value, amount, carry_in),
        ShiftKind::Ror => ror_c(value, amount, carry_in),
    }
}

/// Applies a shift with carry.
pub fn apply_shift(value: u32, kind: ShiftKind, amount: u32, current_c: u8) -> (r: (u32, u8))
    ensures
        r == shift_c(value, kind, amount, current_c),
{
    match kind {
        ShiftKind::Lsl => shift_lsl(value, amount, current_c),
        ShiftKind::Lsr => shift_lsr(value, amount, current_c),
        ShiftKind::Asr => shift_asr(value, amount, current_c),
        ShiftKind::Ror => shift_ror(value, amount, current_c),
    }
}

/// The shift type encoded by two bits.
pub open spec fn shift_kind_of(bits: u32) -> ShiftKind {
    if bits == 0 {
        ShiftKind::Lsl
    } else if bits == 1 {
        ShiftKind::Lsr
    } else if bits == 2 {
        ShiftKind::Asr
    } else {
        ShiftKind::Ror
    }
}

pub fn shift_type_to_kind(bits: u32) -> (r: Result<ShiftKind, String>)
    ensures
        bits < 4 ==> r == Ok::<ShiftKind, String>(shift_kind_of(bits)),
        bits >= 4 ==> r is Err,
{
    match bits {
        0 => Ok(ShiftKind::Lsl),
        1 => Ok(ShiftKind::Lsr),
        2 => Ok(ShiftKind::Asr),
        3 => Ok(ShiftKind::Ror),
        _ => Err(String::new()),
    }
}

/// The carry flag of an APSR value, as 0 or 1.
pub open spec fn carry_of(apsr: u32) -> u8 {
    bit(apsr, FLAG_C) as u8
}

pub fn current_carry(apsr: u32) -> (c: u8)
    ensures
        c == carry_of(apsr),
        c <= 1,
{
    let c = (apsr >> 29) & 1;
    assert(c <= 1) by (bit_vector)
        requires
            c == (apsr >> 29) & 1,
    ;
    c as u8
}

/// What executing one instruction reports: its name and operands, the cycles it
/// occupies, and how far PC advances (0 when the instruction wrote PC).
pub struct ExecOutcome {
    pub mnemonic: &'static str,
    pub op_str: String,
    pub execute_cycles: u32,
    pub pc_update: u32,
}

/// What a step reports.
pub struct StepOutcome {
    pub cycles: u32,
    pub mnemonic: &'static str,
    pub op_str: String,
}

pub fn normal_outcome(mnemonic: &'static str, op_str: String, execute_cycles: u32, pc_update: u32) -> (o: ExecOutcome)
    ensures
        o.mnemonic == mnemonic,
        o.op_str == op_str,
        o.execute_cycles == execute_cycles,
        o.pc_update == pc_update,
{
    ExecOutcome { mnemonic, op_str, execute_cycles, pc_update }
}

/// A load takes two cycles; PC advances unless the load wrote it.
pub fn load_outcome(mnemonic: &'static str, op_str: String, rt: u32, size: u32) -> (o: ExecOutcome)
    ensures
        o.mnemonic == mnemonic,
        o.op_str == op_str,
        o.execute_cycles == 2,
        o.pc_update == (if rt == 15 { 0 } else { size }),
{
    ExecOutcome { mnemonic, op_str, execute_cycles: 2, pc_update: if rt == 15 { 0 } else { size } }
}

/// A taken branch: PC was written.
pub fn branch_outcome(mnemonic: &'static str, op_str: String, execute_cycles: u32) -> (o: ExecOutcome)
    ensures
        o.mnemonic == mnemonic,
        o.op_str == op_str,
        o.execute_cycles == execute_cycles,
        o.pc_update == 0,
{
    ExecOutcome { mnemonic, op_str, execute_cycles, pc_update: 0 }
}

/// The word-aligned address that a byte, halfword or word access at `addr` reads.
pub open spec fn aligned_word(addr: u32) -> u32 {
    addr & !3u32
}

/// The byte at `addr` taken out of the aligned word `w` that holds it.
pub open spec fn byte_in_word(w: u32, addr: u32) -> u32 {
    (w >> (((addr & 3) * 8) as u32)) & 0xFF
}

/// The halfword at `addr` (bit 0 ignored) taken out of the aligned word `w`.
pub open spec fn half_in_word(w: u32, addr: u32) -> u32 {
    (w >> (((addr & 2) * 8) as u32)) & 0xFFFF
}

/// `w` with the byte at `addr` replaced by the low byte of `val`.
pub open spec fn merge_byte(w: u32, addr: u32, val: u32) -> u32 {
    (w & !(0xFFu32 << (((addr & 3) * 8) as u32))) | ((val & 0xFF) << (((addr & 3) * 8) as u32))
}

/// `w` with the halfword at `addr` (bit 0 ignored) replaced by the low half of `val`.
pub open spec fn merge_half(w: u32, addr: u32, val: u32) -> u32 {
    (w & !(0xFFFFu32 << (((addr & 2) * 8) as u32))) | ((val & 0xFFFF) << (((addr & 2) * 8) as u32))
}

/// Memory after a sub-word store at `addr`: the aligned word is rewritten with `merged(w)`
/// where `w` is its old content; for peripheral words the old content is not known here,
/// and flash and RAM stay as they are.
pub open spec fn subword_stored<B>(old: Cpu<B>, new: Cpu<B>, addr: u32, merged: spec_fn(u32) -> u32) -> bool {
    match old.word(aligned_word(addr)) {
        Some(w) => old.stored(&new, aligned_word(addr), merged(w)),
        None => new.ram@ == old.ram@ && new.flash@ == old.flash@,
    }
}

/// The rest of the core after a memory write: registers, next PC, active exceptions and the
/// pipeline are unchanged, and so is the pending-drain flag.
pub open spec fn write_frame<B>(old: Cpu<B>, new: Cpu<B>) -> bool {
    &&& new.wf()
    &&& old.same_core(&new)
    &&& new.pending_ppb_event_drain == old.pending_ppb_event_drain
}

/// Reads the byte at `addr` out of its aligned word.
pub fn read_u8<B: PeripheralBus>(cpu: &Cpu<B>, addr: u32) -> (v: u32)
    requires
        cpu.wf(),
        cpu.mapped(aligned_word(addr)),
    ensures
        v <= 0xFF,
        cpu.word(aligned_word(addr)) matches Some(w) ==> v == byte_in_word(w, addr),
        v == byte_in_word(cpu.value_at(aligned_word(addr)), addr),
{
    let word = cpu.read_mem(addr & !3u32);
    assert(addr & 3 <= 3) by (bit_vector);
    let shift = (addr & 3) * 8;
    let v = (word >> shift) & 0xFF;
    assert(v <= 0xFF) by (bit_vector)
        requires
            v == (word >> shift) & 0xFF,
    ;
    v
}

/// Reads the halfword at `addr` (bit 0 ignored) out of its aligned word.
pub fn read_u16<B: PeripheralBus>(cpu: &Cpu<B>, addr: u32) -> (v: u32)
    requires
        cpu.wf(),
        cpu.mapped(aligned_word(addr)),
    ensures
        v <= 0xFFFF,
        cpu.word(aligned_word(addr)) matches Some(w) ==> v == half_in_word(w, addr),
        v == half_in_word(cpu.value_at(aligned_word(addr)), addr),
{
    let word = cpu.read_mem(addr & !3u32);
    assert(addr & 2 <= 2) by (bit_vector);
    let shift = (addr & 2) * 8;
    let v = (word >> shift) & 0xFFFF;
    assert(v <= 0xFFFF) by (bit_vector)
        requires
            v == (word >> shift) & 0xFFFF,
    ;
    v
}

/// Stores the low byte of `val` at `addr` by rewriting its aligned word.
pub fn write_u8<B: PeripheralBus>(cpu: &mut Cpu<B>, addr: u32, val: u32)
    requires
        old(cpu).wf(),
        old(cpu).mapped(aligned_word(addr)),
    ensures
        write_frame(*old(cpu), *final(cpu)),
        subword_stored(*old(cpu), *final(cpu), addr, |w: u32| merge_byte(w, addr, val)),
{
    let aligned = addr & !3u32;
    let word = cpu.read_mem(aligned);
    assert(addr & 3 <= 3) by (bit_vector);
    let shift = (addr & 3) * 8;
    let mask = !(0xFFu32 << shift);
    cpu.write_mem(aligned, (word & mask) | ((val & 0xFF) << shift));
}

/// Stores the low halfword of `val` at `addr` (bit 0 ignored) by rewriting its aligned word.
pub fn write_u16<B: PeripheralBus>(cpu: &mut Cpu<B>, addr: u32, val: u32)
    requires
        old(cpu).wf(),
        old(cpu).mapped(aligned_word(addr)),
    ensures
        write_frame(*old(cpu), *final(cpu)),
        subword_stored(*old(cpu), *final(cpu), addr, |w: u32| merge_half(w, addr, val)),
{
    let aligned = addr & !3u32;
    let word = cpu.read_mem(aligned);
    assert(addr & 2 <= 2) by (bit_vector);
    let shift = (addr & 2) * 8;
    let mask = !(0xFFFFu32 << shift);
    cpu.write_mem(aligned, (word & mask) | ((val & 0xFFFF) << shift));
}

/// A byte store into RAM changes exactly that byte.
pub proof fn lemma_byte_store_in_ram(ram: Seq<u8>, addr: u32, val: u32)
    requires
        region_of(aligned_word(addr)) is Ram,
        aligned_word(addr) - RAM_BASE + 4 <= ram.len(),
    ensures
        store_le32(ram, aligned_word(addr) - RAM_BASE, merge_byte(le32(ram, aligned_word(addr) - RAM_BASE), addr, val))
            == ram.update(addr - RAM_BASE, (val & 0xFF) as u8),
{
    let off = aligned_word(addr) - RAM_BASE;
    let w = le32(ram, off);
    let m = merge_byte(w, addr, val);
    let b0 = ram[off];
    let b1 = ram[off + 1];
    let b2 = ram[off + 2];
    let b3 = ram[off + 3];
    let k = addr & 3;
    assert(addr & !3u32 == addr - k && k < 4) by (bit_vector)
        requires
            k == addr & 3,
    ;
    assert(w == (b0 as u32) | ((b1 as u32) << 8u32) | ((b2 as u32) << 16u32) | ((b3 as u32) << 24u32));
    assert(addr & 3 <= 3) by (bit_vector);
    let shift: u32 = ((addr & 3) * 8) as u32;
    assert(m == (w & !(0xFFu32 << shift)) | ((val & 0xFF) << shift));
    let v8 = (val & 0xFF) as u8;
    assert((m & 0xFF) as u8 == (if k == 0 { v8 } else { b0 })
        && ((m >> 8u32) & 0xFF) as u8 == (if k == 1 { v8 } else { b1 })
        && ((m >> 16u32) & 0xFF) as u8 == (if k == 2 { v8 } else { b2 })
        && ((m >> 24u32) & 0xFF) as u8 == (if k == 3 { v8 } else { b3 })) by (bit_vector)
        requires
            w == (b0 as u32) | ((b1 as u32) << 8u32) | ((b2 as u32) << 16u32) | ((b3 as u32) << 24u32),
            k == addr & 3,
            shift == (addr & 3) * 8,
            m == (w & !(0xFFu32 << shift)) | ((val & 0xFF) << shift),
            v8 == (val & 0xFF) as u8,
    ;
    assert(store_le32(ram, off, m) =~= ram.update(addr - RAM_BASE, v8));
}

/// Whether register `r` is in the register list `mask`.
pub open spec fn in_mask(mask: u16, r: int) -> bool {
    (mask >> (r as u16)) & 1 == 1
}

/// How many registers of `mask` are numbered below `n`.
pub open spec fn bits_below(mask: u16, n: int) -> nat
    decreases n,
{
    if n <= 0 {
        0
    } else {
        bits_below(mask, n - 1) + (if in_mask(mask, n - 1) { 1nat } else { 0nat })
    }
}

/// The number of registers in `mask`.
pub open spec fn mask_count(mask: u16) -> nat {
    bits_below(mask, 16)
}

/// The values of the registers of `mask` numbered below `n`, in increasing register order.
pub open spec fn mask_values(regs: Seq<u32>, mask: u16, n: int) -> Seq<u32>
    decreases n,
{
    if n <= 0 {
        seq![]
    } else if in_mask(mask, n - 1) {
        mask_values(regs, mask, n - 1).push(regs[n - 1])
    } else {
        mask_values(regs, mask, n - 1)
    }
}

/// Address of the `k`-th word of a block that starts at `start`.
pub open spec fn block_addr(start: u32, k: int) -> u32 {
    start.wrapping_add((4 * k) as u32)
}

/// Whether the `n` words from `start` on lie in RAM.
pub open spec fn block_in_ram(start: u32, n: nat) -> bool {
    start >= RAM_BASE && start - RAM_BASE + 4 * n <= crate::cpu::RAM_SIZE
}

/// Whether the `n` words from `start` on are all mapped.
pub open spec fn block_mapped<B>(cpu: Cpu<B>, start: u32, n: nat) -> bool {
    forall|k: int| 0 <= k < n ==> #[trigger] cpu.mapped(block_addr(start, k))
}

pub proof fn lemma_bits_below(mask: u16, n: int, m: int)
    requires
        0 <= n <= m,
    ensures
        bits_below(mask, n) <= bits_below(mask, m),
        n < m && in_mask(mask, n) ==> bits_below(mask, n) + 1 <= bits_below(mask, m),
        bits_below(mask, m) <= m,
    decreases m,
{
    if m > 0 {
        if n < m {
            lemma_bits_below(mask, n, m - 1);
        } else {
            lemma_bits_below(mask, m - 1, m - 1);
        }
    }
}

pub proof fn lemma_mask_values_len(regs: Seq<u32>, mask: u16, n: int)
    ensures
        mask_values(regs, mask, n).len() == bits_below(mask, n),
    decreases n,
{
    if n > 0 {
        lemma_mask_values_len(regs, mask, n - 1);
    }
}

/// The number of registers in a register list.
pub fn count_ones(mask: u16) -> (n: u32)
    ensures
        n == mask_count(mask),
        n <= 16,
{
    let mut n: u32 = 0;
    let mut r: u16 = 0;
    while r < 16
        invariant
            r <= 16,
            n == bits_below(mask, r as int),
            n <= r,
        decreases 16 - r,
    {
        if (mask >> r) & 1 == 1 {
            n = n + 1;
        }
        r = r + 1;
    }
    n
}

/// Stores the registers of `mask` in increasing order from `start` on, one word each.
fn store_reg_block<B: PeripheralBus>(cpu: &mut Cpu<B>, start: u32, mask: u16)
    requires
        old(cpu).wf(),
        block_mapped(*old(cpu), start, mask_count(mask)),
    ensures
        write_frame(*old(cpu), *final(cpu)),
        block_in_ram(start, mask_count(mask)) ==> final(cpu).ram@ == store_words(
            old(cpu).ram@,
            start - RAM_BASE,
            mask_values(old(cpu).regs(), mask, 16),
        ) && final(cpu).flash@ == old(cpu).flash@,
{
    let ghost regs = old(cpu).regs();
    let mut addr = start;
    let mut reg: u32 = 0;
    proof {
        lemma_bits_below(mask, 0, 16);
    }
    while reg < 16
        invariant
            reg <= 16,
            write_frame(*old(cpu), *cpu),
            regs == old(cpu).regs(),
            addr == block_addr(start, bits_below(mask, reg as int) as int),
            bits_below(mask, reg as int) <= mask_count(mask),
            block_mapped(*old(cpu), start, mask_count(mask)),
            old(cpu).wf(),
            block_in_ram(start, mask_count(mask)) ==> cpu.ram@ == store_words(
                old(cpu).ram@,
                start - RAM_BASE,
                mask_values(regs, mask, reg as int),
            ) && cpu.flash@ == old(cpu).flash@,
        decreases 16 - reg,
    {
        let r16 = reg as u16;
        if (mask >> r16) & 1 == 1 {
            let ghost k = bits_below(mask, reg as int);
            proof {
                lemma_bits_below(mask, reg as int, 16);
                assert(old(cpu).mapped(block_addr(start, k as int)));
            }
            let v = cpu.read_reg(reg);
            let ghost before = *cpu;
            cpu.write_mem(addr, v);
            proof {
                lemma_mask_values_len(regs, mask, reg as int);
                if block_in_ram(start, mask_count(mask)) {
                    assert(addr == start + 4 * k);
                    assert(region_of(addr) is Ram);
                    assert(mask_values(regs, mask, reg as int + 1).drop_last() == mask_values(regs, mask, reg as int));
                }
            }
            addr = addr.wrapping_add(4);
            proof {
                assert(addr == block_addr(start, k as int + 1));
            }
        }
        reg = reg + 1;
    }
}

/// The effect of PUSH: the registers of `mask` are stored below SP, lowest register at the
/// lowest address (as `store_words` writes them, when the block lies in RAM), and SP is
/// lowered by four bytes per register; nothing else of the core changes.
pub open spec fn pushed<B>(old: Cpu<B>, new: Cpu<B>, mask: u16) -> bool {
    let start = old.regs()[13].wrapping_sub((4 * mask_count(mask)) as u32);
    &&& new.wf()
    &&& new.regs() == old.regs().update(13, start)
    &&& new.apsr() == old.apsr()
    &&& new.next_pc == old.next_pc
    &&& new.exception_stack@ == old.exception_stack@
    &&& new.Cpu_pipeline == old.Cpu_pipeline
    &&& new.registers.is_msp == old.registers.is_msp
    &&& new.pending_ppb_event_drain == old.pending_ppb_event_drain
    &&& block_in_ram(start, mask_count(mask)) ==> new.ram@ == store_words(
        old.ram@,
        start - RAM_BASE,
        mask_values(old.regs(), mask, 16),
    ) && new.flash@ == old.flash@
}

/// PUSH: stores the registers of `mask` below SP, lowest register at the lowest address,
/// and lowers SP by four bytes per register.
pub fn push_reg_mask<B: PeripheralBus>(cpu: &mut Cpu<B>, mask: u16)
    requires
        old(cpu).wf(),
        block_mapped(*old(cpu), old(cpu).regs()[13].wrapping_sub((4 * mask_count(mask)) as u32), mask_count(mask)),
    ensures
        pushed(*old(cpu), *final(cpu), mask),
{
    let count = count_ones(mask);
    let start = cpu.read_sp().wrapping_sub(4 * count);
    store_reg_block(cpu, start, mask);
    let sp = cpu.read_sp().wrapping_sub(4 * count);
    cpu.write_sp(sp);
}

/// STM: stores the registers of `mask` from the address in `rn` upwards; with write-back,
/// `rn` then points past the stored words.
pub fn stm_mask<B: PeripheralBus>(cpu: &mut Cpu<B>, rn: u32, mask: u16, writeback: bool)
    requires
        old(cpu).wf(),
        rn < 16,
        block_mapped(*old(cpu), old(cpu).regs()[rn as int], mask_count(mask)),
    ensures
        final(cpu).wf(),
        final(cpu).regs() == (if writeback {
            old(cpu).regs().update(rn as int, old(cpu).regs()[rn as int].wrapping_add((4 * mask_count(mask)) as u32))
        } else {
            old(cpu).regs()
        }),
        final(cpu).apsr() == old(cpu).apsr(),
        final(cpu).next_pc == old(cpu).next_pc,
        final(cpu).exception_stack@ == old(cpu).exception_stack@,
        final(cpu).Cpu_pipeline == old(cpu).Cpu_pipeline,
        final(cpu).registers.is_msp == old(cpu).registers.is_msp,
        final(cpu).pending_ppb_event_drain == old(cpu).pending_ppb_event_drain,
        block_in_ram(old(cpu).regs()[rn as int], mask_count(mask)) ==> final(cpu).ram@ == store_words(
            old(cpu).ram@,
            old(cpu).regs()[rn as int] - RAM_BASE,
            mask_values(old(cpu).regs(), mask, 16),
        ) && final(cpu).flash@ == old(cpu).flash@,
{
    let count = count_ones(mask);
    let start = cpu.read_reg(rn);
    store_reg_block(cpu, start, mask);
    if writeback {
        cpu.write_reg(rn, start.wrapping_add(4 * count));
    }
}

/// `regs` are `old`'s registers after R0-R14 of `mask` were loaded from consecutive words
/// from `start` on (words of peripheral space give values not known here); the other
/// registers, and PC, keep their values.
pub open spec fn block_loaded<B>(old: Cpu<B>, regs: Seq<u32>, start: u32, mask: u16) -> bool {
    &&& regs.len() == 16
    &&& forall|r: int| 0 <= r < 15 && in_mask(mask, r) ==> (old.word(block_addr(start, bits_below(mask, r) as int)) matches Some(w) ==> #[trigger] regs[r] == w)
    &&& forall|r: int| 0 <= r < 15 && !in_mask(mask, r) ==> #[trigger] regs[r] == old.regs()[r]
    &&& regs[15] == old.regs()[15]
}

/// The word that a block load takes for PC, when `mask` holds PC.
pub open spec fn block_pc_word<B>(old: Cpu<B>, start: u32, mask: u16, pc_value: u32) -> bool {
    in_mask(mask, 15) ==> (old.word(block_addr(start, bits_below(mask, 15) as int)) matches Some(w) ==> pc_value == w)
}

/// Loads the registers of `mask` from consecutive words from `start` on; the word for PC
/// is returned rather than written.
fn load_reg_block<B: PeripheralBus>(cpu: &mut Cpu<B>, start: u32, mask: u16) -> (r: (bool, u32))
    requires
        old(cpu).wf(),
        block_mapped(*old(cpu), start, mask_count(mask)),
    ensures
        final(cpu).same_except_regs(old(cpu)),
        final(cpu).apsr() == old(cpu).apsr(),
        block_loaded(*old(cpu), final(cpu).regs(), start, mask),
        r.0 == in_mask(mask, 15),
        block_pc_word(*old(cpu), start, mask, r.1),
{
    let mut addr = start;
    let mut reg: u32 = 0;
    let mut wrote_pc = false;
    let mut pc_value: u32 = 0;
    proof {
        lemma_bits_below(mask, 0, 16);
    }
    while reg < 16
        invariant
            reg <= 16,
            old(cpu).wf(),
            cpu.same_except_regs(old(cpu)),
            cpu.apsr() == old(cpu).apsr(),
            addr == block_addr(start, bits_below(mask, reg as int) as int),
            bits_below(mask, reg as int) <= mask_count(mask),
            block_mapped(*old(cpu), start, mask_count(mask)),
            forall|r: int| 0 <= r < 15 && r < reg && in_mask(mask, r) ==> (old(cpu).word(block_addr(start, bits_below(mask, r) as int)) matches Some(w) ==> #[trigger] cpu.regs()[r] == w),
            forall|r: int| 0 <= r < 16 && (r >= reg || !in_mask(mask, r) || r == 15) ==> #[trigger] cpu.regs()[r] == old(cpu).regs()[r],
            wrote_pc == (reg > 15 && in_mask(mask, 15)),
            wrote_pc ==> block_pc_word(*old(cpu), start, mask, pc_value),
        decreases 16 - reg,
    {
        let r16 = reg as u16;
        if (mask >> r16) & 1 == 1 {
            let ghost k = bits_below(mask, reg as int);
            proof {
                lemma_bits_below(mask, reg as int, 16);
                assert(old(cpu).mapped(block_addr(start, k as int)));
            }
            let v = cpu.read_mem(addr);
            assert(cpu.word(addr) == old(cpu).word(addr));
            let ghost before = cpu.regs();
            if reg == 15 {
                wrote_pc = true;
                pc_value = v;
            } else {
                cpu.write_reg(reg, v);
                assert(cpu.regs() == before.update(reg as int, v));
            }
            proof {
                assert forall|r: int| 0 <= r < 15 && r < reg + 1 && in_mask(mask, r) implies (old(cpu).word(block_addr(start, bits_below(mask, r) as int)) matches Some(w) ==> #[trigger] cpu.regs()[r] == w) by {
                    if r < reg {
                        assert(cpu.regs()[r] == before[r]);
                    }
                }
                assert forall|r: int| 0 <= r < 16 && (r >= reg + 1 || !in_mask(mask, r) || r == 15) implies #[trigger] cpu.regs()[r] == old(cpu).regs()[r] by {
                    assert(cpu.regs()[r] == before[r]);
                }
            }
            addr = addr.wrapping_add(4);
            proof {
                assert(addr == block_addr(start, k as int + 1));
            }
        }
        reg = reg + 1;
    }
    (wrote_pc, pc_value)
}

/// The APSR-free effect of POP on the registers before PC is handled: the loaded registers
/// and SP moved past the popped words.
pub open spec fn popped_regs<B>(old: Cpu<B>, regs: Seq<u32>, mask: u16) -> bool {
    let sp = old.regs()[13];
    &&& regs.len() == 16
    &&& block_loaded(old, regs.update(13, old.regs()[13]), sp, mask)
    &&& regs[13] == sp.wrapping_add((4 * mask_count(mask)) as u32)
}

/// What may be demanded before POP: every popped word is mapped, and a popped PC that may be
/// an exception-return value while an exception is active has its frame mapped.
pub open spec fn pop_safe<B>(old: Cpu<B>, mask: u16) -> bool {
    let sp = old.regs()[13];
    let frame_sp = sp.wrapping_add((4 * mask_count(mask)) as u32);
    &&& block_mapped(old, sp, mask_count(mask))
    &&& in_mask(mask, 15) && old.exception_stack@.len() > 0 && (old.word(block_addr(sp, bits_below(mask, 15) as int)) matches Some(w) ==> exc_return_value(w))
        ==> old.frame_mapped(frame_sp)
}

/// The effect of POP: registers loaded, SP raised; a popped PC either returns from the
/// active exception (when it is an EXC_RETURN value) or becomes the new PC, bit 0 cleared.
pub open spec fn popped<B>(old: Cpu<B>, new: Cpu<B>, mask: u16, wrote_pc: bool) -> bool {
    let sp = old.regs()[13];
    &&& wrote_pc == in_mask(mask, 15)
    &&& new.wf()
    &&& new.registers.is_msp == old.registers.is_msp
    &&& new.Cpu_pipeline == old.Cpu_pipeline
    &&& new.pending_ppb_event_drain == old.pending_ppb_event_drain
    &&& exists|regs: Seq<u32>, pc_value: u32|
        #![trigger popped_regs(old, regs, mask), block_pc_word(old, sp, mask, pc_value)]
    {
        &&& popped_regs(old, regs, mask)
        &&& block_pc_word(old, sp, mask, pc_value)
        &&& if wrote_pc && exc_return_value(pc_value) && old.exception_stack@.len() > 0 {
            old.returned_from_exception_at(&new, regs[13], regs)
        } else {
            &&& new.regs() == (if wrote_pc { regs.update(15, pc_value & !1u32) } else { regs })
            &&& new.apsr() == old.apsr()
            &&& new.ram == old.ram
            &&& new.flash == old.flash
            &&& new.next_pc == old.next_pc
            &&& new.exception_stack == old.exception_stack
        }
    }
}

/// POP: loads the registers of `mask` from the stack; a popped PC either returns from the
/// active exception or is written with bit 0 cleared. The result tells whether PC was popped.
pub fn pop_reg_mask<B: PeripheralBus>(cpu: &mut Cpu<B>, mask: u16) -> (wrote_pc: bool)
    requires
        old(cpu).wf(),
        mask >> 13u16 & 1 == 0,
        pop_safe(*old(cpu), mask),
    ensures
        popped(*old(cpu), *final(cpu), mask, wrote_pc),
{
    let ghost old_cpu = *cpu;
    let sp = cpu.read_sp();
    let count = count_ones(mask);
    let (wrote_pc, pc_value) = load_reg_block(cpu, sp, mask);
    let new_sp = sp.wrapping_add(4 * count);
    cpu.write_sp(new_sp);
    let ghost regs = cpu.regs();
    proof {
        assert(!in_mask(mask, 13)) by {
            assert((mask >> 13u16) & 1 == 0);
        }
        assert(regs.update(13, old_cpu.regs()[13]) =~= regs.update(13, old_cpu.regs()[13]));
        assert(popped_regs(old_cpu, regs, mask)) by {
            let l = regs.update(13, old_cpu.regs()[13]);
            assert forall|r: int| 0 <= r < 15 && !in_mask(mask, r) implies #[trigger] l[r] == old_cpu.regs()[r] by {
                if r == 13 {
                } else {
                }
            }
        }
    }
    if wrote_pc {
        proof {
            if exc_return_value(pc_value) && cpu.exception_stack@.len() > 0 {
                assert(old_cpu.frame_mapped(new_sp));
                assert forall|i: int| 0 <= i < 8 implies #[trigger] cpu.mapped(frame_addr(new_sp, i)) by {
                    assert(old_cpu.mapped(frame_addr(new_sp, i)));
                }
            }
        }
        if !cpu.try_exception_return(pc_value) {
            cpu.write_pc(pc_value & !1u32);
        }
    }
    assert(popped_regs(old_cpu, regs, mask) && block_pc_word(old_cpu, sp, mask, pc_value));
    wrote_pc
}

/// In the values of the registers of `mask` numbered below `n`, register `r` of the mask
/// stands at the place given by how many of the mask's registers are numbered below it.
pub proof fn lemma_mask_values_index(regs: Seq<u32>, mask: u16, n: int, r: int)
    requires
        0 <= r < n <= 16,
        in_mask(mask, r),
    ensures
        bits_below(mask, r) < mask_values(regs, mask, n).len(),
        mask_values(regs, mask, n)[bits_below(mask, r) as int] == regs[r],
    decreases n,
{
    lemma_mask_values_len(regs, mask, n - 1);
    lemma_mask_values_len(regs, mask, n);
    if r == n - 1 {
    } else {
        lemma_mask_values_index(regs, mask, n - 1, r);
        lemma_bits_below(mask, r, n - 1);
    }
}

/// Adding a register numbered `bit` (13 to 15) to a list of low registers and LR-free
/// masks leaves the registers numbered below `bit` as they were.
proof fn lemma_bits_below_with(m: u16, bit: u16, n: int)
    requires
        m >> 13u16 == 0,
        13 <= bit < 16,
        0 <= n <= bit,
    ensures
        bits_below(m | (1u16 << bit), n) == bits_below(m, n),
        forall|r: int| 0 <= r < n ==> (in_mask(m | (1u16 << bit), r) == in_mask(m, r)),
    decreases n,
{
    if n > 0 {
        lemma_bits_below_with(m, bit, n - 1);
        let k = (n - 1) as u16;
        assert((((m | (1u16 << bit)) >> k) & 1) == ((m >> k) & 1)) by (bit_vector)
            requires
                k < bit,
                bit < 16,
        ;
    }
}

/// The low registers of `m` (bits 13 to 15 clear) with one of SP, LR or PC added: that
/// register is in the mask and counts one more; registers 13 to 15 other than it are not.
proof fn lemma_mask_with(m: u16, bit: u16)
    requires
        m >> 13u16 == 0,
        13 <= bit < 16,
    ensures
        in_mask(m | (1u16 << bit), bit as int),
        forall|r: int| 13 <= r < 16 && r != bit ==> !in_mask(m | (1u16 << bit), r),
        forall|r: int| 13 <= r < 16 ==> !in_mask(m, r),
        bits_below(m, 16) == bits_below(m, 13),
        bits_below(m | (1u16 << bit), 16) == bits_below(m, 13) + 1,
        bits_below(m | (1u16 << bit), bit as int) == bits_below(m, 13),
{
    let mm = m | (1u16 << bit);
    assert(((mm >> bit) & 1) == 1) by (bit_vector)
        requires
            mm == m | (1u16 << bit),
            bit < 16,
    ;
    assert forall|r: int| 13 <= r < 16 && r != bit implies !in_mask(mm, r) by {
        let k = r as u16;
        assert(((mm >> k) & 1) == 0) by (bit_vector)
            requires
                mm == m | (1u16 << bit),
                m >> 13u16 == 0,
                13 <= k < 16,
                k != bit,
        ;
    }
    assert forall|r: int| 13 <= r < 16 implies !in_mask(m, r) by {
        let k = r as u16;
        assert(((m >> k) & 1) == 0) by (bit_vector)
            requires
                m >> 13u16 == 0,
                13 <= k < 16,
        ;
    }
    lemma_bits_below_with(m, bit, bit as int);
    assert(bits_below(m, 14) == bits_below(m, 13));
    assert(bits_below(m, 15) == bits_below(m, 13));
    assert(bits_below(m, 16) == bits_below(m, 13));
    assert(bits_below(mm, 14) == bits_below(mm, 13) + (if bit == 13 { 1nat } else { 0nat }));
    assert(bits_below(mm, 15) == bits_below(mm, 13) + (if bit <= 14 { 1nat } else { 0nat }));
    assert(bits_below(mm, 16) == bits_below(mm, 13) + 1);
}

/// A PUSH of a list of low registers with LR, followed by a POP of the same list with PC,
/// returns to the caller: every register but PC is as before the PUSH (SP included), and
/// PC is the pushed LR with bit 0 cleared. Stated for a stack block in RAM and an LR that
/// does not return from an active exception; then the block is mapped, as `push_reg_mask`
/// requires, and after the PUSH the POP is safe, as `pop_reg_mask` requires.
pub proof fn lemma_push_lr_pop_pc_returns<B>(c0: Cpu<B>, c1: Cpu<B>, c2: Cpu<B>, m: u16, wrote_pc: bool)
    requires
        c0.wf(),
        m >> 13u16 == 0,
        block_in_ram(c0.regs()[13].wrapping_sub((4 * (mask_count(m) + 1)) as u32), mask_count(m) + 1),
        !(exc_return_value(c0.regs()[14]) && c0.exception_stack@.len() > 0),
        pushed(c0, c1, m | 0x4000u16),
        popped(c1, c2, m | 0x8000u16, wrote_pc),
    ensures
        block_mapped(c0, c0.regs()[13].wrapping_sub((4 * (mask_count(m) + 1)) as u32), mask_count(m) + 1),
        pop_safe(c1, m | 0x8000u16),
        wrote_pc,
        c2.regs() == c0.regs().update(15, c0.regs()[14] & !1u32),
        c2.apsr() == c0.apsr(),
        c2.exception_stack@ == c0.exception_stack@,
        c2.next_pc == c0.next_pc,
{
    let pm = m | 0x4000u16;
    let qm = m | 0x8000u16;
    assert(1u16 << 14u16 == 0x4000u16 && 1u16 << 15u16 == 0x8000u16) by (bit_vector);
    lemma_mask_with(m, 14);
    lemma_mask_with(m, 15);
    lemma_bits_below_with(m, 14, 14);
    lemma_bits_below_with(m, 15, 15);
    let cnt = mask_count(m) + 1;
    assert(mask_count(pm) == cnt && mask_count(qm) == cnt);
    let sp0 = c0.regs()[13];
    let start = sp0.wrapping_sub((4 * cnt) as u32);
    let vals = mask_values(c0.regs(), pm, 16);
    lemma_mask_values_len(c0.regs(), pm, 16);
    assert(c1.regs()[13] == start);
    let off = start - RAM_BASE;
    lemma_store_words(c0.ram@, off, vals);
    let (regs, pc_value) = choose|regs: Seq<u32>, pc_value: u32|
        #![trigger popped_regs(c1, regs, qm), block_pc_word(c1, start, qm, pc_value)]
    {
        &&& popped_regs(c1, regs, qm)
        &&& block_pc_word(c1, start, qm, pc_value)
        &&& if wrote_pc && exc_return_value(pc_value) && c1.exception_stack@.len() > 0 {
            c1.returned_from_exception_at(&c2, regs[13], regs)
        } else {
            &&& c2.regs() == (if wrote_pc { regs.update(15, pc_value & !1u32) } else { regs })
            &&& c2.apsr() == c1.apsr()
            &&& c2.ram == c1.ram
            &&& c2.flash == c1.flash
            &&& c2.next_pc == c1.next_pc
            &&& c2.exception_stack == c1.exception_stack
        }
    };
    // Each word of the block reads back as pushed.
    assert forall|k: int| 0 <= k < cnt implies #[trigger] c1.word(block_addr(start, k)) == Some(vals[k]) by {
        assert(block_addr(start, k) == start + 4 * k);
        assert(le32(c1.ram@, off + 4 * k) == vals[k]);
    }
    assert forall|k: int| 0 <= k < cnt implies #[trigger] c0.mapped(block_addr(start, k)) && c1.mapped(block_addr(start, k)) by {
        assert(block_addr(start, k) == start + 4 * k);
    }
    assert(block_mapped(c0, start, cnt));
    assert(block_mapped(c1, start, cnt));
    // The PC slot holds the pushed LR.
    let pc_slot = bits_below(m, 13) as int;
    assert(bits_below(qm, 15) == bits_below(m, 13));
    assert(bits_below(pm, 14) == bits_below(m, 13));
    lemma_mask_values_index(c0.regs(), pm, 16, 14);
    assert(vals[pc_slot] == c0.regs()[14]);
    assert(c1.word(block_addr(start, pc_slot)) == Some(vals[pc_slot]));
    assert(pc_value == c0.regs()[14]);
    // The low registers come back.
    let l = regs.update(13, c1.regs()[13]);
    assert forall|r: int| 0 <= r < 13 implies #[trigger] regs[r] == c0.regs()[r] by {
        if in_mask(m, r) {
            assert(in_mask(qm, r) && in_mask(pm, r));
            lemma_mask_values_index(c0.regs(), pm, 16, r);
            lemma_bits_below(qm, r, 16);
            lemma_bits_below_with(m, 14, r);
            lemma_bits_below_with(m, 15, r);
            assert(bits_below(qm, r) == bits_below(pm, r));
            assert(regs.len() == 16);
            assert(c1.word(block_addr(start, bits_below(qm, r) as int)) == Some(vals[bits_below(pm, r) as int]));
            assert(l[r] == regs[r]);
        } else {
            assert(!in_mask(qm, r));
            assert(l[r] == c1.regs()[r]);
        }
    }
    assert(!in_mask(qm, 14));
    assert(l[14] == c1.regs()[14]);
    assert(regs[14] == c0.regs()[14]);
    assert(regs[13] == start.wrapping_add((4 * cnt) as u32));
    assert(start.wrapping_add((4 * cnt) as u32) == sp0) by {
        assert(4 * cnt <= crate::cpu::RAM_SIZE);
    }
    assert(c2.regs() =~= c0.regs().update(15, c0.regs()[14] & !1u32));
}

/// LDM: loads the registers of `mask` from the address in `rn` upwards (PC with bit 0
/// cleared); with write-back, `rn` then points past the loaded words.
pub open spec fn ldm_done<B>(old: Cpu<B>, new: Cpu<B>, rn: u32, mask: u16, writeback: bool) -> bool {
    let base = old.regs()[rn as int];
    &&& new.same_except_regs(&old)
    &&& new.apsr() == old.apsr()
    &&& exists|regs: Seq<u32>, pc_value: u32|
        #![trigger block_loaded(old, regs, base, mask), block_pc_word(old, base, mask, pc_value)]
    {
        &&& block_loaded(old, regs, base, mask)
        &&& block_pc_word(old, base, mask, pc_value)
        &&& new.regs() == ({
            let with_pc = if in_mask(mask, 15) { regs.update(15, pc_value & !1u32) } else { regs };
            if writeback {
                with_pc.update(rn as int, base.wrapping_add((4 * mask_count(mask)) as u32))
            } else {
                with_pc
            }
        })
    }
}

/// LDM: see `ldm_done`. The result tells whether PC was loaded.
pub fn ldm_mask<B: PeripheralBus>(cpu: &mut Cpu<B>, rn: u32, mask: u16, writeback: bool) -> (wrote_pc: bool)
    requires
        old(cpu).wf(),
        rn < 16,
        block_mapped(*old(cpu), old(cpu).regs()[rn as int], mask_count(mask)),
    ensures
        final(cpu).wf(),
        wrote_pc == in_mask(mask, 15),
        ldm_done(*old(cpu), *final(cpu), rn, mask, writeback),
{
    let ghost old_cpu = *cpu;
    let base = cpu.read_reg(rn);
    let count = count_ones(mask);
    let (wrote_pc, pc_value) = load_reg_block(cpu, base, mask);
    let ghost regs = cpu.regs();
    if wrote_pc {
        cpu.write_pc(pc_value & !1u32);
    }
    if writeback {
        cpu.write_reg(rn, base.wrapping_add(4 * count));
    }
    assert(block_loaded(old_cpu, regs, base, mask) && block_pc_word(old_cpu, base, mask, pc_value));
    wrote_pc
}

} // verus!
