//! One interpreter step: fetch, decode, check that the memory the instruction touches is
//! mapped, execute, and account for cycles.
use vstd::prelude::*;
use crate::bits::{condition_holds, sign_extend_spec};
use crate::arch::ArmCC;
use crate::bus::PeripheralBus;
use crate::context::CpuContext;
use crate::cpu::{Cpu, next_pc_after, in_range, RAM_BASE, RAM_LAST, FLASH_BASE, FLASH_LAST, FLASH_ALIAS_BASE, FLASH_ALIAS_LAST};
use crate::opcodes::thumb_runtime::ShiftKind;
use crate::text::{push_str, push_hex_digits, push_hex8, hex8_text};
use crate::opcodes::thumb_decode::{MemSize, ThumbInstr, decode16, decode16_spec, decode32, decode32_spec, is_thumb32, thumb32_prefix, lemma_decode16_fields};
use crate::opcodes::thumb_exec::{
    rstep, outcome_is, add_done, sub_done, sub_flags, loaded_into, stored_from, cond_mnemonic, load_mnemonic,
    store_mnemonic, t_mem_imm, t_mem_reg, t_mem_named, push_start, block_stored, data_proc_done, dp_mnemonic,
    data_proc_text, dp_is_shift, shifted, shift_mnemonic, imm8_done, imm8_mnemonic, udiv_value, ubfx_value,
    mod_imm_done, mod_imm_mnemonic, mod_imm_text, mod_imm_pc_update, shifted_reg_done, shifted_reg_mnemonic,
    exec_b, exec_bcond, exec_cbz, exec_bl, exec_bx, exec_ldr_literal, exec_load_imm, exec_store_imm,
    exec_load_reg, exec_store_reg, exec_load_sp, exec_store_sp, exec_adjust_sp, exec_adr, exec_add_sp_imm,
    exec_push, exec_pop, exec_ldm, exec_stm, exec_add_high, exec_compare_high, exec_mov_high, exec_data_proc,
    exec_shift_imm, exec_add_sub_reg3, exec_add_sub_imm3, exec_imm8, exec_bkpt, exec_movw, exec_movt,
    exec_udiv, exec_mls, exec_ubfx, exec_mod_imm, exec_shifted_reg, exec_lsl_reg,
};
use crate::opcodes::thumb_runtime::{ExecOutcome, StepOutcome, aligned_word, half_in_word, read_u16, in_mask, mask_count, block_addr, block_mapped, popped, ldm_done, count_ones};
use crate::opcodes::thumb_text::{t_reg, t_hex, t_dec, t_target, t_sep, t_list};

verus! {

/// Every register field of `instr` names one of R0-R15.
pub open spec fn regs_in_range(instr: ThumbInstr) -> bool {
    match instr {
        ThumbInstr::Cbz { rn, .. } => rn < 16,
        ThumbInstr::Bx { rm, .. } => rm < 16,
        ThumbInstr::LdrLiteral { rt, .. } => rt < 16,
        ThumbInstr::LoadImm { rt, rn, .. } => rt < 16 && rn < 16,
        ThumbInstr::StoreImm { rt, rn, .. } => rt < 16 && rn < 16,
        ThumbInstr::LoadReg { rt, rn, rm, .. } => rt < 16 && rn < 16 && rm < 16,
        ThumbInstr::StoreReg { rt, rn, rm, .. } => rt < 16 && rn < 16 && rm < 16,
        ThumbInstr::LoadSp { rt, .. } => rt < 16,
        ThumbInstr::StoreSp { rt, .. } => rt < 16,
        ThumbInstr::Adr { rd, .. } => rd < 16,
        ThumbInstr::AddSpImm { rd, .. } => rd < 16,
        ThumbInstr::Ldm { rn, .. } => rn < 16,
        ThumbInstr::Stm { rn, .. } => rn < 16,
        ThumbInstr::AddHigh { rdn, rm } => rdn < 16 && rm < 16,
        ThumbInstr::CmpHigh { rdn, rm } => rdn < 16 && rm < 16,
        ThumbInstr::MovHigh { rdn, rm } => rdn < 16 && rm < 16,
        ThumbInstr::DataProc { rdn, rm, .. } => rdn < 16 && rm < 16,
        ThumbInstr::ShiftImm { rd, rm, .. } => rd < 16 && rm < 16,
        ThumbInstr::AddSubReg3 { rd, rn, rm, .. } => rd < 16 && rn < 16 && rm < 16,
        ThumbInstr::AddSubImm3 { rd, rn, .. } => rd < 16 && rn < 16,
        ThumbInstr::Imm8 { rd, .. } => rd < 16,
        ThumbInstr::Movw { rd, .. } => rd < 16,
        ThumbInstr::Movt { rd, .. } => rd < 16,
        ThumbInstr::Udiv { rd, rn, rm } => rd < 16 && rn < 16 && rm < 16,
        ThumbInstr::Mls { rd, rn, rm, ra } => rd < 16 && rn < 16 && rm < 16 && ra < 16,
        ThumbInstr::Ubfx { rd, rn, .. } => rd < 16 && rn < 16,
        ThumbInstr::ModImm { op, rd, rn, .. } => rd < 16 && rn < 16 && (op == 0 || op == 1 || op == 2 || op == 8 || op == 13),
        ThumbInstr::ShiftedReg { op, rd, rn, rm, .. } => rd < 16 && rn < 16 && rm < 16 && (op == 0 || op == 2 || op == 8),
        ThumbInstr::LslReg { rd, rm, rs } => rd < 16 && rm < 16 && rs < 16,
        _ => true,
    }
}

/// The address of the literal that LDR (literal) at `pc` reads.
pub open spec fn literal_addr(pc: u32, imm: u32) -> u32 {
    (pc.wrapping_add(4) & !3u32).wrapping_add(imm)
}

/// The memory that `instr` touches is mapped: the word of each load or store, each word of
/// a block transfer, and, when POP may load an exception-return value into PC while an
/// exception is active, the frame that the return unstacks.
pub open spec fn memory_ready<B>(cpu: Cpu<B>, pc: u32, instr: ThumbInstr) -> bool {
    let r = cpu.regs();
    match instr {
        ThumbInstr::LdrLiteral { imm, .. } => cpu.mapped(aligned_word(literal_addr(pc, imm))),
        ThumbInstr::LoadImm { rn, imm, .. } => cpu.mapped(aligned_word(r[rn as int].wrapping_add(imm))),
        ThumbInstr::StoreImm { size, rn, imm, .. } => cpu.mapped(aligned_word(r[rn as int].wrapping_add(imm)))
            && (size is Word || size is Byte || size is Half),
        ThumbInstr::LoadReg { rn, rm, .. } => cpu.mapped(aligned_word(r[rn as int].wrapping_add(r[rm as int]))),
        ThumbInstr::StoreReg { size, rn, rm, .. } => cpu.mapped(aligned_word(r[rn as int].wrapping_add(r[rm as int])))
            && (size is Word || size is Byte || size is Half),
        ThumbInstr::LoadSp { imm, .. } => cpu.mapped(aligned_word(r[13].wrapping_add(imm))),
        ThumbInstr::StoreSp { imm, .. } => cpu.mapped(aligned_word(r[13].wrapping_add(imm))),
        ThumbInstr::Push { mask, .. } => block_mapped(cpu, push_start(cpu, mask), mask_count(mask)),
        ThumbInstr::Pop { mask, .. } => {
            &&& (mask >> 13u16) & 1 == 0
            &&& block_mapped(cpu, r[13], mask_count(mask))
            &&& in_mask(mask, 15) && cpu.exception_stack@.len() > 0 ==> cpu.frame_mapped(
                r[13].wrapping_add((4 * mask_count(mask)) as u32),
            )
        },
        ThumbInstr::Ldm { rn, mask, .. } => block_mapped(cpu, r[rn as int], mask_count(mask)),
        ThumbInstr::Stm { rn, mask } => block_mapped(cpu, r[rn as int], mask_count(mask)),
        _ => true,
    }
}

/// `instr` can execute on `cpu`.
pub open spec fn exec_ready<B>(cpu: Cpu<B>, pc: u32, instr: ThumbInstr) -> bool {
    regs_in_range(instr) && memory_ready(cpu, pc, instr)
}

/// What executing `instr` (fetched at `pc`) does to the core and reports.
pub open spec fn executed<B>(old: Cpu<B>, new: Cpu<B>, pc: u32, instr: ThumbInstr, out: ExecOutcome) -> bool {
    let r = old.regs();
    let a = old.apsr();
    match instr {
        ThumbInstr::B { target } => rstep(old, new, r.update(15, target), a) && outcome_is(out, "b"@, t_target(target), 2, 0),
        ThumbInstr::BCond { cond, target } => if condition_holds(a, cond) {
            rstep(old, new, r.update(15, target), a) && outcome_is(out, cond_mnemonic(cond), t_target(target), 2, 0)
        } else {
            new == old && outcome_is(out, cond_mnemonic(cond), t_target(target), 1, 2)
        },
        ThumbInstr::Cbz { nonzero, rn, target } => {
            let taken = if nonzero { r[rn as int] != 0 } else { r[rn as int] == 0 };
            &&& taken ==> rstep(old, new, r.update(15, target), a)
            &&& !taken ==> new == old
            &&& outcome_is(out, if nonzero { "cbnz"@ } else { "cbz"@ }, t_reg(rn) + t_sep() + t_target(target), 1, if taken { 0 } else { 2 })
        },
        ThumbInstr::Bl { target } => rstep(old, new, r.update(14, pc.wrapping_add(4) | 1).update(15, target), a)
            && outcome_is(out, "bl"@, t_target(target), 2, 0),
        ThumbInstr::Bx { rm, link } => {
            let regs = if link { r.update(14, pc.wrapping_add(2) | 1) } else { r };
            rstep(old, new, regs.update(15, r[rm as int] & !1u32), a) && outcome_is(out, if link { "blx"@ } else { "bx"@ }, t_reg(rm), 2, 0)
        },
        ThumbInstr::LdrLiteral { rt, imm, wide } => loaded_into(old, new, rt, MemSize::Word, literal_addr(pc, imm))
            && outcome_is(out, if wide { "ldr.w"@ } else { "ldr"@ }, t_mem_named(rt, "pc"@, imm), 2, if rt == 15 { 0 } else if wide { 4 } else { 2 }),
        ThumbInstr::LoadImm { size, rt, rn, imm, wide } => loaded_into(old, new, rt, size, r[rn as int].wrapping_add(imm))
            && outcome_is(out, load_mnemonic(size, wide), t_mem_imm(rt, rn, imm), 2, if rt == 15 { 0 } else if wide { 4 } else { 2 }),
        ThumbInstr::StoreImm { size, rt, rn, imm, wide } => stored_from(old, new, size, r[rn as int].wrapping_add(imm), r[rt as int])
            && outcome_is(out, store_mnemonic(size, wide), t_mem_imm(rt, rn, imm), 1, if wide { 4 } else { 2 }),
        ThumbInstr::LoadReg { size, rt, rn, rm } => loaded_into(old, new, rt, size, r[rn as int].wrapping_add(r[rm as int]))
            && outcome_is(out, load_mnemonic(size, false), t_mem_reg(rt, rn, rm), 2, if rt == 15 { 0 } else { 2 }),
        ThumbInstr::StoreReg { size, rt, rn, rm } => stored_from(old, new, size, r[rn as int].wrapping_add(r[rm as int]), r[rt as int])
            && outcome_is(out, store_mnemonic(size, false), t_mem_reg(rt, rn, rm), 1, 2),
        ThumbInstr::LoadSp { rt, imm } => loaded_into(old, new, rt, MemSize::Word, r[13].wrapping_add(imm))
            && outcome_is(out, "ldr"@, t_mem_named(rt, "sp"@, imm), 2, if rt == 15 { 0 } else { 2 }),
        ThumbInstr::StoreSp { rt, imm } => stored_from(old, new, MemSize::Word, r[13].wrapping_add(imm), r[rt as int])
            && outcome_is(out, "str"@, t_mem_named(rt, "sp"@, imm), 1, 2),
        ThumbInstr::AdjustSp { subtract, imm } => rstep(old, new, r.update(13, if subtract { r[13].wrapping_sub(imm) } else { r[13].wrapping_add(imm) }), a)
            && outcome_is(out, if subtract { "sub"@ } else { "add"@ }, seq!['s', 'p'] + t_sep() + t_hex(imm), 1, 2),
        ThumbInstr::Adr { rd, value } => rstep(old, new, r.update(rd as int, value), a)
            && outcome_is(out, "adr"@, t_reg(rd) + t_sep() + t_target(value), 1, 2),
        ThumbInstr::AddSpImm { rd, imm } => rstep(old, new, r.update(rd as int, r[13].wrapping_add(imm)), a)
            && outcome_is(out, "add"@, t_reg(rd) + seq![',', ' ', 's', 'p'] + t_sep() + t_hex(imm), 1, 2),
        ThumbInstr::Push { mask, wide } => block_stored(old, new, push_start(old, mask), mask, r.update(13, push_start(old, mask)))
            && outcome_is(out, if wide { "push.w"@ } else { "push"@ }, t_list(mask), (1 + mask_count(mask)) as u32, if wide { 4 } else { 2 }),
        ThumbInstr::Pop { mask, wide } => popped(old, new, mask, in_mask(mask, 15)) && outcome_is(
            out,
            if wide { "pop.w"@ } else { "pop"@ },
            t_list(mask),
            (1 + mask_count(mask) + if in_mask(mask, 15) { 1int } else { 0int }) as u32,
            if in_mask(mask, 15) { 0 } else if wide { 4 } else { 2 },
        ),
        ThumbInstr::Ldm { rn, mask, writeback, wide } => new.wf() && ldm_done(old, new, rn, mask, writeback) && outcome_is(
            out,
            if wide { "ldm.w"@ } else { "ldm"@ },
            t_reg(rn) + t_sep() + t_list(mask),
            (1 + mask_count(mask) + if in_mask(mask, 15) { 1int } else { 0int }) as u32,
            if in_mask(mask, 15) { 0 } else if wide { 4 } else { 2 },
        ),
        ThumbInstr::Stm { rn, mask } => block_stored(old, new, r[rn as int], mask, r)
            && outcome_is(out, "stm"@, t_reg(rn) + t_sep() + t_list(mask), (1 + mask_count(mask)) as u32, 2),
        ThumbInstr::AddHigh { rdn, rm } => rstep(old, new, r.update(rdn as int, r[rdn as int].wrapping_add(r[rm as int])), a)
            && outcome_is(out, "add"@, t_reg(rdn) + t_sep() + t_reg(rm), 1, 2),
        ThumbInstr::CmpHigh { rdn, rm } => rstep(old, new, r, sub_flags(a, r[rdn as int], r[rm as int]))
            && outcome_is(out, "cmp"@, t_reg(rdn) + t_sep() + t_reg(rm), 1, 2),
        ThumbInstr::MovHigh { rdn, rm } => rstep(old, new, r.update(rdn as int, r[rm as int]), a)
            && outcome_is(out, "mov"@, t_reg(rdn) + t_sep() + t_reg(rm), 1, if rdn == 15 { 0 } else { 2 }),
        ThumbInstr::DataProc { op, rdn, rm } => data_proc_done(old, new, op, rdn, rm)
            && outcome_is(out, dp_mnemonic(op), data_proc_text(op, rdn, rm, r[rm as int]), 1, if dp_is_shift(op) && rdn == 15 { 0 } else { 2 }),
        ThumbInstr::ShiftImm { kind, rd, rm, amount } => shifted(old, new, kind, rd, r[rm as int], amount, true)
            && outcome_is(out, shift_mnemonic(kind), t_reg(rd) + t_sep() + t_dec(amount), 1, if rd == 15 { 0 } else { 2 }),
        ThumbInstr::AddSubReg3 { subtract, rd, rn, rm } => (if subtract {
            sub_done(old, new, rd, rn, r[rm as int], true)
        } else {
            add_done(old, new, rd, rn, r[rm as int], true)
        }) && outcome_is(out, if subtract { "subs"@ } else { "adds"@ }, t_reg(rd) + t_sep() + t_reg(rn) + t_sep() + t_reg(rm), 1, if rd == 15 { 0 } else { 2 }),
        ThumbInstr::AddSubImm3 { subtract, rd, rn, imm } => (if subtract {
            sub_done(old, new, rd, rn, imm, true)
        } else {
            add_done(old, new, rd, rn, imm, true)
        }) && outcome_is(out, if subtract { "subs"@ } else { "adds"@ }, t_reg(rd) + t_sep() + t_reg(rn) + t_sep() + t_dec(imm), 1, if rd == 15 { 0 } else { 2 }),
        ThumbInstr::Imm8 { op, rd, imm } => imm8_done(old, new, op, rd, imm)
            && outcome_is(out, imm8_mnemonic(op), t_reg(rd) + t_sep() + t_dec(imm), 1, if op >= 2 && rd == 15 { 0 } else { 2 }),
        ThumbInstr::Bkpt { imm } => new == old && outcome_is(out, "bkpt"@, t_dec(imm), 1, 0),
        ThumbInstr::Nop => new == old && outcome_is(out, "nop"@, Seq::<char>::empty(), 1, 2),
        ThumbInstr::Movw { rd, imm16 } => rstep(old, new, r.update(rd as int, imm16), a)
            && outcome_is(out, "movw"@, t_reg(rd) + t_sep() + t_hex(imm16), 1, if rd == 15 { 0 } else { 4 }),
        ThumbInstr::Movt { rd, imm16 } => rstep(old, new, r.update(rd as int, (r[rd as int] & 0xFFFF) | (imm16 << 16u32)), a)
            && outcome_is(out, "movt"@, t_reg(rd) + t_sep() + t_hex(imm16), 1, if rd == 15 { 0 } else { 4 }),
        ThumbInstr::Udiv { rd, rn, rm } => rstep(old, new, r.update(rd as int, udiv_value(r[rn as int], r[rm as int])), a)
            && outcome_is(out, "udiv"@, t_reg(rd) + t_sep() + t_reg(rn) + t_sep() + t_reg(rm), 1, if rd == 15 { 0 } else { 4 }),
        ThumbInstr::Mls { rd, rn, rm, ra } => rstep(old, new, r.update(rd as int, r[ra as int].wrapping_sub(r[rn as int].wrapping_mul(r[rm as int]))), a)
            && outcome_is(out, "mls"@, t_reg(rd) + t_sep() + t_reg(rn) + t_sep() + t_reg(rm) + t_sep() + t_reg(ra), 1, if rd == 15 { 0 } else { 4 }),
        ThumbInstr::Ubfx { rd, rn, lsb, width } => rstep(old, new, r.update(rd as int, ubfx_value(r[rn as int], lsb, width)), a)
            && outcome_is(out, "ubfx"@, t_reg(rd) + t_sep() + t_reg(rn) + t_sep() + t_dec(lsb) + t_sep() + t_dec(width), 1, if rd == 15 { 0 } else { 4 }),
        ThumbInstr::ModImm { op, rd, rn, imm, setflags } => mod_imm_done(old, new, op, rd, rn, imm, setflags)
            && outcome_is(out, mod_imm_mnemonic(op, rn, setflags), mod_imm_text(op, rd, rn, imm), 1, mod_imm_pc_update(op, rd)),
        ThumbInstr::ShiftedReg { op, rd, rn, rm, kind, amount } => shifted_reg_done(old, new, op, rd, rn, rm, kind, amount)
            && outcome_is(out, shifted_reg_mnemonic(op), t_reg(rd) + t_sep() + t_reg(rn) + t_sep() + t_reg(rm), 1, if op == 8 && rd == 15 { 0 } else { 4 }),
        ThumbInstr::LslReg { rd, rm, rs } => shifted(old, new, crate::opcodes::thumb_runtime::ShiftKind::Lsl, rd, r[rm as int], r[rs as int] & 0xFF, false)
            && outcome_is(out, "lsl.w"@, t_reg(rd) + t_sep() + t_reg(rm) + t_sep() + t_reg(r[rs as int] & 0xFF), 1, if rd == 15 { 0 } else { 4 }),
    }
}

/// Whether the `n` words from `start` on are all mapped.
pub fn is_block_mapped<B: PeripheralBus>(cpu: &Cpu<B>, start: u32, n: u32) -> (r: bool)
    requires
        cpu.wf(),
        n < 0x4000_0000,
    ensures
        r == block_mapped(*cpu, start, n as nat),
{
    let mut k: u32 = 0;
    while k < n
        invariant
            k <= n < 0x4000_0000,
            cpu.wf(),
            forall|j: int| 0 <= j < k ==> #[trigger] cpu.mapped(block_addr(start, j)),
        decreases n - k,
    {
        if !cpu.is_mapped(start.wrapping_add(4 * k)) {
            assert(!cpu.mapped(block_addr(start, k as int)));
            return false;
        }
        k = k + 1;
    }
    true
}

/// Whether every register field of `instr` names one of R0-R15.
pub fn check_regs(instr: &ThumbInstr) -> (r: bool)
    ensures
        r == regs_in_range(*instr),
{
    match *instr {
        ThumbInstr::Cbz { rn, .. } => rn < 16,
        ThumbInstr::Bx { rm, .. } => rm < 16,
        ThumbInstr::LdrLiteral { rt, .. } => rt < 16,
        ThumbInstr::LoadImm { rt, rn, .. } => rt < 16 && rn < 16,
        ThumbInstr::StoreImm { rt, rn, .. } => rt < 16 && rn < 16,
        ThumbInstr::LoadReg { rt, rn, rm, .. } => rt < 16 && rn < 16 && rm < 16,
        ThumbInstr::StoreReg { rt, rn, rm, .. } => rt < 16 && rn < 16 && rm < 16,
        ThumbInstr::LoadSp { rt, .. } => rt < 16,
        ThumbInstr::StoreSp { rt, .. } => rt < 16,
        ThumbInstr::Adr { rd, .. } => rd < 16,
        ThumbInstr::AddSpImm { rd, .. } => rd < 16,
        ThumbInstr::Ldm { rn, .. } => rn < 16,
        ThumbInstr::Stm { rn, .. } => rn < 16,
        ThumbInstr::AddHigh { rdn, rm } => rdn < 16 && rm < 16,
        ThumbInstr::CmpHigh { rdn, rm } => rdn < 16 && rm < 16,
        ThumbInstr::MovHigh { rdn, rm } => rdn < 16 && rm < 16,
        ThumbInstr::DataProc { rdn, rm, .. } => rdn < 16 && rm < 16,
        ThumbInstr::ShiftImm { rd, rm, .. } => rd < 16 && rm < 16,
        ThumbInstr::AddSubReg3 { rd, rn, rm, .. } => rd < 16 && rn < 16 && rm < 16,
        ThumbInstr::AddSubImm3 { rd, rn, .. } => rd < 16 && rn < 16,
        ThumbInstr::Imm8 { rd, .. } => rd < 16,
        ThumbInstr::Movw { rd, .. } => rd < 16,
        ThumbInstr::Movt { rd, .. } => rd < 16,
        ThumbInstr::Udiv { rd, rn, rm } => rd < 16 && rn < 16 && rm < 16,
        ThumbInstr::Mls { rd, rn, rm, ra } => rd < 16 && rn < 16 && rm < 16 && ra < 16,
        ThumbInstr::Ubfx { rd, rn, .. } => rd < 16 && rn < 16,
        ThumbInstr::ModImm { op, rd, rn, .. } => rd < 16 && rn < 16 && (op == 0 || op == 1 || op == 2 || op == 8 || op == 13),
        ThumbInstr::ShiftedReg { op, rd, rn, rm, .. } => rd < 16 && rn < 16 && rm < 16 && (op == 0 || op == 2 || op == 8),
        ThumbInstr::LslReg { rd, rm, rs } => rd < 16 && rm < 16 && rs < 16,
        _ => true,
    }
}

fn is_subword_or_word(size: MemSize) -> (r: bool)
    ensures
        r == (size is Word || size is Byte || size is Half),
{
    match size {
        MemSize::Word | MemSize::Byte | MemSize::Half => true,
        _ => false,
    }
}

/// Whether the memory that `instr` touches is mapped (see `memory_ready`).
pub fn check_memory<B: PeripheralBus>(cpu: &Cpu<B>, pc: u32, instr: &ThumbInstr) -> (r: bool)
    requires
        cpu.wf(),
        regs_in_range(*instr),
    ensures
        r == memory_ready(*cpu, pc, *instr),
{
    match *instr {
        ThumbInstr::LdrLiteral { imm, .. } => cpu.is_mapped((pc.wrapping_add(4) & !3u32).wrapping_add(imm) & !3u32),
        ThumbInstr::LoadImm { rn, imm, .. } => cpu.is_mapped(cpu.read_reg(rn).wrapping_add(imm) & !3u32),
        ThumbInstr::StoreImm { size, rn, imm, .. } => cpu.is_mapped(cpu.read_reg(rn).wrapping_add(imm) & !3u32) && is_subword_or_word(size),
        ThumbInstr::LoadReg { rn, rm, .. } => cpu.is_mapped(cpu.read_reg(rn).wrapping_add(cpu.read_reg(rm)) & !3u32),
        ThumbInstr::StoreReg { size, rn, rm, .. } => cpu.is_mapped(cpu.read_reg(rn).wrapping_add(cpu.read_reg(rm)) & !3u32)
            && is_subword_or_word(size),
        ThumbInstr::LoadSp { imm, .. } => cpu.is_mapped(cpu.read_sp().wrapping_add(imm) & !3u32),
        ThumbInstr::StoreSp { imm, .. } => cpu.is_mapped(cpu.read_sp().wrapping_add(imm) & !3u32),
        ThumbInstr::Push { mask, .. } => {
            let count = count_ones(mask);
            is_block_mapped(cpu, cpu.read_sp().wrapping_sub(4 * count), count)
        },
        ThumbInstr::Pop { mask, .. } => {
            let count = count_ones(mask);
            let sp = cpu.read_sp();
            if (mask >> 13) & 1 != 0 || !is_block_mapped(cpu, sp, count) {
                return false;
            }
            if (mask >> 15) & 1 == 1 && cpu.exception_stack.len() > 0 {
                cpu.is_frame_mapped(sp.wrapping_add(4 * count))
            } else {
                true
            }
        },
        ThumbInstr::Ldm { rn, mask, .. } => is_block_mapped(cpu, cpu.read_reg(rn), count_ones(mask)),
        ThumbInstr::Stm { rn, mask } => is_block_mapped(cpu, cpu.read_reg(rn), count_ones(mask)),
        _ => true,
    }
}

/// Executes a decoded instruction that was fetched at `pc`.
pub fn execute<B: PeripheralBus>(cpu: &mut Cpu<B>, pc: u32, instr: ThumbInstr) -> (out: ExecOutcome)
    requires
        old(cpu).wf(),
        exec_ready(*old(cpu), pc, instr),
    ensures
        final(cpu).wf(),
        executed(*old(cpu), *final(cpu), pc, instr, out),
{
    match instr {
        ThumbInstr::B { target } => exec_b(cpu, target),
        ThumbInstr::BCond { cond, target } => exec_bcond(cpu, cond, target),
        ThumbInstr::Cbz { nonzero, rn, target } => exec_cbz(cpu, nonzero, rn, target),
        ThumbInstr::Bl { target } => exec_bl(cpu, pc, target),
        ThumbInstr::Bx { rm, link } => exec_bx(cpu, pc, rm, link),
        ThumbInstr::LdrLiteral { rt, imm, wide } => exec_ldr_literal(cpu, pc, rt, imm, wide),
        ThumbInstr::LoadImm { size, rt, rn, imm, wide } => exec_load_imm(cpu, size, rt, rn, imm, wide),
        ThumbInstr::StoreImm { size, rt, rn, imm, wide } => exec_store_imm(cpu, size, rt, rn, imm, wide),
        ThumbInstr::LoadReg { size, rt, rn, rm } => exec_load_reg(cpu, size, rt, rn, rm),
        ThumbInstr::StoreReg { size, rt, rn, rm } => exec_store_reg(cpu, size, rt, rn, rm),
        ThumbInstr::LoadSp { rt, imm } => exec_load_sp(cpu, rt, imm),
        ThumbInstr::StoreSp { rt, imm } => exec_store_sp(cpu, rt, imm),
        ThumbInstr::AdjustSp { subtract, imm } => exec_adjust_sp(cpu, subtract, imm),
        ThumbInstr::Adr { rd, value } => exec_adr(cpu, rd, value),
        ThumbInstr::AddSpImm { rd, imm } => exec_add_sp_imm(cpu, rd, imm),
        ThumbInstr::Push { mask, wide } => exec_push(cpu, mask, wide),
        ThumbInstr::Pop { mask, wide } => exec_pop(cpu, mask, wide),
        ThumbInstr::Ldm { rn, mask, writeback, wide } => exec_ldm(cpu, rn, mask, writeback, wide),
        ThumbInstr::Stm { rn, mask } => exec_stm(cpu, rn, mask),
        ThumbInstr::AddHigh { rdn, rm } => exec_add_high(cpu, rdn, rm),
        ThumbInstr::CmpHigh { rdn, rm } => exec_compare_high(cpu, rdn, rm),
        ThumbInstr::MovHigh { rdn, rm } => exec_mov_high(cpu, rdn, rm),
        ThumbInstr::DataProc { op, rdn, rm } => exec_data_proc(cpu, op, rdn, rm),
        ThumbInstr::ShiftImm { kind, rd, rm, amount } => exec_shift_imm(cpu, kind, rd, rm, amount),
        ThumbInstr::AddSubReg3 { subtract, rd, rn, rm } => exec_add_sub_reg3(cpu, subtract, rd, rn, rm),
        ThumbInstr::AddSubImm3 { subtract, rd, rn, imm } => exec_add_sub_imm3(cpu, subtract, rd, rn, imm),
        ThumbInstr::Imm8 { op, rd, imm } => exec_imm8(cpu, op, rd, imm),
        ThumbInstr::Bkpt { imm } => exec_bkpt(cpu, imm),
        ThumbInstr::Nop => crate::opcodes::thumb_runtime::normal_outcome("nop", String::new(), 1, 2),
        ThumbInstr::Movw { rd, imm16 } => exec_movw(cpu, rd, imm16),
        ThumbInstr::Movt { rd, imm16 } => exec_movt(cpu, rd, imm16),
        ThumbInstr::Udiv { rd, rn, rm } => exec_udiv(cpu, rd, rn, rm),
        ThumbInstr::Mls { rd, rn, rm, ra } => exec_mls(cpu, rd, rn, rm, ra),
        ThumbInstr::Ubfx { rd, rn, lsb, width } => exec_ubfx(cpu, rd, rn, lsb, width),
        ThumbInstr::ModImm { op, rd, rn, imm, setflags } => exec_mod_imm(cpu, op, rd, rn, imm, setflags),
        ThumbInstr::ShiftedReg { op, rd, rn, rm, kind, amount } => exec_shifted_reg(cpu, op, rd, rn, rm, kind, amount),
        ThumbInstr::LslReg { rd, rm, rs } => exec_lsl_reg(cpu, rd, rm, rs),
    }
}

/// What decoding and executing at `pc` gives: `Err` with the core unchanged when nothing
/// was decoded or the instruction cannot execute, else the effect of the instruction.
pub open spec fn decode_executed<B>(old: Cpu<B>, new: Cpu<B>, pc: u32, decoded: Option<ThumbInstr>, r: Result<ExecOutcome, String>) -> bool {
    match decoded {
        Some(i) => if exec_ready(old, pc, i) {
            match r {
                Ok(out) => executed(old, new, pc, i, out),
                Err(_) => false,
            }
        } else {
            r is Err && new == old
        },
        None => r is Err && new == old,
    }
}

fn not_ready_error(pc: u32) -> (e: String)
    ensures
        e@ == "memory access of the instruction at PC 0x"@ + hex8_text(pc) + " is not mapped"@,
{
    let mut e = String::new();
    push_str(&mut e, "memory access of the instruction at PC 0x");
    push_hex8(&mut e, pc);
    push_str(&mut e, " is not mapped");
    e
}

/// Decodes and executes the 16-bit instruction `hw` fetched at `current_pc`.
pub fn decode_execute_16<B: PeripheralBus>(cpu: &mut Cpu<B>, current_pc: u32, hw: u16) -> (r: Result<ExecOutcome, String>)
    requires
        old(cpu).wf(),
    ensures
        final(cpu).wf(),
        decode_executed(*old(cpu), *final(cpu), current_pc, decode16_spec(current_pc, hw), r),
{
    match decode16(current_pc, hw) {
        Some(instr) => {
            if check_regs(&instr) && check_memory(cpu, current_pc, &instr) {
                Ok(execute(cpu, current_pc, instr))
            } else {
                Err(not_ready_error(current_pc))
            }
        },
        None => {
            let mut e = String::new();
            push_str(&mut e, "unsupported 16-bit instruction 0x");
            push_hex_digits(&mut e, hw as u32, 4);
            push_str(&mut e, " at PC 0x");
            push_hex8(&mut e, current_pc);
            Err(e)
        },
    }
}

/// Decodes and executes the 32-bit instruction `hw1`, `hw2` fetched at `current_pc`.
pub fn decode_execute_32<B: PeripheralBus>(cpu: &mut Cpu<B>, current_pc: u32, hw1: u16, hw2: u16) -> (r: Result<ExecOutcome, String>)
    requires
        old(cpu).wf(),
    ensures
        final(cpu).wf(),
        decode_executed(*old(cpu), *final(cpu), current_pc, decode32_spec(current_pc, hw1, hw2), r),
{
    match decode32(current_pc, hw1, hw2) {
        Some(instr) => {
            if check_regs(&instr) && check_memory(cpu, current_pc, &instr) {
                Ok(execute(cpu, current_pc, instr))
            } else {
                Err(not_ready_error(current_pc))
            }
        },
        None => {
            let mut e = String::new();
            push_str(&mut e, "unsupported 32-bit instruction 0x");
            push_hex_digits(&mut e, hw1 as u32, 4);
            push_str(&mut e, " 0x");
            push_hex_digits(&mut e, hw2 as u32, 4);
            push_str(&mut e, " at PC 0x");
            push_hex8(&mut e, current_pc);
            Err(e)
        },
    }
}

/// The halfword of code at `addr` (bit 0 ignored), when it lies in flash or RAM.
pub open spec fn code_half<B>(cpu: Cpu<B>, addr: u32) -> Option<u16> {
    if cpu.mapped(aligned_word(addr)) {
        match cpu.word(aligned_word(addr)) {
            Some(w) => Some(half_in_word(w, addr) as u16),
            None => None,
        }
    } else {
        None
    }
}

/// Fetches the halfword of code at `addr`; code is only fetched from flash and RAM.
pub fn fetch16<B: PeripheralBus>(cpu: &Cpu<B>, addr: u32) -> (r: Option<u16>)
    requires
        cpu.wf(),
    ensures
        r == code_half(*cpu, addr),
{
    let aligned = addr & !3u32;
    if !cpu.is_mapped(aligned) {
        return None;
    }
    if in_range(aligned, RAM_BASE, RAM_LAST) || in_range(aligned, FLASH_BASE, FLASH_LAST) || in_range(aligned, FLASH_ALIAS_BASE, FLASH_ALIAS_LAST) {
        Some(read_u16(cpu, addr) as u16)
    } else {
        None
    }
}

/// The instruction at `pc`: one halfword, or two when the first starts a 32-bit encoding.
pub open spec fn decoded_at<B>(cpu: Cpu<B>, pc: u32) -> Option<ThumbInstr> {
    match code_half(cpu, pc) {
        None => None,
        Some(hw1) => if thumb32_prefix(hw1) {
            match code_half(cpu, pc.wrapping_add(2)) {
                None => None,
                Some(hw2) => decode32_spec(pc, hw1, hw2),
            }
        } else {
            decode16_spec(pc, hw1)
        },
    }
}

/// Fetches, decodes and executes the instruction at `pc`.
pub fn execute_at<B: PeripheralBus>(cpu: &mut Cpu<B>, pc: u32) -> (r: Result<ExecOutcome, String>)
    requires
        old(cpu).wf(),
    ensures
        final(cpu).wf(),
        decode_executed(*old(cpu), *final(cpu), pc, decoded_at(*old(cpu), pc), r),
{
    let hw1 = match fetch16(cpu, pc) {
        Some(h) => h,
        None => {
            let mut e = String::new();
            push_str(&mut e, "instruction fetch outside flash and RAM at PC 0x");
            push_hex8(&mut e, pc);
            return Err(e);
        },
    };
    if is_thumb32(hw1) {
        let hw2 = match fetch16(cpu, pc.wrapping_add(2)) {
            Some(h) => h,
            None => {
                let mut e = String::new();
                push_str(&mut e, "instruction fetch outside flash and RAM at PC 0x");
                push_hex8(&mut e, pc);
                return Err(e);
            },
        };
        decode_execute_32(cpu, pc, hw1, hw2)
    } else {
        decode_execute_16(cpu, pc, hw1)
    }
}

/// The end of a step that executed an instruction: the next PC follows the PC update, the
/// remaining execute cycles become stalls, and a pending interrupt may be taken.
pub open spec fn step_finished<B: PeripheralBus>(old: Cpu<B>, new: Cpu<B>, execute_cycles: u32, current_pc: u32, pc_update: u32) -> bool {
    let next = next_pc_after(old.regs()[15], current_pc, pc_update);
    &&& new.Cpu_pipeline.remain_cycles == (if execute_cycles == 0 { 0 } else { (execute_cycles - 1) as u32 })
    &&& old.step_ended(&new, next, (if execute_cycles == 0 { 0 } else { (execute_cycles - 1) as u32 }))
    &&& (exists|e: u32| #[trigger] old.entered_exception(&new, e, next)) || (new.next_pc == next
        && new.regs() == old.regs() && new.apsr() == old.apsr() && new.ram == old.ram
        && new.flash == old.flash && new.exception_stack@ == old.exception_stack@)
}

/// A step that executed no instruction: an interrupt was taken, or a stall cycle of the
/// previous instruction was spent.
pub open spec fn step_without_instruction<B: PeripheralBus>(old: Cpu<B>, new: Cpu<B>) -> bool {
    &&& old.begins_step(&new, Some(1u32))
    &&& (exists|e: u32| #[trigger] old.entered_exception(&new, e, old.next_pc)) || (old.Cpu_pipeline.remain_cycles > 0
        && new.Cpu_pipeline.remain_cycles == old.Cpu_pipeline.remain_cycles - 1 && new.regs() == old.regs()
        && new.apsr() == old.apsr() && new.ram == old.ram && new.flash == old.flash
        && new.next_pc == old.next_pc && new.exception_stack@ == old.exception_stack@)
}

/// One cycle of the core: a stall or interrupt entry (reported as `pipeline`), or the
/// instruction at `current_pc`.
pub fn step<B: PeripheralBus>(cpu: &mut Cpu<B>, current_pc: u32) -> (r: Result<StepOutcome, String>)
    requires
        old(cpu).wf(),
    ensures
        final(cpu).wf(),
        r matches Ok(o) ==> o.cycles == 1,
        old(cpu).Cpu_pipeline.remain_cycles > 0 ==> (r matches Ok(o) && o.mnemonic@ == "pipeline"@),
        (r matches Ok(o) && o.mnemonic@ == "pipeline"@ && o.op_str@ == Seq::<char>::empty()
            && step_without_instruction(*old(cpu), *final(cpu)))
        || exists|mid: Cpu<B>, after: Cpu<B>, x: Result<ExecOutcome, String>|
            #![trigger decode_executed(mid, after, current_pc, decoded_at(mid, current_pc), x)]
        {
            &&& old(cpu).same_machine(&mid)
            &&& old(cpu).begins_step(&mid, None)
            &&& mid.Cpu_pipeline.remain_cycles == 0
            &&& decode_executed(mid, after, current_pc, decoded_at(mid, current_pc), x)
            &&& match x {
                Err(_) => r is Err && *final(cpu) == after,
                Ok(out) => (r matches Ok(o) && o.mnemonic == out.mnemonic && o.op_str == out.op_str
                    && step_finished(after, *final(cpu), out.execute_cycles, current_pc, out.pc_update)),
            }
        },
{
    if let Some(cycles) = cpu.begin_step() {
        proof {
            reveal_strlit("pipeline");
        }
        return Ok(StepOutcome { cycles, mnemonic: "pipeline", op_str: String::new() });
    }
    let ghost mid = *cpu;
    let x = execute_at(cpu, current_pc);
    let ghost after = *cpu;
    match x {
        Ok(outcome) => {
            let cycles = cpu.finish_step_cycles(outcome.execute_cycles, current_pc, outcome.pc_update);
            assert(decode_executed(mid, after, current_pc, decoded_at(mid, current_pc), Ok::<ExecOutcome, String>(outcome)));
            Ok(StepOutcome { cycles, mnemonic: outcome.mnemonic, op_str: outcome.op_str })
        },
        Err(e) => {
            assert(decode_executed(mid, after, current_pc, decoded_at(mid, current_pc), Err::<ExecOutcome, String>(e)));
            Err(e)
        },
    }
}

/// CBZ and CBNZ (a 16-bit encoding with `hw & 0xF500 == 0xB100`) always execute. The
/// instruction is CBNZ exactly when bit 11 of `hw` is set, CBZ otherwise. It branches, to
/// `pc + 4 + i:imm5:'0'`, exactly when the register in bits 0-2 is zero (CBZ) or nonzero
/// (CBNZ), reporting a PC update of 0; otherwise nothing changes and execution falls through
/// to the next halfword.
pub proof fn lemma_cbz_branches_on_register<B>(old: Cpu<B>, new: Cpu<B>, pc: u32, hw: u16, r: Result<ExecOutcome, String>)
    requires
        (hw & 0xF500) == 0xB100,
        decode_executed(old, new, pc, decode16_spec(pc, hw), r),
    ensures
        ({
            let value = old.regs()[(hw % 8) as int];
            let is_cbnz = (hw / 0x800) % 2 == 1;
            let offset = ((hw / 0x200) % 2) as int * 64 + ((hw / 8) % 32) as int * 2;
            let taken = if is_cbnz { value != 0 } else { value == 0 };
            &&& r matches Ok(out)
            &&& out.mnemonic@ == (if is_cbnz { "cbnz"@ } else { "cbz"@ })
            &&& out.pc_update == (if taken { 0u32 } else { 2u32 })
            &&& taken ==> new.regs() == old.regs().update(15, ((pc as int + 4 + offset) % 0x1_0000_0000) as u32)
                && new.apsr() == old.apsr() && new.ram == old.ram && new.next_pc == old.next_pc
            &&& !taken ==> new == old
        }),
{
    let a = ((hw >> 9u16) & 1) as u32;
    let b = ((hw >> 3u16) & 0x1F) as u32;
    assert((hw & 0xF800) != 0xE000 && (hw & 0xF000) != 0xD000 && ((hw & 0x0800) != 0) == ((hw / 0x800) % 2 == 1)
        && (hw & 0x7) == hw % 8 && a == ((hw / 0x200) % 2) as u32 && b == ((hw / 8) % 32) as u32
        && (a << 6u32) | (b << 1u32) == a * 64 + b * 2) by (bit_vector)
        requires
            (hw & 0xF500) == 0xB100,
            a == ((hw >> 9u16) & 1) as u32,
            b == ((hw >> 3u16) & 0x1F) as u32,
    ;
}

/// The 16-bit B and B<cond> branch relative to `pc + 4`, by their offset field doubled and
/// read as a signed number (12 bits for B, 9 for B<cond>), the sum wrapping modulo 2^32.
/// B always branches; B<cond> branches exactly when its condition (bits 8-11) holds on the
/// APSR, and otherwise changes nothing and falls through to the next halfword.
#[verifier::rlimit(50)]
pub proof fn lemma_16bit_branch_offsets_are_signed<B>(old: Cpu<B>, new: Cpu<B>, pc: u32, hw: u16, r: Result<ExecOutcome, String>)
    requires
        (hw & 0xF800) == 0xE000 || ((hw & 0xF000) == 0xD000 && (hw & 0x0F00) != 0x0F00),
        decode_executed(old, new, pc, decode16_spec(pc, hw), r),
    ensures
        ({
            let is_b = (hw & 0xF800) == 0xE000;
            let imm11 = (hw % 2048) as int;
            let imm8 = (hw % 256) as int;
            let offset = if is_b {
                if imm11 < 1024 { 2 * imm11 } else { 2 * imm11 - 4096 }
            } else {
                if imm8 < 128 { 2 * imm8 } else { 2 * imm8 - 512 }
            };
            let target = ((pc as int + 4 + offset) % 0x1_0000_0000) as u32;
            let taken = is_b || condition_holds(old.apsr(), ArmCC::from_bits_spec(((hw / 256) % 16) as u8));
            &&& r matches Ok(out)
            &&& out.pc_update == (if taken { 0u32 } else { 2u32 })
            &&& taken ==> new.regs() == old.regs().update(15, target) && new.apsr() == old.apsr() && new.ram == old.ram
            &&& !taken ==> new == old
        }),
{
    let a = ((hw & 0x07FF) as u32) << 1u32;
    let b = ((hw & 0xFF) as u32) << 1u32;
    let sa = sign_extend_spec(a, 12);
    let sb = sign_extend_spec(b, 9);
    assert(((hw & 0xF800) == 0xE000 ==> (hw & 0x07FF) as int == hw % 2048 && (hw & 0xF000) != 0xD000)
        && (hw & 0xFF) as int == hw % 256 && ((hw >> 8u16) & 0xF) as int == (hw / 256) % 16
        && sa == (if (hw & 0x07FF) < 1024 { a as i32 } else { ((a as i32) - 4096i32) as i32 })
        && sb == (if (hw & 0xFF) < 128 { b as i32 } else { ((b as i32) - 512i32) as i32 })
        && a == (hw & 0x07FF) as u32 * 2 && b == (hw & 0xFF) as u32 * 2) by (bit_vector)
        requires
            a == ((hw & 0x07FF) as u32) << 1u32,
            b == ((hw & 0xFF) as u32) << 1u32,
            sa == (((a << 20u32) as i32) >> 20u32),
            sb == (((b << 23u32) as i32) >> 23u32),
    ;
}

/// MOVS, CMP, ADDS and SUBS with an 8-bit immediate (`hw & 0xE000 == 0x2000`; the operation
/// in bits 11-12, Rd in bits 8-10, the immediate in bits 0-7) always execute: MOVS writes
/// the immediate to Rd, ADDS writes Rd + imm and SUBS Rd - imm (modulo 2^32), CMP writes no
/// register; no other register and no memory changes.
#[verifier::rlimit(60)]
pub proof fn lemma_imm8_arithmetic<B>(old: Cpu<B>, new: Cpu<B>, pc: u32, hw: u16, r: Result<ExecOutcome, String>)
    requires
        (hw & 0xE000) == 0x2000,
        decode_executed(old, new, pc, decode16_spec(pc, hw), r),
    ensures
        ({
            let rd = ((hw / 256) % 8) as int;
            let imm = (hw % 256) as int;
            let op = (hw / 2048) % 4;
            let x = old.regs()[rd] as int;
            &&& r is Ok
            &&& new.ram == old.ram && new.flash == old.flash
            &&& op == 0 ==> new.regs() == old.regs().update(rd, imm as u32)
            &&& op == 1 ==> new.regs() == old.regs()
            &&& op == 2 ==> new.regs() == old.regs().update(rd, ((x + imm) % 0x1_0000_0000) as u32)
            &&& op == 3 ==> new.regs() == old.regs().update(rd, ((x - imm) % 0x1_0000_0000) as u32)
        }),
{
    lemma_decode16_fields(pc, hw);
    let i = ThumbInstr::Imm8 { op: (hw / 2048) % 4, rd: ((hw / 256) % 8) as u32, imm: (hw % 256) as u32 };
    assert(decode16_spec(pc, hw) == Some(i));
    assert(exec_ready(old, pc, i));
    let out = r->Ok_0;
    assert(executed(old, new, pc, i, out));
    assert(imm8_done(old, new, (hw / 2048) % 4, ((hw / 256) % 8) as u32, (hw % 256) as u32));
}

/// LDR and STR with an immediate offset (`hw & 0xF000 == 0x6000`; load when bit 11 is set,
/// Rt in bits 0-2, Rn in bits 3-5, the offset in words in bits 6-10) access the word at
/// Rn + 4 * offset (modulo 2^32): LDR loads it into Rt, STR stores Rt there. When that word
/// is not mapped nothing changes and an error is reported.
#[verifier::rlimit(60)]
pub proof fn lemma_ldr_str_immediate_address<B>(old: Cpu<B>, new: Cpu<B>, pc: u32, hw: u16, r: Result<ExecOutcome, String>)
    requires
        (hw & 0xF000) == 0x6000,
        decode_executed(old, new, pc, decode16_spec(pc, hw), r),
    ensures
        ({
            let rt = (hw % 8) as u32;
            let rn = ((hw / 8) % 8) as int;
            let addr = ((old.regs()[rn] as int + ((hw / 64) % 32) as int * 4) % 0x1_0000_0000) as u32;
            &&& old.mapped(aligned_word(addr)) ==> r is Ok && if (hw / 2048) % 2 == 1 {
                loaded_into(old, new, rt, MemSize::Word, addr)
            } else {
                stored_from(old, new, MemSize::Word, addr, old.regs()[rt as int])
            }
            &&& !old.mapped(aligned_word(addr)) ==> r is Err && new == old
        }),
{
    lemma_decode16_fields(pc, hw);
}

} // verus!
