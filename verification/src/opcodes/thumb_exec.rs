//! Execution of decoded Thumb instructions against the core.
use vstd::prelude::*;
use crate::arch::ArmCC;
use crate::bits::{
    bit, nz_flags, nzcv_flags, apsr_with_nz, apsr_with_nzcv, apsr_with_c, apsr_with_v, with_bit,
    add_carry, add_overflow, sub_overflow, add_overflow_bit, sub_overflow_bit, sign_extend,
    sign_extend_spec, condition_holds, condition_passed, FLAG_C, FLAG_V,
};
use crate::bus::PeripheralBus;
use crate::context::CpuContext;
use crate::cpu::Cpu;
use crate::opcodes::thumb_decode::MemSize;
use crate::opcodes::thumb_runtime::{
    ShiftKind, shift_c, apply_shift, carry_of, current_carry, ExecOutcome, normal_outcome,
    load_outcome, branch_outcome, aligned_word, byte_in_word, half_in_word, merge_byte, merge_half,
    subword_stored, write_frame, read_u8, read_u16, write_u8, write_u16, in_mask, mask_count, mask_values,
    block_in_ram, block_mapped, count_ones, push_reg_mask, pop_reg_mask, ldm_mask, stm_mask, popped,
    pop_safe, ldm_done,
};
use crate::cpu::RAM_BASE;
use crate::memory::store_words;
use crate::opcodes::thumb_text::{t_reg, t_hex, t_dec, t_target, t_sep, t_list, w_reg, w_hex, w_dec, w_target, w_sep, reg_mask_to_string};
use crate::text::push_str;

verus! {

/// Only registers and the APSR changed, to `regs` and `apsr`.
pub open spec fn rstep<B>(old: Cpu<B>, new: Cpu<B>, regs: Seq<u32>, apsr: u32) -> bool {
    &&& new.regs() == regs
    &&& new.apsr() == apsr
    &&& new.same_except_regs(&old)
}

/// The outcome reports mnemonic `mn`, operand text `text`, `cycles` and `pc_update`.
pub open spec fn outcome_is(out: ExecOutcome, mn: Seq<char>, text: Seq<char>, cycles: u32, pc_update: u32) -> bool {
    &&& out.mnemonic@ == mn
    &&& out.op_str@ == text
    &&& out.execute_cycles == cycles
    &&& out.pc_update == pc_update
}

/// APSR after an addition that sets flags.
pub open spec fn add_flags(apsr: u32, a: u32, b: u32) -> u32 {
    nzcv_flags(apsr, a.wrapping_add(b), add_carry(a, b, 0), add_overflow(a, b, a.wrapping_add(b)))
}

/// APSR after a subtraction (or compare) that sets flags: C is "no borrow".
pub open spec fn sub_flags(apsr: u32, a: u32, b: u32) -> u32 {
    nzcv_flags(apsr, a.wrapping_sub(b), a >= b, sub_overflow(a, b, a.wrapping_sub(b)))
}

/// The value a load of `size` at `addr` takes out of the aligned word `w`.
pub open spec fn load_value(size: MemSize, w: u32, addr: u32) -> u32 {
    match size {
        MemSize::Word => w,
        MemSize::Byte => byte_in_word(w, addr),
        MemSize::Half => half_in_word(w, addr),
        MemSize::SignedByte => sign_extend_spec(byte_in_word(w, addr), 8) as u32,
        MemSize::SignedHalf => sign_extend_spec(half_in_word(w, addr), 16) as u32,
    }
}

/// `rt` was loaded from `addr`; nothing else changed.
pub open spec fn loaded_into<B>(old: Cpu<B>, new: Cpu<B>, rt: u32, size: MemSize, addr: u32) -> bool {
    &&& new.same_except_regs(&old)
    &&& new.apsr() == old.apsr()
    &&& new.regs() == old.regs().update(rt as int, new.regs()[rt as int])
    &&& (old.word(aligned_word(addr)) matches Some(w) ==> new.regs()[rt as int] == load_value(size, w, addr))
}

/// `v` was stored with `size` at `addr`; registers are unchanged.
pub open spec fn stored_from<B>(old: Cpu<B>, new: Cpu<B>, size: MemSize, addr: u32, v: u32) -> bool {
    &&& write_frame(old, new)
    &&& match size {
        MemSize::Word => old.stored(&new, aligned_word(addr), v),
        MemSize::Byte => subword_stored(old, new, addr, |w: u32| merge_byte(w, addr, v)),
        MemSize::Half => subword_stored(old, new, addr, |w: u32| merge_half(w, addr, v)),
        _ => false,
    }
}

/// Mnemonic of a conditional branch.
pub open spec fn cond_mnemonic(cond: ArmCC) -> Seq<char> {
    match cond {
        ArmCC::ARM_CC_EQ => "beq"@,
        ArmCC::ARM_CC_NE => "bne"@,
        ArmCC::ARM_CC_HS => "bhs"@,
        ArmCC::ARM_CC_LO => "blo"@,
        ArmCC::ARM_CC_MI => "bmi"@,
        ArmCC::ARM_CC_PL => "bpl"@,
        ArmCC::ARM_CC_VS => "bvs"@,
        ArmCC::ARM_CC_VC => "bvc"@,
        ArmCC::ARM_CC_HI => "bhi"@,
        ArmCC::ARM_CC_LS => "bls"@,
        ArmCC::ARM_CC_GE => "bge"@,
        ArmCC::ARM_CC_LT => "blt"@,
        ArmCC::ARM_CC_GT => "bgt"@,
        ArmCC::ARM_CC_LE => "ble"@,
        ArmCC::ARM_CC_AL => "b"@,
    }
}

pub fn cond_branch_mnemonic(cond: ArmCC) -> (m: &'static str)
    ensures
        m@ == cond_mnemonic(cond),
{
    match cond {
        ArmCC::ARM_CC_EQ => "beq",
        ArmCC::ARM_CC_NE => "bne",
        ArmCC::ARM_CC_HS => "bhs",
        ArmCC::ARM_CC_LO => "blo",
        ArmCC::ARM_CC_MI => "bmi",
        ArmCC::ARM_CC_PL => "bpl",
        ArmCC::ARM_CC_VS => "bvs",
        ArmCC::ARM_CC_VC => "bvc",
        ArmCC::ARM_CC_HI => "bhi",
        ArmCC::ARM_CC_LS => "bls",
        ArmCC::ARM_CC_GE => "bge",
        ArmCC::ARM_CC_LT => "blt",
        ArmCC::ARM_CC_GT => "bgt",
        ArmCC::ARM_CC_LE => "ble",
        ArmCC::ARM_CC_AL => "b",
    }
}

fn text_target(v: u32) -> (s: String)
    ensures
        s@ == t_target(v),
{
    let mut s = String::new();
    w_target(&mut s, v);
    assert(s@ =~= t_target(v));
    s
}

fn text_r_r(a: u32, b: u32) -> (s: String)
    ensures
        s@ == t_reg(a) + t_sep() + t_reg(b),
{
    let mut s = String::new();
    w_reg(&mut s, a);
    w_sep(&mut s);
    w_reg(&mut s, b);
    assert(s@ =~= t_reg(a) + t_sep() + t_reg(b));
    s
}

fn text_r_r_r(a: u32, b: u32, c: u32) -> (s: String)
    ensures
        s@ == t_reg(a) + t_sep() + t_reg(b) + t_sep() + t_reg(c),
{
    let mut s = text_r_r(a, b);
    w_sep(&mut s);
    w_reg(&mut s, c);
    s
}

/// B: branch to `target`.
pub fn exec_b<B: PeripheralBus>(cpu: &mut Cpu<B>, target: u32) -> (out: ExecOutcome)
    requires
        old(cpu).wf(),
    ensures
        rstep(*old(cpu), *final(cpu), old(cpu).regs().update(15, target), old(cpu).apsr()),
        outcome_is(out, "b"@, t_target(target), 2, 0),
{
    cpu.write_pc(target);
    branch_outcome("b", text_target(target), 2)
}

/// B<cond>: branch to `target` when the condition holds.
pub fn exec_bcond<B: PeripheralBus>(cpu: &mut Cpu<B>, cond: ArmCC, target: u32) -> (out: ExecOutcome)
    requires
        old(cpu).wf(),
    ensures
        condition_holds(old(cpu).apsr(), cond) ==> rstep(*old(cpu), *final(cpu), old(cpu).regs().update(15, target), old(cpu).apsr())
            && outcome_is(out, cond_mnemonic(cond), t_target(target), 2, 0),
        !condition_holds(old(cpu).apsr(), cond) ==> *final(cpu) == *old(cpu)
            && outcome_is(out, cond_mnemonic(cond), t_target(target), 1, 2),
{
    let mnemonic = cond_branch_mnemonic(cond);
    if condition_passed(cpu.read_apsr(), cond) {
        cpu.write_pc(target);
        return branch_outcome(mnemonic, text_target(target), 2);
    }
    normal_outcome(mnemonic, text_target(target), 1, 2)
}

/// CBZ / CBNZ: branch to `target` when `rn` is zero (non-zero).
pub fn exec_cbz<B: PeripheralBus>(cpu: &mut Cpu<B>, nonzero: bool, rn: u32, target: u32) -> (out: ExecOutcome)
    requires
        old(cpu).wf(),
        rn < 16,
    ensures
        ({
            let value = old(cpu).regs()[rn as int];
            let taken = if nonzero { value != 0 } else { value == 0 };
            &&& taken ==> rstep(*old(cpu), *final(cpu), old(cpu).regs().update(15, target), old(cpu).apsr())
            &&& !taken ==> *final(cpu) == *old(cpu)
            &&& outcome_is(out, if nonzero { "cbnz"@ } else { "cbz"@ }, t_reg(rn) + t_sep() + t_target(target), 1, if taken { 0 } else { 2 })
        }),
{
    let value = cpu.read_reg(rn);
    let taken = if nonzero { value != 0 } else { value == 0 };
    if taken {
        cpu.write_pc(target);
    }
    let mut s = String::new();
    w_reg(&mut s, rn);
    w_sep(&mut s);
    w_target(&mut s, target);
    assert(s@ =~= t_reg(rn) + t_sep() + t_target(target));
    ExecOutcome {
        mnemonic: if nonzero { "cbnz" } else { "cbz" },
        op_str: s,
        execute_cycles: 1,
        pc_update: if taken { 0 } else { 2 },
    }
}

/// BL: LR gets the return address (`pc + 4`, Thumb bit set), then branch to `target`.
pub fn exec_bl<B: PeripheralBus>(cpu: &mut Cpu<B>, pc: u32, target: u32) -> (out: ExecOutcome)
    requires
        old(cpu).wf(),
    ensures
        rstep(*old(cpu), *final(cpu), old(cpu).regs().update(14, pc.wrapping_add(4) | 1).update(15, target), old(cpu).apsr()),
        outcome_is(out, "bl"@, t_target(target), 2, 0),
{
    cpu.write_lr(pc.wrapping_add(4) | 1);
    cpu.write_pc(target);
    branch_outcome("bl", text_target(target), 2)
}

/// BX / BLX: branch to the address in `rm` (bit 0 cleared); BLX also sets LR to the
/// return address `pc + 2` with the Thumb bit.
pub fn exec_bx<B: PeripheralBus>(cpu: &mut Cpu<B>, pc: u32, rm: u32, link: bool) -> (out: ExecOutcome)
    requires
        old(cpu).wf(),
        rm < 16,
    ensures
        ({
            let target = old(cpu).regs()[rm as int] & !1u32;
            let regs = if link { old(cpu).regs().update(14, pc.wrapping_add(2) | 1) } else { old(cpu).regs() };
            &&& rstep(*old(cpu), *final(cpu), regs.update(15, target), old(cpu).apsr())
            &&& outcome_is(out, if link { "blx"@ } else { "bx"@ }, t_reg(rm), 2, 0)
        }),
{
    let target = cpu.read_reg(rm);
    let mut s = String::new();
    w_reg(&mut s, rm);
    assert(s@ =~= t_reg(rm));
    if link {
        let return_addr = pc.wrapping_add(2) | 1;
        cpu.write_lr(return_addr);
        cpu.write_pc(target & !1u32);
        branch_outcome("blx", s, 2)
    } else {
        cpu.write_pc(target & !1u32);
        branch_outcome("bx", s, 2)
    }
}

/// Loads a value of `size` from `addr`.
pub fn load_sized<B: PeripheralBus>(cpu: &Cpu<B>, size: MemSize, addr: u32) -> (v: u32)
    requires
        cpu.wf(),
        cpu.mapped(aligned_word(addr)),
    ensures
        cpu.word(aligned_word(addr)) matches Some(w) ==> v == load_value(size, w, addr),
{
    match size {
        MemSize::Word => cpu.read_mem(addr & !3u32),
        MemSize::Byte => read_u8(cpu, addr),
        MemSize::Half => read_u16(cpu, addr),
        MemSize::SignedByte => sign_extend(read_u8(cpu, addr), 8) as u32,
        MemSize::SignedHalf => sign_extend(read_u16(cpu, addr), 16) as u32,
    }
}

/// Stores `v` with `size` (word, byte or halfword) at `addr`.
pub fn store_sized<B: PeripheralBus>(cpu: &mut Cpu<B>, size: MemSize, addr: u32, v: u32)
    requires
        old(cpu).wf(),
        old(cpu).mapped(aligned_word(addr)),
        size is Word || size is Byte || size is Half,
    ensures
        stored_from(*old(cpu), *final(cpu), size, addr, v),
{
    match size {
        MemSize::Word => cpu.write_mem(addr & !3u32, v),
        MemSize::Byte => write_u8(cpu, addr, v),
        _ => write_u16(cpu, addr, v),
    }
}

/// Mnemonic of a load.
pub open spec fn load_mnemonic(size: MemSize, wide: bool) -> Seq<char> {
    match size {
        MemSize::Word => if wide { "ldr.w"@ } else { "ldr"@ },
        MemSize::Byte => if wide { "ldrb.w"@ } else { "ldrb"@ },
        MemSize::Half => if wide { "ldrh.w"@ } else { "ldrh"@ },
        MemSize::SignedByte => "ldrsb"@,
        MemSize::SignedHalf => "ldrsh"@,
    }
}

/// Mnemonic of a store.
pub open spec fn store_mnemonic(size: MemSize, wide: bool) -> Seq<char> {
    match size {
        MemSize::Word => if wide { "str.w"@ } else { "str"@ },
        MemSize::Byte => if wide { "strb.w"@ } else { "strb"@ },
        _ => if wide { "strh.w"@ } else { "strh"@ },
    }
}

fn load_mnemonic_str(size: MemSize, wide: bool) -> (m: &'static str)
    ensures
        m@ == load_mnemonic(size, wide),
{
    match size {
        MemSize::Word => if wide { "ldr.w" } else { "ldr" },
        MemSize::Byte => if wide { "ldrb.w" } else { "ldrb" },
        MemSize::Half => if wide { "ldrh.w" } else { "ldrh" },
        MemSize::SignedByte => "ldrsb",
        MemSize::SignedHalf => "ldrsh",
    }
}

fn store_mnemonic_str(size: MemSize, wide: bool) -> (m: &'static str)
    ensures
        m@ == store_mnemonic(size, wide),
{
    match size {
        MemSize::Word => if wide { "str.w" } else { "str" },
        MemSize::Byte => if wide { "strb.w" } else { "strb" },
        _ => if wide { "strh.w" } else { "strh" },
    }
}

/// `r<t>, [r<n>, #0x<imm>]`.
pub open spec fn t_mem_imm(rt: u32, rn: u32, imm: u32) -> Seq<char> {
    t_reg(rt) + seq![',', ' ', '['] + t_reg(rn) + t_sep() + t_hex(imm) + seq![']']
}

/// `r<t>, [r<n>, r<m>]`.
pub open spec fn t_mem_reg(rt: u32, rn: u32, rm: u32) -> Seq<char> {
    t_reg(rt) + seq![',', ' ', '['] + t_reg(rn) + t_sep() + t_reg(rm) + seq![']']
}

/// `r<t>, [<base>, #0x<imm>]` for a named base register (`pc` or `sp`).
pub open spec fn t_mem_named(rt: u32, base: Seq<char>, imm: u32) -> Seq<char> {
    t_reg(rt) + seq![',', ' ', '['] + base + t_sep() + t_hex(imm) + seq![']']
}

fn text_mem_imm(rt: u32, rn: u32, imm: u32) -> (s: String)
    ensures
        s@ == t_mem_imm(rt, rn, imm),
{
    let mut s = String::new();
    w_reg(&mut s, rt);
    push_str(&mut s, ", [");
    w_reg(&mut s, rn);
    w_sep(&mut s);
    w_hex(&mut s, imm);
    push_str(&mut s, "]");
    proof {
        reveal_strlit(", [");
        reveal_strlit("]");
    }
    assert(s@ =~= t_mem_imm(rt, rn, imm));
    s
}

fn text_mem_reg(rt: u32, rn: u32, rm: u32) -> (s: String)
    ensures
        s@ == t_mem_reg(rt, rn, rm),
{
    let mut s = String::new();
    w_reg(&mut s, rt);
    push_str(&mut s, ", [");
    w_reg(&mut s, rn);
    w_sep(&mut s);
    w_reg(&mut s, rm);
    push_str(&mut s, "]");
    proof {
        reveal_strlit(", [");
        reveal_strlit("]");
    }
    assert(s@ =~= t_mem_reg(rt, rn, rm));
    s
}

fn text_mem_named(rt: u32, base: &str, imm: u32) -> (s: String)
    ensures
        s@ == t_mem_named(rt, base@, imm),
{
    let mut s = String::new();
    w_reg(&mut s, rt);
    push_str(&mut s, ", [");
    push_str(&mut s, base);
    w_sep(&mut s);
    w_hex(&mut s, imm);
    push_str(&mut s, "]");
    proof {
        reveal_strlit(", [");
        reveal_strlit("]");
    }
    assert(s@ =~= t_mem_named(rt, base@, imm));
    s
}

/// LDR (literal): loads the word at `((pc + 4) & !3) + imm`.
pub fn exec_ldr_literal<B: PeripheralBus>(cpu: &mut Cpu<B>, pc: u32, rt: u32, imm: u32, wide: bool) -> (out: ExecOutcome)
    requires
        old(cpu).wf(),
        rt < 16,
        old(cpu).mapped(aligned_word((pc.wrapping_add(4) & !3u32).wrapping_add(imm))),
    ensures
        loaded_into(*old(cpu), *final(cpu), rt, MemSize::Word, (pc.wrapping_add(4) & !3u32).wrapping_add(imm)),
        outcome_is(out, if wide { "ldr.w"@ } else { "ldr"@ }, t_mem_named(rt, "pc"@, imm), 2, if rt == 15 { 0 } else if wide { 4 } else { 2 }),
{
    let base = pc.wrapping_add(4) & !3u32;
    let addr = base.wrapping_add(imm);
    let value = cpu.read_mem(addr & !3u32);
    cpu.write_reg(rt, value);
    let text = text_mem_named(rt, "pc", imm);
    load_outcome(if wide { "ldr.w" } else { "ldr" }, text, rt, if wide { 4 } else { 2 })
}

/// LDR/LDRB/LDRH (immediate offset): loads from `rn + imm`.
pub fn exec_load_imm<B: PeripheralBus>(cpu: &mut Cpu<B>, size: MemSize, rt: u32, rn: u32, imm: u32, wide: bool) -> (out: ExecOutcome)
    requires
        old(cpu).wf(),
        rt < 16,
        rn < 16,
        old(cpu).mapped(aligned_word(old(cpu).regs()[rn as int].wrapping_add(imm))),
    ensures
        loaded_into(*old(cpu), *final(cpu), rt, size, old(cpu).regs()[rn as int].wrapping_add(imm)),
        outcome_is(out, load_mnemonic(size, wide), t_mem_imm(rt, rn, imm), 2, if rt == 15 { 0 } else if wide { 4 } else { 2 }),
{
    let addr = cpu.read_reg(rn).wrapping_add(imm);
    let value = load_sized(cpu, size, addr);
    cpu.write_reg(rt, value);
    load_outcome(load_mnemonic_str(size, wide), text_mem_imm(rt, rn, imm), rt, if wide { 4 } else { 2 })
}

/// STR/STRB/STRH (immediate offset): stores `rt` at `rn + imm`.
pub fn exec_store_imm<B: PeripheralBus>(cpu: &mut Cpu<B>, size: MemSize, rt: u32, rn: u32, imm: u32, wide: bool) -> (out: ExecOutcome)
    requires
        old(cpu).wf(),
        rt < 16,
        rn < 16,
        size is Word || size is Byte || size is Half,
        old(cpu).mapped(aligned_word(old(cpu).regs()[rn as int].wrapping_add(imm))),
    ensures
        stored_from(*old(cpu), *final(cpu), size, old(cpu).regs()[rn as int].wrapping_add(imm), old(cpu).regs()[rt as int]),
        outcome_is(out, store_mnemonic(size, wide), t_mem_imm(rt, rn, imm), 1, if wide { 4 } else { 2 }),
{
    let addr = cpu.read_reg(rn).wrapping_add(imm);
    let value = cpu.read_reg(rt);
    store_sized(cpu, size, addr, value);
    normal_outcome(store_mnemonic_str(size, wide), text_mem_imm(rt, rn, imm), 1, if wide { 4 } else { 2 })
}

/// LDR/LDRB/LDRH/LDRSB/LDRSH (register offset): loads from `rn + rm`.
pub fn exec_load_reg<B: PeripheralBus>(cpu: &mut Cpu<B>, size: MemSize, rt: u32, rn: u32, rm: u32) -> (out: ExecOutcome)
    requires
        old(cpu).wf(),
        rt < 16,
        rn < 16,
        rm < 16,
        old(cpu).mapped(aligned_word(old(cpu).regs()[rn as int].wrapping_add(old(cpu).regs()[rm as int]))),
    ensures
        loaded_into(*old(cpu), *final(cpu), rt, size, old(cpu).regs()[rn as int].wrapping_add(old(cpu).regs()[rm as int])),
        outcome_is(out, load_mnemonic(size, false), t_mem_reg(rt, rn, rm), 2, if rt == 15 { 0 } else { 2 }),
{
    let addr = cpu.read_reg(rn).wrapping_add(cpu.read_reg(rm));
    let value = load_sized(cpu, size, addr);
    cpu.write_reg(rt, value);
    load_outcome(load_mnemonic_str(size, false), text_mem_reg(rt, rn, rm), rt, 2)
}

/// STR/STRB/STRH (register offset): stores `rt` at `rn + rm`.
pub fn exec_store_reg<B: PeripheralBus>(cpu: &mut Cpu<B>, size: MemSize, rt: u32, rn: u32, rm: u32) -> (out: ExecOutcome)
    requires
        old(cpu).wf(),
        rt < 16,
        rn < 16,
        rm < 16,
        size is Word || size is Byte || size is Half,
        old(cpu).mapped(aligned_word(old(cpu).regs()[rn as int].wrapping_add(old(cpu).regs()[rm as int]))),
    ensures
        stored_from(*old(cpu), *final(cpu), size, old(cpu).regs()[rn as int].wrapping_add(old(cpu).regs()[rm as int]), old(cpu).regs()[rt as int]),
        outcome_is(out, store_mnemonic(size, false), t_mem_reg(rt, rn, rm), 1, 2),
{
    let addr = cpu.read_reg(rn).wrapping_add(cpu.read_reg(rm));
    let value = cpu.read_reg(rt);
    store_sized(cpu, size, addr, value);
    normal_outcome(store_mnemonic_str(size, false), text_mem_reg(rt, rn, rm), 1, 2)
}

/// LDR (SP-relative): loads the word at `sp + imm`.
pub fn exec_load_sp<B: PeripheralBus>(cpu: &mut Cpu<B>, rt: u32, imm: u32) -> (out: ExecOutcome)
    requires
        old(cpu).wf(),
        rt < 16,
        old(cpu).mapped(aligned_word(old(cpu).regs()[13].wrapping_add(imm))),
    ensures
        loaded_into(*old(cpu), *final(cpu), rt, MemSize::Word, old(cpu).regs()[13].wrapping_add(imm)),
        outcome_is(out, "ldr"@, t_mem_named(rt, "sp"@, imm), 2, if rt == 15 { 0 } else { 2 }),
{
    let addr = cpu.read_sp().wrapping_add(imm);
    let value = cpu.read_mem(addr & !3u32);
    cpu.write_reg(rt, value);
    load_outcome("ldr", text_mem_named(rt, "sp", imm), rt, 2)
}

/// STR (SP-relative): stores `rt` at `sp + imm`.
pub fn exec_store_sp<B: PeripheralBus>(cpu: &mut Cpu<B>, rt: u32, imm: u32) -> (out: ExecOutcome)
    requires
        old(cpu).wf(),
        rt < 16,
        old(cpu).mapped(aligned_word(old(cpu).regs()[13].wrapping_add(imm))),
    ensures
        stored_from(*old(cpu), *final(cpu), MemSize::Word, old(cpu).regs()[13].wrapping_add(imm), old(cpu).regs()[rt as int]),
        outcome_is(out, "str"@, t_mem_named(rt, "sp"@, imm), 1, 2),
{
    let addr = cpu.read_sp().wrapping_add(imm);
    let value = cpu.read_reg(rt);
    cpu.write_mem(addr & !3u32, value);
    normal_outcome("str", text_mem_named(rt, "sp", imm), 1, 2)
}

/// APSR after a shift that sets flags: N and Z, and C when the amount is not zero.
pub open spec fn shift_flags(apsr: u32, result: u32, carry: u8, amount: u32) -> u32 {
    if amount != 0 {
        with_bit(nz_flags(apsr, result), FLAG_C, carry != 0)
    } else {
        nz_flags(apsr, result)
    }
}

fn set_flags_nz<B: PeripheralBus>(cpu: &mut Cpu<B>, result: u32)
    requires
        old(cpu).wf(),
    ensures
        rstep(*old(cpu), *final(cpu), old(cpu).regs(), nz_flags(old(cpu).apsr(), result)),
{
    let a = apsr_with_nz(cpu.read_apsr(), result);
    cpu.write_apsr(a);
}

/// Sets N, Z, C and V as a subtraction `lhs - rhs` does.
pub fn update_sub_flags<B: PeripheralBus>(cpu: &mut Cpu<B>, lhs: u32, rhs: u32, result: u32)
    requires
        old(cpu).wf(),
        result == lhs.wrapping_sub(rhs),
    ensures
        rstep(*old(cpu), *final(cpu), old(cpu).regs(), sub_flags(old(cpu).apsr(), lhs, rhs)),
{
    let v = sub_overflow_bit(lhs, rhs, result);
    let a = apsr_with_nzcv(cpu.read_apsr(), result, lhs >= rhs, v != 0);
    cpu.write_apsr(a);
}

/// ADD with an already computed second operand: `rd = rn + rhs`, flags when `setflags`.
pub open spec fn add_done<B>(old: Cpu<B>, new: Cpu<B>, rd: u32, rn: u32, rhs: u32, setflags: bool) -> bool {
    let lhs = old.regs()[rn as int];
    rstep(old, new, old.regs().update(rd as int, lhs.wrapping_add(rhs)), if setflags { add_flags(old.apsr(), lhs, rhs) } else { old.apsr() })
}

/// SUB with an already computed second operand: `rd = rn - rhs`, flags when `setflags`.
pub open spec fn sub_done<B>(old: Cpu<B>, new: Cpu<B>, rd: u32, rn: u32, rhs: u32, setflags: bool) -> bool {
    let lhs = old.regs()[rn as int];
    rstep(old, new, old.regs().update(rd as int, lhs.wrapping_sub(rhs)), if setflags { sub_flags(old.apsr(), lhs, rhs) } else { old.apsr() })
}

pub fn execute_add<B: PeripheralBus>(cpu: &mut Cpu<B>, rd: u32, rn: u32, rhs: u32, setflags: bool, op_str: String, size: u32) -> (out: ExecOutcome)
    requires
        old(cpu).wf(),
        rd < 16,
        rn < 16,
    ensures
        add_done(*old(cpu), *final(cpu), rd, rn, rhs, setflags),
        outcome_is(out, if setflags { "adds"@ } else { "add.w"@ }, op_str@, 1, if rd == 15 { 0 } else { size }),
{
    let lhs = cpu.read_reg(rn);
    let result = lhs.wrapping_add(rhs);
    cpu.write_reg(rd, result);
    if setflags {
        let c = if (lhs as u64) + (rhs as u64) > 0xFFFF_FFFF { true } else { false };
        let v = add_overflow_bit(lhs, rhs, result);
        let a = apsr_with_nzcv(cpu.read_apsr(), result, c, v != 0);
        cpu.write_apsr(a);
    }
    normal_outcome(if setflags { "adds" } else { "add.w" }, op_str, 1, if rd == 15 { 0 } else { size })
}

pub fn execute_sub<B: PeripheralBus>(cpu: &mut Cpu<B>, rd: u32, rn: u32, rhs: u32, setflags: bool, op_str: String, size: u32) -> (out: ExecOutcome)
    requires
        old(cpu).wf(),
        rd < 16,
        rn < 16,
    ensures
        sub_done(*old(cpu), *final(cpu), rd, rn, rhs, setflags),
        outcome_is(out, if setflags { "subs"@ } else { "sub.w"@ }, op_str@, 1, if rd == 15 { 0 } else { size }),
{
    let lhs = cpu.read_reg(rn);
    let result = lhs.wrapping_sub(rhs);
    cpu.write_reg(rd, result);
    if setflags {
        update_sub_flags(cpu, lhs, rhs, result);
    }
    normal_outcome(if setflags { "subs" } else { "sub.w" }, op_str, 1, if rd == 15 { 0 } else { size })
}

/// ADD/SUB SP, SP, #imm.
pub fn exec_adjust_sp<B: PeripheralBus>(cpu: &mut Cpu<B>, subtract: bool, imm: u32) -> (out: ExecOutcome)
    requires
        old(cpu).wf(),
    ensures
        ({
            let sp = old(cpu).regs()[13];
            rstep(*old(cpu), *final(cpu), old(cpu).regs().update(13, if subtract { sp.wrapping_sub(imm) } else { sp.wrapping_add(imm) }), old(cpu).apsr())
        }),
        outcome_is(out, if subtract { "sub"@ } else { "add"@ }, seq!['s', 'p'] + t_sep() + t_hex(imm), 1, 2),
{
    let sp = cpu.read_sp();
    let result = if subtract { sp.wrapping_sub(imm) } else { sp.wrapping_add(imm) };
    cpu.write_sp(result);
    let mut s = String::new();
    push_str(&mut s, "sp");
    w_sep(&mut s);
    w_hex(&mut s, imm);
    proof {
        reveal_strlit("sp");
    }
    assert(s@ =~= seq!['s', 'p'] + t_sep() + t_hex(imm));
    normal_outcome(if subtract { "sub" } else { "add" }, s, 1, 2)
}

/// ADR: `rd` gets the PC-relative address `value`.
pub fn exec_adr<B: PeripheralBus>(cpu: &mut Cpu<B>, rd: u32, value: u32) -> (out: ExecOutcome)
    requires
        old(cpu).wf(),
        rd < 16,
    ensures
        rstep(*old(cpu), *final(cpu), old(cpu).regs().update(rd as int, value), old(cpu).apsr()),
        outcome_is(out, "adr"@, t_reg(rd) + t_sep() + t_target(value), 1, 2),
{
    cpu.write_reg(rd, value);
    let mut s = String::new();
    w_reg(&mut s, rd);
    w_sep(&mut s);
    w_target(&mut s, value);
    assert(s@ =~= t_reg(rd) + t_sep() + t_target(value));
    normal_outcome("adr", s, 1, 2)
}

/// ADD rd, SP, #imm.
pub fn exec_add_sp_imm<B: PeripheralBus>(cpu: &mut Cpu<B>, rd: u32, imm: u32) -> (out: ExecOutcome)
    requires
        old(cpu).wf(),
        rd < 16,
    ensures
        rstep(*old(cpu), *final(cpu), old(cpu).regs().update(rd as int, old(cpu).regs()[13].wrapping_add(imm)), old(cpu).apsr()),
        outcome_is(out, "add"@, t_reg(rd) + seq![',', ' ', 's', 'p'] + t_sep() + t_hex(imm), 1, 2),
{
    let value = cpu.read_sp().wrapping_add(imm);
    cpu.write_reg(rd, value);
    let mut s = String::new();
    w_reg(&mut s, rd);
    push_str(&mut s, ", sp");
    w_sep(&mut s);
    w_hex(&mut s, imm);
    proof {
        reveal_strlit(", sp");
    }
    assert(s@ =~= t_reg(rd) + seq![',', ' ', 's', 'p'] + t_sep() + t_hex(imm));
    normal_outcome("add", s, 1, 2)
}

/// ADD rdn, rm (high registers, no flags).
pub fn exec_add_high<B: PeripheralBus>(cpu: &mut Cpu<B>, rdn: u32, rm: u32) -> (out: ExecOutcome)
    requires
        old(cpu).wf(),
        rdn < 16,
        rm < 16,
    ensures
        rstep(*old(cpu), *final(cpu), old(cpu).regs().update(rdn as int, old(cpu).regs()[rdn as int].wrapping_add(old(cpu).regs()[rm as int])), old(cpu).apsr()),
        outcome_is(out, "add"@, t_reg(rdn) + t_sep() + t_reg(rm), 1, 2),
{
    let result = cpu.read_reg(rdn).wrapping_add(cpu.read_reg(rm));
    cpu.write_reg(rdn, result);
    normal_outcome("add", text_r_r(rdn, rm), 1, 2)
}

/// CMP rdn, rm (high registers).
pub fn exec_compare_high<B: PeripheralBus>(cpu: &mut Cpu<B>, rdn: u32, rm: u32) -> (out: ExecOutcome)
    requires
        old(cpu).wf(),
        rdn < 16,
        rm < 16,
    ensures
        rstep(*old(cpu), *final(cpu), old(cpu).regs(), sub_flags(old(cpu).apsr(), old(cpu).regs()[rdn as int], old(cpu).regs()[rm as int])),
        outcome_is(out, "cmp"@, t_reg(rdn) + t_sep() + t_reg(rm), 1, 2),
{
    let lhs = cpu.read_reg(rdn);
    let rhs = cpu.read_reg(rm);
    update_sub_flags(cpu, lhs, rhs, lhs.wrapping_sub(rhs));
    normal_outcome("cmp", text_r_r(rdn, rm), 1, 2)
}

/// MOV rdn, rm (high registers, no flags).
pub fn exec_mov_high<B: PeripheralBus>(cpu: &mut Cpu<B>, rdn: u32, rm: u32) -> (out: ExecOutcome)
    requires
        old(cpu).wf(),
        rdn < 16,
        rm < 16,
    ensures
        rstep(*old(cpu), *final(cpu), old(cpu).regs().update(rdn as int, old(cpu).regs()[rm as int]), old(cpu).apsr()),
        outcome_is(out, "mov"@, t_reg(rdn) + t_sep() + t_reg(rm), 1, if rdn == 15 { 0 } else { 2 }),
{
    let value = cpu.read_reg(rm);
    cpu.write_reg(rdn, value);
    normal_outcome("mov", text_r_r(rdn, rm), 1, if rdn == 15 { 0 } else { 2 })
}

/// Mnemonic of a flag-setting shift.
pub open spec fn shift_mnemonic(kind: ShiftKind) -> Seq<char> {
    match kind {
        ShiftKind::Lsl => "lsls"@,
        ShiftKind::Lsr => "lsrs"@,
        ShiftKind::Asr => "asrs"@,
        ShiftKind::Ror => "rors"@,
    }
}

fn shift_mnemonic_str(kind: ShiftKind) -> (m: &'static str)
    ensures
        m@ == shift_mnemonic(kind),
{
    match kind {
        ShiftKind::Lsl => "lsls",
        ShiftKind::Lsr => "lsrs",
        ShiftKind::Asr => "asrs",
        ShiftKind::Ror => "rors",
    }
}

/// `rd` gets `value` shifted by `amount`; with `setflags`, N and Z follow the result and C
/// the carry out (C only when `amount` is not zero).
pub open spec fn shifted<B>(old: Cpu<B>, new: Cpu<B>, kind: ShiftKind, rd: u32, value: u32, amount: u32, setflags: bool) -> bool {
    let r = shift_c(value, kind, amount, carry_of(old.apsr()));
    rstep(old, new, old.regs().update(rd as int, r.0), if setflags { shift_flags(old.apsr(), r.0, r.1, amount) } else { old.apsr() })
}

fn shift_into<B: PeripheralBus>(cpu: &mut Cpu<B>, kind: ShiftKind, rd: u32, value: u32, amount: u32, setflags: bool)
    requires
        old(cpu).wf(),
        rd < 16,
    ensures
        shifted(*old(cpu), *final(cpu), kind, rd, value, amount, setflags),
{
    let (result, carry) = apply_shift(value, kind, amount, current_carry(cpu.read_apsr()));
    cpu.write_reg(rd, result);
    if setflags {
        let mut a = apsr_with_nz(cpu.read_apsr(), result);
        if amount != 0 {
            a = apsr_with_c(a, carry);
        }
        cpu.write_apsr(a);
    }
}

/// LSLS/LSRS/ASRS (immediate): `rd = rm` shifted by `amount`, flags set.
pub fn exec_shift_imm<B: PeripheralBus>(cpu: &mut Cpu<B>, kind: ShiftKind, rd: u32, rm: u32, amount: u32) -> (out: ExecOutcome)
    requires
        old(cpu).wf(),
        rd < 16,
        rm < 16,
    ensures
        shifted(*old(cpu), *final(cpu), kind, rd, old(cpu).regs()[rm as int], amount, true),
        outcome_is(out, shift_mnemonic(kind), t_reg(rd) + t_sep() + t_dec(amount), 1, if rd == 15 { 0 } else { 2 }),
{
    let value = cpu.read_reg(rm);
    shift_into(cpu, kind, rd, value, amount, true);
    let mut s = String::new();
    w_reg(&mut s, rd);
    w_sep(&mut s);
    w_dec(&mut s, amount);
    assert(s@ =~= t_reg(rd) + t_sep() + t_dec(amount));
    normal_outcome(shift_mnemonic_str(kind), s, 1, if rd == 15 { 0 } else { 2 })
}

/// Shift by a register value: `rd = rm` shifted by `amount`; the operand text names the
/// amount as a register, `r<rd>, r<rm>, r<amount>`.
pub fn exec_shift_reg<B: PeripheralBus>(
    cpu: &mut Cpu<B>,
    mnemonic: &'static str,
    kind: ShiftKind,
    rd: u32,
    rm: u32,
    amount: u32,
    setflags: bool,
    size: u32,
) -> (out: ExecOutcome)
    requires
        old(cpu).wf(),
        rd < 16,
        rm < 16,
    ensures
        shifted(*old(cpu), *final(cpu), kind, rd, old(cpu).regs()[rm as int], amount, setflags),
        outcome_is(out, mnemonic@, t_reg(rd) + t_sep() + t_reg(rm) + t_sep() + t_reg(amount), 1, if rd == 15 { 0 } else { size }),
{
    let value = cpu.read_reg(rm);
    shift_into(cpu, kind, rd, value, amount, setflags);
    normal_outcome(mnemonic, text_r_r_r(rd, rm, amount), 1, if rd == 15 { 0 } else { size })
}

/// The shift kind of a shift-by-register data-processing opcode (2, 3, 4 or 7).
pub open spec fn dp_shift_kind(op: u16) -> ShiftKind {
    if op == 2 {
        ShiftKind::Lsl
    } else if op == 3 {
        ShiftKind::Lsr
    } else if op == 4 {
        ShiftKind::Asr
    } else {
        ShiftKind::Ror
    }
}

pub open spec fn dp_is_shift(op: u16) -> bool {
    op == 2 || op == 3 || op == 4 || op == 7
}

/// Result of a non-shift 16-bit data-processing opcode: the value written to `rdn` (none
/// for TST, CMP and CMN) and the new APSR. ADCS, SBCS and CMN leave V as it was.
pub open spec fn dp_effect(op: u16, lhs: u32, rhs: u32, apsr: u32) -> (Option<u32>, u32) {
    let c = carry_of(apsr) as u32;
    if op == 0 {
        (Some(lhs & rhs), nz_flags(apsr, lhs & rhs))
    } else if op == 5 {
        let r = lhs.wrapping_add(rhs).wrapping_add(c);
        (Some(r), with_bit(nz_flags(apsr, r), FLAG_C, lhs + rhs + c > 0xFFFF_FFFF))
    } else if op == 6 {
        let borrow = (1 - c) as u32;
        let r = lhs.wrapping_sub(rhs).wrapping_sub(borrow);
        (Some(r), with_bit(nz_flags(apsr, r), FLAG_C, lhs >= rhs + borrow))
    } else if op == 8 {
        (None, nz_flags(apsr, lhs & rhs))
    } else if op == 9 {
        let r = 0u32.wrapping_sub(rhs);
        (Some(r), with_bit(with_bit(nz_flags(apsr, r), FLAG_C, rhs == 0), FLAG_V, rhs == 0x8000_0000))
    } else if op == 10 {
        (None, sub_flags(apsr, lhs, rhs))
    } else if op == 11 {
        (None, with_bit(nz_flags(apsr, lhs.wrapping_add(rhs)), FLAG_C, lhs + rhs > 0xFFFF_FFFF))
    } else if op == 12 {
        (Some(lhs | rhs), nz_flags(apsr, lhs | rhs))
    } else if op == 13 {
        (Some(lhs.wrapping_mul(rhs)), nz_flags(apsr, lhs.wrapping_mul(rhs)))
    } else if op == 14 {
        (Some(lhs & !rhs), nz_flags(apsr, lhs & !rhs))
    } else {
        (Some(!rhs), nz_flags(apsr, !rhs))
    }
}

/// Mnemonic of a 16-bit data-processing opcode.
pub open spec fn dp_mnemonic(op: u16) -> Seq<char> {
    if op == 0 {
        "ands"@
    } else if dp_is_shift(op) {
        shift_mnemonic(dp_shift_kind(op))
    } else if op == 5 {
        "adcs"@
    } else if op == 6 {
        "sbcs"@
    } else if op == 8 {
        "tst"@
    } else if op == 9 {
        "rsbs"@
    } else if op == 10 {
        "cmp"@
    } else if op == 11 {
        "cmn"@
    } else if op == 12 {
        "orrs"@
    } else if op == 13 {
        "muls"@
    } else if op == 14 {
        "bics"@
    } else {
        "mvns"@
    }
}

fn dp_mnemonic_str(op: u16) -> (m: &'static str)
    requires
        !dp_is_shift(op),
    ensures
        m@ == dp_mnemonic(op),
{
    if op == 0 {
        "ands"
    } else if op == 5 {
        "adcs"
    } else if op == 6 {
        "sbcs"
    } else if op == 8 {
        "tst"
    } else if op == 9 {
        "rsbs"
    } else if op == 10 {
        "cmp"
    } else if op == 11 {
        "cmn"
    } else if op == 12 {
        "orrs"
    } else if op == 13 {
        "muls"
    } else if op == 14 {
        "bics"
    } else {
        "mvns"
    }
}

fn dp_compute(op: u16, lhs: u32, rhs: u32, apsr: u32) -> (r: (Option<u32>, u32))
    requires
        !dp_is_shift(op),
    ensures
        r == dp_effect(op, lhs, rhs, apsr),
{
    let c = current_carry(apsr) as u32;
    if op == 0 {
        (Some(lhs & rhs), apsr_with_nz(apsr, lhs & rhs))
    } else if op == 5 {
        let wide = lhs as u64 + rhs as u64 + c as u64;
        let r = lhs.wrapping_add(rhs).wrapping_add(c);
        (Some(r), apsr_with_c(apsr_with_nz(apsr, r), if wide > 0xFFFF_FFFF { 1 } else { 0 }))
    } else if op == 6 {
        let borrow = 1u32 - c;
        let r = lhs.wrapping_sub(rhs).wrapping_sub(borrow);
        (Some(r), apsr_with_c(apsr_with_nz(apsr, r), if lhs as u64 >= rhs as u64 + borrow as u64 { 1 } else { 0 }))
    } else if op == 8 {
        (None, apsr_with_nz(apsr, lhs & rhs))
    } else if op == 9 {
        let r = 0u32.wrapping_sub(rhs);
        let a = apsr_with_c(apsr_with_nz(apsr, r), if rhs == 0 { 1 } else { 0 });
        (Some(r), apsr_with_v(a, if rhs == 0x8000_0000 { 1 } else { 0 }))
    } else if op == 10 {
        let v = sub_overflow_bit(lhs, rhs, lhs.wrapping_sub(rhs));
        (None, apsr_with_nzcv(apsr, lhs.wrapping_sub(rhs), lhs >= rhs, v != 0))
    } else if op == 11 {
        let wide = lhs as u64 + rhs as u64;
        (None, apsr_with_c(apsr_with_nz(apsr, lhs.wrapping_add(rhs)), if wide > 0xFFFF_FFFF { 1 } else { 0 }))
    } else if op == 12 {
        (Some(lhs | rhs), apsr_with_nz(apsr, lhs | rhs))
    } else if op == 13 {
        let r = lhs.wrapping_mul(rhs);
        (Some(r), apsr_with_nz(apsr, r))
    } else if op == 14 {
        (Some(lhs & !rhs), apsr_with_nz(apsr, lhs & !rhs))
    } else {
        (Some(!rhs), apsr_with_nz(apsr, !rhs))
    }
}

/// The effect of a 16-bit data-processing instruction on `rdn` and `rm`.
pub open spec fn data_proc_done<B>(old: Cpu<B>, new: Cpu<B>, op: u16, rdn: u32, rm: u32) -> bool {
    let lhs = old.regs()[rdn as int];
    let rhs = old.regs()[rm as int];
    if dp_is_shift(op) {
        shifted(old, new, dp_shift_kind(op), rdn, lhs, rhs & 0xFF, true)
    } else {
        let e = dp_effect(op, lhs, rhs, old.apsr());
        rstep(old, new, match e.0 {
            Some(v) => old.regs().update(rdn as int, v),
            None => old.regs(),
        }, e.1)
    }
}

/// Operand text of a 16-bit data-processing instruction: `r<dn>, r<m>`, or for shifts
/// `r<dn>, r<dn>, r<amount>`.
pub open spec fn data_proc_text(op: u16, rdn: u32, rm: u32, rm_value: u32) -> Seq<char> {
    if dp_is_shift(op) {
        t_reg(rdn) + t_sep() + t_reg(rdn) + t_sep() + t_reg(rm_value & 0xFF)
    } else {
        t_reg(rdn) + t_sep() + t_reg(rm)
    }
}

/// ANDS, LSLS, LSRS, ASRS, ADCS, SBCS, RORS, TST, RSBS, CMP, CMN, ORRS, MULS, BICS, MVNS
/// on low registers (EORS, opcode 1, is not executed).
pub fn exec_data_proc<B: PeripheralBus>(cpu: &mut Cpu<B>, op: u16, rdn: u32, rm: u32) -> (out: ExecOutcome)
    requires
        old(cpu).wf(),
        rdn < 16,
        rm < 16,
    ensures
        data_proc_done(*old(cpu), *final(cpu), op, rdn, rm),
        outcome_is(out, dp_mnemonic(op), data_proc_text(op, rdn, rm, old(cpu).regs()[rm as int]), 1, if dp_is_shift(op) && rdn == 15 { 0 } else { 2 }),
{
    let lhs = cpu.read_reg(rdn);
    let rhs = cpu.read_reg(rm);
    if op == 2 || op == 3 || op == 4 || op == 7 {
        let kind = if op == 2 {
            ShiftKind::Lsl
        } else if op == 3 {
            ShiftKind::Lsr
        } else if op == 4 {
            ShiftKind::Asr
        } else {
            ShiftKind::Ror
        };
        return exec_shift_reg(cpu, shift_mnemonic_str(kind), kind, rdn, rdn, rhs & 0xFF, true, 2);
    }
    let (value, flags) = dp_compute(op, lhs, rhs, cpu.read_apsr());
    match value {
        Some(v) => cpu.write_reg(rdn, v),
        None => {},
    }
    cpu.write_apsr(flags);
    normal_outcome(dp_mnemonic_str(op), text_r_r(rdn, rm), 1, 2)
}

/// MOVS/CMP/ADDS/SUBS with an 8-bit immediate (opcodes 0 to 3).
pub open spec fn imm8_done<B>(old: Cpu<B>, new: Cpu<B>, op: u16, rd: u32, imm: u32) -> bool {
    if op == 0 {
        rstep(old, new, old.regs().update(rd as int, imm), nz_flags(old.apsr(), imm))
    } else if op == 1 {
        rstep(old, new, old.regs(), sub_flags(old.apsr(), old.regs()[rd as int], imm))
    } else if op == 2 {
        add_done(old, new, rd, rd, imm, true)
    } else {
        sub_done(old, new, rd, rd, imm, true)
    }
}

pub open spec fn imm8_mnemonic(op: u16) -> Seq<char> {
    if op == 0 {
        "movs"@
    } else if op == 1 {
        "cmp"@
    } else if op == 2 {
        "adds"@
    } else {
        "subs"@
    }
}

pub fn exec_imm8<B: PeripheralBus>(cpu: &mut Cpu<B>, op: u16, rd: u32, imm: u32) -> (out: ExecOutcome)
    requires
        old(cpu).wf(),
        rd < 16,
    ensures
        imm8_done(*old(cpu), *final(cpu), op, rd, imm),
        outcome_is(out, imm8_mnemonic(op), t_reg(rd) + t_sep() + t_dec(imm), 1, if op >= 2 && rd == 15 { 0 } else { 2 }),
{
    let mut s = String::new();
    w_reg(&mut s, rd);
    w_sep(&mut s);
    w_dec(&mut s, imm);
    assert(s@ =~= t_reg(rd) + t_sep() + t_dec(imm));
    if op == 0 {
        cpu.write_reg(rd, imm);
        let a = apsr_with_nz(cpu.read_apsr(), imm);
        cpu.write_apsr(a);
        normal_outcome("movs", s, 1, 2)
    } else if op == 1 {
        let lhs = cpu.read_reg(rd);
        update_sub_flags(cpu, lhs, imm, lhs.wrapping_sub(imm));
        normal_outcome("cmp", s, 1, 2)
    } else if op == 2 {
        execute_add(cpu, rd, rd, imm, true, s, 2)
    } else {
        execute_sub(cpu, rd, rd, imm, true, s, 2)
    }
}

/// ADDS/SUBS with three low registers.
pub fn exec_add_sub_reg3<B: PeripheralBus>(cpu: &mut Cpu<B>, subtract: bool, rd: u32, rn: u32, rm: u32) -> (out: ExecOutcome)
    requires
        old(cpu).wf(),
        rd < 16,
        rn < 16,
        rm < 16,
    ensures
        subtract ==> sub_done(*old(cpu), *final(cpu), rd, rn, old(cpu).regs()[rm as int], true),
        !subtract ==> add_done(*old(cpu), *final(cpu), rd, rn, old(cpu).regs()[rm as int], true),
        outcome_is(out, if subtract { "subs"@ } else { "adds"@ }, t_reg(rd) + t_sep() + t_reg(rn) + t_sep() + t_reg(rm), 1, if rd == 15 { 0 } else { 2 }),
{
    let rhs = cpu.read_reg(rm);
    let s = text_r_r_r(rd, rn, rm);
    if subtract {
        execute_sub(cpu, rd, rn, rhs, true, s, 2)
    } else {
        execute_add(cpu, rd, rn, rhs, true, s, 2)
    }
}

/// ADDS/SUBS with a 3-bit immediate.
pub fn exec_add_sub_imm3<B: PeripheralBus>(cpu: &mut Cpu<B>, subtract: bool, rd: u32, rn: u32, imm: u32) -> (out: ExecOutcome)
    requires
        old(cpu).wf(),
        rd < 16,
        rn < 16,
    ensures
        subtract ==> sub_done(*old(cpu), *final(cpu), rd, rn, imm, true),
        !subtract ==> add_done(*old(cpu), *final(cpu), rd, rn, imm, true),
        outcome_is(out, if subtract { "subs"@ } else { "adds"@ }, t_reg(rd) + t_sep() + t_reg(rn) + t_sep() + t_dec(imm), 1, if rd == 15 { 0 } else { 2 }),
{
    let mut s = text_r_r(rd, rn);
    w_sep(&mut s);
    w_dec(&mut s, imm);
    if subtract {
        execute_sub(cpu, rd, rn, imm, true, s, 2)
    } else {
        execute_add(cpu, rd, rn, imm, true, s, 2)
    }
}

/// BKPT: reports the immediate and leaves the core as it is; PC does not advance.
pub fn exec_bkpt<B: PeripheralBus>(cpu: &Cpu<B>, imm: u32) -> (out: ExecOutcome)
    ensures
        outcome_is(out, "bkpt"@, t_dec(imm), 1, 0),
{
    let mut s = String::new();
    w_dec(&mut s, imm);
    assert(s@ =~= t_dec(imm));
    branch_outcome("bkpt", s, 1)
}

/// MOVW: `rd` gets the 16-bit immediate.
pub fn exec_movw<B: PeripheralBus>(cpu: &mut Cpu<B>, rd: u32, imm16: u32) -> (out: ExecOutcome)
    requires
        old(cpu).wf(),
        rd < 16,
    ensures
        rstep(*old(cpu), *final(cpu), old(cpu).regs().update(rd as int, imm16), old(cpu).apsr()),
        outcome_is(out, "movw"@, t_reg(rd) + t_sep() + t_hex(imm16), 1, if rd == 15 { 0 } else { 4 }),
{
    cpu.write_reg(rd, imm16);
    let mut s = String::new();
    w_reg(&mut s, rd);
    w_sep(&mut s);
    w_hex(&mut s, imm16);
    assert(s@ =~= t_reg(rd) + t_sep() + t_hex(imm16));
    normal_outcome("movw", s, 1, if rd == 15 { 0 } else { 4 })
}

/// MOVT: the top half of `rd` gets the 16-bit immediate; the bottom half stays.
pub fn exec_movt<B: PeripheralBus>(cpu: &mut Cpu<B>, rd: u32, imm16: u32) -> (out: ExecOutcome)
    requires
        old(cpu).wf(),
        rd < 16,
    ensures
        rstep(*old(cpu), *final(cpu), old(cpu).regs().update(rd as int, (old(cpu).regs()[rd as int] & 0xFFFF) | (imm16 << 16u32)), old(cpu).apsr()),
        outcome_is(out, "movt"@, t_reg(rd) + t_sep() + t_hex(imm16), 1, if rd == 15 { 0 } else { 4 }),
{
    let value = (cpu.read_reg(rd) & 0x0000_FFFF) | (imm16 << 16);
    cpu.write_reg(rd, value);
    let mut s = String::new();
    w_reg(&mut s, rd);
    w_sep(&mut s);
    w_hex(&mut s, imm16);
    assert(s@ =~= t_reg(rd) + t_sep() + t_hex(imm16));
    normal_outcome("movt", s, 1, if rd == 15 { 0 } else { 4 })
}

/// Unsigned division; division by zero gives zero.
pub open spec fn udiv_value(n: u32, d: u32) -> u32 {
    if d == 0 { 0 } else { (n / d) as u32 }
}

/// UDIV: `rd = rn / rm`, zero when `rm` is zero.
pub fn exec_udiv<B: PeripheralBus>(cpu: &mut Cpu<B>, rd: u32, rn: u32, rm: u32) -> (out: ExecOutcome)
    requires
        old(cpu).wf(),
        rd < 16,
        rn < 16,
        rm < 16,
    ensures
        rstep(*old(cpu), *final(cpu), old(cpu).regs().update(rd as int, udiv_value(old(cpu).regs()[rn as int], old(cpu).regs()[rm as int])), old(cpu).apsr()),
        outcome_is(out, "udiv"@, t_reg(rd) + t_sep() + t_reg(rn) + t_sep() + t_reg(rm), 1, if rd == 15 { 0 } else { 4 }),
{
    let numerator = cpu.read_reg(rn);
    let denominator = cpu.read_reg(rm);
    let result = if denominator == 0 { 0 } else { numerator / denominator };
    cpu.write_reg(rd, result);
    normal_outcome("udiv", text_r_r_r(rd, rn, rm), 1, if rd == 15 { 0 } else { 4 })
}

/// MLS: `rd = ra - rn * rm`, wrapping.
pub fn exec_mls<B: PeripheralBus>(cpu: &mut Cpu<B>, rd: u32, rn: u32, rm: u32, ra: u32) -> (out: ExecOutcome)
    requires
        old(cpu).wf(),
        rd < 16,
        rn < 16,
        rm < 16,
        ra < 16,
    ensures
        ({
            let r = old(cpu).regs();
            rstep(*old(cpu), *final(cpu), r.update(rd as int, r[ra as int].wrapping_sub(r[rn as int].wrapping_mul(r[rm as int]))), old(cpu).apsr())
        }),
        outcome_is(out, "mls"@, t_reg(rd) + t_sep() + t_reg(rn) + t_sep() + t_reg(rm) + t_sep() + t_reg(ra), 1, if rd == 15 { 0 } else { 4 }),
{
    let result = cpu.read_reg(ra).wrapping_sub(cpu.read_reg(rn).wrapping_mul(cpu.read_reg(rm)));
    cpu.write_reg(rd, result);
    let mut s = text_r_r_r(rd, rn, rm);
    w_sep(&mut s);
    w_reg(&mut s, ra);
    normal_outcome("mls", s, 1, if rd == 15 { 0 } else { 4 })
}

/// The `width`-bit field of `source` that starts at bit `lsb`, zero-extended; a field that
/// runs past bit 31 is cut at bit 31.
pub open spec fn ubfx_value(source: u32, lsb: u32, width: u32) -> u32 {
    let room: u32 = if lsb >= 32 { 0 } else { (32 - lsb) as u32 };
    let w = if width < room { width } else { room };
    if w == 0 {
        0
    } else if w >= 32 {
        source
    } else {
        (source >> lsb) & (((1u32 << w) - 1) as u32)
    }
}

/// UBFX: `rd` gets the bit field of `rn`.
pub fn exec_ubfx<B: PeripheralBus>(cpu: &mut Cpu<B>, rd: u32, rn: u32, lsb: u32, width: u32) -> (out: ExecOutcome)
    requires
        old(cpu).wf(),
        rd < 16,
        rn < 16,
    ensures
        rstep(*old(cpu), *final(cpu), old(cpu).regs().update(rd as int, ubfx_value(old(cpu).regs()[rn as int], lsb, width)), old(cpu).apsr()),
        outcome_is(out, "ubfx"@, t_reg(rd) + t_sep() + t_reg(rn) + t_sep() + t_dec(lsb) + t_sep() + t_dec(width), 1, if rd == 15 { 0 } else { 4 }),
{
    let source = cpu.read_reg(rn);
    let room: u32 = if lsb >= 32 { 0 } else { 32 - lsb };
    let w = if width < room { width } else { room };
    let result = if w == 0 {
        0
    } else if w >= 32 {
        source
    } else {
        assert(1u32 << w >= 1) by (bit_vector)
            requires
                w < 32,
        ;
        (source >> lsb) & ((1u32 << w) - 1)
    };
    cpu.write_reg(rd, result);
    let mut s = text_r_r(rd, rn);
    w_sep(&mut s);
    w_dec(&mut s, lsb);
    w_sep(&mut s);
    w_dec(&mut s, width);
    assert(s@ =~= t_reg(rd) + t_sep() + t_reg(rn) + t_sep() + t_dec(lsb) + t_sep() + t_dec(width));
    normal_outcome("ubfx", s, 1, if rd == 15 { 0 } else { 4 })
}

/// `rd` gets `v`; with `setflags`, N and Z follow it.
pub open spec fn logic_done<B>(old: Cpu<B>, new: Cpu<B>, rd: u32, v: u32, setflags: bool) -> bool {
    rstep(old, new, old.regs().update(rd as int, v), if setflags { nz_flags(old.apsr(), v) } else { old.apsr() })
}

fn logic_into<B: PeripheralBus>(cpu: &mut Cpu<B>, rd: u32, v: u32, setflags: bool)
    requires
        old(cpu).wf(),
        rd < 16,
    ensures
        logic_done(*old(cpu), *final(cpu), rd, v, setflags),
{
    cpu.write_reg(rd, v);
    if setflags {
        let a = apsr_with_nz(cpu.read_apsr(), v);
        cpu.write_apsr(a);
    }
}

/// Data processing with a modified immediate: AND (0), BIC (1), ORR (2) or MOV.W (2 with
/// `rn` = PC), ADD (8) and CMP.W (13).
pub open spec fn mod_imm_done<B>(old: Cpu<B>, new: Cpu<B>, op: u16, rd: u32, rn: u32, imm: u32, setflags: bool) -> bool {
    let lhs = old.regs()[rn as int];
    if op == 0 {
        logic_done(old, new, rd, lhs & imm, setflags)
    } else if op == 1 {
        logic_done(old, new, rd, lhs & !imm, setflags)
    } else if op == 2 && rn == 15 {
        logic_done(old, new, rd, imm, setflags)
    } else if op == 2 {
        logic_done(old, new, rd, lhs | imm, setflags)
    } else if op == 8 {
        add_done(old, new, rd, rn, imm, setflags)
    } else {
        rstep(old, new, old.regs(), sub_flags(old.apsr(), lhs, imm))
    }
}

pub open spec fn mod_imm_mnemonic(op: u16, rn: u32, setflags: bool) -> Seq<char> {
    if op == 0 {
        "and"@
    } else if op == 1 {
        "bic"@
    } else if op == 2 && rn == 15 {
        "mov.w"@
    } else if op == 2 {
        "orr"@
    } else if op == 8 {
        if setflags { "adds"@ } else { "add.w"@ }
    } else {
        "cmp.w"@
    }
}

pub open spec fn mod_imm_text(op: u16, rd: u32, rn: u32, imm: u32) -> Seq<char> {
    if op == 13 {
        t_reg(rn) + t_sep() + t_hex(imm)
    } else if op == 2 && rn == 15 {
        t_reg(rd) + t_sep() + t_hex(imm)
    } else {
        t_reg(rd) + t_sep() + t_reg(rn) + t_sep() + t_hex(imm)
    }
}

pub open spec fn mod_imm_pc_update(op: u16, rd: u32) -> u32 {
    if op == 0 || op == 13 || rd != 15 { 4 } else { 0 }
}

pub fn exec_mod_imm<B: PeripheralBus>(cpu: &mut Cpu<B>, op: u16, rd: u32, rn: u32, imm: u32, setflags: bool) -> (out: ExecOutcome)
    requires
        old(cpu).wf(),
        rd < 16,
        rn < 16,
        op == 0 || op == 1 || op == 2 || op == 8 || op == 13,
    ensures
        mod_imm_done(*old(cpu), *final(cpu), op, rd, rn, imm, setflags),
        outcome_is(out, mod_imm_mnemonic(op, rn, setflags), mod_imm_text(op, rd, rn, imm), 1, mod_imm_pc_update(op, rd)),
{
    let lhs = cpu.read_reg(rn);
    let mut s = String::new();
    if op == 13 {
        w_reg(&mut s, rn);
    } else if op == 2 && rn == 15 {
        w_reg(&mut s, rd);
    } else {
        w_reg(&mut s, rd);
        w_sep(&mut s);
        w_reg(&mut s, rn);
    }
    w_sep(&mut s);
    w_hex(&mut s, imm);
    assert(s@ =~= mod_imm_text(op, rd, rn, imm));
    if op == 0 {
        logic_into(cpu, rd, lhs & imm, setflags);
        normal_outcome("and", s, 1, 4)
    } else if op == 1 {
        logic_into(cpu, rd, lhs & !imm, setflags);
        normal_outcome("bic", s, 1, if rd == 15 { 0 } else { 4 })
    } else if op == 2 && rn == 15 {
        logic_into(cpu, rd, imm, setflags);
        normal_outcome("mov.w", s, 1, if rd == 15 { 0 } else { 4 })
    } else if op == 2 {
        logic_into(cpu, rd, lhs | imm, setflags);
        normal_outcome("orr", s, 1, if rd == 15 { 0 } else { 4 })
    } else if op == 8 {
        execute_add(cpu, rd, rn, imm, setflags, s, 4)
    } else {
        update_sub_flags(cpu, lhs, imm, lhs.wrapping_sub(imm));
        normal_outcome("cmp.w", s, 1, 4)
    }
}

/// Data processing with a shifted register: AND.W (0), ORR.W (2) and ADD.W (8), no flags.
pub open spec fn shifted_reg_done<B>(old: Cpu<B>, new: Cpu<B>, op: u16, rd: u32, rn: u32, rm: u32, kind: ShiftKind, amount: u32) -> bool {
    let lhs = old.regs()[rn as int];
    let rhs = shift_c(old.regs()[rm as int], kind, amount, carry_of(old.apsr())).0;
    if op == 0 {
        logic_done(old, new, rd, lhs & rhs, false)
    } else if op == 2 {
        logic_done(old, new, rd, lhs | rhs, false)
    } else {
        add_done(old, new, rd, rn, rhs, false)
    }
}

pub open spec fn shifted_reg_mnemonic(op: u16) -> Seq<char> {
    if op == 0 {
        "and.w"@
    } else if op == 2 {
        "orr.w"@
    } else {
        "add.w"@
    }
}

pub fn exec_shifted_reg<B: PeripheralBus>(cpu: &mut Cpu<B>, op: u16, rd: u32, rn: u32, rm: u32, kind: ShiftKind, amount: u32) -> (out: ExecOutcome)
    requires
        old(cpu).wf(),
        rd < 16,
        rn < 16,
        rm < 16,
        op == 0 || op == 2 || op == 8,
    ensures
        shifted_reg_done(*old(cpu), *final(cpu), op, rd, rn, rm, kind, amount),
        outcome_is(out, shifted_reg_mnemonic(op), t_reg(rd) + t_sep() + t_reg(rn) + t_sep() + t_reg(rm), 1, if op == 8 && rd == 15 { 0 } else { 4 }),
{
    let rhs = apply_shift(cpu.read_reg(rm), kind, amount, current_carry(cpu.read_apsr())).0;
    let lhs = cpu.read_reg(rn);
    let s = text_r_r_r(rd, rn, rm);
    if op == 0 {
        logic_into(cpu, rd, lhs & rhs, false);
        normal_outcome("and.w", s, 1, 4)
    } else if op == 2 {
        logic_into(cpu, rd, lhs | rhs, false);
        normal_outcome("orr.w", s, 1, 4)
    } else {
        execute_add(cpu, rd, rn, rhs, false, s, 4)
    }
}

/// LSL.W by register: `rd = rm << (rs & 0xFF)`, no flags.
pub fn exec_lsl_reg<B: PeripheralBus>(cpu: &mut Cpu<B>, rd: u32, rm: u32, rs: u32) -> (out: ExecOutcome)
    requires
        old(cpu).wf(),
        rd < 16,
        rm < 16,
        rs < 16,
    ensures
        shifted(*old(cpu), *final(cpu), ShiftKind::Lsl, rd, old(cpu).regs()[rm as int], old(cpu).regs()[rs as int] & 0xFF, false),
        outcome_is(out, "lsl.w"@, t_reg(rd) + t_sep() + t_reg(rm) + t_sep() + t_reg(old(cpu).regs()[rs as int] & 0xFF), 1, if rd == 15 { 0 } else { 4 }),
{
    let shift = cpu.read_reg(rs) & 0xFF;
    exec_shift_reg(cpu, "lsl.w", ShiftKind::Lsl, rd, rm, shift, false, 4)
}

/// The registers of `mask` were stored from `start` on (in RAM, word by word); the core but
/// for the registers in `regs` is unchanged.
pub open spec fn block_stored<B>(old: Cpu<B>, new: Cpu<B>, start: u32, mask: u16, regs: Seq<u32>) -> bool {
    &&& new.wf()
    &&& new.regs() == regs
    &&& new.apsr() == old.apsr()
    &&& new.next_pc == old.next_pc
    &&& new.exception_stack@ == old.exception_stack@
    &&& new.Cpu_pipeline == old.Cpu_pipeline
    &&& new.registers.is_msp == old.registers.is_msp
    &&& new.pending_ppb_event_drain == old.pending_ppb_event_drain
    &&& block_in_ram(start, mask_count(mask)) ==> new.ram@ == store_words(old.ram@, start - RAM_BASE, mask_values(old.regs(), mask, 16))
        && new.flash@ == old.flash@
}

/// The start address of a push of `mask`: SP lowered by four bytes per register.
pub open spec fn push_start<B>(cpu: Cpu<B>, mask: u16) -> u32 {
    cpu.regs()[13].wrapping_sub((4 * mask_count(mask)) as u32)
}

/// PUSH / PUSH.W.
pub fn exec_push<B: PeripheralBus>(cpu: &mut Cpu<B>, mask: u16, wide: bool) -> (out: ExecOutcome)
    requires
        old(cpu).wf(),
        block_mapped(*old(cpu), push_start(*old(cpu), mask), mask_count(mask)),
    ensures
        block_stored(*old(cpu), *final(cpu), push_start(*old(cpu), mask), mask, old(cpu).regs().update(13, push_start(*old(cpu), mask))),
        outcome_is(out, if wide { "push.w"@ } else { "push"@ }, t_list(mask), (1 + mask_count(mask)) as u32, if wide { 4 } else { 2 }),
{
    push_reg_mask(cpu, mask);
    let count = count_ones(mask);
    normal_outcome(if wide { "push.w" } else { "push" }, reg_mask_to_string(mask), 1 + count, if wide { 4 } else { 2 })
}

/// POP / POP.W.
pub fn exec_pop<B: PeripheralBus>(cpu: &mut Cpu<B>, mask: u16, wide: bool) -> (out: ExecOutcome)
    requires
        old(cpu).wf(),
        mask >> 13u16 & 1 == 0,
        pop_safe(*old(cpu), mask),
    ensures
        popped(*old(cpu), *final(cpu), mask, in_mask(mask, 15)),
        outcome_is(
            out,
            if wide { "pop.w"@ } else { "pop"@ },
            t_list(mask),
            (1 + mask_count(mask) + if in_mask(mask, 15) { 1int } else { 0int }) as u32,
            if in_mask(mask, 15) { 0 } else if wide { 4 } else { 2 },
        ),
{
    let wrote_pc = pop_reg_mask(cpu, mask);
    let count = count_ones(mask);
    ExecOutcome {
        mnemonic: if wide { "pop.w" } else { "pop" },
        op_str: reg_mask_to_string(mask),
        execute_cycles: 1 + count + if wrote_pc { 1 } else { 0 },
        pc_update: if wrote_pc { 0 } else if wide { 4 } else { 2 },
    }
}

/// LDM / LDM.W.
pub fn exec_ldm<B: PeripheralBus>(cpu: &mut Cpu<B>, rn: u32, mask: u16, writeback: bool, wide: bool) -> (out: ExecOutcome)
    requires
        old(cpu).wf(),
        rn < 16,
        block_mapped(*old(cpu), old(cpu).regs()[rn as int], mask_count(mask)),
    ensures
        final(cpu).wf(),
        ldm_done(*old(cpu), *final(cpu), rn, mask, writeback),
        outcome_is(
            out,
            if wide { "ldm.w"@ } else { "ldm"@ },
            t_reg(rn) + t_sep() + t_list(mask),
            (1 + mask_count(mask) + if in_mask(mask, 15) { 1int } else { 0int }) as u32,
            if in_mask(mask, 15) { 0 } else if wide { 4 } else { 2 },
        ),
{
    let wrote_pc = ldm_mask(cpu, rn, mask, writeback);
    let count = count_ones(mask);
    let mut s = String::new();
    w_reg(&mut s, rn);
    w_sep(&mut s);
    let list = reg_mask_to_string(mask);
    push_str(&mut s, list.as_str());
    assert(s@ =~= t_reg(rn) + t_sep() + t_list(mask));
    ExecOutcome {
        mnemonic: if wide { "ldm.w" } else { "ldm" },
        op_str: s,
        execute_cycles: 1 + count + if wrote_pc { 1 } else { 0 },
        pc_update: if wrote_pc { 0 } else if wide { 4 } else { 2 },
    }
}

/// STM (16-bit, no write-back).
pub fn exec_stm<B: PeripheralBus>(cpu: &mut Cpu<B>, rn: u32, mask: u16) -> (out: ExecOutcome)
    requires
        old(cpu).wf(),
        rn < 16,
        block_mapped(*old(cpu), old(cpu).regs()[rn as int], mask_count(mask)),
    ensures
        block_stored(*old(cpu), *final(cpu), old(cpu).regs()[rn as int], mask, old(cpu).regs()),
        outcome_is(out, "stm"@, t_reg(rn) + t_sep() + t_list(mask), (1 + mask_count(mask)) as u32, 2),
{
    stm_mask(cpu, rn, mask, false);
    let count = count_ones(mask);
    let mut s = String::new();
    w_reg(&mut s, rn);
    w_sep(&mut s);
    let list = reg_mask_to_string(mask);
    push_str(&mut s, list.as_str());
    assert(s@ =~= t_reg(rn) + t_sep() + t_list(mask));
    normal_outcome("stm", s, 1 + count, 2)
}

} // verus!
