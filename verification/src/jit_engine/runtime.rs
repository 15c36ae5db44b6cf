//! The helpers that compiled blocks call back into: shifts with carry, address resolution,
//! sub-word memory access, division, exception return and breakpoints, and the counters
//! that measure how often blocks leave compiled code.
use vstd::prelude::*;
use crate::arch::ArmInsn;
use crate::bits::{asr_c, lsl_c, lsr_c, ror_c, rrx_c, shift_rrx, bit, asr_value, rotr};
use crate::bus::PeripheralBus;
use crate::context::CpuContext;
use crate::cpu::{Cpu, exc_return_value, due_refreshed};
use crate::opcodes::decoded::{
    DecodedInstruction, DecodedOperandKind, reg_read, runtime_read_reg, mem_ok, mem_access,
    operand_resolver_multi_runtime,
};
use crate::opcodes::instructions::operand_regs_ok;
use crate::opcodes::thumb_runtime::{
    ShiftKind, apply_shift, carry_of, current_carry, aligned_word, byte_in_word, half_in_word,
    merge_byte, merge_half, subword_stored, write_frame, read_u8, read_u16, write_u8, write_u16,
};
use crate::jit_engine::table::JitInstruction;

verus! {

/// A 64-bit word whose high half is `high` and whose low half is `low`.
pub open spec fn packed(low: u32, high: u32) -> u64 {
    (high as int * 0x1_0000_0000 + low as int) as u64
}

fn pack(low: u32, high: u32) -> (r: u64)
    ensures
        r == packed(low, high),
        r as int == high as int * 0x1_0000_0000 + low as int,
{
    let r = ((high as u64) << 32u64) | (low as u64);
    assert(r == (high as u64) * 0x1_0000_0000u64 + (low as u64)) by (bit_vector)
        requires
            r == ((high as u64) << 32u64) | (low as u64),
    ;
    r
}

/// The amount a table shift instruction shifts by: the low byte of its immediate, or of the
/// register it names (PC reading as the instruction's address plus 4); 0 otherwise.
pub open spec fn jit_shift_amount(regs: Seq<u32>, data: &DecodedInstruction) -> u32 {
    match data.arm_operands.op2 {
        Some(op) => match op.op_type {
            DecodedOperandKind::Imm(imm) => (imm as u32) & 0xFF,
            DecodedOperandKind::Reg(r) => reg_read(regs, data, r) & 0xFF,
            _ => 0,
        },
        None => 0,
    }
}

/// Result and carry of the shift that `insn` names; an instruction that is no shift passes
/// the value and the carry through.
pub open spec fn jit_shift(insn: ArmInsn, value: u32, amount: u32, carry_in: u8) -> (u32, u8) {
    match insn {
        ArmInsn::ARM_INS_ASR => asr_c(value, amount, carry_in),
        ArmInsn::ARM_INS_LSL => lsl_c(value, amount, carry_in),
        ArmInsn::ARM_INS_LSR => lsr_c(value, amount, carry_in),
        ArmInsn::ARM_INS_ROR => ror_c(value, amount, carry_in),
        ArmInsn::ARM_INS_RRX => rrx_c(value, carry_in),
        _ => (value, carry_in),
    }
}

/// The shift of a table instruction on the current registers: `rn` is the shifted
/// register, the amount comes from the second operand, the carry in from the APSR.
pub open spec fn jit_shift_of(regs: Seq<u32>, apsr: u32, instr: JitInstruction) -> (u32, u8) {
    jit_shift(
        instr.insn,
        reg_read(regs, &instr.data, instr.data.arm_operands.rn),
        jit_shift_amount(regs, &instr.data),
        carry_of(apsr),
    )
}

/// Computes the shift of a table instruction: the result in the low word, the carry out in
/// the high word.
pub fn jit_compute_shift_packed<B: PeripheralBus>(cpu: &Cpu<B>, instr: &JitInstruction) -> (r: u64)
    requires
        cpu.wf(),
        instr.data.arm_operands.rn < 16,
        operand_regs_ok(instr.data.arm_operands.op2),
    ensures
        r == packed(
            jit_shift_of(cpu.regs(), cpu.apsr(), *instr).0,
            jit_shift_of(cpu.regs(), cpu.apsr(), *instr).1 as u32,
        ),
{
    let rm_val = runtime_read_reg(cpu, &instr.data, instr.data.arm_operands.rn);
    let current_c = current_carry(cpu.read_apsr());
    let shift_amount: u32 = match &instr.data.arm_operands.op2 {
        Some(op) => match op.op_type {
            DecodedOperandKind::Imm(imm) => (imm as u32) & 0xFF,
            DecodedOperandKind::Reg(reg) => runtime_read_reg(cpu, &instr.data, reg) & 0xFF,
            _ => 0,
        },
        None => 0,
    };
    let (result, carry) = match instr.insn {
        ArmInsn::ARM_INS_ASR => apply_shift(rm_val, ShiftKind::Asr, shift_amount, current_c),
        ArmInsn::ARM_INS_LSL => apply_shift(rm_val, ShiftKind::Lsl, shift_amount, current_c),
        ArmInsn::ARM_INS_LSR => apply_shift(rm_val, ShiftKind::Lsr, shift_amount, current_c),
        ArmInsn::ARM_INS_ROR => apply_shift(rm_val, ShiftKind::Ror, shift_amount, current_c),
        ArmInsn::ARM_INS_RRX => shift_rrx(rm_val, current_c),
        _ => (rm_val, current_c),
    };
    pack(result, carry as u32)
}

/// Resolves the address of a load or store of the table (with its write-back, if any):
/// the address in the high word, the transfer register in the low word.
pub fn jit_resolve_mem_rt_addr<B: PeripheralBus>(cpu: &mut Cpu<B>, instr: &JitInstruction) -> (r: u64)
    requires
        old(cpu).wf(),
        mem_ok(&instr.data),
    ensures
        final(cpu).wf(),
        r == packed(instr.data.arm_operands.rd, mem_access(old(cpu).regs(), old(cpu).apsr(), &instr.data).0),
        final(cpu).apsr() == old(cpu).apsr(),
        final(cpu).regs() == match mem_access(old(cpu).regs(), old(cpu).apsr(), &instr.data).1 {
            Some(v) => old(cpu).regs().update(instr.data.operands@[1].op_type->Mem_0.base as int, v),
            None => old(cpu).regs(),
        },
{
    let (rt, addr) = operand_resolver_multi_runtime(cpu, &instr.data);
    pack(rt, addr)
}

/// Unsigned division that gives 0 for a zero divisor.
pub fn jit_udiv_or_zero(lhs: u32, rhs: u32) -> (r: u32)
    ensures
        r == if rhs == 0 { 0 } else { lhs / rhs },
{
    if rhs == 0 { 0 } else { lhs / rhs }
}

/// Reads the word at `addr` (rounded down to a word boundary).
pub fn jit_read_u32<B: PeripheralBus>(cpu: &Cpu<B>, addr: u32) -> (v: u32)
    requires
        cpu.wf(),
        cpu.mapped(addr),
    ensures
        cpu.word(addr) matches Some(w) ==> v == w,
        v == cpu.value_at(addr),
{
    cpu.read32(addr)
}

/// Reads the byte at `addr`, zero-extended.
pub fn jit_read_u8<B: PeripheralBus>(cpu: &Cpu<B>, addr: u32) -> (v: u32)
    requires
        cpu.wf(),
        cpu.mapped(aligned_word(addr)),
    ensures
        v <= 0xFF,
        cpu.word(aligned_word(addr)) matches Some(w) ==> v == byte_in_word(w, addr),
        v == byte_in_word(cpu.value_at(aligned_word(addr)), addr),
{
    read_u8(cpu, addr)
}

/// Reads the halfword at `addr` (bit 0 ignored), zero-extended.
pub fn jit_read_u16<B: PeripheralBus>(cpu: &Cpu<B>, addr: u32) -> (v: u32)
    requires
        cpu.wf(),
        cpu.mapped(aligned_word(addr)),
    ensures
        v <= 0xFFFF,
        cpu.word(aligned_word(addr)) matches Some(w) ==> v == half_in_word(w, addr),
        v == half_in_word(cpu.value_at(aligned_word(addr)), addr),
{
    read_u16(cpu, addr)
}

/// Writes the word `value` at `addr`.
pub fn jit_write_u32<B: PeripheralBus>(cpu: &mut Cpu<B>, addr: u32, value: u32)
    requires
        old(cpu).wf(),
        old(cpu).mapped(addr),
    ensures
        final(cpu).wf(),
        old(cpu).stored(final(cpu), addr, value),
        final(cpu).regs() == old(cpu).regs(),
        final(cpu).apsr() == old(cpu).apsr(),
        old(cpu).bus_written(final(cpu), addr, value),
{
    cpu.write32(addr, value)
}

/// Writes the low byte of `value` at `addr`, keeping the other bytes of its word.
pub fn jit_write_u8<B: PeripheralBus>(cpu: &mut Cpu<B>, addr: u32, value: u32)
    requires
        old(cpu).wf(),
        old(cpu).mapped(aligned_word(addr)),
    ensures
        write_frame(*old(cpu), *final(cpu)),
        subword_stored(*old(cpu), *final(cpu), addr, |w: u32| merge_byte(w, addr, value)),
{
    write_u8(cpu, addr, value)
}

/// Writes the low halfword of `value` at `addr` (bit 0 ignored), keeping the other half.
pub fn jit_write_u16<B: PeripheralBus>(cpu: &mut Cpu<B>, addr: u32, value: u32)
    requires
        old(cpu).wf(),
        old(cpu).mapped(aligned_word(addr)),
    ensures
        write_frame(*old(cpu), *final(cpu)),
        subword_stored(*old(cpu), *final(cpu), addr, |w: u32| merge_half(w, addr, value)),
{
    write_u16(cpu, addr, value)
}

/// Returns from the active exception when `value` is an EXC_RETURN code and an exception
/// is active: 1 then, 0 (and nothing changed) otherwise.
pub fn jit_try_exception_return<B: PeripheralBus>(cpu: &mut Cpu<B>, value: u32) -> (r: u32)
    requires
        old(cpu).wf(),
        exc_return_value(value) && old(cpu).exception_stack@.len() > 0 ==> old(cpu).frame_mapped(old(cpu).regs()[13]),
    ensures
        final(cpu).wf(),
        r == (if exc_return_value(value) && old(cpu).exception_stack@.len() > 0 { 1u32 } else { 0u32 }),
        r == 1 ==> old(cpu).returned_from_exception(final(cpu)),
        r == 0 ==> *final(cpu) == *old(cpu),
{
    if cpu.try_exception_return(value) { 1 } else { 0 }
}

/// The number a breakpoint reports: its immediate, or the register it names (PC reading as
/// the instruction's address plus 4); 0 otherwise.
pub open spec fn bkpt_number(regs: Seq<u32>, data: &DecodedInstruction) -> u32 {
    match data.arm_operands.op2 {
        Some(op) => match op.op_type {
            DecodedOperandKind::Imm(imm) => imm as u32,
            DecodedOperandKind::Reg(r) => reg_read(regs, data, r),
            _ => 0,
        },
        None => 0,
    }
}

/// The number a breakpoint of the table reports; the caller shows it.
pub fn jit_execute_bkpt<B: PeripheralBus>(cpu: &Cpu<B>, instr: &JitInstruction) -> (imm: u32)
    requires
        cpu.wf(),
        operand_regs_ok(instr.data.arm_operands.op2),
    ensures
        imm == bkpt_number(cpu.regs(), &instr.data),
{
    match &instr.data.arm_operands.op2 {
        Some(op) => match op.op_type {
            DecodedOperandKind::Imm(imm) => imm as u32,
            DecodedOperandKind::Reg(reg) => runtime_read_reg(cpu, &instr.data, reg),
            _ => 0,
        },
        None => 0,
    }
}


/// The core after the first part of `maybe_drive_peripherals`: when the schedule changed,
/// the flag is cleared and the due cycle computed anew.
pub open spec fn schedule_refreshed<B: PeripheralBus>(c: Cpu<B>, system_cycles: u64, max_lag_cycles: u32) -> Cpu<B> {
    if c.peripheral_schedule_dirty {
        due_refreshed(Cpu { peripheral_schedule_dirty: false, ..c }, system_cycles, max_lag_cycles)
    } else {
        c
    }
}

/// What `maybe_drive_peripherals` makes of the core `old` with `pending` cycles pending:
/// after the schedule refresh (giving `d`), if cycles are pending and `system_cycles` has
/// reached `d`'s due cycle, the peripherals advance by the pending cycles (`peripheral_steps`,
/// reaching `m`), the count becomes 0 and the due cycle is computed anew from `m`; otherwise
/// the count stays and the core is `d`.
pub open spec fn peripherals_driven<B: PeripheralBus>(
    old: Cpu<B>,
    new: Cpu<B>,
    pending: u32,
    new_pending: u32,
    system_cycles: u64,
    max_lag_cycles: u32,
) -> bool {
    let d = schedule_refreshed(old, system_cycles, max_lag_cycles);
    if pending != 0 && system_cycles >= d.peripheral_next_due_cycle {
        &&& new_pending == 0
        &&& exists|m: Cpu<B>| #[trigger] d.peripheral_steps(&m, pending)
            && new == due_refreshed(m, system_cycles, max_lag_cycles)
    } else {
        new_pending == pending && new == d
    }
}

/// Lets the peripherals catch up with the core once they are due: after a schedule change
/// the next due cycle is computed anew; then, if cycles are pending and `system_cycles` has
/// reached the due cycle, the pending cycles are handed to the peripherals, the count is
/// cleared and the next due cycle is computed.
pub fn maybe_drive_peripherals<B: PeripheralBus>(
    cpu: &mut Cpu<B>,
    pending_peripheral_cycles: &mut u32,
    system_cycles: u64,
    max_lag_cycles: u32,
)
    requires
        old(cpu).wf(),
    ensures
        old(cpu).same_machine(final(cpu)),
        *final(pending_peripheral_cycles) == *old(pending_peripheral_cycles) ==> !final(cpu).peripheral_schedule_dirty,
        *final(pending_peripheral_cycles) == 0 || *final(pending_peripheral_cycles) == *old(pending_peripheral_cycles),
        !old(cpu).peripheral_schedule_dirty ==> *final(pending_peripheral_cycles) == (
            if *old(pending_peripheral_cycles) != 0 && system_cycles >= old(cpu).peripheral_next_due_cycle { 0 } else { *old(pending_peripheral_cycles) }),
        old(cpu).peripheral_schedule_dirty && system_cycles < u64::MAX ==> *final(pending_peripheral_cycles) == *old(pending_peripheral_cycles),
        *final(pending_peripheral_cycles) == *old(pending_peripheral_cycles) && !old(cpu).peripheral_schedule_dirty ==> *final(cpu) == *old(cpu),
        peripherals_driven(*old(cpu), *final(cpu), *old(pending_peripheral_cycles), *final(pending_peripheral_cycles), system_cycles, max_lag_cycles),
{
    if cpu.take_and_clear_peripheral_schedule_dirty() {
        cpu.refresh_peripheral_due_cycle(system_cycles, max_lag_cycles);
    }
    if *pending_peripheral_cycles == 0 {
        return;
    }
    if system_cycles < cpu.peripheral_due_cycle() {
        return;
    }
    let cycles = *pending_peripheral_cycles;
    *pending_peripheral_cycles = 0;
    let ghost d = *cpu;
    cpu.peripheral_step_n(cycles);
    let ghost m = *cpu;
    cpu.refresh_peripheral_due_cycle(system_cycles, max_lag_cycles);
    assert(d.peripheral_steps(&m, cycles));
}

/// The shift helper shifts as its instruction says. With `v` the shifted register, `n` the
/// amount and `c` the carry flag, the low word of the result holds the shifted value and
/// the high word the carry out:
/// - LSL by 1 to 31: bit `i` is bit `i - n` of `v`, zero below bit `n`; the carry is bit
///   `32 - n` of `v`. By 32 the value is 0 and the carry bit 0 of `v`; by more, both are 0.
/// - LSR by 1 to 31: bit `i` is bit `i + n` of `v`, zero from bit `32 - n` on; the carry is
///   bit `n - 1`. By 32 the value is 0 and the carry bit 31 of `v`; by more, both are 0.
/// - ASR: as LSR for 1 to 31, but from bit `32 - n` on each bit is the sign bit of `v`; by
///   32 or more every bit and the carry are the sign bit.
/// - ROR by `n` not a multiple of 32: bit `i` is bit `(i + n) mod 32` of `v`; by a nonzero
///   multiple of 32 the value is `v`. The carry is bit 31 of the result.
/// - RRX (any amount): bit `i` is bit `i + 1` of `v`, bit 31 is `c`; the carry is bit 0 of `v`.
/// An amount of 0 leaves `v` and `c` as they are for LSL, LSR, ASR and ROR.
pub proof fn lemma_shift_helper_shifts(regs: Seq<u32>, apsr: u32, instr: JitInstruction, r: u64)
    requires
        r == packed(jit_shift_of(regs, apsr, instr).0, jit_shift_of(regs, apsr, instr).1 as u32),
    ensures
        ({
            let v = reg_read(regs, &instr.data, instr.data.arm_operands.rn);
            let n = jit_shift_amount(regs, &instr.data);
            let c = carry_of(apsr) as u32;
            let low = (r % 0x1_0000_0000) as u32;
            let high = r / 0x1_0000_0000;
            let shifts = instr.insn is ARM_INS_LSL || instr.insn is ARM_INS_LSR || instr.insn is ARM_INS_ASR
                || instr.insn is ARM_INS_ROR;
            &&& shifts && n == 0 ==> low == v && high == c
            &&& instr.insn is ARM_INS_LSL && 0 < n < 32 ==> high == bit(v, (32 - n) as u32)
                && forall|i: u32| i < 32 ==> #[trigger] bit(low, i) == (if i >= n { bit(v, (i - n) as u32) } else { 0 })
            &&& instr.insn is ARM_INS_LSL && n == 32 ==> low == 0 && high == bit(v, 0)
            &&& instr.insn is ARM_INS_LSL && n > 32 ==> low == 0 && high == 0
            &&& instr.insn is ARM_INS_LSR && 0 < n < 32 ==> high == bit(v, (n - 1) as u32)
                && forall|i: u32| i < 32 ==> #[trigger] bit(low, i) == (if i + n < 32 { bit(v, (i + n) as u32) } else { 0 })
            &&& instr.insn is ARM_INS_LSR && n == 32 ==> low == 0 && high == bit(v, 31)
            &&& instr.insn is ARM_INS_LSR && n > 32 ==> low == 0 && high == 0
            &&& instr.insn is ARM_INS_ASR && 0 < n < 32 ==> high == bit(v, (n - 1) as u32)
                && forall|i: u32| i < 32 ==> #[trigger] bit(low, i) == (if i + n < 32 { bit(v, (i + n) as u32) } else { bit(v, 31) })
            &&& instr.insn is ARM_INS_ASR && n >= 32 ==> high == bit(v, 31)
                && forall|i: u32| i < 32 ==> #[trigger] bit(low, i) == bit(v, 31)
            &&& instr.insn is ARM_INS_ROR && n > 0 ==> high == bit(low, 31)
            &&& instr.insn is ARM_INS_ROR && n % 32 != 0 ==> forall|i: u32| i < 32 ==> #[trigger] bit(low, i) == bit(v, ((i + n) % 32) as u32)
            &&& instr.insn is ARM_INS_ROR && n > 0 && n % 32 == 0 ==> low == v
            &&& instr.insn is ARM_INS_RRX ==> high == bit(v, 0)
                && forall|i: u32| i < 32 ==> #[trigger] bit(low, i) == (if i < 31 { bit(v, (i + 1) as u32) } else { c })
        }),
{
    let v = reg_read(regs, &instr.data, instr.data.arm_operands.rn);
    let n = jit_shift_amount(regs, &instr.data);
    let c = carry_of(apsr) as u32;
    let (x, k) = jit_shift_of(regs, apsr, instr);
    let hi = k as u32;
    assert(r as int == hi as int * 0x1_0000_0000 + x as int);
    assert(r % 0x1_0000_0000 == x as u64 && r / 0x1_0000_0000 == hi as u64) by (nonlinear_arith)
        requires
            r as int == hi as int * 0x1_0000_0000 + x as int,
            hi < 256,
    ;
    let m = n % 32;
    let asr = asr_value(v, n);
    let rot = rotr(v, m);
    let rrx = (v >> 1u32) | (c << 31u32);
    let sign = (v >> 31u32) & 1;
    let ones = 0xFFFF_FFFFu32;
    let zero = 0u32;
    assert((0 < n < 32 ==> (forall|i: u32|
        #![trigger ((v << n) >> i)] #![trigger ((v >> n) >> i)] #![trigger (asr >> i)]
        i < 32 ==> {
        &&& ((v << n) >> i) & 1 == (if i >= n { (v >> ((i - n) as u32)) & 1 } else { 0 })
        &&& ((v >> n) >> i) & 1 == (if i + n < 32 { (v >> ((i + n) as u32)) & 1 } else { 0 })
        &&& (asr >> i) & 1 == (if i + n < 32 { (v >> ((i + n) as u32)) & 1 } else { sign })
    }) && ((v >> ((n - 1) as u32)) & 1) as u8 as u32 == (v >> ((n - 1) as u32)) & 1
        && ((v >> ((32 - n) as u32)) & 1) as u8 as u32 == (v >> ((32 - n) as u32)) & 1)
        && (0 < m < 32 ==> forall|i: u32| #![trigger (rot >> i)] i < 32 ==> (rot >> i) & 1 == (v >> (((i + m) % 32) as u32)) & 1)
        && ((rot >> 31u32) & 1) as u8 as u32 == (rot >> 31u32) & 1
        && ((v >> 31u32) & 1) as u8 as u32 == sign && sign <= 1
        && (v & 1) as u8 as u32 == (v >> 0u32) & 1
        && (forall|i: u32| #![trigger (ones >> i)] i < 32 ==> (ones >> i) & 1 == 1)
        && (forall|i: u32| #![trigger (zero >> i)] i < 32 ==> (zero >> i) & 1 == 0)
        && (forall|i: u32| #![trigger (rrx >> i)] i < 32 ==> (rrx >> i) & 1 == (if i < 31 { (v >> ((i + 1) as u32)) & 1 } else { c }))
        && c <= 1 && c as u8 as u32 == c) by (bit_vector)
        requires
            asr == (if (v >> 31u32) & 1 == 1 { !((!v) >> n) } else { v >> n }),
            rot == (v >> m) | (v << (32 - m) as u32),
            m < 32,
            sign == (v >> 31u32) & 1,
            rrx == (v >> 1u32) | (c << 31u32),
            c == ((apsr >> 29u32) & 1) as u8 as u32,
            ones == 0xFFFF_FFFFu32,
            zero == 0u32,
    ;
    if instr.insn is ARM_INS_LSL && 0 < n < 32 {
        assert(x == v << n);
        assert forall|i: u32| i < 32 implies #[trigger] bit(x, i) == (if i >= n { bit(v, (i - n) as u32) } else { 0 }) by {}
    }
    if instr.insn is ARM_INS_LSR && 0 < n < 32 {
        assert(x == v >> n);
        assert forall|i: u32| i < 32 implies #[trigger] bit(x, i) == (if i + n < 32 { bit(v, (i + n) as u32) } else { 0 }) by {}
    }
    if instr.insn is ARM_INS_ASR && 0 < n < 32 {
        assert(x == asr);
        assert forall|i: u32| i < 32 implies #[trigger] bit(x, i) == (if i + n < 32 { bit(v, (i + n) as u32) } else { bit(v, 31) }) by {}
    }
    if instr.insn is ARM_INS_ASR && n >= 32 {
        assert forall|i: u32| i < 32 implies #[trigger] bit(x, i) == bit(v, 31) by {
            assert(bit(ones, i) == 1 && bit(zero, i) == 0);
            if sign == 1 {
                assert(x == ones);
            } else {
                assert(x == zero);
            }
        }
    }
    if instr.insn is ARM_INS_ROR && n % 32 != 0 {
        assert(x == rot);
        assert forall|i: u32| i < 32 implies #[trigger] bit(x, i) == bit(v, ((i + n) % 32) as u32) by {
            assert((i + m) % 32 == (i + n) % 32);
        }
    }
    if instr.insn is ARM_INS_RRX {
        assert(x == rrx);
        assert forall|i: u32| i < 32 implies #[trigger] bit(x, i) == (if i < 31 { bit(v, (i + 1) as u32) } else { c }) by {}
    }
}

} // verus!
