use std::sync::atomic::AtomicU32;
use std::sync::Arc;

use cortex_m4_sim::bus::NoPeripherals as EmptyBus;
use cortex_m4_sim::context::CpuContext;
use cortex_m4_sim::cpu::Cpu;
use cortex_m4_sim::jit_engine::runtime::{
    jit_compute_shift_packed, jit_execute_bkpt, jit_read_u16, jit_read_u32, jit_read_u8,
    jit_resolve_mem_rt_addr, jit_try_exception_return, jit_udiv_or_zero, jit_write_u16, jit_write_u32,
    jit_write_u8, maybe_drive_peripherals,
};
use cortex_m4_sim::jit_engine::stats::JitStatsSnapshot;
use cortex_m4_sim::jit_engine::table::decode_jit_instruction_16;

fn build_cpu() -> Cpu<EmptyBus> {
    Cpu::new(Arc::new(AtomicU32::new(8_000_000)), 1, EmptyBus, EmptyBus)
}

#[test]
fn shift_helper_packs_result_and_carry() {
    let mut cpu = build_cpu();
    // lsls r0, r1 (value in r0, amount in r1)
    let instr = decode_jit_instruction_16(0x0800_0000, 0x4088).unwrap();
    cpu.write_reg(0, 0x1000_0001);
    cpu.write_reg(1, 4);
    assert_eq!(jit_compute_shift_packed(&cpu, &instr), 0x1_0000_0010);
    cpu.write_reg(0, 0x0000_0001);
    assert_eq!(jit_compute_shift_packed(&cpu, &instr), 0x0000_0010);
    cpu.write_reg(1, 0);
    assert_eq!(jit_compute_shift_packed(&cpu, &instr), 0x0000_0001);
}

#[test]
fn shift_helper_takes_register_amount() {
    let mut cpu = build_cpu();
    // asrs r0, r1 (amount in r1, value in r0)
    let instr = decode_jit_instruction_16(0x0800_0000, 0x4108).unwrap();
    cpu.write_reg(0, 0x8000_0000);
    cpu.write_reg(1, 0x0000_0104);
    let packed = jit_compute_shift_packed(&cpu, &instr);
    assert_eq!(packed & 0xFFFF_FFFF, 0xF800_0000);
    assert_eq!(packed >> 32, 0);
    cpu.write_reg(1, 40);
    assert_eq!(jit_compute_shift_packed(&cpu, &instr), 0x1_FFFF_FFFF);
}

#[test]
fn address_helper_packs_address_and_register() {
    let mut cpu = build_cpu();
    // ldr r0, [r1, #4]
    let instr = decode_jit_instruction_16(0x0800_0000, 0x6848).unwrap();
    cpu.write_reg(1, 0x2000_0000);
    assert_eq!(jit_resolve_mem_rt_addr(&mut cpu, &instr), 0x2000_0004_0000_0000);
    assert_eq!(cpu.read_reg(1), 0x2000_0000);
}

#[test]
fn division_helper_gives_zero_for_zero_divisor() {
    assert_eq!(jit_udiv_or_zero(7, 0), 0);
    assert_eq!(jit_udiv_or_zero(7, 2), 3);
    assert_eq!(jit_udiv_or_zero(0xFFFF_FFFF, 0x10), 0x0FFF_FFFF);
}

#[test]
fn sub_word_helpers_keep_the_rest_of_the_word() {
    let mut cpu = build_cpu();
    jit_write_u32(&mut cpu, 0x2000_0000, 0x1122_3344);
    jit_write_u8(&mut cpu, 0x2000_0001, 0xAB);
    assert_eq!(jit_read_u32(&cpu, 0x2000_0000), 0x1122_AB44);
    jit_write_u16(&mut cpu, 0x2000_0002, 0xBEEF);
    assert_eq!(jit_read_u32(&cpu, 0x2000_0000), 0xBEEF_AB44);
    assert_eq!(jit_read_u8(&cpu, 0x2000_0003), 0xBE);
    assert_eq!(jit_read_u16(&cpu, 0x2000_0000), 0xAB44);
}

#[test]
fn exception_return_helper_ignores_plain_values() {
    let mut cpu = build_cpu();
    cpu.write_reg(0, 5);
    assert_eq!(jit_try_exception_return(&mut cpu, 0xFFFF_FFF9), 0);
    assert_eq!(jit_try_exception_return(&mut cpu, 0x0800_0000), 0);
    assert_eq!(cpu.read_reg(0), 5);
}

#[test]
fn breakpoint_helper_reports_the_immediate() {
    let cpu = build_cpu();
    // The table keeps no operand for BKPT, so it reports 0.
    let instr = decode_jit_instruction_16(0x0800_0000, 0xBE12).unwrap();
    assert_eq!(jit_execute_bkpt(&cpu, &instr), 0);
    // An immediate second operand is reported as it stands (movs r0, #0x12).
    let instr = decode_jit_instruction_16(0x0800_0000, 0x2012).unwrap();
    assert_eq!(jit_execute_bkpt(&cpu, &instr), 0x12);
}

#[test]
fn stats_delta_saturates_per_counter() {
    let mut now = JitStatsSnapshot::default();
    now.compiled_blocks = 10;
    now.cache_hits = 3;
    now.udiv_calls = 7;
    let mut before = JitStatsSnapshot::default();
    before.compiled_blocks = 4;
    before.cache_hits = 5;
    before.udiv_calls = 7;
    let d = now.delta_since(before);
    assert_eq!(d.compiled_blocks, 6);
    assert_eq!(d.cache_hits, 0);
    assert_eq!(d.udiv_calls, 0);
    assert_eq!(d.fallback_calls, 0);
}

#[test]
fn stats_delta_adds_back_to_the_later_reading() {
    let mut before = JitStatsSnapshot::default();
    before.executed_blocks = 2;
    before.mem_read_calls = 9;
    let mut now = before;
    now.executed_blocks = 12;
    now.mem_read_calls = 10;
    let d = now.delta_since(before);
    assert_eq!(before.executed_blocks + d.executed_blocks, now.executed_blocks);
    assert_eq!(before.mem_read_calls + d.mem_read_calls, now.mem_read_calls);
    assert_eq!(now.delta_since(now), JitStatsSnapshot::default());
}

#[test]
fn helper_calls_sums_only_helper_counters() {
    let mut s = JitStatsSnapshot::default();
    s.compiled_blocks = 100;
    s.cache_hits = 50;
    s.fallback_calls = 1;
    s.read_reg_calls = 2;
    s.bkpt_calls = 3;
    s.udiv_calls = 4;
    assert_eq!(s.helper_calls(), 10);
}

#[test]
fn peripherals_are_driven_once_due() {
    let mut cpu = build_cpu();
    cpu.peripheral_schedule_dirty = true;
    let mut pending = 5u32;
    maybe_drive_peripherals(&mut cpu, &mut pending, 0, 4);
    assert_eq!(pending, 5);
    assert!(!cpu.peripheral_schedule_dirty);
    let due = cpu.peripheral_next_due_cycle;
    assert!(due >= 1 && due <= 4);
    maybe_drive_peripherals(&mut cpu, &mut pending, due - 1, 4);
    assert_eq!(pending, 5);
    maybe_drive_peripherals(&mut cpu, &mut pending, due, 4);
    assert_eq!(pending, 0);
    assert!(cpu.peripheral_next_due_cycle > due);
}
