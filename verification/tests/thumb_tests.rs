use std::sync::atomic::AtomicU32;
use std::sync::Arc;

use cortex_m4_sim::bus::NoPeripherals as EmptyBus;
use cortex_m4_sim::context::CpuContext;
use cortex_m4_sim::cpu::Cpu;
use cortex_m4_sim::opcodes::thumb_runtime::{pop_reg_mask, push_reg_mask, read_u16, read_u8, write_u8};
use cortex_m4_sim::opcodes::thumb_step::{decode_execute_16, decode_execute_32, step};

fn make_cpu() -> Cpu<EmptyBus> {
    Cpu::new(Arc::new(AtomicU32::new(8_000_000)), 1, EmptyBus, EmptyBus)
}

#[test]
fn decode_cmp_immediate_t1() {
    let mut cpu = make_cpu();
    cpu.write_reg(0, 1);

    let outcome = decode_execute_16(&mut cpu, 0x0800_0474, 0x2801).expect("cmp immediate should decode");

    assert_eq!(outcome.mnemonic, "cmp");
    assert_eq!(outcome.op_str, "r0, #1");
    assert_eq!(outcome.execute_cycles, 1);
    assert_eq!(outcome.pc_update, 2);
    assert_eq!((cpu.read_apsr() >> 30) & 1, 1, "Z flag should be set");
    assert_eq!((cpu.read_apsr() >> 29) & 1, 1, "C flag should be set");
}

#[test]
fn decode_sub_sp_immediate_t1() {
    let mut cpu = make_cpu();
    cpu.write_sp(0x2000_0100);

    let outcome = decode_execute_16(&mut cpu, 0x0800_039A, 0xB085).expect("sub sp immediate should decode");

    assert_eq!(outcome.mnemonic, "sub");
    assert_eq!(outcome.op_str, "sp, #0x14");
    assert_eq!(cpu.read_sp(), 0x2000_00EC);
    assert_eq!(outcome.pc_update, 2);
}

#[test]
fn decode_strb_w_immediate() {
    let mut cpu = make_cpu();
    cpu.write_sp(0x2000_0100);
    cpu.write_reg(0, 0xA5);

    let outcome = decode_execute_32(&mut cpu, 0x0800_03AE, 0xF88D, 0x0013).expect("strb.w immediate should decode");

    assert_eq!(outcome.mnemonic, "strb.w");
    assert_eq!(outcome.op_str, "r0, [r13, #0x13]");
    assert_eq!(read_u8(&mut cpu, 0x2000_0113), 0xA5);
    assert_eq!(outcome.pc_update, 4);
}

#[test]
fn decode_strh_w_immediate() {
    let mut cpu = make_cpu();
    cpu.write_sp(0x2000_0100);
    cpu.write_reg(0, 0xBEEF);

    let outcome = decode_execute_32(&mut cpu, 0x0800_03B6, 0xF8AD, 0x0010).expect("strh.w immediate should decode");

    assert_eq!(outcome.mnemonic, "strh.w");
    assert_eq!(outcome.op_str, "r0, [r13, #0x10]");
    assert_eq!(read_u16(&mut cpu, 0x2000_0110), 0xBEEF);
    assert_eq!(outcome.pc_update, 4);
}

#[test]
fn decode_add_sp_immediate_t1() {
    let mut cpu = make_cpu();
    cpu.write_sp(0x2000_0100);

    let outcome = decode_execute_16(&mut cpu, 0x0800_03C0, 0xA904).expect("add sp relative immediate should decode");

    assert_eq!(outcome.mnemonic, "add");
    assert_eq!(outcome.op_str, "r1, sp, #0x10");
    assert_eq!(cpu.read_reg(1), 0x2000_0110);
    assert_eq!(outcome.pc_update, 2);
}

#[test]
fn decode_movw_immediate() {
    let mut cpu = make_cpu();

    let outcome = decode_execute_32(&mut cpu, 0x0800_05C2, 0xF64C, 0x70FF).expect("movw immediate should decode");

    assert_eq!(outcome.mnemonic, "movw");
    assert_eq!(outcome.op_str, "r0, #0xCFFF");
    assert_eq!(cpu.read_reg(0), 0xCFFF);
    assert_eq!(outcome.pc_update, 4);
}

#[test]
fn decode_udiv_t1() {
    let mut cpu = make_cpu();
    cpu.write_reg(5, 100);
    cpu.write_reg(3, 4);

    let outcome = decode_execute_32(&mut cpu, 0x0800_0378, 0xFBB5, 0xF5F3).expect("udiv should decode");

    assert_eq!(outcome.mnemonic, "udiv");
    assert_eq!(outcome.op_str, "r5, r5, r3");
    assert_eq!(cpu.read_reg(5), 25);
    assert_eq!(outcome.pc_update, 4);
}

#[test]
fn decode_mls_t1() {
    let mut cpu = make_cpu();
    cpu.write_reg(1, 6);
    cpu.write_reg(0, 7);
    cpu.write_reg(8, 100);

    let outcome = decode_execute_32(&mut cpu, 0x0800_063E, 0xFB01, 0x8910).expect("mls should decode");

    assert_eq!(outcome.mnemonic, "mls");
    assert_eq!(outcome.op_str, "r9, r1, r0, r8");
    assert_eq!(cpu.read_reg(9), 58);
    assert_eq!(outcome.pc_update, 4);
}

#[test]
fn decode_ubfx_t1() {
    let mut cpu = make_cpu();
    cpu.write_reg(1, 0xFFFF_03AB);

    let outcome = decode_execute_32(&mut cpu, 0x0800_067C, 0xF3C1, 0x0208).expect("ubfx should decode");

    assert_eq!(outcome.mnemonic, "ubfx");
    assert_eq!(outcome.op_str, "r2, r1, #0, #9");
    assert_eq!(cpu.read_reg(2), 0x1AB);
    assert_eq!(outcome.pc_update, 4);
}

#[test]
fn decode_ldrb_register_offset_t1() {
    let mut cpu = make_cpu();
    cpu.write_reg(5, 0x2000_0100);
    cpu.write_reg(1, 0x3);
    write_u8(&mut cpu, 0x2000_0103, 0x7A);

    let outcome = decode_execute_16(&mut cpu, 0x0800_0338, 0x5C6B).expect("ldrb register offset should decode");

    assert_eq!(outcome.mnemonic, "ldrb");
    assert_eq!(outcome.op_str, "r3, [r5, r1]");
    assert_eq!(cpu.read_reg(3), 0x7A);
    assert_eq!(outcome.pc_update, 2);
}

#[test]
fn unsupported_16_bit_encoding_is_reported() {
    let mut cpu = make_cpu();
    // REV r0, r1
    let err = match decode_execute_16(&mut cpu, 0x0800_0010, 0xBA08) {
        Err(e) => e,
        Ok(_) => panic!("rev should not decode"),
    };
    assert_eq!(err, "unsupported 16-bit instruction 0xBA08 at PC 0x08000010");
}

#[test]
fn load_from_unmapped_memory_is_refused() {
    let mut cpu = make_cpu();
    cpu.write_reg(1, 0x9000_0000);
    let before = cpu.read_reg(0);
    // ldr r0, [r1]
    assert!(decode_execute_16(&mut cpu, 0x0800_0000, 0x6808).is_err());
    assert_eq!(cpu.read_reg(0), before);
}

#[test]
fn cmp_sets_negative_and_borrow() {
    let mut cpu = make_cpu();
    cpu.write_reg(0, 1);
    // cmp r0, #2: 1 - 2 is negative and borrows.
    let outcome = decode_execute_16(&mut cpu, 0x0800_0000, 0x2802).expect("cmp should decode");
    assert_eq!(outcome.op_str, "r0, #2");
    assert_eq!(cpu.read_apsr() >> 28, 0b1000);
}

#[test]
fn push_then_pop_restores_registers() {
    let mut cpu = make_cpu();
    cpu.write_sp(0x2000_0200);
    cpu.write_reg(4, 0x44);
    cpu.write_reg(5, 0x55);
    // push {r4, r5}
    let out = decode_execute_16(&mut cpu, 0x0800_0000, 0xB430).expect("push should decode");
    assert_eq!(out.mnemonic, "push");
    assert_eq!(cpu.read_sp(), 0x2000_01F8);
    assert_eq!(cpu.read_mem(0x2000_01F8), 0x44);
    assert_eq!(cpu.read_mem(0x2000_01FC), 0x55);
    cpu.write_reg(4, 0);
    cpu.write_reg(5, 0);
    // pop {r4, r5}
    decode_execute_16(&mut cpu, 0x0800_0002, 0xBC30).expect("pop should decode");
    assert_eq!(cpu.read_reg(4), 0x44);
    assert_eq!(cpu.read_reg(5), 0x55);
    assert_eq!(cpu.read_sp(), 0x2000_0200);
}

#[test]
fn step_executes_instruction_from_flash() {
    let mut cpu = make_cpu();
    // movs r0, #5 at the start of flash.
    cpu.write_mem(0x0800_0000, 0x0000_2005);
    cpu.write_pc(0x0800_0000);
    cpu.next_pc = 0x0800_0000;
    let out = step(&mut cpu, 0x0800_0000).expect("step should execute");
    assert_eq!(out.mnemonic, "movs");
    assert_eq!(cpu.read_reg(0), 5);
}

#[test]
fn push_with_lr_then_pop_with_pc_returns_to_caller() {
    let mut cpu = make_cpu();
    cpu.write_sp(0x2000_1000);
    cpu.write_reg(0, 0x11);
    cpu.write_reg(4, 0x44);
    cpu.write_reg(14, 0x0800_0101);
    push_reg_mask(&mut cpu, 0x0011 | 0x4000);
    assert_eq!(cpu.read_sp(), 0x2000_0FF4);
    cpu.write_reg(0, 0);
    cpu.write_reg(4, 0);
    assert!(pop_reg_mask(&mut cpu, 0x0011 | 0x8000));
    assert_eq!(cpu.read_reg(0), 0x11);
    assert_eq!(cpu.read_reg(4), 0x44);
    assert_eq!(cpu.read_sp(), 0x2000_1000);
    assert_eq!(cpu.read_pc(), 0x0800_0100);
}
