use std::hint::black_box;
use std::sync::atomic::AtomicU32;
use std::sync::Arc;
use std::time::Instant;

use cortex_m4_sim::arch::{ArmCC, ArmInsn};
use cortex_m4_sim::bus::NoPeripherals as EmptyBus;
use cortex_m4_sim::context::CpuContext;
use cortex_m4_sim::cpu::Cpu;
use cortex_m4_sim::jit_engine::table::{empty_arm_operands, imm_op, mem_op, reg_op};
use cortex_m4_sim::opcodes::decoded::{
    DecodedArmOperands, DecodedInstruction, DecodedInstructionBuilder, DecodedOperand, DecodedShift,
    DecodedOperandKind,
};
use cortex_m4_sim::opcodes::instructions::adr::{add_adr_def, OpAdr};
use cortex_m4_sim::opcodes::instructions::bit_field::{add_bit_field_def, Op_Ubfx};
use cortex_m4_sim::opcodes::instructions::bitop::{add_bitop_def, Op_And, Op_Bic, Op_Eor, OpBitResolver};
use cortex_m4_sim::opcodes::instructions::branch::{add_branch_def, Op_Bl, Op_Bx};
use cortex_m4_sim::opcodes::instructions::breakpoint::{add_breakpoint_def, Op_Bkpt};
use cortex_m4_sim::opcodes::instructions::calculate::{
    add_calculate_def, Calculate_builder, Op_Adc, Op_Add, Op_Mls, Op_Rsb, Op_Sbc, Op_Sub, Op_Udiv,
    OpCalculateResolver,
};
use cortex_m4_sim::opcodes::instructions::cmp::{add_cmp_def, Op_Cmn, Op_Cmp};
use cortex_m4_sim::opcodes::instructions::compare_branch::{add_compare_branch_def, Op_Cbnz, Op_Cbz};
use cortex_m4_sim::opcodes::instructions::dispatch::run_exec;
use cortex_m4_sim::opcodes::instructions::extend::{add_extend_def, Op_Uxtb};
use cortex_m4_sim::opcodes::instructions::hint::add_Hint_def;
use cortex_m4_sim::opcodes::instructions::it::add_it_def;
use cortex_m4_sim::opcodes::instructions::ldm::{add_ldm_def, Op_Ldm, OpLdm_resolver};
use cortex_m4_sim::opcodes::instructions::ldr::{
    add_ldr_def, operand_resolver_multi_cached_no_index, Op_Ldr, Op_Ldrsb, OpLdrResolver,
};
use cortex_m4_sim::opcodes::instructions::mov::{add_mov_def, Op_Mov, Op_Mvn};
use cortex_m4_sim::opcodes::instructions::movs::add_movs_def;
use cortex_m4_sim::opcodes::instructions::nop::{add_nop_def, Op_Nop};
use cortex_m4_sim::opcodes::instructions::shift::{addd_shift_def, Op_Asr, Op_Lsl, Op_Ror, Op_Rrx, OpShiftResolver};
use cortex_m4_sim::opcodes::instructions::stack::{add_stack_def, Op_Pop, Op_Push, OpStackResolver};
use cortex_m4_sim::opcodes::instructions::stm::{add_stm_def, Op_Stm};
use cortex_m4_sim::opcodes::instructions::store::{add_str_def, Op_Str, Op_Strb};
use cortex_m4_sim::opcodes::instructions::tst::{add_tst_def, Op_Teq, Op_Tst};
use cortex_m4_sim::opcodes::opcode::{adjust_pop_cycles, CycleInfo, OpExec, Opcode};

fn make_cpu() -> Cpu<EmptyBus> {
    Cpu::new(Arc::new(AtomicU32::new(8_000_000)), 1, EmptyBus, EmptyBus)
}

/// An instruction at 0x0800_0100 of `size` bytes with the given operands and resolved
/// operands.
fn instr(size: u32, operands: Vec<DecodedOperand>, a: DecodedArmOperands, update_flags: bool) -> DecodedInstruction {
    DecodedInstruction::from_parts(
        0x0800_0100,
        size,
        String::new(),
        String::new(),
        operands,
        false,
        update_flags,
        0,
        false,
        Vec::new(),
        a,
    )
}

fn ops(rd: u32, rn: u32, op2: Option<DecodedOperand>) -> DecodedArmOperands {
    let mut a = empty_arm_operands();
    a.rd = rd;
    a.rn = rn;
    a.op2 = op2;
    a
}

fn list_instr(list: Vec<u32>, writeback: bool) -> DecodedInstruction {
    DecodedInstruction::from_parts(
        0x0800_0100,
        2,
        String::new(),
        String::new(),
        Vec::new(),
        writeback,
        false,
        0,
        false,
        list,
        empty_arm_operands(),
    )
}

#[test]
fn operand_resolver_cached_non_writeback_uses_base_register_value() {
    let mut cpu = make_cpu();
    cpu.write_reg(2, 0x2000_0100);

    let mut ops = empty_arm_operands();
    ops.rd = 1;
    ops.rn = 2;
    ops.mem_has_index = false;
    ops.mem_writeback = false;
    ops.mem_post_index = false;
    ops.mem_disp = 0x20;

    let (rt, addr) = operand_resolver_multi_cached_no_index(&mut cpu, &ops);
    assert_eq!(rt, 1);
    assert_eq!(addr, 0x2000_0120);
}

#[test]
fn operand_resolver_cached_writeback_pre_index_uses_mem_disp() {
    let mut cpu = make_cpu();
    cpu.write_reg(4, 0x2000_0200);

    let mut ops = empty_arm_operands();
    ops.rd = 3;
    ops.rn = 4;
    ops.mem_has_index = false;
    ops.mem_writeback = true;
    ops.mem_post_index = false;
    ops.mem_disp = -0x10;

    let (rt, addr) = operand_resolver_multi_cached_no_index(&mut cpu, &ops);
    assert_eq!(rt, 3);
    assert_eq!(addr, 0x2000_01F0);
    assert_eq!(cpu.read_reg(4), 0x2000_01F0);
}

#[test]
fn operand_resolver_cached_writeback_post_index_uses_post_imm() {
    let mut cpu = make_cpu();
    cpu.write_reg(6, 0x2000_0300);

    let mut ops = empty_arm_operands();
    ops.rd = 5;
    ops.rn = 6;
    ops.mem_has_index = false;
    ops.mem_writeback = true;
    ops.mem_post_index = true;
    ops.mem_post_imm = 0x24;
    ops.mem_disp = -0x100;

    let (rt, addr) = operand_resolver_multi_cached_no_index(&mut cpu, &ops);
    assert_eq!(rt, 5);
    assert_eq!(addr, 0x2000_0300);
    assert_eq!(cpu.read_reg(6), 0x2000_0324);
}

#[test]
fn perf_operand_resolver_cached_no_index() {
    let loops = 1_000_000u64;
    let mut cpu = make_cpu();
    cpu.write_reg(2, 0x2000_0100);
    cpu.write_reg(4, 0x2000_0200);
    cpu.write_reg(6, 0x2000_0300);

    let mut ops_non_wb = empty_arm_operands();
    ops_non_wb.rd = 1;
    ops_non_wb.rn = 2;
    ops_non_wb.mem_writeback = false;
    ops_non_wb.mem_disp = 0x20;

    let mut ops_pre = empty_arm_operands();
    ops_pre.rd = 3;
    ops_pre.rn = 4;
    ops_pre.mem_writeback = true;
    ops_pre.mem_post_index = false;
    ops_pre.mem_disp = -0x10;

    let mut ops_post = empty_arm_operands();
    ops_post.rd = 5;
    ops_post.rn = 6;
    ops_post.mem_writeback = true;
    ops_post.mem_post_index = true;
    ops_post.mem_post_imm = 0x24;

    let start = Instant::now();
    let mut checksum = 0u32;
    for _ in 0..loops {
        let (rt, addr) = operand_resolver_multi_cached_no_index(&mut cpu, &ops_non_wb);
        checksum ^= rt ^ addr;
    }
    let elapsed_non_wb = start.elapsed();

    let start = Instant::now();
    for _ in 0..loops {
        let (rt, addr) = operand_resolver_multi_cached_no_index(&mut cpu, &ops_pre);
        checksum ^= rt ^ addr;
    }
    let elapsed_pre = start.elapsed();

    let start = Instant::now();
    for _ in 0..loops {
        let (rt, addr) = operand_resolver_multi_cached_no_index(&mut cpu, &ops_post);
        checksum ^= rt ^ addr;
    }
    let elapsed_post = start.elapsed();

    println!("[perf][ldr] non_writeback: {:?}, pre_index: {:?}, post_index: {:?}", elapsed_non_wb, elapsed_pre, elapsed_post);
    black_box(checksum);
    assert!(elapsed_non_wb.as_nanos() > 0);
    assert!(elapsed_pre.as_nanos() > 0);
    assert!(elapsed_post.as_nanos() > 0);
}

fn all_definition_groups() -> Vec<(&'static str, Vec<Opcode>)> {
    vec![
        ("adr", add_adr_def()),
        ("bit_field", add_bit_field_def()),
        ("bitop", add_bitop_def()),
        ("branch", add_branch_def()),
        ("breakpoint", add_breakpoint_def()),
        ("calculate", add_calculate_def()),
        ("cmp", add_cmp_def()),
        ("compare_branch", add_compare_branch_def()),
        ("extend", add_extend_def()),
        ("hint", add_Hint_def()),
        ("it", add_it_def()),
        ("ldm", add_ldm_def()),
        ("ldr", add_ldr_def()),
        ("mov", add_mov_def()),
        ("movs", add_movs_def()),
        ("nop", add_nop_def()),
        ("shift", addd_shift_def()),
        ("stack", add_stack_def()),
        ("stm", add_stm_def()),
        ("str", add_str_def()),
        ("tst", add_tst_def()),
    ]
}

#[test]
fn all_instruction_definitions_are_buildable_and_valid() {
    for (label, defs) in all_definition_groups() {
        assert!(!defs.is_empty(), "{label} definitions should not be empty");
        for op in &defs {
            assert!(op.insnid != ArmInsn::ARM_INS_INVALID, "{label} has invalid insnid");
            assert!(!op.name.trim().is_empty(), "{label} has empty mnemonic");
            assert!(op.length > 0, "{label} has invalid length");
        }
    }
}

#[test]
fn calculate_table_lists_the_arithmetic_entries() {
    let t = Calculate_builder.build();
    let names: Vec<&str> = t.iter().map(|o| o.name.as_str()).collect();
    assert_eq!(names, vec!["ADD", "ADC", "SUB", "SBC", "RSB", "MUL", "UDIV", "MLS"]);
    assert_eq!(t[6].executor, OpExec::Udiv);
    assert_eq!(t[0].cycles, CycleInfo::new(1, 0, 1));
    let loads = add_ldr_def();
    assert_eq!(loads[0].cycles.execute_cycles, 2);
    assert_eq!(add_mov_def()[0].cycles.fetch_cycles, 0);
}

#[test]
fn add_sets_carry_and_overflow() {
    let mut cpu = make_cpu();
    cpu.write_reg(1, 0x7FFF_FFFF);
    let d = instr(2, vec![], ops(0, 1, Some(imm_op(1))), true);
    assert_eq!(Op_Add::execute(&mut cpu, &d), 2);
    assert_eq!(cpu.read_reg(0), 0x8000_0000);
    // N and V set, Z and C clear.
    assert_eq!(cpu.read_apsr() >> 28, 0b1001);

    cpu.write_reg(1, 0xFFFF_FFFF);
    assert_eq!(Op_Add::execute(&mut cpu, &d), 2);
    assert_eq!(cpu.read_reg(0), 0);
    // Z and C set.
    assert_eq!(cpu.read_apsr() >> 28, 0b0110);
}

#[test]
fn adc_adds_the_carry_and_sets_signed_overflow() {
    let mut cpu = make_cpu();
    cpu.write_apsr(1 << 29);
    cpu.write_reg(1, 0x7FFF_FFFF);
    let d = instr(2, vec![], ops(0, 1, Some(imm_op(0))), true);
    Op_Adc::execute(&mut cpu, &d);
    assert_eq!(cpu.read_reg(0), 0x8000_0000);
    assert_eq!(cpu.read_apsr() >> 28, 0b1001);

    // 0x7FFFFFFF + 1 with carry clear overflows too.
    cpu.write_apsr(0);
    let d = instr(2, vec![], ops(0, 1, Some(imm_op(1))), true);
    Op_Adc::execute(&mut cpu, &d);
    assert_eq!(cpu.read_reg(0), 0x8000_0000);
    assert_eq!(cpu.read_apsr() >> 28, 0b1001);

    // -1 + 1 carries out without overflow.
    cpu.write_apsr(0);
    cpu.write_reg(1, 0xFFFF_FFFF);
    Op_Adc::execute(&mut cpu, &d);
    assert_eq!(cpu.read_reg(0), 0);
    assert_eq!(cpu.read_apsr() >> 28, 0b0110);
}

#[test]
fn sub_sbc_rsb_compute_differences() {
    let mut cpu = make_cpu();
    cpu.write_reg(1, 10);
    let d = instr(4, vec![], ops(0, 1, Some(imm_op(3))), true);
    Op_Sub::execute(&mut cpu, &d);
    assert_eq!(cpu.read_reg(0), 7);
    assert_eq!((cpu.read_apsr() >> 29) & 1, 1);

    // Carry clear: SBC subtracts one more.
    cpu.write_apsr(0);
    Op_Sbc::execute(&mut cpu, &d);
    assert_eq!(cpu.read_reg(0), 6);

    Op_Rsb::execute(&mut cpu, &d);
    assert_eq!(cpu.read_reg(0), 3u32.wrapping_sub(10));
    assert_eq!((cpu.read_apsr() >> 31) & 1, 1);
}

#[test]
fn udiv_by_zero_gives_zero_and_mls_uses_operand_three() {
    let mut cpu = make_cpu();
    cpu.write_reg(1, 100);
    cpu.write_reg(2, 0);
    let d = instr(4, vec![], ops(0, 1, Some(reg_op(2))), false);
    Op_Udiv::execute(&mut cpu, &d);
    assert_eq!(cpu.read_reg(0), 0);

    cpu.write_reg(2, 7);
    cpu.write_reg(3, 6);
    cpu.write_reg(8, 100);
    let m = instr(4, vec![reg_op(9), reg_op(3), reg_op(2), reg_op(8)], ops(9, 3, Some(reg_op(2))), false);
    Op_Mls::execute(&mut cpu, &m);
    assert_eq!(cpu.read_reg(9), 58);
}

#[test]
fn condition_failure_skips_the_instruction() {
    let mut cpu = make_cpu();
    cpu.write_reg(1, 5);
    let mut a = ops(0, 1, Some(imm_op(1)));
    a.condition = ArmCC::ARM_CC_EQ;
    let d = instr(2, vec![], a, false);
    assert_eq!(Op_Add::execute(&mut cpu, &d), 2);
    assert_eq!(cpu.read_reg(0), 0);
    cpu.write_apsr(1 << 30);
    Op_Add::execute(&mut cpu, &d);
    assert_eq!(cpu.read_reg(0), 6);
}

#[test]
fn writing_pc_returns_zero() {
    let mut cpu = make_cpu();
    cpu.write_reg(1, 0x0800_0200);
    let d = instr(2, vec![], ops(15, 1, Some(imm_op(0))), false);
    assert_eq!(Op_Add::execute(&mut cpu, &d), 0);
    assert_eq!(cpu.read_pc(), 0x0800_0200);
}

#[test]
fn logical_operations_and_flags() {
    let mut cpu = make_cpu();
    cpu.write_reg(1, 0xF0F0);
    let mut shifted = reg_op(2);
    shifted.shift = DecodedShift::Lsl(4);
    cpu.write_reg(2, 0x0FF0);
    let d = instr(4, vec![], ops(0, 1, Some(shifted)), true);
    Op_And::execute(&mut cpu, &d);
    assert_eq!(cpu.read_reg(0), 0xF0F0 & 0xFF00);
    Op_Eor::execute(&mut cpu, &d);
    assert_eq!(cpu.read_reg(0), 0xF0F0 ^ 0xFF00);
    Op_Bic::execute(&mut cpu, &d);
    assert_eq!(cpu.read_reg(0), 0xF0F0 & !0xFF00);
    let t = instr(2, vec![], ops(0, 1, Some(imm_op(0))), false);
    Op_Tst::execute(&mut cpu, &t);
    assert_eq!((cpu.read_apsr() >> 30) & 1, 1);
    Op_Teq::execute(&mut cpu, &t);
    assert_eq!((cpu.read_apsr() >> 30) & 1, 0);
}

#[test]
fn compare_sets_flags_without_writing() {
    let mut cpu = make_cpu();
    cpu.write_reg(0, 5);
    let d = instr(2, vec![], ops(0, 0, Some(imm_op(5))), false);
    assert_eq!(Op_Cmp::execute(&mut cpu, &d), 2);
    assert_eq!(cpu.read_apsr() >> 28, 0b0110);
    assert_eq!(cpu.read_reg(0), 5);
    let n = instr(2, vec![], ops(0, 0, Some(imm_op(-5))), false);
    Op_Cmn::execute(&mut cpu, &n);
    assert_eq!(cpu.read_apsr() >> 28, 0b0110);
}

#[test]
fn moves_and_extends() {
    let mut cpu = make_cpu();
    let d = instr(2, vec![], ops(3, 0, Some(imm_op(0x1234_5678))), false);
    Op_Mov::execute(&mut cpu, &d);
    assert_eq!(cpu.read_reg(3), 0x1234_5678);
    Op_Mvn::execute(&mut cpu, &d);
    assert_eq!(cpu.read_reg(3), !0x1234_5678u32);
    let e = instr(4, vec![], ops(4, 3, Some(reg_op(3))), false);
    cpu.write_reg(3, 0x1234_5678);
    Op_Uxtb::execute(&mut cpu, &e);
    assert_eq!(cpu.read_reg(4), 0x78);
}

#[test]
fn shifts_by_register_and_immediate() {
    let mut cpu = make_cpu();
    cpu.write_reg(1, 0x8000_0001);
    cpu.write_reg(2, 33);
    let asr = instr(4, vec![], ops(0, 1, Some(reg_op(2))), true);
    Op_Asr::execute(&mut cpu, &asr);
    assert_eq!(cpu.read_reg(0), 0xFFFF_FFFF);
    assert_eq!((cpu.read_apsr() >> 29) & 1, 1);
    let lsl = instr(4, vec![], ops(0, 1, Some(imm_op(4))), true);
    Op_Lsl::execute(&mut cpu, &lsl);
    assert_eq!(cpu.read_reg(0), 0x10);
    let ror = instr(4, vec![], ops(0, 1, Some(imm_op(1))), false);
    Op_Ror::execute(&mut cpu, &ror);
    assert_eq!(cpu.read_reg(0), 0xC000_0000);
    cpu.write_apsr(1 << 29);
    let rrx = instr(4, vec![], ops(0, 1, None), true);
    Op_Rrx::execute(&mut cpu, &rrx);
    assert_eq!(cpu.read_reg(0), 0xC000_0000);
    assert_eq!((cpu.read_apsr() >> 29) & 1, 1);
}

#[test]
fn ubfx_and_adr() {
    let mut cpu = make_cpu();
    cpu.write_reg(1, 0xFFFF_03AB);
    let u = instr(4, vec![reg_op(2), reg_op(1), imm_op(0), imm_op(9)], ops(2, 1, None), false);
    Op_Ubfx::execute(&mut cpu, &u);
    assert_eq!(cpu.read_reg(2), 0x1AB);
    let a = instr(2, vec![], ops(0, 0, Some(imm_op(0x0800_0124))), false);
    OpAdr::execute(&mut cpu, &a);
    assert_eq!(cpu.read_reg(0), 0x0800_0124);
}

#[test]
fn branches_and_compare_branches() {
    let mut cpu = make_cpu();
    cpu.write_pc(0x0800_0104);
    let bl = instr(4, vec![imm_op(0x0800_0400)], empty_arm_operands(), false);
    assert_eq!(Op_Bl::execute(&mut cpu, &bl), 0);
    assert_eq!(cpu.read_lr(14), 0x0800_0105);
    assert_eq!(cpu.read_pc(), 0x0800_0400);
    cpu.write_reg(3, 0x0800_0201);
    let bx = instr(2, vec![reg_op(3)], empty_arm_operands(), false);
    Op_Bx::execute(&mut cpu, &bx);
    assert_eq!(cpu.read_pc(), 0x0800_0200);
    let cbz = instr(2, vec![], ops(0, 5, Some(imm_op(0x0800_0300))), false);
    assert_eq!(Op_Cbz::execute(&mut cpu, &cbz), 0);
    assert_eq!(cpu.read_pc(), 0x0800_0300);
    assert_eq!(Op_Cbnz::execute(&mut cpu, &cbz), 2);
}

#[test]
fn loads_and_stores() {
    let mut cpu = make_cpu();
    cpu.write_reg(1, 0x2000_0010);
    cpu.write_reg(0, 0x1234_56F8);
    let mut st = ops(0, 1, None);
    st.mem_writeback = false;
    let s = instr(2, vec![reg_op(0), mem_op(1, None, 4)], st, false);
    assert_eq!(Op_Str::execute(&mut cpu, &s), 2);
    assert_eq!(cpu.read_mem(0x2000_0014), 0x1234_56F8);
    let sb = instr(2, vec![reg_op(0), mem_op(1, None, 9)], st, false);
    Op_Strb::execute(&mut cpu, &sb);
    assert_eq!(cpu.read_mem(0x2000_0018), 0x0000_F800);

    let mut builder_ops = DecodedInstructionBuilder {
        address: 0x0800_0100,
        size: 2,
        mnemonic: String::from("ldrsb"),
        op_str: String::new(),
        operands: vec![reg_op(2), mem_op(1, None, 9)],
        writeback: false,
        update_flags: false,
        it_mask: 0,
        writes_pc: false,
        transed_operands: Vec::new(),
        arm_operands: empty_arm_operands(),
    };
    assert_eq!(OpLdrResolver.resolve(&mut builder_ops), 2);
    let l = builder_ops.build();
    assert_eq!(l.arm_operands.rn, 1);
    assert_eq!(l.arm_operands.mem_disp, 9);
    Op_Ldrsb::execute(&mut cpu, &l);
    assert_eq!(cpu.read_reg(2), 0xFFFF_FFF8);
    let mut word = ops(2, 1, None);
    word.mem_disp = 5;
    let w = instr(2, vec![reg_op(2), mem_op(1, None, 5)], word, false);
    Op_Ldr::execute(&mut cpu, &w);
    assert_eq!(cpu.read_reg(2), 0x1234_56F8);
}

#[test]
fn push_then_pop_gives_registers_back() {
    let mut cpu = make_cpu();
    cpu.write_sp(0x2000_0400);
    cpu.write_reg(4, 0x44);
    cpu.write_reg(7, 0x77);
    cpu.write_reg(14, 0x0800_0123);
    let push = list_instr(vec![4, 7, 14], false);
    assert_eq!(Op_Push::execute(&mut cpu, &push), 2);
    assert_eq!(cpu.read_sp(), 0x2000_0400 - 12);
    assert_eq!(cpu.read_mem(0x2000_0400 - 12), 0x44);
    assert_eq!(cpu.read_mem(0x2000_0400 - 4), 0x0800_0123);
    cpu.write_reg(4, 0);
    cpu.write_reg(7, 0);
    cpu.write_reg(14, 0);
    let pop = list_instr(vec![4, 7, 14], false);
    assert_eq!(Op_Pop::execute(&mut cpu, &pop), 2);
    assert_eq!(cpu.read_reg(4), 0x44);
    assert_eq!(cpu.read_reg(7), 0x77);
    assert_eq!(cpu.read_reg(14), 0x0800_0123);
    assert_eq!(cpu.read_sp(), 0x2000_0400);
}

#[test]
fn pop_into_pc_branches_with_bit_zero_cleared() {
    let mut cpu = make_cpu();
    cpu.write_sp(0x2000_0400);
    cpu.write_mem(0x2000_0400, 0x0800_0301);
    let pop = list_instr(vec![15], false);
    assert_eq!(Op_Pop::execute(&mut cpu, &pop), 0);
    assert_eq!(cpu.read_pc(), 0x0800_0300);
    assert_eq!(cpu.read_sp(), 0x2000_0404);
}

#[test]
fn stm_then_ldm_round_trip_with_writeback() {
    let mut cpu = make_cpu();
    cpu.write_reg(0, 0x2000_0100);
    cpu.write_reg(1, 11);
    cpu.write_reg(2, 22);
    let stm = list_instr(vec![0, 1, 2], true);
    assert_eq!(Op_Stm::execute(&mut cpu, &stm), 2);
    assert_eq!(cpu.read_reg(0), 0x2000_0108);
    assert_eq!(cpu.read_mem(0x2000_0104), 22);
    cpu.write_reg(0, 0x2000_0100);
    cpu.write_reg(1, 0);
    cpu.write_reg(2, 0);
    let ldm = list_instr(vec![0, 1, 2], false);
    assert_eq!(Op_Ldm::execute(&mut cpu, &ldm), 2);
    assert_eq!(cpu.read_reg(1), 11);
    assert_eq!(cpu.read_reg(2), 22);
    assert_eq!(cpu.read_reg(0), 0x2000_0100);
}

#[test]
fn resolvers_fill_operands() {
    let mut b = DecodedInstructionBuilder {
        address: 0,
        size: 2,
        mnemonic: String::from("adds"),
        op_str: String::new(),
        operands: vec![reg_op(1), imm_op(8)],
        writeback: false,
        update_flags: true,
        it_mask: 0,
        writes_pc: false,
        transed_operands: Vec::new(),
        arm_operands: empty_arm_operands(),
    };
    assert_eq!(OpCalculateResolver.resolve(&mut b), 1);
    assert_eq!(b.arm_operands.rn, 1);
    assert_eq!(b.arm_operands.op2.map(|o| o.op_type), Some(DecodedOperandKind::Imm(8)));

    let mut bits = b.clone();
    bits.operands = vec![reg_op(2), reg_op(3)];
    OpBitResolver.resolve(&mut bits);
    assert_eq!((bits.arm_operands.rd, bits.arm_operands.rn), (2, 2));

    let mut sh = b.clone();
    sh.operands = vec![reg_op(0), reg_op(1), imm_op(3)];
    OpShiftResolver.resolve(&mut sh);
    assert_eq!((sh.arm_operands.rd, sh.arm_operands.rn), (0, 1));

    let mut st = b.clone();
    st.operands = vec![reg_op(7), reg_op(4), imm_op(1), reg_op(5)];
    assert_eq!(OpStackResolver.resolve(&mut st), 3);
    assert_eq!(st.transed_operands, vec![4, 5, 7]);

    let mut lm = b.clone();
    lm.operands = vec![reg_op(6), reg_op(3), reg_op(1)];
    assert_eq!(OpLdm_resolver.resolve(&mut lm), 2);
    assert_eq!(lm.transed_operands, vec![6, 1, 3]);
}

#[test]
fn pop_cycles_count_registers_and_pc() {
    let mut c = CycleInfo::new(1, 0, 1);
    adjust_pop_cycles(&mut c, &[reg_op(4), reg_op(15)]);
    assert_eq!(c.execute_cycles, 4);
    adjust_pop_cycles(&mut c, &[reg_op(4)]);
    assert_eq!(c.execute_cycles, 2);
}

#[test]
fn breakpoint_and_nop_leave_the_core_alone() {
    let mut cpu = make_cpu();
    cpu.write_reg(0, 9);
    let d = instr(2, vec![imm_op(3)], empty_arm_operands(), false);
    assert_eq!(Op_Bkpt::execute(&mut cpu, &d), 0);
    assert_eq!(Op_Nop::execute(&mut cpu, &d), 2);
    assert_eq!(cpu.read_reg(0), 9);
}

#[test]
fn table_executor_runs_the_named_operation() {
    let mut cpu = make_cpu();
    cpu.write_reg(1, 40);
    let d = instr(2, vec![], ops(0, 1, Some(imm_op(2))), false);
    assert_eq!(run_exec(OpExec::Add, &mut cpu, &d), 2);
    assert_eq!(cpu.read_reg(0), 42);
    run_exec(OpExec::Sub, &mut cpu, &d);
    assert_eq!(cpu.read_reg(0), 38);
}
