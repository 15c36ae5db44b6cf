use std::sync::atomic::AtomicU32;
use std::sync::Arc;

use cortex_m4_sim::arch::ArmInsn;
use cortex_m4_sim::bus::NoPeripherals as EmptyBus;
use cortex_m4_sim::context::CpuContext;
use cortex_m4_sim::cpu::Cpu;
use cortex_m4_sim::jit_engine::table::{empty_arm_operands, imm_op, reg_op};
use cortex_m4_sim::opcodes::decoded::DecodedInstructionBuilder;
use cortex_m4_sim::opcodes::instruction::{Cpu_InstrTable, OpcodeTable};
use cortex_m4_sim::opcodes::opcode::Opcode;

fn build_cpu() -> Cpu<EmptyBus> {
    Cpu::new(Arc::new(AtomicU32::new(8_000_000)), 1, EmptyBus, EmptyBus)
}

fn builder(address: u32, mnemonic: &str, operands: Vec<cortex_m4_sim::opcodes::decoded::DecodedOperand>, update_flags: bool) -> DecodedInstructionBuilder {
    DecodedInstructionBuilder {
        address,
        size: 2,
        mnemonic: String::from(mnemonic),
        op_str: String::new(),
        operands,
        writeback: false,
        update_flags,
        it_mask: 0,
        writes_pc: false,
        transed_operands: Vec::new(),
        arm_operands: empty_arm_operands(),
    }
}

fn entry_for(table: &OpcodeTable, insn: ArmInsn) -> Opcode {
    table
        .get_table()
        .iter()
        .find(|(k, _)| *k == insn)
        .map(|(_, group)| group[0].clone())
        .expect("entry missing")
}

#[test]
fn opcode_table_groups_entries_by_instruction() {
    let table = OpcodeTable::new();
    let groups = table.get_table();
    assert!(!groups.is_empty());
    for (i, (k, group)) in groups.iter().enumerate() {
        assert!(!group.is_empty());
        assert!(group.iter().all(|op| op.insnid == *k));
        assert!(groups[i + 1..].iter().all(|(k2, _)| k2 != k));
    }
    assert!(groups.iter().any(|(k, _)| *k == ArmInsn::ARM_INS_ADD));
    assert!(groups.iter().any(|(k, _)| *k == ArmInsn::ARM_INS_PUSH));
}

#[test]
fn instruction_table_resolves_and_runs_entries() {
    let opcodes = OpcodeTable::new();
    let mut cpu = build_cpu();
    let mut table = Cpu_InstrTable::new();
    let add = entry_for(&opcodes, ArmInsn::ARM_INS_ADD);
    table.add_instruction(&cpu, add, builder(0x0800_0000, "adds", vec![reg_op(0), reg_op(1), imm_op(1)], true));
    let ins = table.get(0x0800_0000).expect("entry at 0x08000000");
    assert_eq!(ins.data.arm_operands.rd, 0);
    assert_eq!(ins.data.arm_operands.rn, 1);
    assert!(table.get(0x0800_0002).is_none());

    cpu.write_reg(1, 5);
    cpu.next_pc = 0x0800_0000;
    let cycles = cpu.step(ins, 0x0800_0000);
    assert_eq!(cycles, 1);
    assert_eq!(cpu.read_reg(0), 6);
    assert_eq!(cpu.next_pc, 0x0800_0002);
}

#[test]
fn instruction_table_adjusts_push_cycles() {
    let opcodes = OpcodeTable::new();
    let cpu = build_cpu();
    let mut table = Cpu_InstrTable::new();
    let push = entry_for(&opcodes, ArmInsn::ARM_INS_PUSH);
    table.add_instruction(&cpu, push, builder(0x0800_0010, "push", vec![reg_op(4), reg_op(5), reg_op(14)], false));
    let ins = table.get(0x0800_0010).unwrap();
    assert_eq!(ins.op.cycles.execute_cycles, 4);
    assert_eq!(ins.data.transed_operands, vec![4, 5, 14]);
}

#[test]
fn instruction_table_lookup_survives_optimize() {
    let opcodes = OpcodeTable::new();
    let cpu = build_cpu();
    let mut table = Cpu_InstrTable::new();
    let add = entry_for(&opcodes, ArmInsn::ARM_INS_ADD);
    let mov = entry_for(&opcodes, ArmInsn::ARM_INS_MOV);
    table.add_instruction(&cpu, mov.clone(), builder(0x0800_0004, "mov", vec![reg_op(2), reg_op(3)], false));
    table.add_instruction(&cpu, add.clone(), builder(0x0800_0000, "adds", vec![reg_op(0), reg_op(1), imm_op(1)], true));
    table.add_instruction(&cpu, mov, builder(0x0800_0004, "mov", vec![reg_op(6), reg_op(7)], false));
    assert_eq!(table.get(0x0800_0004).unwrap().data.arm_operands.rd, 6);
    table.optimize();
    assert_eq!(table.get(0x0800_0000).unwrap().op.insnid, ArmInsn::ARM_INS_ADD);
    assert_eq!(table.get(0x0800_0004).unwrap().data.arm_operands.rd, 6);
    assert!(table.get(0x0800_0002).is_none());
    assert!(table.get(0x0800_0008).is_none());
}
