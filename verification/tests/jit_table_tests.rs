use std::sync::atomic::AtomicU32;
use std::sync::Arc;

use cortex_m4_sim::arch::ArmInsn;
use cortex_m4_sim::bus::NoPeripherals as EmptyBus;
use cortex_m4_sim::cpu::Cpu;
use cortex_m4_sim::jit_engine::table::{
    decode_jit_instruction_16, decode_jit_instruction_32, decode_jit_instruction_from_thumb, JitBlockTable, JitBlockTableBuilder,
    JitBlockTerminator, JitTableBuildError, jit_instruction_from_record,
};
use cortex_m4_sim::disassembler::listing::{disassemble_thumb, InsnRecord};

fn build_cpu() -> Cpu<EmptyBus> {
    Cpu::new(Arc::new(AtomicU32::new(8_000_000)), 1, EmptyBus, EmptyBus)
}

/// Places `bytes` at the start of flash.
fn load_code_bytes(cpu: &mut Cpu<EmptyBus>, bytes: &[u8]) {
    cpu.flash[..bytes.len()].copy_from_slice(bytes);
}

/// Builds the table of the instructions that Capstone finds in `bytes` at the start of flash.
fn table_of(bytes: &[u8]) -> JitBlockTable {
    let insns = disassemble_thumb(&bytes.to_vec(), 0x0800_0000).expect("failed to disassemble");
    JitBlockTableBuilder::build_from_disassembly(&insns).expect("failed to build jit instruction table")
}

fn record(address: u64, bytes: &[u8]) -> InsnRecord {
    InsnRecord { address, bytes: bytes.to_vec(), id: 0, mnemonic: String::new(), op_str: String::new() }
}

#[test]
fn jit_instruction_table_builder_builds_entries() {
    let table = table_of(&[0x08, 0x68, 0x00, 0xBF]);

    assert_eq!(table.len(), 2);
    assert!(table.get(0x0800_0000).is_some());
    assert!(table.get(0x0800_0002).is_some());
    assert_eq!(table.blocks().len(), 1);
    assert_eq!(table.blocks()[0].start_pc, 0x0800_0000);
    assert_eq!(table.blocks()[0].end_pc, 0x0800_0002);
    assert_eq!(table.blocks()[0].terminator, JitBlockTerminator::EndOfTable);
    assert!(table.block_starting_at(0x0800_0000).is_some());
}

#[test]
fn jit_instruction_table_builder_extends_from_runtime_pc() {
    let mut cpu = build_cpu();
    load_code_bytes(&mut cpu, &[0x08, 0x68, 0x00, 0xBF]);

    let mut builder = JitBlockTableBuilder::new();
    let added = builder
        .extend_from_pc(&cpu, 0x0800_0000, 0x0800_0004, 16)
        .expect("failed to extend jit table from runtime pc");
    let table = builder.build_snapshot();

    assert_eq!(added, 2);
    assert!(table.get(0x0800_0000).is_some());
    assert!(table.get(0x0800_0002).is_some());
}

#[test]
fn jit_block_builder_starts_new_block_at_branch_target() {
    let table = table_of(&[0x00, 0xE0, 0x00, 0xBF, 0x00, 0xBF]);

    assert_eq!(table.blocks().len(), 3);
    assert_eq!(table.blocks()[0].start_pc, 0x0800_0000);
    assert_eq!(table.blocks()[0].end_pc, 0x0800_0000);
    assert_eq!(table.blocks()[0].terminator, JitBlockTerminator::Branch);
    assert_eq!(table.blocks()[1].start_pc, 0x0800_0002);
    assert_eq!(table.blocks()[1].end_pc, 0x0800_0002);
    assert_eq!(table.blocks()[1].terminator, JitBlockTerminator::BranchTarget);
    assert_eq!(table.blocks()[2].start_pc, 0x0800_0004);
    assert_eq!(table.blocks()[2].end_pc, 0x0800_0004);
    assert_eq!(table.blocks()[2].terminator, JitBlockTerminator::EndOfTable);
    assert!(table.block_starting_at(0x0800_0004).is_some());
}

#[test]
fn jit_block_builder_splits_on_branch_instruction() {
    let table = table_of(&[0xFE, 0xE7, 0x00, 0xBF, 0x00, 0xBF]);

    assert_eq!(table.blocks().len(), 2);
    assert_eq!(table.blocks()[0].start_pc, 0x0800_0000);
    assert_eq!(table.blocks()[0].end_pc, 0x0800_0000);
    assert_eq!(table.blocks()[0].instruction_count, 1);
    assert_eq!(table.blocks()[0].terminator, JitBlockTerminator::Branch);
    assert_eq!(table.blocks()[1].start_pc, 0x0800_0002);
    assert_eq!(table.blocks()[1].end_pc, 0x0800_0004);
    assert_eq!(table.blocks()[1].instruction_count, 2);
    assert_eq!(table.blocks()[1].terminator, JitBlockTerminator::EndOfTable);
}

#[test]
fn jit_block_builder_splits_on_pc_write_instruction() {
    let table = table_of(&[0x87, 0x46, 0x00, 0xBF]);

    assert_eq!(table.blocks().len(), 2);
    assert_eq!(table.blocks()[0].start_pc, 0x0800_0000);
    assert_eq!(table.blocks()[0].end_pc, 0x0800_0000);
    assert_eq!(table.blocks()[0].terminator, JitBlockTerminator::PcWrite);
    assert_eq!(table.blocks()[1].start_pc, 0x0800_0002);
    assert_eq!(table.blocks()[1].end_pc, 0x0800_0002);
    assert_eq!(table.blocks()[1].terminator, JitBlockTerminator::EndOfTable);
}

#[test]
fn jit_block_builder_splits_at_it_block_end() {
    let table = table_of(&[0x18, 0xBF, 0xFB, 0x1A, 0x00, 0xBF]);

    assert_eq!(table.blocks().len(), 2);
    assert_eq!(table.blocks()[0].start_pc, 0x0800_0000);
    assert_eq!(table.blocks()[0].end_pc, 0x0800_0002);
    assert_eq!(table.blocks()[0].instruction_count, 2);
    assert_eq!(table.blocks()[0].terminator, JitBlockTerminator::ItBlockEnd);
    assert_eq!(table.blocks()[1].start_pc, 0x0800_0004);
    assert_eq!(table.blocks()[1].end_pc, 0x0800_0004);
    assert_eq!(table.blocks()[1].terminator, JitBlockTerminator::EndOfTable);
}

#[test]
fn jit_block_builder_splits_on_exception_return_path() {
    let table = table_of(&[0x10, 0xBD, 0x00, 0xBF]);

    assert_eq!(table.blocks().len(), 2);
    assert_eq!(table.blocks()[0].start_pc, 0x0800_0000);
    assert_eq!(table.blocks()[0].end_pc, 0x0800_0000);
    assert_eq!(table.blocks()[0].terminator, JitBlockTerminator::ExceptionReturn);
    assert_eq!(table.blocks()[1].start_pc, 0x0800_0002);
    assert_eq!(table.blocks()[1].end_pc, 0x0800_0002);
    assert_eq!(table.blocks()[1].terminator, JitBlockTerminator::EndOfTable);
}

#[test]
fn every_entry_lies_in_exactly_one_block() {
    let table = table_of(&[0x00, 0xE0, 0x00, 0xBF, 0x87, 0x46, 0x00, 0xBF, 0x10, 0xBD, 0x00, 0xBF]);
    let stats = table.block_stats();
    assert_eq!(stats.total_instruction_count, table.len());
    for entry in table.iter_entries() {
        let pc = entry.data.address;
        let holding = table.blocks().iter().filter(|b| b.start_pc <= pc && pc <= b.end_pc).count();
        assert_eq!(holding, 1, "entry at {pc:#x}");
    }
}

#[test]
fn decode_failure_reports_the_address() {
    let cpu = build_cpu();
    let mut builder = JitBlockTableBuilder::new();
    // Code is fetched from flash and RAM only.
    let r = builder.extend_from_pc(&cpu, 0x9000_0000, 0x9000_0004, 16);
    assert_eq!(r, Err(JitTableBuildError::DecodeFailed { address: 0x9000_0000 }));
}

#[test]
fn jit_decoder_marks_unknown_encodings() {
    // REV is not among the encodings the block engine knows.
    let j = decode_jit_instruction_16(0x0800_0010, 0xBA08).expect("16-bit encodings always decode");
    assert_eq!(j.insn, ArmInsn::ARM_INS_INVALID);
    assert_eq!(j.data.mnemonic, "unknown");
    assert_eq!(j.data.size, 2);
}

#[test]
fn jit_decoder_reads_movw_and_branch_target() {
    let movw = decode_jit_instruction_32(0x0800_05C2, 0xF64C, 0x70FF).expect("movw should decode");
    assert_eq!(movw.data.size, 4);
    assert_eq!(movw.insn, ArmInsn::ARM_INS_MOV);
    assert_eq!(movw.data.operands[1].op_type, cortex_m4_sim::opcodes::decoded::DecodedOperandKind::Imm(0xCFFF));
    let b = decode_jit_instruction_16(0x0800_0000, 0xE000).expect("b should decode");
    assert_eq!(b.insn, ArmInsn::ARM_INS_B);
    assert_eq!(b.static_branch_target(), Some(0x0800_0004));
    assert!(b.is_branch_instruction());
}

#[test]
fn capstone_records_carry_address_and_encoding() {
    let insns = disassemble_thumb(&vec![0x00, 0xE0, 0x00, 0xBF], 0x0800_0000).expect("failed to disassemble");
    assert_eq!(insns.len(), 2);
    assert_eq!(insns[0].address, 0x0800_0000);
    assert_eq!(insns[0].bytes, vec![0x00, 0xE0]);
    assert_eq!(insns[0].mnemonic, "b");
    assert_eq!(insns[1].address, 0x0800_0002);
    assert_eq!(insns[1].bytes, vec![0x00, 0xBF]);
    assert_eq!(insns[1].mnemonic, "nop");
}

#[test]
fn record_decodes_like_its_halfwords() {
    let from_record = jit_instruction_from_record(&record(0x0800_0010, &[0x00, 0xE0])).expect("16-bit record");
    let direct = decode_jit_instruction_16(0x0800_0010, 0xE000).expect("16-bit decode");
    assert_eq!(from_record.insn, ArmInsn::ARM_INS_B);
    assert_eq!(from_record.insn, direct.insn);
    assert_eq!(from_record.data.address, 0x0800_0010);
    assert_eq!(from_record.data.size, 2);
    assert_eq!(from_record.static_branch_target(), Some(0x0800_0014));

    let wide = jit_instruction_from_record(&record(0x0800_0020, &[0x00, 0xF0, 0x00, 0xF8])).expect("32-bit record");
    let direct = decode_jit_instruction_32(0x0800_0020, 0xF000, 0xF800).expect("32-bit decode");
    assert_eq!(wide.insn, ArmInsn::ARM_INS_BL);
    assert_eq!(wide.insn, direct.insn);
    assert_eq!(wide.data.size, 4);
    assert_eq!(wide.static_branch_target(), direct.static_branch_target());
}

#[test]
fn record_that_is_not_one_instruction_is_refused() {
    let odd = jit_instruction_from_record(&record(0x0800_0000, &[0x00, 0xBF, 0x00]));
    assert_eq!(odd.err(), Some(JitTableBuildError::DecodeFailed { address: 0x0800_0000 }));
    let half_of_wide = jit_instruction_from_record(&record(0x0800_0002, &[0x00, 0xF0]));
    assert_eq!(half_of_wide.err(), Some(JitTableBuildError::DecodeFailed { address: 0x0800_0002 }));
    let narrow_as_wide = jit_instruction_from_record(&record(0x0800_0004, &[0x00, 0xBF, 0x00, 0xBF]));
    assert_eq!(narrow_as_wide.err(), Some(JitTableBuildError::DecodeFailed { address: 0x0800_0004 }));
    let far = jit_instruction_from_record(&record(0x1_0000_0000, &[0x00, 0xBF]));
    assert_eq!(far.err(), Some(JitTableBuildError::DecodeFailed { address: 0x1_0000_0000 }));
}

#[test]
fn building_from_records_stops_at_the_first_bad_one() {
    let records = vec![record(0x0800_0000, &[0x00, 0xBF]), record(0x0800_0002, &[0x00]), record(0x0800_0004, &[0x01])];
    let r = JitBlockTableBuilder::build_from_disassembly(&records);
    assert_eq!(r.err(), Some(JitTableBuildError::DecodeFailed { address: 0x0800_0002 }));

    let mut builder = JitBlockTableBuilder::new();
    let r = builder.extend_disassembly(&records);
    assert_eq!(r, Err(JitTableBuildError::DecodeFailed { address: 0x0800_0002 }));
    assert_eq!(builder.build().len(), 1);
}

#[test]
fn later_record_at_an_address_replaces_the_earlier() {
    let records = vec![record(0x0800_0002, &[0x00, 0xBF]), record(0x0800_0000, &[0x00, 0xBF]), record(0x0800_0002, &[0x00, 0xE0])];
    let table = JitBlockTableBuilder::build_from_disassembly(&records).expect("table");
    assert_eq!(table.len(), 2);
    assert_eq!(table.iter_entries()[0].data.address, 0x0800_0000);
    assert_eq!(table.iter_entries()[1].data.address, 0x0800_0002);
    assert_eq!(table.get(0x0800_0002).expect("entry").insn, ArmInsn::ARM_INS_B);
}

#[test]
fn cmp_w_takes_the_modified_immediate_expansion() {
    // cmp.w r0, #0x500: imm12 = 0xEA0 rotates 0xA0 right by 29.
    let cmp = decode_jit_instruction_32(0x0800_0458, 0xF5B0, 0x6FA0).expect("cmp.w should decode");
    assert_eq!(cmp.insn, ArmInsn::ARM_INS_CMP);
    assert_eq!(cmp.data.size, 4);
    assert_eq!(cmp.data.arm_operands.rn, 0);
    let op2 = cmp.data.arm_operands.op2.expect("immediate operand");
    assert_eq!(op2.op_type, cortex_m4_sim::opcodes::decoded::DecodedOperandKind::Imm(0x500));

    let from_capstone = table_of(&[0xB0, 0xF5, 0xA0, 0x6F]);
    let entry = from_capstone.get(0x0800_0000).expect("entry");
    let op2 = entry.data.arm_operands.op2.clone().expect("immediate operand");
    assert_eq!(op2.op_type, cortex_m4_sim::opcodes::decoded::DecodedOperandKind::Imm(0x500));
}

#[test]
fn block_indices_find_blocks_by_start_and_by_member() {
    // b #4; nop; nop; nop: the branch ends a block, its target starts one.
    let table = table_of(&[0x01, 0xE0, 0x00, 0xBF, 0x00, 0xBF, 0x00, 0xBF]);
    let target = table.block_starting_at(0x0800_0006).expect("block at the branch target");
    assert_eq!(target.end_pc, 0x0800_0006);
    assert!(table.block_starting_at(0x0800_0004).is_none());
    let holder = table.block_containing(0x0800_0004).expect("block holding the second nop");
    assert_eq!(holder.start_pc, 0x0800_0002);
    assert_eq!(holder.end_pc, 0x0800_0004);
    assert!(table.block_containing(0x0800_0003).is_none());
    assert!(table.block_containing(0x0800_0010).is_none());
}
