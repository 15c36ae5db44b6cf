//! The instruction table of the block engine: instructions decoded from Thumb code into
//! `DecodedInstruction` form, and the division of the table into basic blocks.
use vstd::prelude::*;
use crate::arch::{ArmCC, ArmInsn};
use crate::bits::{sign_extend, sign_extend_spec, thumb_expand_imm12, thumb_expand_imm12_spec};
use crate::opcodes::decoded::{
    DecodedArmOperands, DecodedInstruction, DecodedMemOperand, DecodedOperand, DecodedOperandKind,
    DecodedShift, jit_execute_cycles, jit_cycles, contains_reg, it_count,
};
use crate::text::push_str;
use crate::bus::PeripheralBus;
use crate::cpu::Cpu;
use crate::opcodes::thumb_decode::{is_thumb32, thumb32_prefix};
use crate::opcodes::thumb_step::{fetch16, code_half};
use crate::disassembler::listing::{InsnRecord, InsnView, records_view};
use crate::jit_engine::addr_index::{AddrIndex, addr_index_contents, addr_index_new, addr_index_insert, addr_index_get};
use crate::opcodes::thumb_decode::{bl_offset_field, imm16_of, imm12_of, push_mask_of, pop_mask_of, multi_reg_mask_push, multi_reg_mask_pop};

verus! {

/// Why an instruction could not be entered into the table.
#[derive(Clone, Copy, Debug, PartialEq, Eq, Structural)]
pub enum JitTableBuildError {
    MissingOpcodeDefinition { insn_id: u32 },
    DecodeFailed { address: u64 },
}

/// An instruction of the table: its kind, the cycles it is charged, and its decoded form.
#[derive(Clone, Debug)]
pub struct JitInstruction {
    pub insn: ArmInsn,
    pub execute_cycles: u32,
    pub data: DecodedInstruction,
}

/// The plain content of a table instruction.
pub struct JitView {
    pub insn: ArmInsn,
    pub execute_cycles: u32,
    pub address: u32,
    pub size: u32,
    pub mnemonic: Seq<char>,
    pub op_str: Seq<char>,
    pub operands: Seq<DecodedOperand>,
    pub writeback: bool,
    pub update_flags: bool,
    pub it_mask: u8,
    pub writes_pc: bool,
    pub transed_operands: Seq<u32>,
    pub arm_operands: DecodedArmOperands,
}

impl View for JitInstruction {
    type V = JitView;

    open spec fn view(&self) -> JitView {
        JitView {
            insn: self.insn,
            execute_cycles: self.execute_cycles,
            address: self.data.address,
            size: self.data.size,
            mnemonic: self.data.mnemonic@,
            op_str: self.data.op_str@,
            operands: self.data.operands@,
            writeback: self.data.writeback,
            update_flags: self.data.update_flags,
            it_mask: self.data.it_mask,
            writes_pc: self.data.writes_pc,
            transed_operands: self.data.transed_operands@,
            arm_operands: self.data.arm_operands,
        }
    }
}

/// An instruction built from its parts by the decoder: no operand text, and the cycles that
/// `jit_cycles` gives (one for an instruction it does not know).
pub open spec fn data_view(
    insn: ArmInsn,
    address: u32,
    size: u32,
    mnemonic: Seq<char>,
    operands: Seq<DecodedOperand>,
    writeback: bool,
    update_flags: bool,
    it_mask: u8,
    writes_pc: bool,
    transed_operands: Seq<u32>,
    arm_operands: DecodedArmOperands,
) -> JitView {
    JitView {
        insn,
        execute_cycles: match jit_cycles(insn, transed_operands) {
            Some(c) => c,
            None => 1,
        },
        address,
        size,
        mnemonic,
        op_str: Seq::empty(),
        operands,
        writeback,
        update_flags,
        it_mask,
        writes_pc,
        transed_operands,
        arm_operands,
    }
}

/// Operands that say nothing: always-condition, no registers, no second operand.
pub open spec fn no_arm_operands() -> DecodedArmOperands {
    DecodedArmOperands {
        condition: ArmCC::ARM_CC_AL,
        rd: 0,
        rn: 0,
        op2: None,
        mem_disp: 0,
        mem_has_index: false,
        mem_writeback: false,
        mem_post_index: false,
        mem_post_imm: 0,
    }
}

pub open spec fn reg_spec(reg: u32) -> DecodedOperand {
    DecodedOperand { op_type: DecodedOperandKind::Reg(reg), shift: DecodedShift::Invalid }
}

pub open spec fn imm_spec(imm: i64) -> DecodedOperand {
    DecodedOperand { op_type: DecodedOperandKind::Imm(imm), shift: DecodedShift::Invalid }
}

pub open spec fn mem_spec(base: u32, index: Option<u32>, disp: i32) -> DecodedOperand {
    DecodedOperand {
        op_type: DecodedOperandKind::Mem(DecodedMemOperand { base, index, disp }),
        shift: DecodedShift::Invalid,
    }
}

/// `op2` in otherwise empty operands, with `rd` and `rn`.
pub open spec fn arm_ops(rd: u32, rn: u32, op2: Option<DecodedOperand>) -> DecodedArmOperands {
    DecodedArmOperands { rd, rn, op2, ..no_arm_operands() }
}

fn owned(s: &str) -> (r: String)
    ensures
        r@ == s@,
{
    let mut r = String::new();
    push_str(&mut r, s);
    r
}

pub fn reg_op(reg: u32) -> (r: DecodedOperand)
    ensures
        r == reg_spec(reg),
{
    DecodedOperand { op_type: DecodedOperandKind::Reg(reg), shift: DecodedShift::Invalid }
}

pub fn imm_op(imm: i64) -> (r: DecodedOperand)
    ensures
        r == imm_spec(imm),
{
    DecodedOperand { op_type: DecodedOperandKind::Imm(imm), shift: DecodedShift::Invalid }
}

pub fn mem_op(base: u32, index: Option<u32>, disp: i32) -> (r: DecodedOperand)
    ensures
        r == mem_spec(base, index, disp),
{
    DecodedOperand {
        op_type: DecodedOperandKind::Mem(DecodedMemOperand { base, index, disp }),
        shift: DecodedShift::Invalid,
    }
}

pub fn empty_arm_operands() -> (r: DecodedArmOperands)
    ensures
        r == no_arm_operands(),
{
    DecodedArmOperands {
        condition: ArmCC::ARM_CC_AL,
        rd: 0,
        rn: 0,
        op2: None,
        mem_disp: 0,
        mem_has_index: false,
        mem_writeback: false,
        mem_post_index: false,
        mem_post_imm: 0,
    }
}

fn arm_operands_of(rd: u32, rn: u32, op2: Option<DecodedOperand>) -> (r: DecodedArmOperands)
    ensures
        r == arm_ops(rd, rn, op2),
{
    DecodedArmOperands { rd, rn, op2, ..empty_arm_operands() }
}

impl JitInstruction {
    pub fn new(insn: ArmInsn, data: DecodedInstruction, execute_cycles: u32) -> (r: Self)
        ensures
            r.insn == insn,
            r.data == data,
            r.execute_cycles == execute_cycles,
    {
        JitInstruction { insn, execute_cycles, data }
    }
}

fn make_data_instruction(
    insn: ArmInsn,
    address: u32,
    size: u32,
    mnemonic: &str,
    operands: Vec<DecodedOperand>,
    writeback: bool,
    update_flags: bool,
    it_mask: u8,
    writes_pc: bool,
    transed_operands: Vec<u32>,
    arm_operands: DecodedArmOperands,
) -> (r: JitInstruction)
    ensures
        r@ == data_view(insn, address, size, mnemonic@, operands@, writeback, update_flags, it_mask, writes_pc, transed_operands@, arm_operands),
{
    let data = DecodedInstruction::from_parts(
        address,
        size,
        owned(mnemonic),
        String::new(),
        operands,
        writeback,
        update_flags,
        it_mask,
        writes_pc,
        transed_operands,
        arm_operands,
    );
    let execute_cycles = match jit_execute_cycles(insn, &data) {
        Some(c) => c,
        None => 1,
    };
    JitInstruction::new(insn, data, execute_cycles)
}


pub open spec fn unknown_view(address: u32, size: u32) -> JitView {
    JitView { execute_cycles: 1, ..data_view(ArmInsn::ARM_INS_INVALID, address, size, "unknown"@, seq![], false, false, 0, false, seq![], no_arm_operands()) }
}

fn make_unknown_instruction(address: u32, size: u32) -> (r: JitInstruction)
    ensures
        r@ == unknown_view(address, size),
{
    let data = DecodedInstruction::from_parts(
        address,
        size,
        owned("unknown"),
        String::new(),
        Vec::new(),
        false,
        false,
        0,
        false,
        Vec::new(),
        empty_arm_operands(),
    );
    JitInstruction::new(ArmInsn::ARM_INS_INVALID, data, 1)
}

pub open spec fn misc_view(insn: ArmInsn, address: u32, size: u32, mnemonic: Seq<char>, it_mask: u8, writes_pc: bool) -> JitView {
    data_view(insn, address, size, mnemonic, seq![], false, false, it_mask, writes_pc, seq![], no_arm_operands())
}

fn make_misc_instruction(insn: ArmInsn, address: u32, size: u32, mnemonic: &str, it_mask: u8, writes_pc: bool) -> (r: JitInstruction)
    ensures
        r@ == misc_view(insn, address, size, mnemonic@, it_mask, writes_pc),
{
    make_data_instruction(insn, address, size, mnemonic, Vec::new(), false, false, it_mask, writes_pc, Vec::new(), empty_arm_operands())
}

pub open spec fn branch_mnemonic(insn: ArmInsn) -> Seq<char> {
    match insn {
        ArmInsn::ARM_INS_BL => "bl"@,
        ArmInsn::ARM_INS_BLX => "blx"@,
        ArmInsn::ARM_INS_BX => "bx"@,
        _ => "b"@,
    }
}

/// A branch to `target`, or through register `reg_target` when there is one.
pub open spec fn branch_view(insn: ArmInsn, address: u32, size: u32, condition: ArmCC, target: u32, reg_target: Option<u32>) -> JitView {
    let op2 = match reg_target {
        Some(reg) => reg_spec(reg),
        None => imm_spec(target as i64),
    };
    data_view(insn, address, size, branch_mnemonic(insn), seq![op2], false, false, 0, true, seq![],
        DecodedArmOperands { condition, op2: Some(op2), ..no_arm_operands() })
}

fn make_branch_instruction(insn: ArmInsn, address: u32, size: u32, condition: ArmCC, target: u32, reg_target: Option<u32>) -> (r: JitInstruction)
    ensures
        r@ == branch_view(insn, address, size, condition, target, reg_target),
{
    let op2 = match reg_target {
        Some(reg) => reg_op(reg),
        None => imm_op(target as i64),
    };
    let arm_operands = DecodedArmOperands { condition, op2: Some(op2), ..empty_arm_operands() };
    let mnemonic = match insn {
        ArmInsn::ARM_INS_BL => "bl",
        ArmInsn::ARM_INS_BLX => "blx",
        ArmInsn::ARM_INS_BX => "bx",
        _ => "b",
    };
    proof {
        reveal_strlit("bl");
        reveal_strlit("blx");
        reveal_strlit("bx");
        reveal_strlit("b");
    }
    let ops = vec![op2];
    assert(ops@ =~= seq![op2]);
    make_data_instruction(insn, address, size, mnemonic, ops, false, false, 0, true, Vec::new(), arm_operands)
}

pub open spec fn compare_branch_view(insn: ArmInsn, address: u32, size: u32, rn: u32, target: u32) -> JitView {
    let op2 = imm_spec(target as i64);
    data_view(insn, address, size, if insn == ArmInsn::ARM_INS_CBNZ { "cbnz"@ } else { "cbz"@ }, seq![reg_spec(rn), op2],
        false, false, 0, false, seq![], arm_ops(0, rn, Some(op2)))
}

fn make_compare_branch_instruction(insn: ArmInsn, address: u32, size: u32, rn: u32, target: u32) -> (r: JitInstruction)
    ensures
        r@ == compare_branch_view(insn, address, size, rn, target),
{
    let op2 = imm_op(target as i64);
    let ops = vec![reg_op(rn), op2];
    assert(ops@ =~= seq![reg_spec(rn), op2]);
    make_data_instruction(
        insn,
        address,
        size,
        if insn == ArmInsn::ARM_INS_CBNZ { "cbnz" } else { "cbz" },
        ops,
        false,
        false,
        0,
        false,
        Vec::new(),
        arm_operands_of(0, rn, Some(op2)),
    )
}

pub open spec fn load_mnemonic(insn: ArmInsn) -> Seq<char> {
    match insn {
        ArmInsn::ARM_INS_LDRB => "ldrb"@,
        ArmInsn::ARM_INS_LDRH => "ldrh"@,
        ArmInsn::ARM_INS_LDRSB => "ldrsb"@,
        ArmInsn::ARM_INS_LDRSH => "ldrsh"@,
        _ => "ldr"@,
    }
}

fn load_mnemonic_str(insn: ArmInsn) -> (m: &'static str)
    ensures
        m@ == load_mnemonic(insn),
{
    proof {
        reveal_strlit("ldrb");
        reveal_strlit("ldrh");
        reveal_strlit("ldrsb");
        reveal_strlit("ldrsh");
        reveal_strlit("ldr");
    }
    match insn {
        ArmInsn::ARM_INS_LDRB => "ldrb",
        ArmInsn::ARM_INS_LDRH => "ldrh",
        ArmInsn::ARM_INS_LDRSB => "ldrsb",
        ArmInsn::ARM_INS_LDRSH => "ldrsh",
        _ => "ldr",
    }
}

pub open spec fn store_mnemonic(insn: ArmInsn) -> Seq<char> {
    match insn {
        ArmInsn::ARM_INS_STRB => "strb"@,
        ArmInsn::ARM_INS_STRH => "strh"@,
        _ => "str"@,
    }
}

fn store_mnemonic_str(insn: ArmInsn) -> (m: &'static str)
    ensures
        m@ == store_mnemonic(insn),
{
    proof {
        reveal_strlit("strb");
        reveal_strlit("strh");
        reveal_strlit("str");
    }
    match insn {
        ArmInsn::ARM_INS_STRB => "strb",
        ArmInsn::ARM_INS_STRH => "strh",
        _ => "str",
    }
}

/// A load of `rt` from `[base, #disp]`.
pub open spec fn load_view(
    insn: ArmInsn,
    address: u32,
    size: u32,
    rt: u32,
    base: u32,
    disp: i32,
    has_index: bool,
    writeback: bool,
    post_imm: i32,
    writes_pc: bool,
) -> JitView {
    data_view(insn, address, size, load_mnemonic(insn), seq![reg_spec(rt), mem_spec(base, None, disp)], writeback, false, 0,
        writes_pc, seq![], DecodedArmOperands {
            rd: rt,
            rn: base,
            mem_disp: disp,
            mem_has_index: has_index,
            mem_writeback: writeback,
            mem_post_imm: post_imm,
            ..no_arm_operands()
        })
}

fn make_load_instruction(
    insn: ArmInsn,
    address: u32,
    size: u32,
    rt: u32,
    base: u32,
    disp: i32,
    has_index: bool,
    writeback: bool,
    post_imm: i32,
    writes_pc: bool,
) -> (r: JitInstruction)
    ensures
        r@ == load_view(insn, address, size, rt, base, disp, has_index, writeback, post_imm, writes_pc),
{
    let ops = vec![reg_op(rt), mem_op(base, None, disp)];
    assert(ops@ =~= seq![reg_spec(rt), mem_spec(base, None, disp)]);
    make_data_instruction(
        insn,
        address,
        size,
        load_mnemonic_str(insn),
        ops,
        writeback,
        false,
        0,
        writes_pc,
        Vec::new(),
        DecodedArmOperands {
            rd: rt,
            rn: base,
            mem_disp: disp,
            mem_has_index: has_index,
            mem_writeback: writeback,
            mem_post_imm: post_imm,
            ..empty_arm_operands()
        },
    )
}

/// A store of `rt` to `[base, #disp]`.
pub open spec fn store_view(insn: ArmInsn, address: u32, size: u32, rt: u32, base: u32, disp: i32, writeback: bool) -> JitView {
    data_view(insn, address, size, store_mnemonic(insn), seq![reg_spec(rt), mem_spec(base, None, disp)], writeback, false, 0,
        false, seq![], DecodedArmOperands { rd: rt, rn: base, mem_disp: disp, mem_writeback: writeback, ..no_arm_operands() })
}

fn make_store_instruction(insn: ArmInsn, address: u32, size: u32, rt: u32, base: u32, disp: i32, writeback: bool) -> (r: JitInstruction)
    ensures
        r@ == store_view(insn, address, size, rt, base, disp, writeback),
{
    let ops = vec![reg_op(rt), mem_op(base, None, disp)];
    assert(ops@ =~= seq![reg_spec(rt), mem_spec(base, None, disp)]);
    make_data_instruction(
        insn,
        address,
        size,
        store_mnemonic_str(insn),
        ops,
        writeback,
        false,
        0,
        false,
        Vec::new(),
        DecodedArmOperands { rd: rt, rn: base, mem_disp: disp, mem_writeback: writeback, ..empty_arm_operands() },
    )
}

/// A load of `rt` from `[base, index]`.
pub open spec fn load_reg_offset_view(insn: ArmInsn, address: u32, size: u32, rt: u32, base: u32, index: u32) -> JitView {
    data_view(insn, address, size, load_mnemonic(insn), seq![reg_spec(rt), mem_spec(base, Some(index), 0)], false, false, 0,
        rt == 15 && insn == ArmInsn::ARM_INS_LDR, seq![], DecodedArmOperands { rd: rt, rn: base, mem_has_index: true, ..no_arm_operands() })
}

fn make_load_reg_offset_instruction(insn: ArmInsn, address: u32, size: u32, rt: u32, base: u32, index: u32) -> (r: JitInstruction)
    ensures
        r@ == load_reg_offset_view(insn, address, size, rt, base, index),
{
    let ops = vec![reg_op(rt), mem_op(base, Some(index), 0)];
    assert(ops@ =~= seq![reg_spec(rt), mem_spec(base, Some(index), 0)]);
    make_data_instruction(
        insn,
        address,
        size,
        load_mnemonic_str(insn),
        ops,
        false,
        false,
        0,
        rt == 15 && insn == ArmInsn::ARM_INS_LDR,
        Vec::new(),
        DecodedArmOperands { rd: rt, rn: base, mem_has_index: true, ..empty_arm_operands() },
    )
}

/// A store of `rt` to `[base, index]`.
pub open spec fn store_reg_offset_view(insn: ArmInsn, address: u32, size: u32, rt: u32, base: u32, index: u32) -> JitView {
    data_view(insn, address, size, store_mnemonic(insn), seq![reg_spec(rt), mem_spec(base, Some(index), 0)], false, false, 0,
        false, seq![], DecodedArmOperands { rd: rt, rn: base, mem_has_index: true, ..no_arm_operands() })
}

fn make_store_reg_offset_instruction(insn: ArmInsn, address: u32, size: u32, rt: u32, base: u32, index: u32) -> (r: JitInstruction)
    ensures
        r@ == store_reg_offset_view(insn, address, size, rt, base, index),
{
    let ops = vec![reg_op(rt), mem_op(base, Some(index), 0)];
    assert(ops@ =~= seq![reg_spec(rt), mem_spec(base, Some(index), 0)]);
    make_data_instruction(
        insn,
        address,
        size,
        store_mnemonic_str(insn),
        ops,
        false,
        false,
        0,
        false,
        Vec::new(),
        DecodedArmOperands { rd: rt, rn: base, mem_has_index: true, ..empty_arm_operands() },
    )
}


pub open spec fn is_compare_insn(insn: ArmInsn) -> bool {
    insn is ARM_INS_CMP || insn is ARM_INS_CMN || insn is ARM_INS_TST || insn is ARM_INS_TEQ
}

/// Instructions whose first source register is listed with an immediate second operand even
/// when it is R0.
pub open spec fn imm_rn_listed(insn: ArmInsn) -> bool {
    is_compare_insn(insn) || insn is ARM_INS_ADD || insn is ARM_INS_SUB || insn is ARM_INS_AND || insn is ARM_INS_BIC
        || insn is ARM_INS_ORR
}

/// Instructions whose first source register is listed with a register second operand even
/// when it is R0.
pub open spec fn reg_rn_listed(insn: ArmInsn) -> bool {
    is_compare_insn(insn) || insn is ARM_INS_ADD || insn is ARM_INS_ADC || insn is ARM_INS_SUB || insn is ARM_INS_SBC
        || insn is ARM_INS_RSB || insn is ARM_INS_AND || insn is ARM_INS_ORR || insn is ARM_INS_EOR || insn is ARM_INS_BIC
        || insn is ARM_INS_ORN || insn is ARM_INS_MUL
}

fn is_compare(insn: ArmInsn) -> (r: bool)
    ensures
        r == is_compare_insn(insn),
{
    match insn {
        ArmInsn::ARM_INS_CMP | ArmInsn::ARM_INS_CMN | ArmInsn::ARM_INS_TST | ArmInsn::ARM_INS_TEQ => true,
        _ => false,
    }
}

/// The operand list of a data-processing instruction: `rd` unless it is R0 of a compare,
/// `rn` unless it is an unlisted R0, then operand 2.
pub open spec fn dp_operands(rd_listed: bool, rd: u32, rn_listed: bool, rn: u32, op2: DecodedOperand) -> Seq<DecodedOperand> {
    (if rd_listed { seq![reg_spec(rd)] } else { seq![] }) + (if rn_listed { seq![reg_spec(rn)] } else { seq![] }) + seq![op2]
}

fn dp_operand_vec(rd_listed: bool, rd: u32, rn_listed: bool, rn: u32, op2: DecodedOperand) -> (v: Vec<DecodedOperand>)
    ensures
        v@ == dp_operands(rd_listed, rd, rn_listed, rn, op2),
{
    let mut operands = Vec::new();
    if rd_listed {
        operands.push(reg_op(rd));
    }
    if rn_listed {
        operands.push(reg_op(rn));
    }
    operands.push(op2);
    assert(operands@ =~= dp_operands(rd_listed, rd, rn_listed, rn, op2));
    operands
}

/// `rd = rn op #imm`.
pub open spec fn imm_binary_view(insn: ArmInsn, address: u32, size: u32, mnemonic: Seq<char>, rd: u32, rn: u32, imm: u32, update_flags: bool, writes_pc: bool) -> JitView {
    let op2 = imm_spec(imm as i64);
    data_view(insn, address, size, mnemonic, dp_operands(rd != 0 || !is_compare_insn(insn), rd, rn != 0 || imm_rn_listed(insn), rn, op2),
        false, update_flags, 0, writes_pc, seq![], arm_ops(rd, rn, Some(op2)))
}

fn make_imm_binary_instruction(insn: ArmInsn, address: u32, size: u32, mnemonic: &str, rd: u32, rn: u32, imm: u32, update_flags: bool, writes_pc: bool) -> (r: JitInstruction)
    ensures
        r@ == imm_binary_view(insn, address, size, mnemonic@, rd, rn, imm, update_flags, writes_pc),
{
    let op2 = imm_op(imm as i64);
    let rn_listed = rn != 0 || is_compare(insn) || match insn {
        ArmInsn::ARM_INS_ADD | ArmInsn::ARM_INS_SUB | ArmInsn::ARM_INS_AND | ArmInsn::ARM_INS_BIC | ArmInsn::ARM_INS_ORR => true,
        _ => false,
    };
    let operands = dp_operand_vec(rd != 0 || !is_compare(insn), rd, rn_listed, rn, op2);
    make_data_instruction(insn, address, size, mnemonic, operands, false, update_flags, 0, writes_pc, Vec::new(), arm_operands_of(rd, rn, Some(op2)))
}

/// `rd = rn op (rm shifted)`.
pub open spec fn reg_binary_shift_view(
    insn: ArmInsn,
    address: u32,
    size: u32,
    mnemonic: Seq<char>,
    rd: u32,
    rn: u32,
    rm: u32,
    shift: DecodedShift,
    update_flags: bool,
    writes_pc: bool,
) -> JitView {
    let op2 = DecodedOperand { op_type: DecodedOperandKind::Reg(rm), shift };
    data_view(insn, address, size, mnemonic, dp_operands(rd != 0 || !is_compare_insn(insn), rd, rn != 0 || reg_rn_listed(insn), rn, op2),
        false, update_flags, 0, writes_pc, seq![], arm_ops(rd, rn, Some(op2)))
}

fn make_reg_binary_shift_instruction(
    insn: ArmInsn,
    address: u32,
    size: u32,
    mnemonic: &str,
    rd: u32,
    rn: u32,
    rm: u32,
    shift: DecodedShift,
    update_flags: bool,
    writes_pc: bool,
) -> (r: JitInstruction)
    ensures
        r@ == reg_binary_shift_view(insn, address, size, mnemonic@, rd, rn, rm, shift, update_flags, writes_pc),
{
    let op2 = DecodedOperand { op_type: DecodedOperandKind::Reg(rm), shift };
    let rn_listed = rn != 0 || is_compare(insn) || match insn {
        ArmInsn::ARM_INS_ADD | ArmInsn::ARM_INS_ADC | ArmInsn::ARM_INS_SUB | ArmInsn::ARM_INS_SBC | ArmInsn::ARM_INS_RSB
        | ArmInsn::ARM_INS_AND | ArmInsn::ARM_INS_ORR | ArmInsn::ARM_INS_EOR | ArmInsn::ARM_INS_BIC | ArmInsn::ARM_INS_ORN
        | ArmInsn::ARM_INS_MUL => true,
        _ => false,
    };
    let operands = dp_operand_vec(rd != 0 || !is_compare(insn), rd, rn_listed, rn, op2);
    make_data_instruction(insn, address, size, mnemonic, operands, false, update_flags, 0, writes_pc, Vec::new(), arm_operands_of(rd, rn, Some(op2)))
}

fn make_reg_binary_instruction(insn: ArmInsn, address: u32, size: u32, mnemonic: &str, rd: u32, rn: u32, rm: u32, update_flags: bool, writes_pc: bool) -> (r: JitInstruction)
    ensures
        r@ == reg_binary_shift_view(insn, address, size, mnemonic@, rd, rn, rm, DecodedShift::Invalid, update_flags, writes_pc),
{
    make_reg_binary_shift_instruction(insn, address, size, mnemonic, rd, rn, rm, DecodedShift::Invalid, update_flags, writes_pc)
}

/// MOV/MVN `rd, rm`.
pub open spec fn move_reg_view(insn: ArmInsn, address: u32, size: u32, rd: u32, rm: u32, update_flags: bool, writes_pc: bool) -> JitView {
    data_view(insn, address, size, if insn == ArmInsn::ARM_INS_MVN { "mvn"@ } else { "mov"@ }, seq![reg_spec(rd), reg_spec(rm)],
        false, update_flags, 0, writes_pc, seq![], arm_ops(rd, 0, Some(reg_spec(rm))))
}

fn make_move_reg_instruction(insn: ArmInsn, address: u32, size: u32, rd: u32, rm: u32, update_flags: bool, writes_pc: bool) -> (r: JitInstruction)
    ensures
        r@ == move_reg_view(insn, address, size, rd, rm, update_flags, writes_pc),
{
    let ops = vec![reg_op(rd), reg_op(rm)];
    assert(ops@ =~= seq![reg_spec(rd), reg_spec(rm)]);
    make_data_instruction(
        insn,
        address,
        size,
        if insn == ArmInsn::ARM_INS_MVN { "mvn" } else { "mov" },
        ops,
        false,
        update_flags,
        0,
        writes_pc,
        Vec::new(),
        arm_operands_of(rd, 0, Some(reg_op(rm))),
    )
}

/// MOV/MOVS `rd, #imm`.
pub open spec fn move_imm_view(insn: ArmInsn, address: u32, size: u32, rd: u32, imm: u32, update_flags: bool, writes_pc: bool) -> JitView {
    let op2 = imm_spec(imm as i64);
    data_view(insn, address, size, if insn == ArmInsn::ARM_INS_MOVS { "movs"@ } else { "mov"@ }, seq![reg_spec(rd), op2],
        false, update_flags, 0, writes_pc, seq![], arm_ops(rd, 0, Some(op2)))
}

fn make_move_imm_instruction(insn: ArmInsn, address: u32, size: u32, rd: u32, imm: u32, update_flags: bool, writes_pc: bool) -> (r: JitInstruction)
    ensures
        r@ == move_imm_view(insn, address, size, rd, imm, update_flags, writes_pc),
{
    let op2 = imm_op(imm as i64);
    let ops = vec![reg_op(rd), op2];
    assert(ops@ =~= seq![reg_spec(rd), op2]);
    make_data_instruction(
        insn,
        address,
        size,
        if insn == ArmInsn::ARM_INS_MOVS { "movs" } else { "mov" },
        ops,
        false,
        update_flags,
        0,
        writes_pc,
        Vec::new(),
        arm_operands_of(rd, 0, Some(op2)),
    )
}

pub open spec fn shift_mnemonic(insn: ArmInsn) -> Seq<char> {
    match insn {
        ArmInsn::ARM_INS_LSL => "lsl"@,
        ArmInsn::ARM_INS_LSR => "lsr"@,
        ArmInsn::ARM_INS_ASR => "asr"@,
        ArmInsn::ARM_INS_ROR => "ror"@,
        _ => "shift"@,
    }
}

fn shift_mnemonic_str(insn: ArmInsn) -> (m: &'static str)
    ensures
        m@ == shift_mnemonic(insn),
{
    proof {
        reveal_strlit("lsl");
        reveal_strlit("lsr");
        reveal_strlit("asr");
        reveal_strlit("ror");
        reveal_strlit("shift");
    }
    match insn {
        ArmInsn::ARM_INS_LSL => "lsl",
        ArmInsn::ARM_INS_LSR => "lsr",
        ArmInsn::ARM_INS_ASR => "asr",
        ArmInsn::ARM_INS_ROR => "ror",
        _ => "shift",
    }
}

pub open spec fn shift_of(insn: ArmInsn, amount: u32) -> DecodedShift {
    match insn {
        ArmInsn::ARM_INS_LSL => DecodedShift::Lsl(amount),
        ArmInsn::ARM_INS_LSR => DecodedShift::Lsr(amount),
        ArmInsn::ARM_INS_ASR => DecodedShift::Asr(amount),
        ArmInsn::ARM_INS_ROR => DecodedShift::Ror(amount),
        _ => DecodedShift::Invalid,
    }
}

/// A shift of `rm` by an immediate into `rd`.
pub open spec fn shift_imm_view(insn: ArmInsn, address: u32, size: u32, rd: u32, rm: u32, amount: u32, update_flags: bool) -> JitView {
    reg_binary_shift_view(insn, address, size, shift_mnemonic(insn), rd, 0, rm, shift_of(insn, amount), update_flags, rd == 15)
}

fn make_shift_imm_instruction(insn: ArmInsn, address: u32, size: u32, rd: u32, rm: u32, amount: u32, update_flags: bool) -> (r: JitInstruction)
    ensures
        r@ == shift_imm_view(insn, address, size, rd, rm, amount, update_flags),
{
    let shift = match insn {
        ArmInsn::ARM_INS_LSL => DecodedShift::Lsl(amount),
        ArmInsn::ARM_INS_LSR => DecodedShift::Lsr(amount),
        ArmInsn::ARM_INS_ASR => DecodedShift::Asr(amount),
        ArmInsn::ARM_INS_ROR => DecodedShift::Ror(amount),
        _ => DecodedShift::Invalid,
    };
    make_reg_binary_shift_instruction(insn, address, size, shift_mnemonic_str(insn), rd, 0, rm, shift, update_flags, rd == 15)
}

/// A shift of `rm` by register `rs` into `rd`.
pub open spec fn shift_reg_view(insn: ArmInsn, address: u32, size: u32, rd: u32, rm: u32, rs: u32, update_flags: bool) -> JitView {
    data_view(insn, address, size, shift_mnemonic(insn), seq![reg_spec(rd), reg_spec(rm), reg_spec(rs)], false, update_flags, 0,
        rd == 15, seq![], arm_ops(rd, rm, Some(reg_spec(rs))))
}

fn make_shift_reg_instruction(insn: ArmInsn, address: u32, size: u32, rd: u32, rm: u32, rs: u32, update_flags: bool) -> (r: JitInstruction)
    ensures
        r@ == shift_reg_view(insn, address, size, rd, rm, rs, update_flags),
{
    let ops = vec![reg_op(rd), reg_op(rm), reg_op(rs)];
    assert(ops@ =~= seq![reg_spec(rd), reg_spec(rm), reg_spec(rs)]);
    make_data_instruction(insn, address, size, shift_mnemonic_str(insn), ops, false, update_flags, 0, rd == 15, Vec::new(),
        arm_operands_of(rd, rm, Some(reg_op(rs))))
}

/// ADR `rd, #target`.
pub open spec fn adr_view(address: u32, size: u32, rd: u32, target: u32) -> JitView {
    let op2 = imm_spec(target as i64);
    data_view(ArmInsn::ARM_INS_ADR, address, size, "adr"@, seq![reg_spec(rd), op2], false, false, 0, rd == 15, seq![],
        arm_ops(rd, 15, Some(op2)))
}

fn make_adr_instruction(address: u32, size: u32, rd: u32, target: u32) -> (r: JitInstruction)
    ensures
        r@ == adr_view(address, size, rd, target),
{
    let op2 = imm_op(target as i64);
    let ops = vec![reg_op(rd), op2];
    assert(ops@ =~= seq![reg_spec(rd), op2]);
    make_data_instruction(ArmInsn::ARM_INS_ADR, address, size, "adr", ops, false, false, 0, rd == 15, Vec::new(), arm_operands_of(rd, 15, Some(op2)))
}

/// `rd, rn, rm`.
pub open spec fn three_reg_view(insn: ArmInsn, address: u32, size: u32, mnemonic: Seq<char>, rd: u32, rn: u32, rm: u32, writes_pc: bool) -> JitView {
    data_view(insn, address, size, mnemonic, seq![reg_spec(rd), reg_spec(rn), reg_spec(rm)], false, false, 0, writes_pc, seq![],
        arm_ops(rd, rn, Some(reg_spec(rm))))
}

fn make_three_reg_instruction(insn: ArmInsn, address: u32, size: u32, mnemonic: &str, rd: u32, rn: u32, rm: u32, writes_pc: bool) -> (r: JitInstruction)
    ensures
        r@ == three_reg_view(insn, address, size, mnemonic@, rd, rn, rm, writes_pc),
{
    let ops = vec![reg_op(rd), reg_op(rn), reg_op(rm)];
    assert(ops@ =~= seq![reg_spec(rd), reg_spec(rn), reg_spec(rm)]);
    make_data_instruction(insn, address, size, mnemonic, ops, false, false, 0, writes_pc, Vec::new(), arm_operands_of(rd, rn, Some(reg_op(rm))))
}

/// `rd, rn, rm, ra`.
pub open spec fn four_reg_view(insn: ArmInsn, address: u32, size: u32, mnemonic: Seq<char>, rd: u32, rn: u32, rm: u32, ra: u32, writes_pc: bool) -> JitView {
    data_view(insn, address, size, mnemonic, seq![reg_spec(rd), reg_spec(rn), reg_spec(rm), reg_spec(ra)], false, false, 0,
        writes_pc, seq![], arm_ops(rd, rn, Some(reg_spec(rm))))
}

fn make_four_reg_instruction(insn: ArmInsn, address: u32, size: u32, mnemonic: &str, rd: u32, rn: u32, rm: u32, ra: u32, writes_pc: bool) -> (r: JitInstruction)
    ensures
        r@ == four_reg_view(insn, address, size, mnemonic@, rd, rn, rm, ra, writes_pc),
{
    let ops = vec![reg_op(rd), reg_op(rn), reg_op(rm), reg_op(ra)];
    assert(ops@ =~= seq![reg_spec(rd), reg_spec(rn), reg_spec(rm), reg_spec(ra)]);
    make_data_instruction(insn, address, size, mnemonic, ops, false, false, 0, writes_pc, Vec::new(), arm_operands_of(rd, rn, Some(reg_op(rm))))
}

/// UBFX `rd, rn, #lsb, #width`.
pub open spec fn ubfx_view(address: u32, size: u32, rd: u32, rn: u32, lsb: u32, width: u32, writes_pc: bool) -> JitView {
    data_view(ArmInsn::ARM_INS_UBFX, address, size, "ubfx"@, seq![reg_spec(rd), reg_spec(rn), imm_spec(lsb as i64), imm_spec(width as i64)],
        false, false, 0, writes_pc, seq![], arm_ops(rd, rn, None))
}

fn make_ubfx_instruction(address: u32, size: u32, rd: u32, rn: u32, lsb: u32, width: u32, writes_pc: bool) -> (r: JitInstruction)
    ensures
        r@ == ubfx_view(address, size, rd, rn, lsb, width, writes_pc),
{
    let ops = vec![reg_op(rd), reg_op(rn), imm_op(lsb as i64), imm_op(width as i64)];
    assert(ops@ =~= seq![reg_spec(rd), reg_spec(rn), imm_spec(lsb as i64), imm_spec(width as i64)]);
    make_data_instruction(ArmInsn::ARM_INS_UBFX, address, size, "ubfx", ops, false, false, 0, writes_pc, Vec::new(), arm_operands_of(rd, rn, None))
}

pub open spec fn multi_mnemonic(insn: ArmInsn) -> Seq<char> {
    match insn {
        ArmInsn::ARM_INS_PUSH => "push"@,
        ArmInsn::ARM_INS_POP => "pop"@,
        ArmInsn::ARM_INS_STM => "stm"@,
        _ => "ldm"@,
    }
}

/// PUSH/POP/LDM/STM with register list `regs` (for LDM and STM the base register first).
pub open spec fn multi_reg_view(insn: ArmInsn, address: u32, size: u32, regs: Seq<u32>, writeback: bool) -> JitView {
    let base = if insn is ARM_INS_LDM || insn is ARM_INS_STM {
        if regs.len() > 0 { regs[0] } else { 0 }
    } else {
        13
    };
    data_view(insn, address, size, multi_mnemonic(insn), regs.map_values(|r: u32| reg_spec(r)), writeback, false, 0,
        regs.contains(15), regs, DecodedArmOperands { rn: base, mem_writeback: writeback, ..no_arm_operands() })
}

fn make_multi_reg_instruction(insn: ArmInsn, address: u32, size: u32, regs: Vec<u32>, writeback: bool) -> (r: JitInstruction)
    ensures
        r@ == multi_reg_view(insn, address, size, regs@, writeback),
{
    let base_reg = match insn {
        ArmInsn::ARM_INS_LDM | ArmInsn::ARM_INS_STM => if regs.len() > 0 { regs[0] } else { 0 },
        _ => 13,
    };
    let mut operands: Vec<DecodedOperand> = Vec::new();
    let mut i: usize = 0;
    while i < regs.len()
        invariant
            i <= regs@.len(),
            operands@ == regs@.subrange(0, i as int).map_values(|r: u32| reg_spec(r)),
        decreases regs@.len() - i,
    {
        operands.push(reg_op(regs[i]));
        assert(regs@.subrange(0, i as int + 1).map_values(|r: u32| reg_spec(r)) =~= regs@.subrange(0, i as int).map_values(|r: u32| reg_spec(r)).push(reg_spec(regs@[i as int])));
        i = i + 1;
    }
    assert(regs@.subrange(0, regs@.len() as int) =~= regs@);
    let writes_pc = contains_reg(&regs, 15);
    let mnemonic = match insn {
        ArmInsn::ARM_INS_PUSH => "push",
        ArmInsn::ARM_INS_POP => "pop",
        ArmInsn::ARM_INS_STM => "stm",
        _ => "ldm",
    };
    proof {
        reveal_strlit("push");
        reveal_strlit("pop");
        reveal_strlit("stm");
        reveal_strlit("ldm");
    }
    make_data_instruction(insn, address, size, mnemonic, operands, writeback, false, 0, writes_pc, regs,
        DecodedArmOperands { rn: base_reg, mem_writeback: writeback, ..empty_arm_operands() })
}


/// The registers named by `mask` below `n`, in increasing order.
pub open spec fn mask_regs(mask: u16, n: int) -> Seq<u32>
    decreases n,
{
    if n <= 0 {
        seq![]
    } else if (mask >> ((n - 1) as u16)) & 1 == 1 {
        mask_regs(mask, n - 1).push((n - 1) as u32)
    } else {
        mask_regs(mask, n - 1)
    }
}

/// The registers named by a register-list mask, in increasing order.
pub fn full_reg_list(mask: u16) -> (v: Vec<u32>)
    ensures
        v@ == mask_regs(mask, 16),
{
    let mut v: Vec<u32> = Vec::new();
    let mut bit: u32 = 0;
    while bit < 16
        invariant
            bit <= 16,
            v@ == mask_regs(mask, bit as int),
        decreases 16 - bit,
    {
        if (mask >> (bit as u16)) & 1 == 1 {
            v.push(bit);
        }
        bit = bit + 1;
    }
    v
}

/// The registers named by the low-register list of a 16-bit encoding.
pub fn low_reg_list(mask: u16) -> (v: Vec<u32>)
    ensures
        v@ == mask_regs(mask, 16),
{
    full_reg_list(mask)
}

/// The PC-relative target `pc + 4 + sign_extend(field, bits)`.
pub open spec fn rel_target(pc: u32, field: u32, bits: u32) -> u32 {
    pc.wrapping_add(4).wrapping_add_signed(sign_extend_spec(field, bits))
}

/// The table entry for the 16-bit instruction `hw` at `pc`, in the order in which the
/// encodings are recognised; encodings it does not know give an `unknown` entry.
#[verifier::opaque]
pub open spec fn jit16_view(pc: u32, hw: u16) -> JitView {
    let r3 = (hw & 0x7) as u32;
    let r3_3 = ((hw >> 3u16) & 0x7) as u32;
    let r3_6 = ((hw >> 6u16) & 0x7) as u32;
    let r3_8 = ((hw >> 8u16) & 0x7) as u32;
    let imm5 = ((hw >> 6u16) & 0x1F) as u32;
    let imm8 = (hw & 0xFF) as u32;
    if (hw & 0xF800) == 0xE000 {
        branch_view(ArmInsn::ARM_INS_B, pc, 2, ArmCC::ARM_CC_AL, rel_target(pc, ((hw & 0x07FF) as u32) << 1u32, 12), None)
    } else if (hw & 0xF000) == 0xD000 && (hw & 0x0F00) != 0x0F00 {
        branch_view(ArmInsn::ARM_INS_B, pc, 2, ArmCC::from_bits_spec(((hw >> 8u16) & 0xF) as u8), rel_target(pc, imm8 << 1u32, 9), None)
    } else if (hw & 0xF500) == 0xB100 {
        compare_branch_view(
            if (hw & 0x0800) != 0 { ArmInsn::ARM_INS_CBNZ } else { ArmInsn::ARM_INS_CBZ },
            pc,
            2,
            r3,
            pc.wrapping_add(4).wrapping_add(((((hw >> 9u16) & 1) as u32) << 6u32) | ((((hw >> 3u16) & 0x1F) as u32) << 1u32)),
        )
    } else if (hw & 0xF800) == 0x4800 {
        load_view(ArmInsn::ARM_INS_LDR, pc, 2, r3_8, 15, (imm8 << 2u32) as i32, false, false, 0, r3_8 == 15)
    } else if (hw & 0xF800) == 0x6800 {
        load_view(ArmInsn::ARM_INS_LDR, pc, 2, r3, r3_3, (imm5 << 2u32) as i32, false, false, 0, r3 == 15)
    } else if (hw & 0xF800) == 0x6000 {
        store_view(ArmInsn::ARM_INS_STR, pc, 2, r3, r3_3, (imm5 << 2u32) as i32, false)
    } else if (hw & 0xF800) == 0x7000 {
        store_view(ArmInsn::ARM_INS_STRB, pc, 2, r3, r3_3, imm5 as i32, false)
    } else if (hw & 0xF800) == 0x7800 {
        load_view(ArmInsn::ARM_INS_LDRB, pc, 2, r3, r3_3, imm5 as i32, false, false, 0, false)
    } else if (hw & 0xF800) == 0x8000 {
        store_view(ArmInsn::ARM_INS_STRH, pc, 2, r3, r3_3, (imm5 << 1u32) as i32, false)
    } else if (hw & 0xF800) == 0x8800 {
        load_view(ArmInsn::ARM_INS_LDRH, pc, 2, r3, r3_3, (imm5 << 1u32) as i32, false, false, 0, false)
    } else if (hw & 0xF200) == 0x5000 {
        let op = (hw >> 9u16) & 0x7;
        if op == 0 {
            store_reg_offset_view(ArmInsn::ARM_INS_STR, pc, 2, r3, r3_3, r3_6)
        } else if op == 1 {
            store_reg_offset_view(ArmInsn::ARM_INS_STRH, pc, 2, r3, r3_3, r3_6)
        } else if op == 2 {
            store_reg_offset_view(ArmInsn::ARM_INS_STRB, pc, 2, r3, r3_3, r3_6)
        } else if op == 3 {
            load_reg_offset_view(ArmInsn::ARM_INS_LDRSB, pc, 2, r3, r3_3, r3_6)
        } else if op == 4 {
            load_reg_offset_view(ArmInsn::ARM_INS_LDR, pc, 2, r3, r3_3, r3_6)
        } else if op == 5 {
            load_reg_offset_view(ArmInsn::ARM_INS_LDRH, pc, 2, r3, r3_3, r3_6)
        } else if op == 6 {
            load_reg_offset_view(ArmInsn::ARM_INS_LDRB, pc, 2, r3, r3_3, r3_6)
        } else {
            load_reg_offset_view(ArmInsn::ARM_INS_LDRSH, pc, 2, r3, r3_3, r3_6)
        }
    } else if (hw & 0xF000) == 0x9000 {
        if (hw & 0x0800) != 0 {
            load_view(ArmInsn::ARM_INS_LDR, pc, 2, r3_8, 13, (imm8 << 2u32) as i32, false, false, 0, r3_8 == 15)
        } else {
            store_view(ArmInsn::ARM_INS_STR, pc, 2, r3_8, 13, (imm8 << 2u32) as i32, false)
        }
    } else if (hw & 0xFF00) == 0xB000 {
        let subtract = (hw & 0x0080) != 0;
        let op2 = imm_spec(((((hw & 0x7F) as u32) << 2u32) as u32) as i64);
        data_view(if subtract { ArmInsn::ARM_INS_SUB } else { ArmInsn::ARM_INS_ADD }, pc, 2, if subtract { "sub"@ } else { "add"@ },
            seq![reg_spec(13), op2], false, false, 0, false, seq![], arm_ops(13, 13, Some(op2)))
    } else if (hw & 0xF800) == 0xA000 {
        adr_view(pc, 2, r3_8, (pc.wrapping_add(4) & !3u32).wrapping_add(imm8 << 2u32))
    } else if (hw & 0xF800) == 0xA800 {
        let op2 = imm_spec((imm8 << 2u32) as i64);
        data_view(ArmInsn::ARM_INS_ADD, pc, 2, "add"@, seq![reg_spec(r3_8), reg_spec(13), op2], false, false, 0, r3_8 == 15, seq![],
            arm_ops(r3_8, 13, Some(op2)))
    } else if (hw & 0xFE00) == 0xB400 {
        let regs = mask_regs(hw & 0xFF, 16);
        multi_reg_view(ArmInsn::ARM_INS_PUSH, pc, 2, if ((hw >> 8u16) & 1) != 0 { regs.push(14) } else { regs }, false)
    } else if (hw & 0xFE00) == 0xBC00 {
        let regs = mask_regs(hw & 0xFF, 16);
        multi_reg_view(ArmInsn::ARM_INS_POP, pc, 2, if ((hw >> 8u16) & 1) != 0 { regs.push(15) } else { regs }, false)
    } else if (hw & 0xF000) == 0xC000 {
        multi_reg_view(if (hw & 0x0800) != 0 { ArmInsn::ARM_INS_LDM } else { ArmInsn::ARM_INS_STM }, pc, 2,
            seq![r3_8] + mask_regs(hw & 0xFF, 16), false)
    } else if (hw & 0xFC00) == 0x4400 {
        let op = (hw >> 8u16) & 0x3;
        let rm = ((((hw >> 6u16) & 0x1) as u32) << 3u32 | ((hw >> 3u16) & 0x7) as u32) & 0xF;
        let rdn = ((((hw >> 7u16) & 0x1) as u32) << 3u32 | (hw & 0x7) as u32) & 0xF;
        if op == 0 {
            reg_binary_shift_view(ArmInsn::ARM_INS_ADD, pc, 2, "add"@, rdn, rdn, rm, DecodedShift::Invalid, false, rdn == 15)
        } else if op == 1 {
            reg_binary_shift_view(ArmInsn::ARM_INS_CMP, pc, 2, "cmp"@, 0, rdn, rm, DecodedShift::Invalid, true, false)
        } else if op == 2 {
            move_reg_view(ArmInsn::ARM_INS_MOV, pc, 2, rdn, rm, false, rdn == 15)
        } else {
            branch_view(if (hw & 0x0080) != 0 { ArmInsn::ARM_INS_BLX } else { ArmInsn::ARM_INS_BX }, pc, 2, ArmCC::ARM_CC_AL, 0, Some(rm))
        }
    } else if (hw & 0xFC00) == 0x4000 {
        let op = (hw >> 6u16) & 0xF;
        let rm = r3_3;
        let rdn = r3;
        if op == 0 {
            reg_binary_shift_view(ArmInsn::ARM_INS_AND, pc, 2, "ands"@, rdn, rdn, rm, DecodedShift::Invalid, true, false)
        } else if op == 2 {
            shift_reg_view(ArmInsn::ARM_INS_LSL, pc, 2, rdn, rdn, rm, true)
        } else if op == 3 {
            shift_reg_view(ArmInsn::ARM_INS_LSR, pc, 2, rdn, rdn, rm, true)
        } else if op == 4 {
            shift_reg_view(ArmInsn::ARM_INS_ASR, pc, 2, rdn, rdn, rm, true)
        } else if op == 5 {
            reg_binary_shift_view(ArmInsn::ARM_INS_ADC, pc, 2, "adcs"@, rdn, rdn, rm, DecodedShift::Invalid, true, false)
        } else if op == 6 {
            reg_binary_shift_view(ArmInsn::ARM_INS_SBC, pc, 2, "sbcs"@, rdn, rdn, rm, DecodedShift::Invalid, true, false)
        } else if op == 7 {
            shift_reg_view(ArmInsn::ARM_INS_ROR, pc, 2, rdn, rdn, rm, true)
        } else if op == 8 {
            reg_binary_shift_view(ArmInsn::ARM_INS_TST, pc, 2, "tst"@, 0, rdn, rm, DecodedShift::Invalid, true, false)
        } else if op == 9 {
            reg_binary_shift_view(ArmInsn::ARM_INS_RSB, pc, 2, "rsbs"@, rdn, 0, rm, DecodedShift::Invalid, true, false)
        } else if op == 10 {
            reg_binary_shift_view(ArmInsn::ARM_INS_CMP, pc, 2, "cmp"@, 0, rdn, rm, DecodedShift::Invalid, true, false)
        } else if op == 11 {
            reg_binary_shift_view(ArmInsn::ARM_INS_CMN, pc, 2, "cmn"@, 0, rdn, rm, DecodedShift::Invalid, true, false)
        } else if op == 12 {
            reg_binary_shift_view(ArmInsn::ARM_INS_ORR, pc, 2, "orrs"@, rdn, rdn, rm, DecodedShift::Invalid, true, false)
        } else if op == 13 {
            reg_binary_shift_view(ArmInsn::ARM_INS_MUL, pc, 2, "muls"@, rdn, rdn, rm, DecodedShift::Invalid, true, false)
        } else if op == 14 {
            reg_binary_shift_view(ArmInsn::ARM_INS_BIC, pc, 2, "bics"@, rdn, rdn, rm, DecodedShift::Invalid, true, false)
        } else if op == 15 {
            move_reg_view(ArmInsn::ARM_INS_MVN, pc, 2, rdn, rm, true, false)
        } else {
            unknown_view(pc, 2)
        }
    } else if (hw & 0xE000) == 0x0000 {
        let op = (hw >> 11u16) & 0x3;
        if op == 0 {
            shift_imm_view(ArmInsn::ARM_INS_LSL, pc, 2, r3, r3_3, imm5, true)
        } else if op == 1 {
            shift_imm_view(ArmInsn::ARM_INS_LSR, pc, 2, r3, r3_3, if imm5 == 0 { 32 } else { imm5 }, true)
        } else if op == 2 {
            shift_imm_view(ArmInsn::ARM_INS_ASR, pc, 2, r3, r3_3, if imm5 == 0 { 32 } else { imm5 }, true)
        } else {
            unknown_view(pc, 2)
        }
    } else if (hw & 0xFC00) == 0x1C00 {
        let add = (hw >> 9u16) & 0x1 == 0;
        imm_binary_view(if add { ArmInsn::ARM_INS_ADD } else { ArmInsn::ARM_INS_SUB }, pc, 2, if add { "adds"@ } else { "subs"@ },
            r3, r3_3, r3_6, true, r3 == 15)
    } else if (hw & 0xF800) == 0x2000 {
        move_imm_view(ArmInsn::ARM_INS_MOVS, pc, 2, r3_8, imm8, true, r3_8 == 15)
    } else if hw == 0xBF00 {
        misc_view(ArmInsn::ARM_INS_NOP, pc, 2, "nop"@, 0, false)
    } else if (hw & 0xFF00) == 0xBF00 && (hw & 0x000F) != 0 {
        misc_view(ArmInsn::ARM_INS_IT, pc, 2, "it"@, (hw & 0xF) as u8, false)
    } else if (hw & 0xFF00) == 0xBF00 {
        misc_view(ArmInsn::ARM_INS_HINT, pc, 2, "hint"@, 0, false)
    } else if (hw & 0xFF00) == 0xBE00 {
        misc_view(ArmInsn::ARM_INS_BKPT, pc, 2, "bkpt"@, 0, true)
    } else {
        unknown_view(pc, 2)
    }
}


fn push_reg(v: Vec<u32>, r: u32) -> (w: Vec<u32>)
    ensures
        w@ == v@.push(r),
{
    let mut w = v;
    w.push(r);
    w
}

/// Decodes the 16-bit instruction `hw` at `current_pc` into a table entry; see `jit16_view`.
pub fn decode_jit_instruction_16(current_pc: u32, hw: u16) -> (r: Result<JitInstruction, JitTableBuildError>)
    ensures
        r matches Ok(j) && j@ == jit16_view(current_pc, hw),
{
    proof {
        reveal(jit16_view);
    }
    let r3 = (hw & 0x7) as u32;
    let r3_3 = ((hw >> 3) & 0x7) as u32;
    let r3_6 = ((hw >> 6) & 0x7) as u32;
    let r3_8 = ((hw >> 8) & 0x7) as u32;
    let imm5 = ((hw >> 6) & 0x1F) as u32;
    let imm8 = (hw & 0xFF) as u32;
    if (hw & 0xF800) == 0xE000 {
        let imm11 = (hw & 0x07FF) as u32;
        let offset = sign_extend(imm11 << 1, 12);
        let target = current_pc.wrapping_add(4).wrapping_add_signed(offset);
        return Ok(make_branch_instruction(ArmInsn::ARM_INS_B, current_pc, 2, ArmCC::ARM_CC_AL, target, None));
    }
    if (hw & 0xF000) == 0xD000 && (hw & 0x0F00) != 0x0F00 {
        let cond = ArmCC::from_u8(((hw >> 8) & 0xF) as u8);
        let offset = sign_extend(imm8 << 1, 9);
        let target = current_pc.wrapping_add(4).wrapping_add_signed(offset);
        return Ok(make_branch_instruction(ArmInsn::ARM_INS_B, current_pc, 2, cond, target, None));
    }
    if (hw & 0xF500) == 0xB100 {
        let nonzero = (hw & 0x0800) != 0;
        let i = ((hw >> 9) & 0x1) as u32;
        let imm = ((hw >> 3) & 0x1F) as u32;
        let offset = (i << 6) | (imm << 1);
        let target = current_pc.wrapping_add(4).wrapping_add(offset);
        return Ok(make_compare_branch_instruction(
            if nonzero { ArmInsn::ARM_INS_CBNZ } else { ArmInsn::ARM_INS_CBZ },
            current_pc,
            2,
            r3,
            target,
        ));
    }
    if (hw & 0xF800) == 0x4800 {
        return Ok(make_load_instruction(ArmInsn::ARM_INS_LDR, current_pc, 2, r3_8, 15, (imm8 << 2) as i32, false, false, 0, r3_8 == 15));
    }
    if (hw & 0xF800) == 0x6800 {
        return Ok(make_load_instruction(ArmInsn::ARM_INS_LDR, current_pc, 2, r3, r3_3, (imm5 << 2) as i32, false, false, 0, r3 == 15));
    }
    if (hw & 0xF800) == 0x6000 {
        return Ok(make_store_instruction(ArmInsn::ARM_INS_STR, current_pc, 2, r3, r3_3, (imm5 << 2) as i32, false));
    }
    if (hw & 0xF800) == 0x7000 {
        return Ok(make_store_instruction(ArmInsn::ARM_INS_STRB, current_pc, 2, r3, r3_3, imm5 as i32, false));
    }
    if (hw & 0xF800) == 0x7800 {
        return Ok(make_load_instruction(ArmInsn::ARM_INS_LDRB, current_pc, 2, r3, r3_3, imm5 as i32, false, false, 0, false));
    }
    if (hw & 0xF800) == 0x8000 {
        return Ok(make_store_instruction(ArmInsn::ARM_INS_STRH, current_pc, 2, r3, r3_3, (imm5 << 1) as i32, false));
    }
    if (hw & 0xF800) == 0x8800 {
        return Ok(make_load_instruction(ArmInsn::ARM_INS_LDRH, current_pc, 2, r3, r3_3, (imm5 << 1) as i32, false, false, 0, false));
    }
    if (hw & 0xF200) == 0x5000 {
        let op = (hw >> 9) & 0x7;
        return Ok(
            if op == 0 {
                make_store_reg_offset_instruction(ArmInsn::ARM_INS_STR, current_pc, 2, r3, r3_3, r3_6)
            } else if op == 1 {
                make_store_reg_offset_instruction(ArmInsn::ARM_INS_STRH, current_pc, 2, r3, r3_3, r3_6)
            } else if op == 2 {
                make_store_reg_offset_instruction(ArmInsn::ARM_INS_STRB, current_pc, 2, r3, r3_3, r3_6)
            } else if op == 3 {
                make_load_reg_offset_instruction(ArmInsn::ARM_INS_LDRSB, current_pc, 2, r3, r3_3, r3_6)
            } else if op == 4 {
                make_load_reg_offset_instruction(ArmInsn::ARM_INS_LDR, current_pc, 2, r3, r3_3, r3_6)
            } else if op == 5 {
                make_load_reg_offset_instruction(ArmInsn::ARM_INS_LDRH, current_pc, 2, r3, r3_3, r3_6)
            } else if op == 6 {
                make_load_reg_offset_instruction(ArmInsn::ARM_INS_LDRB, current_pc, 2, r3, r3_3, r3_6)
            } else {
                make_load_reg_offset_instruction(ArmInsn::ARM_INS_LDRSH, current_pc, 2, r3, r3_3, r3_6)
            },
        );
    }
    if (hw & 0xF000) == 0x9000 {
        let load = (hw & 0x0800) != 0;
        return Ok(
            if load {
                make_load_instruction(ArmInsn::ARM_INS_LDR, current_pc, 2, r3_8, 13, (imm8 << 2) as i32, false, false, 0, r3_8 == 15)
            } else {
                make_store_instruction(ArmInsn::ARM_INS_STR, current_pc, 2, r3_8, 13, (imm8 << 2) as i32, false)
            },
        );
    }
    if (hw & 0xFF00) == 0xB000 {
        let subtract = (hw & 0x0080) != 0;
        let imm = ((hw & 0x7F) as u32) << 2;
        let op2 = imm_op(imm as i64);
        let ops = vec![reg_op(13), op2];
        assert(ops@ =~= seq![reg_spec(13), op2]);
        proof {
            reveal_strlit("sub");
            reveal_strlit("add");
        }
        return Ok(make_data_instruction(
            if subtract { ArmInsn::ARM_INS_SUB } else { ArmInsn::ARM_INS_ADD },
            current_pc,
            2,
            if subtract { "sub" } else { "add" },
            ops,
            false,
            false,
            0,
            false,
            Vec::new(),
            arm_operands_of(13, 13, Some(op2)),
        ));
    }
    if (hw & 0xF800) == 0xA000 {
        let target = (current_pc.wrapping_add(4) & !3u32).wrapping_add(imm8 << 2);
        return Ok(make_adr_instruction(current_pc, 2, r3_8, target));
    }
    if (hw & 0xF800) == 0xA800 {
        let op2 = imm_op((imm8 << 2) as i64);
        let ops = vec![reg_op(r3_8), reg_op(13), op2];
        assert(ops@ =~= seq![reg_spec(r3_8), reg_spec(13), op2]);
        return Ok(make_data_instruction(ArmInsn::ARM_INS_ADD, current_pc, 2, "add", ops, false, false, 0, r3_8 == 15, Vec::new(),
            arm_operands_of(r3_8, 13, Some(op2))));
    }
    if (hw & 0xFE00) == 0xB400 {
        let regs = low_reg_list(hw & 0xFF);
        let regs = if ((hw >> 8) & 1) != 0 { push_reg(regs, 14) } else { regs };
        return Ok(make_multi_reg_instruction(ArmInsn::ARM_INS_PUSH, current_pc, 2, regs, false));
    }
    if (hw & 0xFE00) == 0xBC00 {
        let regs = low_reg_list(hw & 0xFF);
        let regs = if ((hw >> 8) & 1) != 0 { push_reg(regs, 15) } else { regs };
        return Ok(make_multi_reg_instruction(ArmInsn::ARM_INS_POP, current_pc, 2, regs, false));
    }
    if (hw & 0xF000) == 0xC000 {
        let load = (hw & 0x0800) != 0;
        let mut regs = vec![r3_8];
        let mut list = low_reg_list(hw & 0xFF);
        regs.append(&mut list);
        assert(regs@ =~= seq![r3_8] + mask_regs(hw & 0xFF, 16));
        return Ok(make_multi_reg_instruction(if load { ArmInsn::ARM_INS_LDM } else { ArmInsn::ARM_INS_STM }, current_pc, 2, regs, false));
    }
    if (hw & 0xFC00) == 0x4400 {
        let op = (hw >> 8) & 0x3;
        let h1 = ((hw >> 7) & 0x1) as u32;
        let h2 = ((hw >> 6) & 0x1) as u32;
        let rm = ((h2 << 3) | ((hw >> 3) & 0x7) as u32) & 0xF;
        let rdn = ((h1 << 3) | (hw & 0x7) as u32) & 0xF;
        return Ok(
            if op == 0 {
                make_reg_binary_instruction(ArmInsn::ARM_INS_ADD, current_pc, 2, "add", rdn, rdn, rm, false, rdn == 15)
            } else if op == 1 {
                make_reg_binary_instruction(ArmInsn::ARM_INS_CMP, current_pc, 2, "cmp", 0, rdn, rm, true, false)
            } else if op == 2 {
                make_move_reg_instruction(ArmInsn::ARM_INS_MOV, current_pc, 2, rdn, rm, false, rdn == 15)
            } else {
                make_branch_instruction(
                    if (hw & 0x0080) != 0 { ArmInsn::ARM_INS_BLX } else { ArmInsn::ARM_INS_BX },
                    current_pc,
                    2,
                    ArmCC::ARM_CC_AL,
                    0,
                    Some(rm),
                )
            },
        );
    }
    if (hw & 0xFC00) == 0x4000 {
        let op = (hw >> 6) & 0xF;
        let rm = r3_3;
        let rdn = r3;
        return Ok(
            if op == 0 {
                make_reg_binary_instruction(ArmInsn::ARM_INS_AND, current_pc, 2, "ands", rdn, rdn, rm, true, false)
            } else if op == 2 {
                make_shift_reg_instruction(ArmInsn::ARM_INS_LSL, current_pc, 2, rdn, rdn, rm, true)
            } else if op == 3 {
                make_shift_reg_instruction(ArmInsn::ARM_INS_LSR, current_pc, 2, rdn, rdn, rm, true)
            } else if op == 4 {
                make_shift_reg_instruction(ArmInsn::ARM_INS_ASR, current_pc, 2, rdn, rdn, rm, true)
            } else if op == 5 {
                make_reg_binary_instruction(ArmInsn::ARM_INS_ADC, current_pc, 2, "adcs", rdn, rdn, rm, true, false)
            } else if op == 6 {
                make_reg_binary_instruction(ArmInsn::ARM_INS_SBC, current_pc, 2, "sbcs", rdn, rdn, rm, true, false)
            } else if op == 7 {
                make_shift_reg_instruction(ArmInsn::ARM_INS_ROR, current_pc, 2, rdn, rdn, rm, true)
            } else if op == 8 {
                make_reg_binary_instruction(ArmInsn::ARM_INS_TST, current_pc, 2, "tst", 0, rdn, rm, true, false)
            } else if op == 9 {
                make_reg_binary_instruction(ArmInsn::ARM_INS_RSB, current_pc, 2, "rsbs", rdn, 0, rm, true, false)
            } else if op == 10 {
                make_reg_binary_instruction(ArmInsn::ARM_INS_CMP, current_pc, 2, "cmp", 0, rdn, rm, true, false)
            } else if op == 11 {
                make_reg_binary_instruction(ArmInsn::ARM_INS_CMN, current_pc, 2, "cmn", 0, rdn, rm, true, false)
            } else if op == 12 {
                make_reg_binary_instruction(ArmInsn::ARM_INS_ORR, current_pc, 2, "orrs", rdn, rdn, rm, true, false)
            } else if op == 13 {
                make_reg_binary_instruction(ArmInsn::ARM_INS_MUL, current_pc, 2, "muls", rdn, rdn, rm, true, false)
            } else if op == 14 {
                make_reg_binary_instruction(ArmInsn::ARM_INS_BIC, current_pc, 2, "bics", rdn, rdn, rm, true, false)
            } else if op == 15 {
                make_move_reg_instruction(ArmInsn::ARM_INS_MVN, current_pc, 2, rdn, rm, true, false)
            } else {
                make_unknown_instruction(current_pc, 2)
            },
        );
    }
    if (hw & 0xE000) == 0x0000 {
        let op = (hw >> 11) & 0x3;
        return Ok(
            if op == 0 {
                make_shift_imm_instruction(ArmInsn::ARM_INS_LSL, current_pc, 2, r3, r3_3, imm5, true)
            } else if op == 1 {
                make_shift_imm_instruction(ArmInsn::ARM_INS_LSR, current_pc, 2, r3, r3_3, if imm5 == 0 { 32 } else { imm5 }, true)
            } else if op == 2 {
                make_shift_imm_instruction(ArmInsn::ARM_INS_ASR, current_pc, 2, r3, r3_3, if imm5 == 0 { 32 } else { imm5 }, true)
            } else {
                make_unknown_instruction(current_pc, 2)
            },
        );
    }
    if (hw & 0xFC00) == 0x1C00 {
        let add = (hw >> 9) & 0x1 == 0;
        return Ok(make_imm_binary_instruction(
            if add { ArmInsn::ARM_INS_ADD } else { ArmInsn::ARM_INS_SUB },
            current_pc,
            2,
            if add { "adds" } else { "subs" },
            r3,
            r3_3,
            r3_6,
            true,
            r3 == 15,
        ));
    }
    if (hw & 0xF800) == 0x2000 {
        return Ok(make_move_imm_instruction(ArmInsn::ARM_INS_MOVS, current_pc, 2, r3_8, imm8, true, r3_8 == 15));
    }
    if hw == 0xBF00 {
        return Ok(make_misc_instruction(ArmInsn::ARM_INS_NOP, current_pc, 2, "nop", 0, false));
    }
    if (hw & 0xFF00) == 0xBF00 && (hw & 0x000F) != 0 {
        return Ok(make_misc_instruction(ArmInsn::ARM_INS_IT, current_pc, 2, "it", (hw & 0xF) as u8, false));
    }
    if (hw & 0xFF00) == 0xBF00 {
        return Ok(make_misc_instruction(ArmInsn::ARM_INS_HINT, current_pc, 2, "hint", 0, false));
    }
    if (hw & 0xFF00) == 0xBE00 {
        return Ok(make_misc_instruction(ArmInsn::ARM_INS_BKPT, current_pc, 2, "bkpt", 0, true));
    }
    Ok(make_unknown_instruction(current_pc, 2))
}


/// The shift of a shifted-register operand: type bits and amount.
pub open spec fn shift_by_type(shift_type: u32, amount: u32) -> DecodedShift {
    if shift_type == 0 {
        DecodedShift::Lsl(amount)
    } else if shift_type == 1 {
        DecodedShift::Lsr(amount)
    } else if shift_type == 2 {
        DecodedShift::Asr(amount)
    } else if shift_type == 3 {
        DecodedShift::Ror(amount)
    } else {
        DecodedShift::Invalid
    }
}

/// The table entry for the 32-bit instruction `hw1`, `hw2` at `pc`, in the order in which
/// the encodings are recognised; encodings it does not know give an `unknown` entry.
#[verifier::opaque]
pub open spec fn jit32_view(pc: u32, hw1: u16, hw2: u16) -> JitView {
    let rn = (hw1 & 0xF) as u32;
    let rt = ((hw2 >> 12u16) & 0xF) as u32;
    let rd = ((hw2 >> 8u16) & 0xF) as u32;
    let rm = (hw2 & 0xF) as u32;
    let imm12 = (hw2 & 0x0FFF) as u32;
    if (hw1 & 0xF800) == 0xF000 && (hw2 & 0xD000) == 0xD000 {
        branch_view(ArmInsn::ARM_INS_BL, pc, 4, ArmCC::ARM_CC_AL, rel_target(pc, bl_offset_field(hw1, hw2), 25), None)
    } else if hw1 == 0xF8DF {
        load_view(ArmInsn::ARM_INS_LDR, pc, 4, rt, 15, imm12 as i32, false, false, 0, rt == 15)
    } else if (hw1 & 0xFFF0) == 0xF890 {
        load_view(ArmInsn::ARM_INS_LDRB, pc, 4, rt, rn, imm12 as i32, false, false, 0, false)
    } else if (hw1 & 0xFFF0) == 0xF8B0 {
        load_view(ArmInsn::ARM_INS_LDRH, pc, 4, rt, rn, imm12 as i32, false, false, 0, false)
    } else if (hw1 & 0xFFF0) == 0xF8D0 {
        load_view(ArmInsn::ARM_INS_LDR, pc, 4, rt, rn, imm12 as i32, false, false, 0, rt == 15)
    } else if (hw1 & 0xFFF0) == 0xF8C0 {
        store_view(ArmInsn::ARM_INS_STR, pc, 4, rt, rn, imm12 as i32, false)
    } else if (hw1 & 0xFFF0) == 0xF880 {
        store_view(ArmInsn::ARM_INS_STRB, pc, 4, rt, rn, imm12 as i32, false)
    } else if (hw1 & 0xFFF0) == 0xF8A0 {
        store_view(ArmInsn::ARM_INS_STRH, pc, 4, rt, rn, imm12 as i32, false)
    } else if (hw1 & 0xFBF0) == 0xF240 && (hw2 & 0x8000) == 0 {
        move_imm_view(ArmInsn::ARM_INS_MOV, pc, 4, rd, imm16_of(hw1, hw2), false, rd == 15)
    } else if (hw1 & 0xFBF0) == 0xF2C0 && (hw2 & 0x8000) == 0 {
        move_imm_view(ArmInsn::ARM_INS_MOV, pc, 4, rd, imm16_of(hw1, hw2) << 16u32, false, rd == 15)
    } else if (hw1 & 0xFFF0) == 0xFBB0 && (hw2 & 0x00F0) == 0x00F0 {
        three_reg_view(ArmInsn::ARM_INS_UDIV, pc, 4, "udiv"@, rd, rn, rm, rd == 15)
    } else if (hw1 & 0xFFF0) == 0xFB00 && (hw2 & 0x00F0) == 0x0010 {
        four_reg_view(ArmInsn::ARM_INS_MLS, pc, 4, "mls"@, rd, rn, rm, rt, rd == 15)
    } else if (hw1 & 0xFFF0) == 0xF3C0 {
        ubfx_view(pc, 4, rd, rn, ((((hw2 >> 12u16) & 0x7) as u32) << 2u32) | (((hw2 >> 6u16) & 0x3) as u32),
            (((hw2 & 0x1F) as u32) + 1) as u32, rd == 15)
    } else if (hw1 & 0xFA00) == 0xF000 && (hw2 & 0x8000) == 0 {
        let op = (hw1 >> 5u16) & 0xF;
        let setflags = ((hw1 >> 4u16) & 0x1) != 0;
        let imm = thumb_expand_imm12_spec(imm12_of(hw1, hw2));
        if op == 0 {
            imm_binary_view(ArmInsn::ARM_INS_AND, pc, 4, if setflags { "ands"@ } else { "and"@ }, rd, rn, imm, setflags, rd == 15)
        } else if op == 1 {
            imm_binary_view(ArmInsn::ARM_INS_BIC, pc, 4, if setflags { "bics"@ } else { "bic"@ }, rd, rn, imm, setflags, rd == 15)
        } else if op == 2 && rn == 15 {
            move_imm_view(if setflags { ArmInsn::ARM_INS_MOVS } else { ArmInsn::ARM_INS_MOV }, pc, 4, rd, imm, setflags, rd == 15)
        } else if op == 2 {
            imm_binary_view(ArmInsn::ARM_INS_ORR, pc, 4, if setflags { "orrs"@ } else { "orr"@ }, rd, rn, imm, setflags, rd == 15)
        } else if op == 8 {
            imm_binary_view(ArmInsn::ARM_INS_ADD, pc, 4, if setflags { "adds"@ } else { "add"@ }, rd, rn, imm, setflags, rd == 15)
        } else if op == 13 {
            imm_binary_view(ArmInsn::ARM_INS_CMP, pc, 4, "cmp"@, 0, rn, imm, true, false)
        } else {
            unknown_view(pc, 4)
        }
    } else if (hw1 & 0xFE00) == 0xEA00 || (hw1 & 0xFE00) == 0xEB00 {
        let op = (hw1 >> 5u16) & 0xF;
        let shift = shift_by_type(((hw2 >> 4u16) & 0x3) as u32, ((((hw2 >> 12u16) & 0x7) as u32) << 2u32) | (((hw2 >> 6u16) & 0x3) as u32));
        if op == 0 {
            reg_binary_shift_view(ArmInsn::ARM_INS_AND, pc, 4, "and"@, rd, rn, rm, shift, false, rd == 15)
        } else if op == 2 {
            reg_binary_shift_view(ArmInsn::ARM_INS_ORR, pc, 4, "orr"@, rd, rn, rm, shift, false, rd == 15)
        } else if op == 8 {
            reg_binary_shift_view(ArmInsn::ARM_INS_ADD, pc, 4, "add"@, rd, rn, rm, shift, false, rd == 15)
        } else {
            unknown_view(pc, 4)
        }
    } else if (hw1 & 0xFFF0) == 0xFA00 {
        shift_reg_view(ArmInsn::ARM_INS_LSL, pc, 4, rd, rn, rm, false)
    } else if hw1 == 0xE92D {
        multi_reg_view(ArmInsn::ARM_INS_PUSH, pc, 4, mask_regs(push_mask_of(hw2), 16), false)
    } else if hw1 == 0xE8BD {
        multi_reg_view(ArmInsn::ARM_INS_POP, pc, 4, mask_regs(pop_mask_of(hw2), 16), false)
    } else if (hw1 & 0xFFD0) == 0xE890 {
        multi_reg_view(ArmInsn::ARM_INS_LDM, pc, 4, seq![rn] + mask_regs(hw2, 16), ((hw1 >> 5u16) & 1) != 0)
    } else {
        unknown_view(pc, 4)
    }
}

/// Decodes the 32-bit instruction `hw1`, `hw2` at `current_pc` into a table entry; see
/// `jit32_view`.
pub fn decode_jit_instruction_32(current_pc: u32, hw1: u16, hw2: u16) -> (r: Result<JitInstruction, JitTableBuildError>)
    ensures
        r matches Ok(j) && j@ == jit32_view(current_pc, hw1, hw2),
{
    proof {
        reveal(jit32_view);
    }
    let rn = (hw1 & 0xF) as u32;
    let rt = ((hw2 >> 12) & 0xF) as u32;
    let rd = ((hw2 >> 8) & 0xF) as u32;
    let rm = (hw2 & 0xF) as u32;
    let imm12 = (hw2 & 0x0FFF) as u32;
    if (hw1 & 0xF800) == 0xF000 && (hw2 & 0xD000) == 0xD000 {
        let s = ((hw1 >> 10) & 1) as u32;
        let j1 = ((hw2 >> 13) & 1) as u32;
        let j2 = ((hw2 >> 11) & 1) as u32;
        let i1 = (!(j1 ^ s)) & 1;
        let i2 = (!(j2 ^ s)) & 1;
        let imm10 = (hw1 & 0x03FF) as u32;
        let imm11 = (hw2 & 0x07FF) as u32;
        let imm25 = (s << 24) | (i1 << 23) | (i2 << 22) | (imm10 << 12) | (imm11 << 1);
        let offset = sign_extend(imm25, 25);
        let target = current_pc.wrapping_add(4).wrapping_add_signed(offset);
        return Ok(make_branch_instruction(ArmInsn::ARM_INS_BL, current_pc, 4, ArmCC::ARM_CC_AL, target, None));
    }
    if hw1 == 0xF8DF {
        return Ok(make_load_instruction(ArmInsn::ARM_INS_LDR, current_pc, 4, rt, 15, imm12 as i32, false, false, 0, rt == 15));
    }
    if (hw1 & 0xFFF0) == 0xF890 {
        return Ok(make_load_instruction(ArmInsn::ARM_INS_LDRB, current_pc, 4, rt, rn, imm12 as i32, false, false, 0, false));
    }
    if (hw1 & 0xFFF0) == 0xF8B0 {
        return Ok(make_load_instruction(ArmInsn::ARM_INS_LDRH, current_pc, 4, rt, rn, imm12 as i32, false, false, 0, false));
    }
    if (hw1 & 0xFFF0) == 0xF8D0 {
        return Ok(make_load_instruction(ArmInsn::ARM_INS_LDR, current_pc, 4, rt, rn, imm12 as i32, false, false, 0, rt == 15));
    }
    if (hw1 & 0xFFF0) == 0xF8C0 {
        return Ok(make_store_instruction(ArmInsn::ARM_INS_STR, current_pc, 4, rt, rn, imm12 as i32, false));
    }
    if (hw1 & 0xFFF0) == 0xF880 {
        return Ok(make_store_instruction(ArmInsn::ARM_INS_STRB, current_pc, 4, rt, rn, imm12 as i32, false));
    }
    if (hw1 & 0xFFF0) == 0xF8A0 {
        return Ok(make_store_instruction(ArmInsn::ARM_INS_STRH, current_pc, 4, rt, rn, imm12 as i32, false));
    }
    let imm16 = ((hw1 & 0xF) as u32) << 12 | (((hw1 >> 10) & 1) as u32) << 11 | (((hw2 >> 12) & 0x7) as u32) << 8 | (hw2 & 0xFF) as u32;
    if (hw1 & 0xFBF0) == 0xF240 && (hw2 & 0x8000) == 0 {
        return Ok(make_move_imm_instruction(ArmInsn::ARM_INS_MOV, current_pc, 4, rd, imm16, false, rd == 15));
    }
    if (hw1 & 0xFBF0) == 0xF2C0 && (hw2 & 0x8000) == 0 {
        return Ok(make_move_imm_instruction(ArmInsn::ARM_INS_MOV, current_pc, 4, rd, imm16 << 16, false, rd == 15));
    }
    if (hw1 & 0xFFF0) == 0xFBB0 && (hw2 & 0x00F0) == 0x00F0 {
        return Ok(make_three_reg_instruction(ArmInsn::ARM_INS_UDIV, current_pc, 4, "udiv", rd, rn, rm, rd == 15));
    }
    if (hw1 & 0xFFF0) == 0xFB00 && (hw2 & 0x00F0) == 0x0010 {
        return Ok(make_four_reg_instruction(ArmInsn::ARM_INS_MLS, current_pc, 4, "mls", rd, rn, rm, rt, rd == 15));
    }
    if (hw1 & 0xFFF0) == 0xF3C0 {
        let lsb = ((((hw2 >> 12) & 0x7) as u32) << 2) | (((hw2 >> 6) & 0x3) as u32);
        let width = ((hw2 & 0x1F) as u32) + 1;
        return Ok(make_ubfx_instruction(current_pc, 4, rd, rn, lsb, width, rd == 15));
    }
    if (hw1 & 0xFA00) == 0xF000 && (hw2 & 0x8000) == 0 {
        let op = (hw1 >> 5) & 0xF;
        let setflags = ((hw1 >> 4) & 0x1) != 0;
        let field = (((hw1 >> 10) & 1) << 11) | (((hw2 >> 12) & 0x7) << 8) | (hw2 & 0xFF);
        assert(field < 0x1000) by (bit_vector)
            requires
                field == (((hw1 >> 10u16) & 1) << 11u16) | (((hw2 >> 12u16) & 0x7) << 8u16) | (hw2 & 0xFF),
        ;
        let imm = thumb_expand_imm12(field);
        return Ok(
            if op == 0 {
                make_imm_binary_instruction(ArmInsn::ARM_INS_AND, current_pc, 4, if setflags { "ands" } else { "and" }, rd, rn, imm, setflags, rd == 15)
            } else if op == 1 {
                make_imm_binary_instruction(ArmInsn::ARM_INS_BIC, current_pc, 4, if setflags { "bics" } else { "bic" }, rd, rn, imm, setflags, rd == 15)
            } else if op == 2 && rn == 15 {
                make_move_imm_instruction(if setflags { ArmInsn::ARM_INS_MOVS } else { ArmInsn::ARM_INS_MOV }, current_pc, 4, rd, imm, setflags, rd == 15)
            } else if op == 2 {
                make_imm_binary_instruction(ArmInsn::ARM_INS_ORR, current_pc, 4, if setflags { "orrs" } else { "orr" }, rd, rn, imm, setflags, rd == 15)
            } else if op == 8 {
                make_imm_binary_instruction(ArmInsn::ARM_INS_ADD, current_pc, 4, if setflags { "adds" } else { "add" }, rd, rn, imm, setflags, rd == 15)
            } else if op == 13 {
                make_imm_binary_instruction(ArmInsn::ARM_INS_CMP, current_pc, 4, "cmp", 0, rn, imm, true, false)
            } else {
                make_unknown_instruction(current_pc, 4)
            },
        );
    }
    if (hw1 & 0xFE00) == 0xEA00 || (hw1 & 0xFE00) == 0xEB00 {
        let op = (hw1 >> 5) & 0xF;
        let imm3 = ((hw2 >> 12) & 0x7) as u32;
        let imm2 = ((hw2 >> 6) & 0x3) as u32;
        let shift_type = ((hw2 >> 4) & 0x3) as u32;
        let shift_amount = (imm3 << 2) | imm2;
        let shift = if shift_type == 0 {
            DecodedShift::Lsl(shift_amount)
        } else if shift_type == 1 {
            DecodedShift::Lsr(shift_amount)
        } else if shift_type == 2 {
            DecodedShift::Asr(shift_amount)
        } else if shift_type == 3 {
            DecodedShift::Ror(shift_amount)
        } else {
            DecodedShift::Invalid
        };
        return Ok(
            if op == 0 {
                make_reg_binary_shift_instruction(ArmInsn::ARM_INS_AND, current_pc, 4, "and", rd, rn, rm, shift, false, rd == 15)
            } else if op == 2 {
                make_reg_binary_shift_instruction(ArmInsn::ARM_INS_ORR, current_pc, 4, "orr", rd, rn, rm, shift, false, rd == 15)
            } else if op == 8 {
                make_reg_binary_shift_instruction(ArmInsn::ARM_INS_ADD, current_pc, 4, "add", rd, rn, rm, shift, false, rd == 15)
            } else {
                make_unknown_instruction(current_pc, 4)
            },
        );
    }
    if (hw1 & 0xFFF0) == 0xFA00 {
        return Ok(make_shift_reg_instruction(ArmInsn::ARM_INS_LSL, current_pc, 4, rd, rn, rm, false));
    }
    if hw1 == 0xE92D {
        let regs = full_reg_list(multi_reg_mask_push(hw2));
        return Ok(make_multi_reg_instruction(ArmInsn::ARM_INS_PUSH, current_pc, 4, regs, false));
    }
    if hw1 == 0xE8BD {
        let regs = full_reg_list(multi_reg_mask_pop(hw2));
        return Ok(make_multi_reg_instruction(ArmInsn::ARM_INS_POP, current_pc, 4, regs, false));
    }
    if (hw1 & 0xFFD0) == 0xE890 {
        let writeback = ((hw1 >> 5) & 1) != 0;
        let mut regs = vec![rn];
        let mut list = full_reg_list(hw2);
        regs.append(&mut list);
        assert(regs@ =~= seq![rn] + mask_regs(hw2, 16));
        return Ok(make_multi_reg_instruction(ArmInsn::ARM_INS_LDM, current_pc, 4, regs, writeback));
    }
    Ok(make_unknown_instruction(current_pc, 4))
}


pub open spec fn is_branch_insn(insn: ArmInsn) -> bool {
    insn is ARM_INS_B || insn is ARM_INS_BL || insn is ARM_INS_BX || insn is ARM_INS_BLX || insn is ARM_INS_CBZ
        || insn is ARM_INS_CBNZ
}

/// The target of a direct branch (B, BL, CBZ, CBNZ with an immediate operand).
pub open spec fn static_target(j: JitView) -> Option<u32> {
    if j.insn is ARM_INS_B || j.insn is ARM_INS_BL || j.insn is ARM_INS_CBZ || j.insn is ARM_INS_CBNZ {
        match j.arm_operands.op2 {
            Some(op) => match op.op_type {
                DecodedOperandKind::Imm(imm) => Some(imm as u32),
                _ => None,
            },
            None => None,
        }
    } else {
        None
    }
}

/// BX, and POP of PC, may return from an exception.
pub open spec fn exception_return_path(j: JitView) -> bool {
    j.insn is ARM_INS_BX || (j.insn is ARM_INS_POP && j.transed_operands.contains(15))
}

/// Whether the instruction may write PC.
pub open spec fn writes_pc_view(j: JitView) -> bool {
    ||| is_branch_insn(j.insn)
    ||| exception_return_path(j)
    ||| j.writes_pc
    ||| j.arm_operands.rd == 15
    ||| (j.insn is ARM_INS_LDM || j.insn is ARM_INS_POP) && j.transed_operands.contains(15)
}

/// How many following instructions an IT instruction covers (0 for other instructions).
pub open spec fn it_cover(j: JitView) -> nat {
    if j.insn is ARM_INS_IT { it_count(j.it_mask) as nat } else { 0 }
}

impl JitInstruction {
    pub fn is_it_instruction(&self) -> (r: bool)
        ensures
            r == (self.insn is ARM_INS_IT),
    {
        match self.insn {
            ArmInsn::ARM_INS_IT => true,
            _ => false,
        }
    }

    pub fn it_following_count(&self) -> (r: usize)
        ensures
            r == it_cover(self@),
    {
        if self.is_it_instruction() {
            self.data.it_following_count() as usize
        } else {
            0
        }
    }

    pub fn is_branch_instruction(&self) -> (r: bool)
        ensures
            r == is_branch_insn(self.insn),
    {
        match self.insn {
            ArmInsn::ARM_INS_B | ArmInsn::ARM_INS_BL | ArmInsn::ARM_INS_BX | ArmInsn::ARM_INS_BLX | ArmInsn::ARM_INS_CBZ
            | ArmInsn::ARM_INS_CBNZ => true,
            _ => false,
        }
    }

    pub fn static_branch_target(&self) -> (r: Option<u32>)
        ensures
            r == static_target(self@),
    {
        match self.insn {
            ArmInsn::ARM_INS_B | ArmInsn::ARM_INS_BL | ArmInsn::ARM_INS_CBZ | ArmInsn::ARM_INS_CBNZ => {},
            _ => return None,
        }
        match self.data.arm_operands.op2 {
            Some(op) => match op.op_type {
                DecodedOperandKind::Imm(imm) => Some(imm as u32),
                _ => None,
            },
            None => None,
        }
    }

    pub fn has_exception_return_path(&self) -> (r: bool)
        ensures
            r == exception_return_path(self@),
    {
        match self.insn {
            ArmInsn::ARM_INS_BX => true,
            ArmInsn::ARM_INS_POP => contains_reg(&self.data.transed_operands, 15),
            _ => false,
        }
    }

    pub fn modifies_pc(&self) -> (r: bool)
        ensures
            r == writes_pc_view(self@),
    {
        if self.is_branch_instruction() || self.has_exception_return_path() {
            return true;
        }
        if self.data.writes_pc() {
            return true;
        }
        if self.data.arm_operands.rd == 15 {
            return true;
        }
        match self.insn {
            ArmInsn::ARM_INS_LDM | ArmInsn::ARM_INS_POP => contains_reg(&self.data.transed_operands, 15),
            _ => false,
        }
    }
}

/// Why a block ends.
#[derive(Clone, Copy, Debug, PartialEq, Eq, Structural)]
pub enum JitBlockTerminator {
    Branch,
    BranchTarget,
    PcWrite,
    ItBlockEnd,
    ExceptionReturn,
    Gap,
    EndOfTable,
}

/// A block: the addresses of its first and last instruction, how many it has, and why it
/// ends.
#[derive(Clone, Copy, Debug, PartialEq, Eq, Structural)]
pub struct JitBlockRange {
    pub start_pc: u32,
    pub end_pc: u32,
    pub instruction_count: usize,
    pub terminator: JitBlockTerminator,
}

/// Counts over the blocks of a table.
#[derive(Clone, Copy, Debug, PartialEq, Eq, Structural)]
pub struct JitBlockStats {
    pub block_count: usize,
    pub total_instruction_count: usize,
    pub branch_blocks: usize,
    pub branch_target_blocks: usize,
    pub pc_write_blocks: usize,
    pub it_block_end_blocks: usize,
    pub exception_return_blocks: usize,
    pub gap_blocks: usize,
    pub end_of_table_blocks: usize,
}


/// The addresses of table entries, in table order.
pub open spec fn pcs_of(entries: Seq<JitInstruction>) -> Seq<u32> {
    entries.map_values(|e: JitInstruction| e.data.address)
}

/// Addresses strictly increase.
pub open spec fn strictly_sorted(pcs: Seq<u32>) -> bool {
    forall|i: int, j: int| 0 <= i < j < pcs.len() ==> pcs[i] < pcs[j]
}

/// `blocks`, in order, split the first `n` entries (whose addresses are `pcs`) into runs of
/// consecutive entries: each block is non-empty and names its first and last address.
pub open spec fn partitions(pcs: Seq<u32>, blocks: Seq<JitBlockRange>, n: int) -> bool
    decreases blocks.len(),
{
    if blocks.len() == 0 {
        n == 0
    } else {
        let b = blocks.last();
        let k = b.instruction_count as int;
        &&& 1 <= k <= n
        &&& n <= pcs.len()
        &&& b.start_pc == pcs[n - k]
        &&& b.end_pc == pcs[n - 1]
        &&& partitions(pcs, blocks.drop_last(), n - k)
    }
}

/// Whether `pc` lies in the address range of block `b`.
pub open spec fn block_spans(b: JitBlockRange, pc: u32) -> bool {
    b.start_pc <= pc <= b.end_pc
}

/// The instruction table with its blocks, and two indices: the block that starts at an
/// address, and the block that holds the instruction at an address.
pub struct JitBlockTable {
    pub entries: Vec<JitInstruction>,
    pub blocks: Vec<JitBlockRange>,
    pub block_starts: AddrIndex,
    pub block_membership: AddrIndex,
}

/// Splits a table into basic blocks.
pub struct JitBlockBuilder;

/// The total number of instructions in `blocks`.
pub open spec fn total_count(blocks: Seq<JitBlockRange>) -> int
    decreases blocks.len(),
{
    if blocks.len() == 0 { 0 } else { total_count(blocks.drop_last()) + blocks.last().instruction_count }
}

/// How many of `blocks` end for reason `t`.
pub open spec fn count_ending(blocks: Seq<JitBlockRange>, t: JitBlockTerminator) -> int
    decreases blocks.len(),
{
    if blocks.len() == 0 {
        0
    } else {
        count_ending(blocks.drop_last(), t) + if blocks.last().terminator == t { 1int } else { 0int }
    }
}

/// Blocks that partition a table cover each of its entries exactly once.
pub proof fn lemma_partition_counts(pcs: Seq<u32>, blocks: Seq<JitBlockRange>, n: int)
    requires
        partitions(pcs, blocks, n),
    ensures
        total_count(blocks) == n,
        blocks.len() <= n,
    decreases blocks.len(),
{
    if blocks.len() > 0 {
        lemma_partition_counts(pcs, blocks.drop_last(), n - blocks.last().instruction_count);
    }
}

impl JitBlockTable {
    /// Entry addresses strictly increase.
    pub open spec fn wf(&self) -> bool {
        strictly_sorted(pcs_of(self.entries@))
    }

    /// The indices agree with the blocks: `block_starts` maps exactly the blocks' start
    /// addresses, each to a block that starts there; `block_membership` maps exactly the
    /// entry addresses that some block spans, each to a block that spans it.
    pub open spec fn indexed(&self) -> bool {
        &&& starts_indexed(self.blocks@, addr_index_contents(self.block_starts), self.blocks@.len() as int)
        &&& members_indexed(self.entries@, self.blocks@, addr_index_contents(self.block_membership), self.entries@.len() as int)
    }

    pub fn len(&self) -> (r: usize)
        ensures
            r == self.entries@.len(),
    {
        self.entries.len()
    }

    pub fn is_empty(&self) -> (r: bool)
        ensures
            r == (self.entries@.len() == 0),
    {
        self.entries.len() == 0
    }

    pub fn blocks(&self) -> (r: &[JitBlockRange])
        ensures
            r@ == self.blocks@,
    {
        self.blocks.as_slice()
    }

    /// The entries, in address order.
    pub fn iter_entries(&self) -> (r: &[JitInstruction])
        ensures
            r@ == self.entries@,
    {
        self.entries.as_slice()
    }

    /// The instruction at `pc`, if the table has one.
    pub fn get(&self, pc: u32) -> (r: Option<&JitInstruction>)
        ensures
            r matches Some(j) ==> exists|i: int| 0 <= i < self.entries@.len() && self.entries@[i] == *j && j.data.address == pc,
            r is None ==> forall|i: int| 0 <= i < self.entries@.len() ==> self.entries@[i].data.address != pc,
    {
        let mut i: usize = 0;
        while i < self.entries.len()
            invariant
                i <= self.entries@.len(),
                forall|k: int| 0 <= k < i ==> self.entries@[k].data.address != pc,
            decreases self.entries@.len() - i,
        {
            if self.entries[i].data.address == pc {
                return Some(&self.entries[i]);
            }
            i = i + 1;
        }
        None
    }

    /// The block that starts at `pc`.
    pub fn block_starting_at(&self, pc: u32) -> (r: Option<&JitBlockRange>)
        requires
            self.indexed(),
        ensures
            r matches Some(b) ==> exists|i: int| 0 <= i < self.blocks@.len() && self.blocks@[i] == *b && b.start_pc == pc,
            r is None ==> forall|i: int| 0 <= i < self.blocks@.len() ==> self.blocks@[i].start_pc != pc,
    {
        match addr_index_get(&self.block_starts, pc) {
            Some(index) => {
                let b = &self.blocks[index];
                assert(self.blocks@[index as int] == *b);
                Some(b)
            },
            None => None,
        }
    }

    /// The block that holds the instruction at `pc`, when the table has an instruction at
    /// `pc` that some block spans.
    pub fn block_containing(&self, pc: u32) -> (r: Option<&JitBlockRange>)
        requires
            self.indexed(),
        ensures
            r matches Some(b) ==> (exists|i: int| 0 <= i < self.blocks@.len() && self.blocks@[i] == *b && b.start_pc <= pc <= b.end_pc)
                && exists|i: int| 0 <= i < self.entries@.len() && self.entries@[i].data.address == pc,
            r is None ==> (forall|i: int| 0 <= i < self.entries@.len() ==> self.entries@[i].data.address != pc)
                || forall|i: int| 0 <= i < self.blocks@.len() ==> !block_spans(self.blocks@[i], pc),
    {
        match addr_index_get(&self.block_membership, pc) {
            Some(index) => {
                let b = &self.blocks[index];
                assert(self.blocks@[index as int] == *b);
                Some(b)
            },
            None => None,
        }
    }

    /// Counts of blocks by terminator, and the number of instructions they hold.
    pub fn block_stats(&self) -> (r: JitBlockStats)
        requires
            total_count(self.blocks@) <= usize::MAX,
        ensures
            r.block_count == self.blocks@.len(),
            r.total_instruction_count == total_count(self.blocks@),
            r.branch_blocks == count_ending(self.blocks@, JitBlockTerminator::Branch),
            r.branch_target_blocks == count_ending(self.blocks@, JitBlockTerminator::BranchTarget),
            r.pc_write_blocks == count_ending(self.blocks@, JitBlockTerminator::PcWrite),
            r.it_block_end_blocks == count_ending(self.blocks@, JitBlockTerminator::ItBlockEnd),
            r.exception_return_blocks == count_ending(self.blocks@, JitBlockTerminator::ExceptionReturn),
            r.gap_blocks == count_ending(self.blocks@, JitBlockTerminator::Gap),
            r.end_of_table_blocks == count_ending(self.blocks@, JitBlockTerminator::EndOfTable),
    {
        let mut stats = JitBlockStats {
            block_count: 0,
            total_instruction_count: 0,
            branch_blocks: 0,
            branch_target_blocks: 0,
            pc_write_blocks: 0,
            it_block_end_blocks: 0,
            exception_return_blocks: 0,
            gap_blocks: 0,
            end_of_table_blocks: 0,
        };
        let mut i: usize = 0;
        while i < self.blocks.len()
            invariant
                i <= self.blocks@.len(),
                total_count(self.blocks@) <= usize::MAX,
                stats.block_count == i,
                stats.total_instruction_count == total_count(self.blocks@.take(i as int)),
                stats.branch_blocks == count_ending(self.blocks@.take(i as int), JitBlockTerminator::Branch),
                stats.branch_target_blocks == count_ending(self.blocks@.take(i as int), JitBlockTerminator::BranchTarget),
                stats.pc_write_blocks == count_ending(self.blocks@.take(i as int), JitBlockTerminator::PcWrite),
                stats.it_block_end_blocks == count_ending(self.blocks@.take(i as int), JitBlockTerminator::ItBlockEnd),
                stats.exception_return_blocks == count_ending(self.blocks@.take(i as int), JitBlockTerminator::ExceptionReturn),
                stats.gap_blocks == count_ending(self.blocks@.take(i as int), JitBlockTerminator::Gap),
                stats.end_of_table_blocks == count_ending(self.blocks@.take(i as int), JitBlockTerminator::EndOfTable),
            decreases self.blocks@.len() - i,
        {
            let block = self.blocks[i];
            let ghost prefix = self.blocks@.take(i as int + 1);
            proof {
                assert(prefix.drop_last() =~= self.blocks@.take(i as int));
                lemma_total_prefix(self.blocks@, i as int + 1);
                lemma_count_bound(self.blocks@.take(i as int), JitBlockTerminator::Branch);
                lemma_count_bound(self.blocks@.take(i as int), JitBlockTerminator::BranchTarget);
                lemma_count_bound(self.blocks@.take(i as int), JitBlockTerminator::PcWrite);
                lemma_count_bound(self.blocks@.take(i as int), JitBlockTerminator::ItBlockEnd);
                lemma_count_bound(self.blocks@.take(i as int), JitBlockTerminator::ExceptionReturn);
                lemma_count_bound(self.blocks@.take(i as int), JitBlockTerminator::Gap);
                lemma_count_bound(self.blocks@.take(i as int), JitBlockTerminator::EndOfTable);
            }
            stats.block_count = stats.block_count + 1;
            stats.total_instruction_count = stats.total_instruction_count + block.instruction_count;
            match block.terminator {
                JitBlockTerminator::Branch => stats.branch_blocks = stats.branch_blocks + 1,
                JitBlockTerminator::BranchTarget => stats.branch_target_blocks = stats.branch_target_blocks + 1,
                JitBlockTerminator::PcWrite => stats.pc_write_blocks = stats.pc_write_blocks + 1,
                JitBlockTerminator::ItBlockEnd => stats.it_block_end_blocks = stats.it_block_end_blocks + 1,
                JitBlockTerminator::ExceptionReturn => stats.exception_return_blocks = stats.exception_return_blocks + 1,
                JitBlockTerminator::Gap => stats.gap_blocks = stats.gap_blocks + 1,
                JitBlockTerminator::EndOfTable => stats.end_of_table_blocks = stats.end_of_table_blocks + 1,
            }
            i = i + 1;
        }
        assert(self.blocks@.take(self.blocks@.len() as int) =~= self.blocks@);
        stats
    }
}

/// The instruction count of a prefix of the blocks is at most that of all of them.
proof fn lemma_total_prefix(blocks: Seq<JitBlockRange>, k: int)
    requires
        0 <= k <= blocks.len(),
    ensures
        total_count(blocks.take(k)) <= total_count(blocks),
        total_count(blocks.take(k)) >= 0,
    decreases blocks.len() - k,
{
    if k < blocks.len() {
        lemma_total_prefix(blocks, k + 1);
        assert(blocks.take(k + 1).drop_last() =~= blocks.take(k));
    } else {
        assert(blocks.take(k) =~= blocks);
    }
    lemma_total_nonneg(blocks.take(k));
}

proof fn lemma_total_nonneg(blocks: Seq<JitBlockRange>)
    ensures
        total_count(blocks) >= 0,
    decreases blocks.len(),
{
    if blocks.len() > 0 {
        lemma_total_nonneg(blocks.drop_last());
    }
}

proof fn lemma_count_bound(blocks: Seq<JitBlockRange>, t: JitBlockTerminator)
    ensures
        0 <= count_ending(blocks, t) <= blocks.len(),
    decreases blocks.len(),
{
    if blocks.len() > 0 {
        lemma_count_bound(blocks.drop_last(), t);
    }
}


/// `t` is the static target of some entry, and the table has an instruction at `t`.
pub open spec fn is_branch_target(entries: Seq<JitInstruction>, t: u32) -> bool {
    &&& exists|i: int| 0 <= i < entries.len() && static_target(#[trigger] entries[i]@) == Some(t)
    &&& exists|k: int| 0 <= k < entries.len() && #[trigger] entries[k].data.address == t
}

/// Some entry before index `i` branches statically to `t`.
pub open spec fn targets_upto(entries: Seq<JitInstruction>, i: int, t: u32) -> bool {
    exists|j: int| 0 <= j < i && static_target(#[trigger] entries[j]@) == Some(t)
}

/// The table has an instruction at `t`.
pub open spec fn has_entry_at(entries: Seq<JitInstruction>, t: u32) -> bool {
    exists|k: int| 0 <= k < entries.len() && #[trigger] entries[k].data.address == t
}

proof fn lemma_push_contains(v: Seq<u32>, x: u32, t: u32)
    ensures
        v.push(x).contains(t) <==> (v.contains(t) || t == x),
{
    if v.push(x).contains(t) {
        let idx = choose|idx: int| 0 <= idx < v.push(x).len() && v.push(x)[idx] == t;
        if idx < v.len() {
            assert(v[idx] == t);
        }
    }
    if v.contains(t) {
        let idx = choose|idx: int| 0 <= idx < v.len() && v[idx] == t;
        assert(v.push(x)[idx] == t);
    }
    if t == x {
        assert(v.push(x)[v.len() as int] == t);
    }
}

fn branch_targets(table: &JitBlockTable) -> (v: Vec<u32>)
    ensures
        forall|t: u32| v@.contains(t) <==> is_branch_target(table.entries@, t),
{
    let mut v: Vec<u32> = Vec::new();
    let mut i: usize = 0;
    while i < table.entries.len()
        invariant
            i <= table.entries@.len(),
            forall|t: u32| v@.contains(t) <==> (targets_upto(table.entries@, i as int, t) && has_entry_at(table.entries@, t)),
        decreases table.entries@.len() - i,
    {
        let ghost old_v = v@;
        let st = table.entries[i].static_branch_target();
        proof {
            assert forall|t: u32| targets_upto(table.entries@, i as int + 1, t) <==> (targets_upto(table.entries@, i as int, t) || st == Some(t)) by {
                if targets_upto(table.entries@, i as int + 1, t) {
                    let j = choose|j: int| 0 <= j < i + 1 && static_target(#[trigger] table.entries@[j]@) == Some(t);
                    if j < i {
                        assert(targets_upto(table.entries@, i as int, t));
                    }
                }
                if st == Some(t) {
                    assert(static_target(table.entries@[i as int]@) == Some(t));
                }
            }
        }
        match st {
            Some(target) => {
                if table.get(target).is_some() {
                    v.push(target);
                    proof {
                        assert forall|t: u32| v@.contains(t) <==> (targets_upto(table.entries@, i as int + 1, t) && has_entry_at(table.entries@, t)) by {
                            lemma_push_contains(old_v, target, t);
                        }
                    }
                }
            },
            None => {},
        }
        i = i + 1;
    }
    proof {
        assert forall|t: u32| v@.contains(t) <==> is_branch_target(table.entries@, t) by {
            if targets_upto(table.entries@, table.entries@.len() as int, t) {
                let j = choose|j: int| 0 <= j < table.entries@.len() && static_target(#[trigger] table.entries@[j]@) == Some(t);
                assert(exists|i: int| 0 <= i < table.entries@.len() && static_target(#[trigger] table.entries@[i]@) == Some(t));
            }
        }
    }
    v
}

/// How many instructions after entry `i` an IT block still covers, when `p` were still
/// covered before it.
pub open spec fn it_pending_after(entries: Seq<JitInstruction>, i: int, p: nat) -> nat {
    if entries[i].insn is ARM_INS_IT {
        it_cover(entries[i]@)
    } else if p > 0 {
        (p - 1) as nat
    } else {
        0
    }
}

/// Why a block must end after entry `i` by that entry itself, when `p` instructions were
/// still covered by an IT block before it: a possible exception return, a branch, a write
/// of PC, the end of an IT block, a gap in addresses before the next entry, or the end of
/// the table.
pub open spec fn end_reason(entries: Seq<JitInstruction>, i: int, p: nat) -> Option<JitBlockTerminator> {
    let j = entries[i];
    if exception_return_path(j@) {
        Some(JitBlockTerminator::ExceptionReturn)
    } else if is_branch_insn(j.insn) {
        Some(JitBlockTerminator::Branch)
    } else if writes_pc_view(j@) {
        Some(JitBlockTerminator::PcWrite)
    } else if p > 0 && it_pending_after(entries, i, p) == 0 {
        Some(JitBlockTerminator::ItBlockEnd)
    } else if i + 1 < entries.len() {
        if entries[i + 1].data.address != j.data.address.wrapping_add(j.data.size) {
            Some(JitBlockTerminator::Gap)
        } else {
            None
        }
    } else {
        Some(JitBlockTerminator::EndOfTable)
    }
}

/// How many instructions an IT block still covers before entry `k`; a block end closes any
/// IT block.
pub open spec fn it_pending_before(entries: Seq<JitInstruction>, k: int) -> nat
    decreases k,
{
    if k <= 0 {
        0
    } else {
        let p = it_pending_before(entries, k - 1);
        if end_reason(entries, k - 1, p) is Some {
            0
        } else {
            it_pending_after(entries, k - 1, p)
        }
    }
}

/// Why a block ends after entry `i`, or `None` when the next entry belongs to the same
/// block: the entry's own reason, or else that the next entry is a branch target.
pub open spec fn block_end(entries: Seq<JitInstruction>, i: int) -> Option<JitBlockTerminator> {
    match end_reason(entries, i, it_pending_before(entries, i)) {
        Some(t) => Some(t),
        None => if i + 1 < entries.len() && is_branch_target(entries, entries[i + 1].data.address) {
            Some(JitBlockTerminator::BranchTarget)
        } else {
            None
        },
    }
}

/// `blocks` are the basic blocks of `entries`: they split the entries, in order, into runs
/// of consecutive entries; a block ends exactly after an entry that has a reason to end
/// one (`block_end`), and records that reason.
pub open spec fn blocks_split(entries: Seq<JitInstruction>, blocks: Seq<JitBlockRange>) -> bool {
    &&& partitions(pcs_of(entries), blocks, entries.len() as int)
    &&& forall|j: int| 0 <= j < blocks.len() ==> ends_as_recorded(entries, #[trigger] blocks[j])
    &&& forall|i: int| 0 <= i < entries.len() && (#[trigger] block_end(entries, i)) is Some
        ==> exists|j: int| 0 <= j < blocks.len() && blocks[j].end_pc == entries[i].data.address
}

/// Block `b` ends at an entry of the table whose reason to end a block is `b`'s terminator.
pub open spec fn ends_as_recorded(entries: Seq<JitInstruction>, b: JitBlockRange) -> bool {
    exists|i: int| 0 <= i < entries.len() && #[trigger] entries[i].data.address == b.end_pc
        && block_end(entries, i) == Some(b.terminator)
}

/// The blocks of a table whose entries strictly increase in address. A block ends after
/// an instruction that may return from an exception, a branch, an instruction that may write
/// PC, the last instruction of an IT block, an instruction followed by a gap in addresses,
/// the last instruction of the table, or before an instruction that some branch of the table
/// targets.
impl JitBlockBuilder {
    pub fn build(table: &JitBlockTable) -> (blocks: Vec<JitBlockRange>)
        requires
            table.wf(),
        ensures
            blocks_split(table.entries@, blocks@),
    {
        let n = table.entries.len();
        let mut blocks: Vec<JitBlockRange> = Vec::new();
        if n == 0 {
            return blocks;
        }
        let ghost pcs = pcs_of(table.entries@);
        let ghost entries = table.entries@;
        let targets = branch_targets(table);
        let mut block_start = table.entries[0].data.address;
        let mut instruction_count: usize = 0;
        let mut pending_it_following: usize = 0;
        let mut previous_pc = table.entries[0].data.address;
        let ghost mut covered: int = 0;
        let ghost mut ends: Seq<int> = Seq::empty();
        let mut index: usize = 0;
        while index < n
            invariant
                n == table.entries@.len(),
                entries == table.entries@,
                table.wf(),
                pcs == pcs_of(table.entries@),
                forall|t: u32| targets@.contains(t) <==> is_branch_target(entries, t),
                0 <= covered <= index <= n,
                instruction_count == index - covered,
                partitions(pcs, blocks@, covered),
                covered < n ==> block_start == pcs[covered],
                index > 0 ==> previous_pc == pcs[index - 1],
                index == n ==> covered == n,
                pending_it_following == it_pending_before(entries, index as int),
                ends.len() == blocks@.len(),
                forall|j: int| 0 <= j < ends.len() ==> 0 <= #[trigger] ends[j] < covered && pcs[ends[j]] == blocks@[j].end_pc
                    && block_end(entries, ends[j]) == Some(blocks@[j].terminator),
                forall|i: int| 0 <= i < covered && (#[trigger] block_end(entries, i)) is Some ==> ends.contains(i),
                forall|i: int| covered <= i < index ==> (#[trigger] end_reason(entries, i, it_pending_before(entries, i))) is None,
                forall|i: int| covered <= i < index - 1 ==> (#[trigger] block_end(entries, i)) is None,
            decreases n - index,
        {
            let ins = &table.entries[index];
            let pc = ins.data.address;
            assert(pcs[index as int] == pc);
            if instruction_count > 0 && pc != block_start && contains_reg(&targets, pc) {
                let b = JitBlockRange { start_pc: block_start, end_pc: previous_pc, instruction_count, terminator: JitBlockTerminator::BranchTarget };
                let ghost old_blocks = blocks@;
                let ghost old_ends = ends;
                blocks.push(b);
                proof {
                    assert(blocks@.drop_last() =~= old_blocks);
                    assert(pcs.len() == n);
                    assert(blocks@.last() == b);
                    assert(b.start_pc == pcs[covered]);
                    assert(b.end_pc == pcs[index as int - 1]);
                    assert(partitions(pcs, blocks@, index as int));
                    let last = index as int - 1;
                    assert(end_reason(entries, last, it_pending_before(entries, last)) is None);
                    assert(entries[last + 1].data.address == pc);
                    assert(block_end(entries, last) == Some(JitBlockTerminator::BranchTarget));
                    ends = ends.push(last);
                    assert forall|j: int| 0 <= j < ends.len() implies 0 <= #[trigger] ends[j] < index as int && pcs[ends[j]] == blocks@[j].end_pc
                        && block_end(entries, ends[j]) == Some(blocks@[j].terminator) by {
                        if j < old_ends.len() {
                            assert(ends[j] == old_ends[j]);
                        }
                    }
                    assert forall|i: int| 0 <= i < index as int && (#[trigger] block_end(entries, i)) is Some implies ends.contains(i) by {
                        if i < covered {
                            let k = choose|k: int| 0 <= k < old_ends.len() && old_ends[k] == i;
                            assert(ends[k] == i);
                        } else {
                            assert(i == last);
                            assert(ends[old_ends.len() as int] == i);
                        }
                    }
                }
                block_start = pc;
                instruction_count = 0;
                proof {
                    covered = index as int;
                }
            } else if instruction_count > 0 {
                proof {
                    let last = index as int - 1;
                    assert(pcs[covered] < pcs[index as int]);
                    assert(!is_branch_target(entries, pc));
                    assert(end_reason(entries, last, it_pending_before(entries, last)) is None);
                    assert(entries[last + 1].data.address == pc);
                    assert(block_end(entries, last) is None);
                }
            }
            instruction_count = instruction_count + 1;
            let was_inside_it_block = pending_it_following > 0;
            if was_inside_it_block {
                pending_it_following = pending_it_following - 1;
            }
            if ins.is_it_instruction() {
                pending_it_following = ins.it_following_count();
            }
            let it_block_ends_here = was_inside_it_block && pending_it_following == 0;
            let expected_next_pc = pc.wrapping_add(ins.data.size);
            let terminator = if ins.has_exception_return_path() {
                Some(JitBlockTerminator::ExceptionReturn)
            } else if ins.is_branch_instruction() {
                Some(JitBlockTerminator::Branch)
            } else if ins.modifies_pc() {
                Some(JitBlockTerminator::PcWrite)
            } else if it_block_ends_here {
                Some(JitBlockTerminator::ItBlockEnd)
            } else if index + 1 < n {
                if table.entries[index + 1].data.address != expected_next_pc {
                    Some(JitBlockTerminator::Gap)
                } else {
                    None
                }
            } else {
                Some(JitBlockTerminator::EndOfTable)
            };
            let ghost p_before = it_pending_before(entries, index as int);
            assert(pending_it_following == it_pending_after(entries, index as int, p_before));
            assert(terminator == end_reason(entries, index as int, p_before));
            match terminator {
                Some(t) => {
                    let b = JitBlockRange { start_pc: block_start, end_pc: pc, instruction_count, terminator: t };
                    let ghost old_blocks = blocks@;
                    let ghost old_ends = ends;
                    blocks.push(b);
                    proof {
                        assert(blocks@.drop_last() =~= old_blocks);
                        assert(pcs.len() == n);
                        assert(blocks@.last() == b);
                        assert(b.start_pc == pcs[covered]);
                        assert(partitions(pcs, blocks@, index as int + 1));
                        let cur = index as int;
                        assert(block_end(entries, cur) == Some(t));
                        ends = ends.push(cur);
                        assert forall|j: int| 0 <= j < ends.len() implies 0 <= #[trigger] ends[j] < cur + 1 && pcs[ends[j]] == blocks@[j].end_pc
                            && block_end(entries, ends[j]) == Some(blocks@[j].terminator) by {
                            if j < old_ends.len() {
                                assert(ends[j] == old_ends[j]);
                            }
                        }
                        assert forall|i: int| 0 <= i < cur + 1 && (#[trigger] block_end(entries, i)) is Some implies ends.contains(i) by {
                            if i < covered {
                                let k = choose|k: int| 0 <= k < old_ends.len() && old_ends[k] == i;
                                assert(ends[k] == i);
                            } else if i < cur {
                                assert(i < index - 1 || i == index - 1);
                                assert(block_end(entries, i) is None);
                            } else {
                                assert(ends[old_ends.len() as int] == i);
                            }
                        }
                    }
                    if index + 1 < n {
                        block_start = table.entries[index + 1].data.address;
                        assert(pcs[index as int + 1] == block_start);
                    }
                    instruction_count = 0;
                    pending_it_following = 0;
                    proof {
                        covered = index as int + 1;
                    }
                },
                None => {},
            }
            assert(pending_it_following == it_pending_before(entries, index as int + 1));
            previous_pc = pc;
            index = index + 1;
        }
        proof {
            assert forall|j: int| 0 <= j < blocks@.len() implies ends_as_recorded(table.entries@, #[trigger] blocks@[j]) by {
                let i = ends[j];
                assert(table.entries@[i].data.address == pcs[i]);
            }
            assert forall|i: int| 0 <= i < table.entries@.len() && (#[trigger] block_end(table.entries@, i)) is Some
                implies exists|j: int| 0 <= j < blocks@.len() && blocks@[j].end_pc == table.entries@[i].data.address by {
                let k = choose|k: int| 0 <= k < ends.len() && ends[k] == i;
                assert(blocks@[k].end_pc == pcs[i]);
            }
            assert(blocks_split(table.entries@, blocks@));
        }
        blocks
    }
}


/// Table entries carry the address they were decoded at.
pub proof fn lemma_entry_address(pc: u32, hw1: u16, hw2: u16)
    ensures
        jit16_view(pc, hw1).address == pc,
        jit32_view(pc, hw1, hw2).address == pc,
{
    reveal(jit16_view);
    reveal(jit32_view);
}

/// The table entry for the instruction at `pc` of `cpu`'s code; `None` when its halfwords
/// cannot be fetched.
pub open spec fn jit_at<B>(cpu: Cpu<B>, pc: u32) -> Option<JitView> {
    match code_half(cpu, pc) {
        None => None,
        Some(hw1) => if thumb32_prefix(hw1) {
            match code_half(cpu, pc.wrapping_add(2)) {
                None => None,
                Some(hw2) => Some(jit32_view(pc, hw1, hw2)),
            }
        } else {
            Some(jit16_view(pc, hw1))
        },
    }
}

/// Decodes the instruction at `current_pc` of the core's code into a table entry.
pub fn decode_jit_instruction_from_thumb<B: PeripheralBus>(cpu: &Cpu<B>, current_pc: u32) -> (r: Result<JitInstruction, JitTableBuildError>)
    requires
        cpu.wf(),
    ensures
        match jit_at(*cpu, current_pc) {
            Some(v) => r matches Ok(j) && j@ == v,
            None => r == Err::<JitInstruction, JitTableBuildError>(JitTableBuildError::DecodeFailed { address: current_pc as u64 }),
        },
{
    let hw1 = match fetch16(cpu, current_pc) {
        Some(h) => h,
        None => return Err(JitTableBuildError::DecodeFailed { address: current_pc as u64 }),
    };
    if is_thumb32(hw1) {
        let hw2 = match fetch16(cpu, current_pc.wrapping_add(2)) {
            Some(h) => h,
            None => return Err(JitTableBuildError::DecodeFailed { address: current_pc as u64 }),
        };
        decode_jit_instruction_32(current_pc, hw1, hw2)
    } else {
        decode_jit_instruction_16(current_pc, hw1)
    }
}

fn copy_u32s(v: &Vec<u32>) -> (r: Vec<u32>)
    ensures
        r@ == v@,
{
    let mut r: Vec<u32> = Vec::new();
    let mut i: usize = 0;
    while i < v.len()
        invariant
            i <= v@.len(),
            r@ == v@.take(i as int),
        decreases v@.len() - i,
    {
        r.push(v[i]);
        assert(v@.take(i as int + 1) =~= v@.take(i as int).push(v@[i as int]));
        i = i + 1;
    }
    assert(v@.take(v@.len() as int) =~= v@);
    r
}

fn copy_operands(v: &Vec<DecodedOperand>) -> (r: Vec<DecodedOperand>)
    ensures
        r@ == v@,
{
    let mut r: Vec<DecodedOperand> = Vec::new();
    let mut i: usize = 0;
    while i < v.len()
        invariant
            i <= v@.len(),
            r@ == v@.take(i as int),
        decreases v@.len() - i,
    {
        r.push(v[i]);
        assert(v@.take(i as int + 1) =~= v@.take(i as int).push(v@[i as int]));
        i = i + 1;
    }
    assert(v@.take(v@.len() as int) =~= v@);
    r
}

/// A copy of a table entry.
pub fn copy_instruction(j: &JitInstruction) -> (r: JitInstruction)
    ensures
        r@ == j@,
{
    let data = DecodedInstruction {
        address: j.data.address,
        size: j.data.size,
        mnemonic: j.data.mnemonic.clone(),
        op_str: j.data.op_str.clone(),
        operands: copy_operands(&j.data.operands),
        writeback: j.data.writeback,
        update_flags: j.data.update_flags,
        it_mask: j.data.it_mask,
        writes_pc: j.data.writes_pc,
        transed_operands: copy_u32s(&j.data.transed_operands),
        arm_operands: j.data.arm_operands,
    };
    JitInstruction { insn: j.insn, execute_cycles: j.execute_cycles, data }
}

/// The views of a sequence of entries.
pub open spec fn views(entries: Seq<JitInstruction>) -> Seq<JitView> {
    entries.map_values(|e: JitInstruction| e@)
}

/// Collects table entries, kept in increasing address order, one per address.
pub struct JitBlockTableBuilder {
    pub entries: Vec<JitInstruction>,
}

/// `new` is `old` with `j` put at its address: it replaces the entry at that address, or is
/// inserted before the first entry at a higher address.
pub open spec fn placed(old: Seq<JitInstruction>, j: JitInstruction, new: Seq<JitInstruction>) -> bool {
    exists|p: int| #![trigger old.insert(p, j)] #![trigger old.update(p, j)]
    {
        &&& 0 <= p <= old.len()
        &&& forall|i: int| 0 <= i < p ==> (#[trigger] old[i]).data.address < j.data.address
        &&& if p < old.len() && old[p].data.address == j.data.address {
            new == old.update(p, j)
        } else {
            &&& p < old.len() ==> old[p].data.address > j.data.address
            &&& new == old.insert(p, j)
        }
    }
}

/// The set of addresses that have an entry.
pub open spec fn addr_set(entries: Seq<JitInstruction>) -> Set<u32> {
    Set::new(|a: u32| exists|k: int| 0 <= k < entries.len() && #[trigger] entries[k].data.address == a)
}

impl JitBlockTableBuilder {
    pub open spec fn wf(&self) -> bool {
        strictly_sorted(pcs_of(self.entries@))
    }

    pub fn new() -> (r: Self)
        ensures
            r.entries@.len() == 0,
            r.wf(),
    {
        JitBlockTableBuilder { entries: Vec::new() }
    }

    pub fn is_empty(&self) -> (r: bool)
        ensures
            r == (self.entries@.len() == 0),
    {
        self.entries.len() == 0
    }

    /// Puts `instr` into the table at its address (see `placed`).
    pub fn add_instruction(&mut self, instr: JitInstruction)
        requires
            old(self).wf(),
        ensures
            final(self).wf(),
            placed(old(self).entries@, instr, final(self).entries@),
            addr_set(final(self).entries@) == addr_set(old(self).entries@).insert(instr.data.address),
    {
        let a = instr.data.address;
        let ghost old_entries = self.entries@;
        let mut p: usize = 0;
        while p < self.entries.len() && self.entries[p].data.address < a
            invariant
                p <= self.entries@.len(),
                self.entries@ == old_entries,
                forall|i: int| 0 <= i < p ==> (#[trigger] old_entries[i]).data.address < a,
            decreases self.entries@.len() - p,
        {
            p = p + 1;
        }
        proof {
            assert(pcs_of(old_entries)[p as int] == old_entries[p as int].data.address || p == old_entries.len());
        }
        if p < self.entries.len() && self.entries[p].data.address == a {
            self.entries.set(p, instr);
            proof {
                assert(self.entries@ == old_entries.update(p as int, instr));
                assert forall|i: int, k: int| 0 <= i < k < pcs_of(self.entries@).len() implies pcs_of(self.entries@)[i] < pcs_of(self.entries@)[k] by {
                    assert(pcs_of(old_entries)[i] < pcs_of(old_entries)[k]);
                }
                assert(addr_set(self.entries@) =~= addr_set(old_entries).insert(a)) by {
                    assert forall|x: u32| addr_set(old_entries).contains(x) implies addr_set(self.entries@).contains(x) by {
                        let k = choose|k: int| 0 <= k < old_entries.len() && #[trigger] old_entries[k].data.address == x;
                        if k == p {
                            assert(self.entries@[k].data.address == x);
                        } else {
                            assert(self.entries@[k].data.address == x);
                        }
                    }
                    assert forall|x: u32| addr_set(self.entries@).contains(x) implies addr_set(old_entries).insert(a).contains(x) by {
                        let k = choose|k: int| 0 <= k < self.entries@.len() && #[trigger] self.entries@[k].data.address == x;
                        if k != p {
                            assert(old_entries[k].data.address == x);
                        }
                    }
                    assert(self.entries@[p as int].data.address == a);
                }
            }
        } else {
            self.entries.insert(p, instr);
            proof {
                assert(self.entries@ == old_entries.insert(p as int, instr));
                assert forall|i: int, k: int| 0 <= i < k < pcs_of(self.entries@).len() implies pcs_of(self.entries@)[i] < pcs_of(self.entries@)[k] by {
                    let q = p as int;
                    if k < q {
                        assert(pcs_of(old_entries)[i] < pcs_of(old_entries)[k]);
                    } else if k == q {
                        assert(old_entries[i].data.address < a);
                    } else if i < q {
                        assert(pcs_of(old_entries)[i] < pcs_of(old_entries)[k - 1] || i == k - 1);
                        if q < old_entries.len() {
                            assert(old_entries[q].data.address > a);
                            assert(pcs_of(old_entries)[q] <= pcs_of(old_entries)[k - 1]) by {
                                if q < k - 1 {
                                    assert(pcs_of(old_entries)[q] < pcs_of(old_entries)[k - 1]);
                                }
                            }
                        }
                    } else if i == q {
                        assert(old_entries[q].data.address > a);
                        if q < k - 1 {
                            assert(pcs_of(old_entries)[q] < pcs_of(old_entries)[k - 1]);
                        }
                    } else {
                        assert(pcs_of(old_entries)[i - 1] < pcs_of(old_entries)[k - 1]);
                    }
                }
                assert(addr_set(self.entries@) =~= addr_set(old_entries).insert(a)) by {
                    assert forall|x: u32| addr_set(old_entries).contains(x) implies addr_set(self.entries@).contains(x) by {
                        let k = choose|k: int| 0 <= k < old_entries.len() && #[trigger] old_entries[k].data.address == x;
                        if k < p {
                            assert(self.entries@[k].data.address == x);
                        } else {
                            assert(self.entries@[k + 1].data.address == x);
                        }
                    }
                    assert forall|x: u32| addr_set(self.entries@).contains(x) implies addr_set(old_entries).insert(a).contains(x) by {
                        let k = choose|k: int| 0 <= k < self.entries@.len() && #[trigger] self.entries@[k].data.address == x;
                        if k < p {
                            assert(old_entries[k].data.address == x);
                        } else if k > p {
                            assert(old_entries[k - 1].data.address == x);
                        }
                    }
                    assert(self.entries@[p as int].data.address == a);
                }
            }
        }
    }

    /// The table of the collected entries, with its blocks.
    pub fn build(self) -> (t: JitBlockTable)
        requires
            self.wf(),
        ensures
            t.entries@ == self.entries@,
            t.wf(),
            blocks_split(t.entries@, t.blocks@),
            t.indexed(),
    {
        let mut table = JitBlockTable {
            entries: self.entries,
            blocks: Vec::new(),
            block_starts: addr_index_new(),
            block_membership: addr_index_new(),
        };
        rebuild_block_metadata(&mut table);
        table
    }

    /// A table of copies of the collected entries, with its blocks; the builder is kept.
    pub fn build_snapshot(&self) -> (t: JitBlockTable)
        requires
            self.wf(),
        ensures
            views(t.entries@) == views(self.entries@),
            pcs_of(t.entries@) == pcs_of(self.entries@),
            t.wf(),
            blocks_split(t.entries@, t.blocks@),
            t.indexed(),
    {
        let mut entries: Vec<JitInstruction> = Vec::new();
        let mut i: usize = 0;
        while i < self.entries.len()
            invariant
                i <= self.entries@.len(),
                entries@.len() == i,
                forall|k: int| 0 <= k < i ==> (#[trigger] entries@[k])@ == self.entries@[k]@,
            decreases self.entries@.len() - i,
        {
            entries.push(copy_instruction(&self.entries[i]));
            i = i + 1;
        }
        assert(views(entries@) =~= views(self.entries@));
        assert(pcs_of(entries@) =~= pcs_of(self.entries@)) by {
            assert forall|k: int| 0 <= k < entries@.len() implies pcs_of(entries@)[k] == pcs_of(self.entries@)[k] by {
                assert(entries@[k]@.address == self.entries@[k]@.address);
            }
        }
        let mut table = JitBlockTable {
            entries,
            blocks: Vec::new(),
            block_starts: addr_index_new(),
            block_membership: addr_index_new(),
        };
        rebuild_block_metadata(&mut table);
        table
    }
}


/// `s` maps exactly the start addresses of the first `n` blocks, each to one of those
/// blocks that starts there.
pub open spec fn starts_indexed(blocks: Seq<JitBlockRange>, s: Map<u32, usize>, n: int) -> bool {
    &&& forall|pc: u32| #![trigger s.contains_key(pc)]
        s.contains_key(pc) <==> exists|i: int| 0 <= i < n && #[trigger] blocks[i].start_pc == pc
    &&& forall|pc: u32| #![trigger s.contains_key(pc)]
        s.contains_key(pc) ==> s[pc] < n && blocks[s[pc] as int].start_pc == pc
}

/// `m` maps exactly the addresses of the first `n` entries that some block spans, each to
/// a block that spans it.
pub open spec fn members_indexed(entries: Seq<JitInstruction>, blocks: Seq<JitBlockRange>, m: Map<u32, usize>, n: int) -> bool {
    &&& forall|pc: u32| #![trigger m.contains_key(pc)]
        m.contains_key(pc) <==> ((exists|k: int| 0 <= k < n && #[trigger] entries[k].data.address == pc)
            && exists|i: int| 0 <= i < blocks.len() && block_spans(#[trigger] blocks[i], pc))
    &&& forall|pc: u32| #![trigger m.contains_key(pc)]
        m.contains_key(pc) ==> m[pc] < blocks.len() && block_spans(blocks[m[pc] as int], pc)
}

/// Divides the table into blocks and indexes them by start address and by the addresses
/// of the instructions they hold.
fn rebuild_block_metadata(table: &mut JitBlockTable)
    requires
        old(table).wf(),
    ensures
        final(table).entries@ == old(table).entries@,
        final(table).wf(),
        blocks_split(final(table).entries@, final(table).blocks@),
        final(table).indexed(),
{
    let blocks = JitBlockBuilder::build(table);
    let mut starts = addr_index_new();
    let mut j: usize = 0;
    while j < blocks.len()
        invariant
            j <= blocks@.len(),
            starts_indexed(blocks@, addr_index_contents(starts), j as int),
        decreases blocks@.len() - j,
    {
        let ghost before = addr_index_contents(starts);
        addr_index_insert(&mut starts, blocks[j].start_pc, j);
        proof {
            let after = addr_index_contents(starts);
            assert forall|pc: u32| #![trigger after.contains_key(pc)]
                after.contains_key(pc) <==> exists|i: int| 0 <= i < j + 1 && #[trigger] blocks@[i].start_pc == pc by {
                if pc != blocks@[j as int].start_pc && after.contains_key(pc) {
                    assert(before.contains_key(pc));
                }
                if exists|i: int| 0 <= i < j + 1 && #[trigger] blocks@[i].start_pc == pc {
                    let i = choose|i: int| 0 <= i < j + 1 && #[trigger] blocks@[i].start_pc == pc;
                    if i < j {
                        assert(before.contains_key(pc));
                    }
                }
            }
        }
        j = j + 1;
    }
    let mut members = addr_index_new();
    let mut k: usize = 0;
    while k < table.entries.len()
        invariant
            k <= table.entries@.len(),
            members_indexed(table.entries@, blocks@, addr_index_contents(members), k as int),
        decreases table.entries@.len() - k,
    {
        let pc = table.entries[k].data.address;
        let mut i: usize = 0;
        while i < blocks.len() && !(blocks[i].start_pc <= pc && pc <= blocks[i].end_pc)
            invariant
                i <= blocks@.len(),
                forall|x: int| 0 <= x < i ==> !block_spans(#[trigger] blocks@[x], pc),
            decreases blocks@.len() - i,
        {
            i = i + 1;
        }
        let ghost before = addr_index_contents(members);
        if i < blocks.len() {
            addr_index_insert(&mut members, pc, i);
        }
        proof {
            let after = addr_index_contents(members);
            assert(table.entries@[k as int].data.address == pc);
            assert forall|q: u32| #![trigger after.contains_key(q)]
                after.contains_key(q) <==> ((exists|e: int| 0 <= e < k + 1 && #[trigger] table.entries@[e].data.address == q)
                    && exists|x: int| 0 <= x < blocks@.len() && block_spans(#[trigger] blocks@[x], q)) by {
                if after.contains_key(q) && q != pc {
                    assert(before.contains_key(q));
                }
                if q == pc && i < blocks@.len() {
                    assert(block_spans(blocks@[i as int], q));
                }
                if (exists|e: int| 0 <= e < k + 1 && #[trigger] table.entries@[e].data.address == q)
                    && exists|x: int| 0 <= x < blocks@.len() && block_spans(#[trigger] blocks@[x], q) {
                    let e = choose|e: int| 0 <= e < k + 1 && #[trigger] table.entries@[e].data.address == q;
                    if e < k {
                        assert(before.contains_key(q));
                    } else {
                        assert(q == pc);
                    }
                }
            }
        }
        k = k + 1;
    }
    table.blocks = blocks;
    table.block_starts = starts;
    table.block_membership = members;
}

/// The entries that extending a table from `pc` adds, in the order they are decoded, and
/// the address at which decoding failed, if it did. The walk stops when `budget` entries
/// were added, at `end` or beyond, at an address the table already has, after an
/// instruction that ends a block (exception return, branch, PC write, last instruction of an
/// IT block), or where the code cannot be fetched. `pending` counts the instructions still
/// covered by an IT instruction.
pub open spec fn walk<B>(cpu: Cpu<B>, pc: u32, end: u32, budget: nat, pending: nat, present: Set<u32>) -> (Seq<JitView>, Option<u32>)
    decreases budget,
{
    if budget == 0 || pc >= end || present.contains(pc) {
        (seq![], None)
    } else {
        match jit_at(cpu, pc) {
            None => (seq![], Some(pc)),
            Some(j) => {
                let was_inside = pending > 0;
                let p1: nat = if was_inside { (pending - 1) as nat } else { 0 };
                let p2: nat = if j.insn is ARM_INS_IT { it_count(j.it_mask) as nat } else { p1 };
                if exception_return_path(j) || is_branch_insn(j.insn) || writes_pc_view(j) || (was_inside && p2 == 0) {
                    (seq![j], None)
                } else {
                    let rest = walk(cpu, pc.wrapping_add(j.size), end, (budget - 1) as nat, p2, present.insert(pc));
                    (seq![j] + rest.0, rest.1)
                }
            },
        }
    }
}

/// `new` holds each entry of `old` and an entry for each view of `added`, and nothing else.
pub open spec fn extended(old: Seq<JitInstruction>, added: Seq<JitView>, new: Seq<JitInstruction>) -> bool {
    &&& new.len() == old.len() + added.len()
    &&& forall|k: int| 0 <= k < old.len() ==> new.contains(#[trigger] old[k])
    &&& forall|k: int| 0 <= k < added.len() ==> exists|i: int| 0 <= i < new.len() && (#[trigger] new[i])@ == #[trigger] added[k]
    &&& addr_set(new) == addr_set(old).union(Set::new(|a: u32| in_views(added, a)))
}

/// Some view of `added` is at address `a`.
pub open spec fn in_views(added: Seq<JitView>, a: u32) -> bool {
    exists|k: int| 0 <= k < added.len() && #[trigger] added[k].address == a
}

proof fn lemma_contains_after_insert(s: Seq<JitInstruction>, p: int, j: JitInstruction, x: JitInstruction)
    requires
        0 <= p <= s.len(),
        s.contains(x),
    ensures
        s.insert(p, j).contains(x),
{
    let k = choose|k: int| 0 <= k < s.len() && s[k] == x;
    if k < p {
        assert(s.insert(p, j)[k] == x);
    } else {
        assert(s.insert(p, j)[k + 1] == x);
    }
}

/// Adding an entry at a new address to a table extends it by that entry.
proof fn lemma_extended_step(
    old_entries: Seq<JitInstruction>,
    added: Seq<JitView>,
    before: Seq<JitInstruction>,
    j: JitInstruction,
    p: int,
)
    requires
        extended(old_entries, added, before),
        !addr_set(before).contains(j.data.address),
        0 <= p <= before.len(),
    ensures
        extended(old_entries, added.push(j@), before.insert(p, j)),
{
    let after = before.insert(p, j);
    let nv = added.push(j@);
    assert forall|k: int| 0 <= k < old_entries.len() implies after.contains(#[trigger] old_entries[k]) by {
        lemma_contains_after_insert(before, p, j, old_entries[k]);
    }
    assert forall|k: int| 0 <= k < nv.len() implies exists|i: int| 0 <= i < after.len() && (#[trigger] after[i])@ == #[trigger] nv[k] by {
        if k < added.len() {
            let i = choose|i: int| 0 <= i < before.len() && (#[trigger] before[i])@ == added[k];
            if i < p {
                assert(after[i] == before[i]);
            } else {
                assert(after[i + 1] == before[i]);
            }
        } else {
            assert(after[p] == j);
        }
    }
    assert forall|a: u32| #[trigger] in_views(nv, a) <==> (in_views(added, a) || a == j.data.address) by {
        if in_views(nv, a) {
            let k = choose|k: int| 0 <= k < nv.len() && #[trigger] nv[k].address == a;
            if k < added.len() {
                assert(added[k].address == a);
            }
        }
        if in_views(added, a) {
            let k = choose|k: int| 0 <= k < added.len() && #[trigger] added[k].address == a;
            assert(nv[k].address == a);
        }
        if a == j.data.address {
            assert(nv[added.len() as int].address == a);
        }
    }
    assert forall|x: u32| #[trigger] addr_set(after).contains(x) <==> (addr_set(before).contains(x) || x == j.data.address) by {
        if addr_set(before).contains(x) {
            let k = choose|k: int| 0 <= k < before.len() && #[trigger] before[k].data.address == x;
            if k < p {
                assert(after[k].data.address == x);
            } else {
                assert(after[k + 1].data.address == x);
            }
        }
        if addr_set(after).contains(x) {
            let k = choose|k: int| 0 <= k < after.len() && #[trigger] after[k].data.address == x;
            if k < p {
                assert(before[k].data.address == x);
            } else if k > p {
                assert(before[k - 1].data.address == x);
            }
        }
        if x == j.data.address {
            assert(after[p].data.address == x);
        }
    }
    assert(addr_set(after) =~= addr_set(old_entries).union(Set::new(|a: u32| in_views(nv, a))));
}

impl JitBlockTableBuilder {
    /// Decodes instructions of the core's code from `start_pc` on and adds them, as `walk`
    /// describes; the result is the number added, or the error at the address that could
    /// not be decoded.
    #[verifier::rlimit(40)]
    pub fn extend_from_pc<B: PeripheralBus>(
        &mut self,
        cpu: &Cpu<B>,
        start_pc: u32,
        end_pc_exclusive: u32,
        max_instructions: usize,
    ) -> (r: Result<usize, JitTableBuildError>)
        requires
            old(self).wf(),
            cpu.wf(),
        ensures
            final(self).wf(),
            ({
                let w = walk(*cpu, start_pc, end_pc_exclusive, max_instructions as nat, 0, addr_set(old(self).entries@));
                &&& extended(old(self).entries@, w.0, final(self).entries@)
                &&& match w.1 {
                    Some(a) => r == Err::<usize, JitTableBuildError>(JitTableBuildError::DecodeFailed { address: a as u64 }),
                    None => r == Ok::<usize, JitTableBuildError>(w.0.len() as usize),
                }
            }),
    {
        let ghost old_entries = self.entries@;
        let ghost w = walk(*cpu, start_pc, end_pc_exclusive, max_instructions as nat, 0, addr_set(old_entries));
        let mut current_pc = start_pc;
        let mut added: usize = 0;
        let mut pending_it_following: usize = 0;
        let ghost mut added_views: Seq<JitView> = seq![];
        assert(extended(old_entries, added_views, self.entries@)) by {
            assert forall|k: int| 0 <= k < old_entries.len() implies self.entries@.contains(#[trigger] old_entries[k]) by {
                assert(self.entries@[k] == old_entries[k]);
            }
            assert(addr_set(self.entries@) =~= addr_set(old_entries).union(Set::new(|a: u32| in_views(added_views, a))));
        }
        assert(w.0 =~= added_views + w.0);
        let mut failure: Option<JitTableBuildError> = None;
        while added < max_instructions
            invariant_except_break
                failure is None,
                w.0 == added_views + walk(*cpu, current_pc, end_pc_exclusive, (max_instructions - added) as nat, pending_it_following as nat, addr_set(self.entries@)).0,
                w.1 == walk(*cpu, current_pc, end_pc_exclusive, (max_instructions - added) as nat, pending_it_following as nat, addr_set(self.entries@)).1,
            invariant
                self.wf(),
                cpu.wf(),
                added <= max_instructions,
                added_views.len() == added,
                extended(old_entries, added_views, self.entries@),
            ensures
                w.0 == added_views,
                failure is None ==> w.1 is None,
                failure matches Some(e) ==> (w.1 matches Some(a) && e == JitTableBuildError::DecodeFailed { address: a as u64 }),
            decreases max_instructions - added,
        {
            let ghost rest = walk(*cpu, current_pc, end_pc_exclusive, (max_instructions - added) as nat, pending_it_following as nat, addr_set(self.entries@));
            if current_pc >= end_pc_exclusive {
                assert(w.0 =~= added_views);
                break;
            }
            let mut present = false;
            let mut k: usize = 0;
            while k < self.entries.len()
                invariant
                    k <= self.entries@.len(),
                    !present ==> forall|i: int| 0 <= i < k ==> self.entries@[i].data.address != current_pc,
                    present ==> addr_set(self.entries@).contains(current_pc),
                decreases self.entries@.len() - k,
            {
                if self.entries[k].data.address == current_pc {
                    present = true;
                    assert(self.entries@[k as int].data.address == current_pc);
                }
                k = k + 1;
            }
            if present {
                assert(w.0 =~= added_views);
                break;
            }
            assert(!addr_set(self.entries@).contains(current_pc));
            let jit_instr = match decode_jit_instruction_from_thumb(cpu, current_pc) {
                Ok(j) => j,
                Err(e) => {
                    assert(jit_at(*cpu, current_pc) is None);
                    assert(rest.1 == Some(current_pc));
                    assert(w.1 == Some(current_pc));
                    assert(e == JitTableBuildError::DecodeFailed { address: current_pc as u64 });
                    assert(w.0 =~= added_views);
                    assert(extended(old_entries, w.0, self.entries@));
                    failure = Some(e);
                    break;
                },
            };
            let size = jit_instr.data.size;
            let was_inside_it_block = pending_it_following > 0;
            if was_inside_it_block {
                pending_it_following = pending_it_following - 1;
            }
            if jit_instr.is_it_instruction() {
                pending_it_following = jit_instr.it_following_count();
            }
            let terminates_block = jit_instr.has_exception_return_path() || jit_instr.is_branch_instruction()
                || jit_instr.modifies_pc() || (was_inside_it_block && pending_it_following == 0);
            let ghost before = self.entries@;
            let ghost jv = jit_instr@;
            proof {
                match code_half(*cpu, current_pc) {
                    Some(hw1) => match code_half(*cpu, current_pc.wrapping_add(2)) {
                        Some(hw2) => lemma_entry_address(current_pc, hw1, hw2),
                        None => lemma_entry_address(current_pc, hw1, 0),
                    },
                    None => {},
                }
                assert(jit_instr.data.address == current_pc);
            }
            let ghost a = jit_instr.data.address;
            self.add_instruction(jit_instr);
            proof {
                let p = choose|p: int| #![trigger before.insert(p, jit_instr)] #![trigger before.update(p, jit_instr)]
                {
                    &&& 0 <= p <= before.len()
                    &&& forall|i: int| 0 <= i < p ==> (#[trigger] before[i]).data.address < jit_instr.data.address
                    &&& if p < before.len() && before[p].data.address == jit_instr.data.address {
                        self.entries@ == before.update(p, jit_instr)
                    } else {
                        &&& p < before.len() ==> before[p].data.address > jit_instr.data.address
                        &&& self.entries@ == before.insert(p, jit_instr)
                    }
                };
                if p < before.len() && before[p].data.address == jit_instr.data.address {
                    assert(addr_set(before).contains(current_pc));
                }
                lemma_extended_step(old_entries, added_views, before, jit_instr, p);
                added_views = added_views.push(jv);
            }
            added = added + 1;
            if terminates_block {
                assert(w.0 =~= added_views);
                break;
            }
            assert(w.0 =~= added_views + walk(*cpu, current_pc.wrapping_add(size), end_pc_exclusive, (max_instructions - added) as nat, pending_it_following as nat, addr_set(self.entries@)).0);
            current_pc = current_pc.wrapping_add(size);
        }
        match failure {
            Some(e) => Err(e),
            None => Ok(added),
        }
    }
}

/// The little-endian halfword at `off` in `b`.
pub open spec fn half_at(b: Seq<u8>, off: int) -> u16 {
    (b[off] as u16) | ((b[off + 1] as u16) << 8u16)
}

/// The table entry for a disassembled instruction: its encoding, two bytes of a 16-bit
/// instruction or four of a 32-bit one, decoded at its address. `DecodeFailed` when the
/// address does not fit in 32 bits or the bytes are not one whole Thumb instruction.
pub open spec fn record_jit(r: InsnView) -> Result<JitView, JitTableBuildError> {
    if r.address <= u32::MAX as u64 && r.bytes.len() == 2 && !thumb32_prefix(half_at(r.bytes, 0)) {
        Ok(jit16_view(r.address as u32, half_at(r.bytes, 0)))
    } else if r.address <= u32::MAX as u64 && r.bytes.len() == 4 && thumb32_prefix(half_at(r.bytes, 0)) {
        Ok(jit32_view(r.address as u32, half_at(r.bytes, 0), half_at(r.bytes, 2)))
    } else {
        Err(JitTableBuildError::DecodeFailed { address: r.address })
    }
}

/// The table entries for disassembled instructions, in order; the error of the first one
/// that cannot be entered.
pub open spec fn records_jit(rs: Seq<InsnView>) -> Result<Seq<JitView>, JitTableBuildError>
    decreases rs.len(),
{
    if rs.len() == 0 {
        Ok(Seq::empty())
    } else {
        match records_jit(rs.drop_last()) {
            Err(e) => Err(e),
            Ok(pre) => match record_jit(rs.last()) {
                Err(e) => Err(e),
                Ok(v) => Ok(pre.push(v)),
            },
        }
    }
}

/// `entries` is what putting each of `js` in order (see `placed`) into `start` gives.
pub open spec fn placed_in_order(start: Seq<JitInstruction>, js: Seq<JitInstruction>, entries: Seq<JitInstruction>) -> bool
    decreases js.len(),
{
    if js.len() == 0 {
        entries == start
    } else {
        exists|prev: Seq<JitInstruction>| placed_in_order(start, js.drop_last(), prev) && #[trigger] placed(prev, js.last(), entries)
    }
}

/// Decodes a disassembled instruction into a table entry (see `record_jit`).
pub fn jit_instruction_from_record(rec: &InsnRecord) -> (r: Result<JitInstruction, JitTableBuildError>)
    ensures
        match record_jit(rec@) {
            Ok(v) => r matches Ok(j) && j@ == v,
            Err(e) => r == Err::<JitInstruction, JitTableBuildError>(e),
        },
{
    let fail = JitTableBuildError::DecodeFailed { address: rec.address };
    if rec.address > 0xFFFF_FFFFu64 {
        return Err(fail);
    }
    let pc = rec.address as u32;
    let n = rec.bytes.len();
    if n != 2 && n != 4 {
        return Err(fail);
    }
    let hw1 = (rec.bytes[0] as u16) | ((rec.bytes[1] as u16) << 8u16);
    let wide = is_thumb32(hw1);
    if n == 2 && !wide {
        decode_jit_instruction_16(pc, hw1)
    } else if n == 4 && wide {
        let hw2 = (rec.bytes[2] as u16) | ((rec.bytes[3] as u16) << 8u16);
        decode_jit_instruction_32(pc, hw1, hw2)
    } else {
        Err(fail)
    }
}

impl JitBlockTableBuilder {
    /// Decodes a disassembled instruction and puts it into the table; on an error the
    /// table is unchanged.
    pub fn add_disassembled_instruction(&mut self, rec: &InsnRecord) -> (r: Result<(), JitTableBuildError>)
        requires
            old(self).wf(),
        ensures
            final(self).wf(),
            match record_jit(rec@) {
                Ok(v) => r is Ok && exists|j: JitInstruction| j@ == v && #[trigger] placed(old(self).entries@, j, final(self).entries@),
                Err(e) => r == Err::<(), JitTableBuildError>(e) && final(self).entries@ == old(self).entries@,
            },
    {
        let j = jit_instruction_from_record(rec)?;
        let ghost jj = j;
        self.add_instruction(j);
        assert(placed(old(self).entries@, jj, self.entries@));
        Ok(())
    }

    /// Decodes the disassembled instructions in order and puts each into the table; stops
    /// at the first that cannot be decoded, keeping those put in before it.
    pub fn extend_disassembly(&mut self, records: &Vec<InsnRecord>) -> (r: Result<(), JitTableBuildError>)
        requires
            old(self).wf(),
        ensures
            final(self).wf(),
            match records_jit(records_view(records@)) {
                Ok(vs) => r is Ok && exists|js: Seq<JitInstruction>| views(js) == vs
                    && #[trigger] placed_in_order(old(self).entries@, js, final(self).entries@),
                Err(e) => r == Err::<(), JitTableBuildError>(e),
            },
    {
        let ghost rv = records_view(records@);
        let ghost mut js: Seq<JitInstruction> = Seq::empty();
        let mut k: usize = 0;
        assert(rv.take(0) =~= Seq::<InsnView>::empty());
        assert(views(js) =~= Seq::<JitView>::empty());
        while k < records.len()
            invariant
                k <= records@.len(),
                rv == records_view(records@),
                self.wf(),
                records_jit(rv.take(k as int)) == Ok::<Seq<JitView>, JitTableBuildError>(views(js)),
                placed_in_order(old(self).entries@, js, self.entries@),
            decreases records@.len() - k,
        {
            let ghost before = self.entries@;
            assert(rv.take(k as int + 1).drop_last() =~= rv.take(k as int));
            assert(rv.take(k as int + 1).last() == records@[k as int]@);
            let res = self.add_disassembled_instruction(&records[k]);
            match res {
                Err(e) => {
                    proof {
                        lemma_records_jit_err(rv, k as int + 1);
                        assert(rv.take(rv.len() as int) =~= rv);
                    }
                    return Err(e);
                },
                Ok(()) => {
                    proof {
                        let j = choose|j: JitInstruction| j@ == record_jit(records@[k as int]@)->Ok_0 && #[trigger] placed(before, j, self.entries@);
                        let njs = js.push(j);
                        assert(njs.drop_last() =~= js);
                        assert(views(njs) =~= views(js).push(j@));
                        assert(njs.last() == j);
                        assert(placed_in_order(old(self).entries@, njs.drop_last(), before));
                        assert(placed(before, njs.last(), self.entries@));
                        assert(placed_in_order(old(self).entries@, njs, self.entries@));
                        js = njs;
                    }
                },
            }
            k = k + 1;
        }
        assert(rv.take(records@.len() as int) =~= rv);
        Ok(())
    }

    /// The table of the disassembled instructions, each put in in order, with its blocks;
    /// the error of the first instruction that cannot be decoded.
    pub fn build_from_disassembly(records: &Vec<InsnRecord>) -> (r: Result<JitBlockTable, JitTableBuildError>)
        ensures
            match records_jit(records_view(records@)) {
                Ok(vs) => r matches Ok(t) && t.wf() && blocks_split(t.entries@, t.blocks@)
                    && exists|js: Seq<JitInstruction>| views(js) == vs && #[trigger] placed_in_order(Seq::empty(), js, t.entries@),
                Err(e) => r == Err::<JitBlockTable, JitTableBuildError>(e),
            },
    {
        let mut builder = JitBlockTableBuilder::new();
        assert(builder.entries@ =~= Seq::<JitInstruction>::empty());
        builder.extend_disassembly(records)?;
        Ok(builder.build())
    }
}

/// Once a prefix of the records fails, every longer prefix fails with the same error.
proof fn lemma_records_jit_err(rs: Seq<InsnView>, k: int)
    requires
        0 <= k <= rs.len(),
        records_jit(rs.take(k)) is Err,
    ensures
        records_jit(rs.take(rs.len() as int)) == records_jit(rs.take(k)),
    decreases rs.len() - k,
{
    if k < rs.len() {
        assert(rs.take(k + 1).drop_last() =~= rs.take(k));
        lemma_records_jit_err(rs, k + 1);
    }
}

/// The 16-bit branches are entered with their targets relative to `pc + 4`:
/// - B (`hw & 0xF800 == 0xE000`): imm11:'0' read as a signed 12-bit number;
/// - B<cond> (`hw & 0xF000 == 0xD000`, condition field not 0xF): imm8:'0' read as a signed
///   9-bit number, so behind `pc + 4` exactly when imm8 is 0x80 or more;
/// - CBZ/CBNZ (`hw & 0xF500 == 0xB100`): i:imm5:'0' unsigned, CBNZ exactly when bit 11 is
///   set, comparing the register in bits 0-2;
/// each sum wrapping modulo 2^32.
#[verifier::rlimit(60)]
pub proof fn lemma_jit_branch_targets(pc: u32, hw: u16)
    ensures
        ({
            let imm11 = (hw % 2048) as int;
            let imm8 = (hw % 256) as int;
            let b_offset = if imm11 < 1024 { 2 * imm11 } else { 2 * imm11 - 4096 };
            let bcond_offset = if imm8 < 128 { 2 * imm8 } else { 2 * imm8 - 512 };
            let cbz_offset = ((hw / 0x200) % 2) as int * 64 + ((hw / 8) % 32) as int * 2;
            let j = jit16_view(pc, hw);
            &&& (hw & 0xF800) == 0xE000 ==> j.insn is ARM_INS_B
                && static_target(j) == Some(((pc as int + 4 + b_offset) % 0x1_0000_0000) as u32)
            &&& (hw & 0xF000) == 0xD000 && (hw & 0x0F00) != 0x0F00 ==> j.insn is ARM_INS_B
                && static_target(j) == Some(((pc as int + 4 + bcond_offset) % 0x1_0000_0000) as u32)
            &&& (hw & 0xF500) == 0xB100 ==> (if (hw / 0x800) % 2 == 1 { j.insn is ARM_INS_CBNZ } else { j.insn is ARM_INS_CBZ })
                && j.arm_operands.rn == (hw % 8) as u32
                && static_target(j) == Some(((pc as int + 4 + cbz_offset) % 0x1_0000_0000) as u32)
        }),
{
    reveal(jit16_view);
    let imm8 = (hw & 0xFF) as u32;
    let v = imm8 << 1u32;
    let se = sign_extend_spec(v, 9);
    let w = ((hw & 0x07FF) as u32) << 1u32;
    let sw = sign_extend_spec(w, 12);
    let a = ((hw >> 9u16) & 1) as u32;
    let b = ((hw >> 3u16) & 0x1F) as u32;
    assert(((hw & 0xF000) == 0xD000 ==> (hw & 0xF800) != 0xE000)
        && ((hw & 0xF500) == 0xB100 ==> (hw & 0xF800) != 0xE000 && (hw & 0xF000) != 0xD000)
        && imm8 == (hw % 256) as u32 && v == imm8 * 2
        && se == (if imm8 < 128 { v as i32 } else { ((v as i32) - 512i32) as i32 })
        && (hw & 0x07FF) as int == hw % 2048 && w == (hw & 0x07FF) as u32 * 2
        && sw == (if (hw & 0x07FF) < 1024 { w as i32 } else { ((w as i32) - 4096i32) as i32 })
        && ((hw & 0x0800) != 0) == ((hw / 0x800) % 2 == 1) && (hw & 0x7) as u32 == (hw % 8) as u32
        && a == ((hw / 0x200) % 2) as u32 && b == ((hw / 8) % 32) as u32
        && (a << 6u32) | (b << 1u32) == a * 64 + b * 2 && a <= 1 && b < 32) by (bit_vector)
        requires
            imm8 == (hw & 0xFF) as u32,
            v == imm8 << 1u32,
            se == (((v << 23u32) as i32) >> 23u32),
            w == ((hw & 0x07FF) as u32) << 1u32,
            sw == (((w << 20u32) as i32) >> 20u32),
            a == ((hw >> 9u16) & 1) as u32,
            b == ((hw >> 3u16) & 0x1F) as u32,
    ;
    let j = jit16_view(pc, hw);
    if (hw & 0xF800) == 0xE000 {
        assert(j == branch_view(ArmInsn::ARM_INS_B, pc, 2, ArmCC::ARM_CC_AL, rel_target(pc, w, 12), None));
    } else if (hw & 0xF000) == 0xD000 && (hw & 0x0F00) != 0x0F00 {
        assert(j == branch_view(ArmInsn::ARM_INS_B, pc, 2, ArmCC::from_bits_spec(((hw >> 8u16) & 0xF) as u8), rel_target(pc, v, 9), None));
    } else if (hw & 0xF500) == 0xB100 {
        assert(j == compare_branch_view(
            if (hw & 0x0800) != 0 { ArmInsn::ARM_INS_CBNZ } else { ArmInsn::ARM_INS_CBZ },
            pc,
            2,
            (hw & 0x7) as u32,
            pc.wrapping_add(4).wrapping_add((a << 6u32) | (b << 1u32)),
        ));
    }
}

/// The 16-bit loads and stores with an immediate offset are entered with their fields as
/// the encodings place them (`f(lo, n)` being the `n`-bit field of `hw` that starts at bit
/// `lo`): for LDR/STR (`hw & 0xF000 == 0x6000`, load when bit 11 is set), LDRB/STRB
/// (`0x7000`) and LDRH/STRH (`0x8000`), Rt `f(0, 3)` in `rd`, the base `f(3, 3)` in `rn` and
/// the displacement `f(6, 5)` times 4, 1 and 2; for SP-relative LDR/STR (`0x9000`) and LDR
/// literal (`0x4800`), Rt `f(8, 3)`, the base SP (13) or PC (15), and `f(0, 8)` times 4.
#[verifier::rlimit(60)]
pub proof fn lemma_jit_load_store_fields(pc: u32, hw: u16)
    ensures
        ({
            let j = jit16_view(pc, hw);
            let load = (hw / 2048) % 2 == 1;
            let rt = (hw % 8) as u32;
            let rn = ((hw / 8) % 8) as u32;
            let imm5 = ((hw / 64) % 32) as int;
            let rt8 = ((hw / 256) % 8) as u32;
            let imm8 = (hw % 256) as int;
            &&& (hw & 0xF000) == 0x6000 ==> (if load { j.insn is ARM_INS_LDR } else { j.insn is ARM_INS_STR })
                && j.arm_operands.rd == rt && j.arm_operands.rn == rn && j.arm_operands.mem_disp as int == imm5 * 4
            &&& (hw & 0xF000) == 0x7000 ==> (if load { j.insn is ARM_INS_LDRB } else { j.insn is ARM_INS_STRB })
                && j.arm_operands.rd == rt && j.arm_operands.rn == rn && j.arm_operands.mem_disp as int == imm5
            &&& (hw & 0xF000) == 0x8000 ==> (if load { j.insn is ARM_INS_LDRH } else { j.insn is ARM_INS_STRH })
                && j.arm_operands.rd == rt && j.arm_operands.rn == rn && j.arm_operands.mem_disp as int == imm5 * 2
            &&& (hw & 0xF000) == 0x9000 ==> (if load { j.insn is ARM_INS_LDR } else { j.insn is ARM_INS_STR })
                && j.arm_operands.rd == rt8 && j.arm_operands.rn == 13 && j.arm_operands.mem_disp as int == imm8 * 4
            &&& (hw & 0xF800) == 0x4800 ==> j.insn is ARM_INS_LDR
                && j.arm_operands.rd == rt8 && j.arm_operands.rn == 15 && j.arm_operands.mem_disp as int == imm8 * 4
        }),
{
    reveal(jit16_view);
    let w5 = ((hw >> 6u16) & 0x1F) as u32;
    let b8 = (hw & 0xFF) as u32;
    assert(true
        && (hw & 0x7) as u32 == (hw % 8) as u32
        && ((hw >> 3u16) & 0x7) as u32 == ((hw / 8) % 8) as u32
        && ((hw >> 8u16) & 0x7) as u32 == ((hw / 256) % 8) as u32
        && w5 == ((hw / 64) % 32) as u32 && w5 < 32
        && b8 == (hw % 256) as u32 && b8 < 256
        && (w5 << 2u32) == w5 * 4 && (w5 << 1u32) == w5 * 2 && (b8 << 2u32) == b8 * 4
        && ((hw & 0x0800) != 0) == ((hw / 2048) % 2 == 1)
        && ((hw & 0xF000) == 0x6000 <==> ((hw & 0xF800) == 0x6800 || (hw & 0xF800) == 0x6000))
        && ((hw & 0xF000) == 0x7000 <==> ((hw & 0xF800) == 0x7000 || (hw & 0xF800) == 0x7800))
        && ((hw & 0xF000) == 0x8000 <==> ((hw & 0xF800) == 0x8000 || (hw & 0xF800) == 0x8800))
        && ((hw & 0xF800) == 0x6800 ==> (hw & 0x0800) != 0) && ((hw & 0xF800) == 0x6000 ==> (hw & 0x0800) == 0)
        && ((hw & 0xF800) == 0x7800 ==> (hw & 0x0800) != 0) && ((hw & 0xF800) == 0x7000 ==> (hw & 0x0800) == 0)
        && ((hw & 0xF800) == 0x8800 ==> (hw & 0x0800) != 0) && ((hw & 0xF800) == 0x8000 ==> (hw & 0x0800) == 0)
        && ((hw & 0xF800) == 0x4800 ==> !((hw & 0xF800) == 0xE000 || ((hw & 0xF000) == 0xD000 && (hw & 0x0F00) != 0x0F00) || (hw & 0xF500) == 0xB100))
        && ((hw & 0xF000) == 0x9000 ==> !((hw & 0xF800) == 0xE000 || ((hw & 0xF000) == 0xD000 && (hw & 0x0F00) != 0x0F00) || (hw & 0xF500) == 0xB100 || (hw & 0xF800) == 0x4800 || (hw & 0xF800) == 0x6800 || (hw & 0xF800) == 0x6000 || (hw & 0xF800) == 0x7000 || (hw & 0xF800) == 0x7800 || (hw & 0xF800) == 0x8000 || (hw & 0xF800) == 0x8800 || (hw & 0xF200) == 0x5000))
        && ((hw & 0xF800) == 0x6800 ==> !((hw & 0xF800) == 0xE000 || ((hw & 0xF000) == 0xD000 && (hw & 0x0F00) != 0x0F00) || (hw & 0xF500) == 0xB100))
        && ((hw & 0xF800) == 0x6000 ==> !((hw & 0xF800) == 0xE000 || ((hw & 0xF000) == 0xD000 && (hw & 0x0F00) != 0x0F00) || (hw & 0xF500) == 0xB100))
        && ((hw & 0xF800) == 0x7000 ==> !((hw & 0xF800) == 0xE000 || ((hw & 0xF000) == 0xD000 && (hw & 0x0F00) != 0x0F00) || (hw & 0xF500) == 0xB100))
        && ((hw & 0xF800) == 0x7800 ==> !((hw & 0xF800) == 0xE000 || ((hw & 0xF000) == 0xD000 && (hw & 0x0F00) != 0x0F00) || (hw & 0xF500) == 0xB100))
        && ((hw & 0xF800) == 0x8000 ==> !((hw & 0xF800) == 0xE000 || ((hw & 0xF000) == 0xD000 && (hw & 0x0F00) != 0x0F00) || (hw & 0xF500) == 0xB100))
        && ((hw & 0xF800) == 0x8800 ==> !((hw & 0xF800) == 0xE000 || ((hw & 0xF000) == 0xD000 && (hw & 0x0F00) != 0x0F00) || (hw & 0xF500) == 0xB100))
    ) by (bit_vector)
        requires
            w5 == ((hw >> 6u16) & 0x1F) as u32,
            b8 == (hw & 0xFF) as u32,
    ;
}

} // verus!
