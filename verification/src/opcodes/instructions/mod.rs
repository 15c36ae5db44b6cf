//! Executors and operand resolvers of the table-driven interpreter, one module per family
//! of instructions, with the operand reads they share.
use vstd::prelude::*;
use crate::bits::{condition_holds, shift_lsl, shift_lsr, shift_asr, shift_ror, shift_rrx};
use crate::bus::PeripheralBus;
use crate::context::CpuContext;
use crate::cpu::Cpu;
use crate::opcodes::decoded::{
    DecodedInstruction, DecodedMemOperand, DecodedOperand, DecodedOperandKind, DecodedShift,
    decoded_shift_c, mem_ok_wb, mem_access_wb, mem_base, written_back, runtime_read_reg,
    op_shift_match_by_shift,
};
use crate::opcodes::thumb_exec::rstep;
use crate::opcodes::thumb_runtime::{carry_of, current_carry};

pub mod adr;
pub mod bit_field;
pub mod bitop;
pub mod branch;
pub mod breakpoint;
pub mod calculate;
pub mod cmp;
pub mod compare_branch;
pub mod dispatch;
pub mod extend;
pub mod hint;
pub mod it;
pub mod ldm;
pub mod ldr;
pub mod tst;
pub mod mov;
pub mod movs;
pub mod nop;
pub mod reg_list;
pub mod round_trip;
pub mod shift;
pub mod stack;
pub mod stm;
pub mod store;

verus! {

/// The condition of `data` holds for the flags of `cpu`.
pub open spec fn cond_passes<B>(cpu: Cpu<B>, data: &DecodedInstruction) -> bool {
    condition_holds(cpu.apsr(), data.arm_operands.condition)
}

/// What an executor returns once it wrote `rd`: 0 when that is PC (the next PC is already
/// set), the instruction's size otherwise.
pub open spec fn after_write(data: &DecodedInstruction, rd: u32) -> u32 {
    if rd == 15 { 0 } else { data.size }
}

/// Operand `index` as an immediate truncated to 32 bits; 0 when it is missing or is not an
/// immediate.
pub open spec fn imm_at(ops: Seq<DecodedOperand>, index: int) -> u32 {
    if 0 <= index < ops.len() {
        match ops[index].op_type {
            DecodedOperandKind::Imm(v) => v as u32,
            _ => 0,
        }
    } else {
        0
    }
}

pub fn imm_operand(data: &DecodedInstruction, index: usize) -> (v: u32)
    ensures
        v == imm_at(data.operands@, index as int),
{
    match data.get_operand(index) {
        Some(op) => match op.op_type {
            DecodedOperandKind::Imm(v) => v as u32,
            _ => 0,
        },
        None => 0,
    }
}

/// An operand names registers R0-R15 only, if it names one.
pub open spec fn operand_regs_ok(op: Option<DecodedOperand>) -> bool {
    op matches Some(o) ==> (o.op_type matches DecodedOperandKind::Reg(r) ==> r < 16)
}

/// The value of an operand: an immediate truncated to 32 bits, the current contents of a
/// register (PC as it stands), 0 for anything else.
pub open spec fn operand_value(regs: Seq<u32>, op: Option<DecodedOperand>) -> u32 {
    match op {
        Some(o) => match o.op_type {
            DecodedOperandKind::Imm(imm) => imm as u32,
            DecodedOperandKind::Reg(r) => regs[r as int],
            _ => 0,
        },
        None => 0,
    }
}

pub fn read_operand<B: PeripheralBus>(cpu: &Cpu<B>, op: Option<DecodedOperand>) -> (v: u32)
    requires
        cpu.wf(),
        operand_regs_ok(op),
    ensures
        v == operand_value(cpu.regs(), op),
{
    match op {
        Some(o) => match o.op_type {
            DecodedOperandKind::Imm(imm) => imm as u32,
            DecodedOperandKind::Reg(r) => cpu.read_reg(r),
            _ => 0,
        },
        None => 0,
    }
}

/// Operand 2 as the move and compare instructions read it: a register's current contents
/// (PC as it stands) through the shifter, an immediate with the carry unchanged, or 0.
pub open spec fn op2_plain(regs: Seq<u32>, apsr: u32, data: &DecodedInstruction) -> (u32, u8) {
    let c = carry_of(apsr);
    match data.arm_operands.op2 {
        Some(op) => match op.op_type {
            DecodedOperandKind::Reg(r) => decoded_shift_c(op.shift, regs[r as int], c),
            DecodedOperandKind::Imm(imm) => (imm as u32, c),
            _ => (0, c),
        },
        None => (0, c),
    }
}

/// The shifter for any amount: left and right shifts by more than 32 give 0 with carry 0.
pub fn shift_any(shift: DecodedShift, val: u32, current_c: u8) -> (r: (u32, u8))
    ensures
        r == decoded_shift_c(shift, val, current_c),
{
    match shift {
        DecodedShift::Lsl(n) => shift_lsl(val, n, current_c),
        DecodedShift::Lsr(n) => shift_lsr(val, n, current_c),
        DecodedShift::Asr(n) => shift_asr(val, n, current_c),
        DecodedShift::Ror(n) => shift_ror(val, n, current_c),
        DecodedShift::Rrx(_) => shift_rrx(val, current_c),
        DecodedShift::Invalid => (val, current_c),
    }
}

pub fn resolve_op2_and_carry<B: PeripheralBus>(cpu: &Cpu<B>, data: &DecodedInstruction) -> (r: (u32, u8))
    requires
        cpu.wf(),
        operand_regs_ok(data.arm_operands.op2),
    ensures
        r == op2_plain(cpu.regs(), cpu.apsr(), data),
{
    let current_c = current_carry(cpu.read_apsr());
    match data.arm_operands.op2 {
        Some(op2) => match op2.op_type {
            DecodedOperandKind::Reg(reg) => {
                let value = cpu.read_reg(reg);
                shift_any(op2.shift, value, current_c)
            },
            DecodedOperandKind::Imm(imm) => (imm as u32, current_c),
            _ => (0, current_c),
        },
        None => (0, current_c),
    }
}

/// The core of `new` is that of `old` apart from registers, APSR and memory: stack
/// selection, next PC, active exceptions, pipeline, peripheral bookkeeping.
pub open spec fn core_kept<B>(old: Cpu<B>, new: Cpu<B>) -> bool {
    &&& new.wf()
    &&& new.registers.is_msp == old.registers.is_msp
    &&& new.next_pc == old.next_pc
    &&& new.exception_stack@ == old.exception_stack@
    &&& new.Cpu_pipeline.remain_cycles == old.Cpu_pipeline.remain_cycles
    &&& new.ppb_nvic_index == old.ppb_nvic_index
    &&& new.ppb_systick_index == old.ppb_systick_index
    &&& new.peripheral_tick_mask == old.peripheral_tick_mask
    &&& new.pending_ppb_event_drain == old.pending_ppb_event_drain
}

/// Resolves the address of a load or store from its memory operand (operand 1), writing the
/// base back when `wb`. Returns the transfer register and the address.
pub fn resolve_mem_operand<B: PeripheralBus>(cpu: &mut Cpu<B>, data: &DecodedInstruction, wb: bool) -> (r: (u32, u32))
    requires
        old(cpu).wf(),
        mem_ok_wb(data, wb),
    ensures
        r.0 == data.arm_operands.rd,
        r.1 == mem_access_wb(old(cpu).regs(), old(cpu).apsr(), data, wb).0,
        rstep(*old(cpu), *final(cpu), written_back(old(cpu).regs(), mem_base(data), mem_access_wb(old(cpu).regs(), old(cpu).apsr(), data, wb).1), old(cpu).apsr()),
{
    let rt = data.arm_operands.rd;
    let op2 = data.operands[1];
    let mem = match op2.op_type {
        DecodedOperandKind::Mem(m) => m,
        _ => {
            assert(false);
            DecodedMemOperand { base: 0, index: None, disp: 0 }
        },
    };
    let base_reg = mem.base;
    let base_val = runtime_read_reg(cpu, data, base_reg);
    let index_offset = match mem.index {
        Some(index_reg) => {
            let val = runtime_read_reg(cpu, data, index_reg);
            let current_c = current_carry(cpu.read_apsr());
            op_shift_match_by_shift(op2.shift, val, current_c).0
        },
        None => 0,
    };
    let pre_offset = index_offset.wrapping_add_signed(mem.disp);
    if !wb {
        return (rt, base_val.wrapping_add(pre_offset));
    }
    if data.arm_operands.mem_post_index {
        let post_offset = match data.operands[2].op_type {
            DecodedOperandKind::Imm(imm) => imm as u32,
            DecodedOperandKind::Reg(reg) => runtime_read_reg(cpu, data, reg),
            _ => 0,
        };
        cpu.write_reg(base_reg, base_val.wrapping_add(post_offset));
        (rt, base_val)
    } else {
        let addr = base_val.wrapping_add(pre_offset);
        cpu.write_reg(base_reg, addr);
        (rt, addr)
    }
}

/// Resolves the address of a load or store from its memory operand, writing the base back
/// when the resolved operands ask for it (`mem_writeback`).
pub fn operand_resolver_multi_runtime_opcode<B: PeripheralBus>(cpu: &mut Cpu<B>, data: &DecodedInstruction) -> (r: (u32, u32))
    requires
        old(cpu).wf(),
        mem_ok_wb(data, data.arm_operands.mem_writeback),
    ensures
        r.0 == data.arm_operands.rd,
        r.1 == mem_access_wb(old(cpu).regs(), old(cpu).apsr(), data, data.arm_operands.mem_writeback).0,
        rstep(*old(cpu), *final(cpu), written_back(old(cpu).regs(), mem_base(data), mem_access_wb(old(cpu).regs(), old(cpu).apsr(), data, data.arm_operands.mem_writeback).1), old(cpu).apsr()),
{
    resolve_mem_operand(cpu, data, data.arm_operands.mem_writeback)
}

} // verus!
