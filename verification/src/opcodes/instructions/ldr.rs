//! LDR, LDRB, LDRSB, LDRH and LDRSH: `op{cond} Rt, [Rn {, #off}]{!}`, `[Rn], #off` and
//! `[Rn, Rm {, shift}]`.
use vstd::prelude::*;
use crate::arch::ArmInsn;
use crate::bits::sign_extend;
use crate::bus::PeripheralBus;
use crate::context::CpuContext;
use crate::cpu::Cpu;
use crate::opcodes::decoded::{DecodedArmOperands, DecodedInstruction, DecodedInstructionBuilder, DecodedOperand, DecodedOperandKind, check_condition, mem_ok_wb, mem_access_wb, mem_base, written_back, reg_at, only_arm_operands_changed};
use crate::opcodes::instructions::{cond_passes, after_write, resolve_mem_operand};
use crate::opcodes::opcode::{Opcode, OpExec, OpResolve, entry, entry_is};
use crate::opcodes::thumb_decode::MemSize;
use crate::opcodes::thumb_exec::{rstep, load_value};
use crate::opcodes::thumb_runtime::{aligned_word, read_u8, read_u16};

verus! {

/// Address and write-back from the resolved operands alone (no index register): base
/// `rn` plus `mem_disp`; after the access, the base itself, moved by `mem_post_imm`.
pub open spec fn cached_access(regs: Seq<u32>, a: DecodedArmOperands) -> (u32, Option<u32>) {
    let base = regs[a.rn as int];
    if !a.mem_writeback {
        (base.wrapping_add_signed(a.mem_disp), None)
    } else if a.mem_post_index {
        (base, Some(base.wrapping_add_signed(a.mem_post_imm)))
    } else {
        let addr = base.wrapping_add_signed(a.mem_disp);
        (addr, Some(addr))
    }
}

pub fn operand_resolver_multi_cached_no_index<B: PeripheralBus>(cpu: &mut Cpu<B>, ops: &DecodedArmOperands) -> (r: (u32, u32))
    requires
        old(cpu).wf(),
        ops.rn < 16,
    ensures
        r.0 == ops.rd,
        r.1 == cached_access(old(cpu).regs(), *ops).0,
        rstep(*old(cpu), *final(cpu), written_back(old(cpu).regs(), ops.rn, cached_access(old(cpu).regs(), *ops).1), old(cpu).apsr()),
{
    let rt = ops.rd;
    let base = cpu.read_reg(ops.rn);
    if !ops.mem_writeback {
        return (rt, base.wrapping_add_signed(ops.mem_disp));
    }
    if ops.mem_post_index {
        cpu.write_reg(ops.rn, base.wrapping_add_signed(ops.mem_post_imm));
        (rt, base)
    } else {
        let addr = base.wrapping_add_signed(ops.mem_disp);
        cpu.write_reg(ops.rn, addr);
        (rt, addr)
    }
}

/// The address of a load, the register written back and its new value: from the memory
/// operand when it has an index register (writing back as the instruction says), from the
/// resolved operands otherwise.
pub open spec fn load_access(regs: Seq<u32>, apsr: u32, data: &DecodedInstruction) -> (u32, u32, Option<u32>) {
    if data.arm_operands.mem_has_index {
        let acc = mem_access_wb(regs, apsr, data, data.writeback);
        (acc.0, mem_base(data), acc.1)
    } else {
        let acc = cached_access(regs, data.arm_operands);
        (acc.0, data.arm_operands.rn, acc.1)
    }
}

/// The transfer register and the registers of the address are R0-R15, and the memory
/// operand can be read when it is used.
pub open spec fn load_ready(data: &DecodedInstruction) -> bool {
    &&& data.arm_operands.rd < 16
    &&& data.arm_operands.mem_has_index ==> mem_ok_wb(data, data.writeback)
    &&& !data.arm_operands.mem_has_index ==> data.arm_operands.rn < 16
}

/// The word a load reads is mapped.
pub open spec fn load_mapped<B>(cpu: Cpu<B>, data: &DecodedInstruction) -> bool {
    cpu.mapped(aligned_word(load_access(cpu.regs(), cpu.apsr(), data).0))
}

fn operand_resolver_multi_cached<B: PeripheralBus>(cpu: &mut Cpu<B>, data: &DecodedInstruction) -> (r: (u32, u32))
    requires
        old(cpu).wf(),
        load_ready(data),
    ensures
        r.0 == data.arm_operands.rd,
        ({
            let acc = load_access(old(cpu).regs(), old(cpu).apsr(), data);
            r.1 == acc.0 && rstep(*old(cpu), *final(cpu), written_back(old(cpu).regs(), acc.1, acc.2), old(cpu).apsr())
        }),
{
    if data.arm_operands.mem_has_index {
        resolve_mem_operand(cpu, data, data.writeback())
    } else {
        operand_resolver_multi_cached_no_index(cpu, &data.arm_operands)
    }
}

/// A load of `size`: nothing changes and the size is returned when the condition fails;
/// otherwise the base is written back as `load_access` says, then `rt` gets the value read
/// (known for words of flash and RAM), and 0 is returned when `rt` is PC.
pub open spec fn load_exec<B>(old: Cpu<B>, new: Cpu<B>, data: &DecodedInstruction, size: MemSize, r: u32) -> bool {
    let acc = load_access(old.regs(), old.apsr(), data);
    let rt = data.arm_operands.rd;
    if cond_passes(old, data) {
        &&& rstep(old, new, written_back(old.regs(), acc.1, acc.2).update(rt as int, new.regs()[rt as int]), old.apsr())
        &&& (old.word(aligned_word(acc.0)) matches Some(w) ==> new.regs()[rt as int] == load_value(size, w, acc.0))
        &&& r == after_write(data, rt)
    } else {
        new == old && r == data.size
    }
}

fn load<B: PeripheralBus>(cpu: &mut Cpu<B>, data: &DecodedInstruction, size: MemSize) -> (r: u32)
    requires
        old(cpu).wf(),
        load_ready(data),
        cond_passes(*old(cpu), data) ==> load_mapped(*old(cpu), data),
    ensures
        load_exec(*old(cpu), *final(cpu), data, size, r),
{
    if !check_condition(cpu, data.arm_operands.condition) {
        return data.size();
    }
    let (rt, addr) = operand_resolver_multi_cached(cpu, data);
    let val = match size {
        MemSize::Word => cpu.read_mem(addr & !3u32),
        MemSize::Byte => read_u8(cpu, addr),
        MemSize::Half => read_u16(cpu, addr),
        MemSize::SignedByte => sign_extend(read_u8(cpu, addr), 8) as u32,
        MemSize::SignedHalf => sign_extend(read_u16(cpu, addr), 16) as u32,
    };
    cpu.write_reg(rt, val);
    if rt == 15 { 0 } else { data.size() }
}

pub struct Op_Ldr;

impl Op_Ldr {
    /// A word from the aligned address.
    pub fn execute<B: PeripheralBus>(cpu: &mut Cpu<B>, data: &DecodedInstruction) -> (r: u32)
        requires
            old(cpu).wf(),
            load_ready(data),
            cond_passes(*old(cpu), data) ==> load_mapped(*old(cpu), data),
        ensures
            load_exec(*old(cpu), *final(cpu), data, MemSize::Word, r),
    {
        load(cpu, data, MemSize::Word)
    }
}

pub struct Op_Ldrb;

impl Op_Ldrb {
    /// A byte, zero-extended.
    pub fn execute<B: PeripheralBus>(cpu: &mut Cpu<B>, data: &DecodedInstruction) -> (r: u32)
        requires
            old(cpu).wf(),
            load_ready(data),
            cond_passes(*old(cpu), data) ==> load_mapped(*old(cpu), data),
        ensures
            load_exec(*old(cpu), *final(cpu), data, MemSize::Byte, r),
    {
        load(cpu, data, MemSize::Byte)
    }
}

pub struct Op_Ldrsb;

impl Op_Ldrsb {
    /// A byte, sign-extended.
    pub fn execute<B: PeripheralBus>(cpu: &mut Cpu<B>, data: &DecodedInstruction) -> (r: u32)
        requires
            old(cpu).wf(),
            load_ready(data),
            cond_passes(*old(cpu), data) ==> load_mapped(*old(cpu), data),
        ensures
            load_exec(*old(cpu), *final(cpu), data, MemSize::SignedByte, r),
    {
        load(cpu, data, MemSize::SignedByte)
    }
}

pub struct Op_Ldrh;

impl Op_Ldrh {
    /// A halfword, zero-extended.
    pub fn execute<B: PeripheralBus>(cpu: &mut Cpu<B>, data: &DecodedInstruction) -> (r: u32)
        requires
            old(cpu).wf(),
            load_ready(data),
            cond_passes(*old(cpu), data) ==> load_mapped(*old(cpu), data),
        ensures
            load_exec(*old(cpu), *final(cpu), data, MemSize::Half, r),
    {
        load(cpu, data, MemSize::Half)
    }
}

pub struct Op_Ldrsh;

impl Op_Ldrsh {
    /// A halfword, sign-extended.
    pub fn execute<B: PeripheralBus>(cpu: &mut Cpu<B>, data: &DecodedInstruction) -> (r: u32)
        requires
            old(cpu).wf(),
            load_ready(data),
            cond_passes(*old(cpu), data) ==> load_mapped(*old(cpu), data),
        ensures
            load_exec(*old(cpu), *final(cpu), data, MemSize::SignedHalf, r),
    {
        load(cpu, data, MemSize::SignedHalf)
    }
}

/// A load's operands: `rt` from operand 0, the memory operand (operand 1) as operand 2 with
/// its base as `rn`, displacement and whether it has an index; write-back as the
/// instruction says, after the access when there is a third operand, whose immediate is the
/// after-access offset.
pub open spec fn ldr_operands(ops: Seq<DecodedOperand>, a: DecodedArmOperands, writeback: bool) -> DecodedArmOperands {
    let mem = ops[1].op_type->Mem_0;
    DecodedArmOperands {
        rd: reg_at(ops, 0)->Some_0,
        rn: mem.base,
        op2: Some(ops[1]),
        mem_disp: mem.disp,
        mem_has_index: mem.index is Some,
        mem_writeback: writeback,
        mem_post_index: ops.len() > 2,
        mem_post_imm: if ops.len() > 2 {
            match ops[2].op_type {
                DecodedOperandKind::Imm(imm) => imm as i32,
                _ => 0,
            }
        } else {
            0
        },
        ..a
    }
}

/// Operand 0 is a register and operand 1 a memory operand.
pub open spec fn ldr_shape(ops: Seq<DecodedOperand>) -> bool {
    &&& ops.len() > 1
    &&& ops[0].op_type is Reg
    &&& ops[1].op_type is Mem
}

pub struct OpLdrResolver;

impl OpLdrResolver {
    pub fn resolve(&self, decoded: &mut DecodedInstructionBuilder) -> (r: u32)
        requires
            ldr_shape(old(decoded).operands@),
        ensures
            only_arm_operands_changed(old(decoded), final(decoded)),
            final(decoded).arm_operands == ldr_operands(old(decoded).operands@, old(decoded).arm_operands, old(decoded).writeback),
            r == final(decoded).arm_operands.rd,
    {
        let rt = match decoded.operands[0].op_type {
            DecodedOperandKind::Reg(r) => r,
            _ => 0,
        };
        let op_mem = decoded.operands[1];
        let post = decoded.operands.len() > 2;
        let post_imm: i32 = if post {
            match decoded.operands[2].op_type {
                DecodedOperandKind::Imm(imm) => imm as i32,
                _ => 0,
            }
        } else {
            0
        };
        let writeback = decoded.writeback;
        decoded.arm_operands.rd = rt;
        decoded.arm_operands.op2 = Some(op_mem);
        decoded.arm_operands.mem_writeback = writeback;
        decoded.arm_operands.mem_post_index = post;
        decoded.arm_operands.mem_post_imm = post_imm;
        match op_mem.op_type {
            DecodedOperandKind::Mem(mem) => {
                decoded.arm_operands.rn = mem.base;
                decoded.arm_operands.mem_disp = mem.disp;
                decoded.arm_operands.mem_has_index = mem.index.is_some();
            },
            _ => {},
        }
        rt
    }
}

/// The entries of the loads.
pub open spec fn ldr_table(t: Seq<Opcode>) -> bool {
    &&& t.len() == 5
    &&& entry_is(t[0], ArmInsn::ARM_INS_LDR, "LDR"@, 16, 1, 2, OpExec::Ldr, OpResolve::Ldr, None)
    &&& entry_is(t[1], ArmInsn::ARM_INS_LDRB, "LDRB"@, 16, 1, 2, OpExec::Ldrb, OpResolve::Ldr, None)
    &&& entry_is(t[2], ArmInsn::ARM_INS_LDRSB, "LDRSB"@, 16, 1, 2, OpExec::Ldrsb, OpResolve::Ldr, None)
    &&& entry_is(t[3], ArmInsn::ARM_INS_LDRH, "LDRH"@, 32, 1, 2, OpExec::Ldrh, OpResolve::Ldr, None)
    &&& entry_is(t[4], ArmInsn::ARM_INS_LDRSH, "LDRSH"@, 32, 1, 2, OpExec::Ldrsh, OpResolve::Ldr, None)
}

pub fn add_ldr_def() -> (t: Vec<Opcode>)
    ensures
        ldr_table(t@),
{
    let mut t: Vec<Opcode> = Vec::new();
    t.push(entry(ArmInsn::ARM_INS_LDR, "LDR", 16, 1, 2, OpExec::Ldr, OpResolve::Ldr, None));
    t.push(entry(ArmInsn::ARM_INS_LDRB, "LDRB", 16, 1, 2, OpExec::Ldrb, OpResolve::Ldr, None));
    t.push(entry(ArmInsn::ARM_INS_LDRSB, "LDRSB", 16, 1, 2, OpExec::Ldrsb, OpResolve::Ldr, None));
    t.push(entry(ArmInsn::ARM_INS_LDRH, "LDRH", 32, 1, 2, OpExec::Ldrh, OpResolve::Ldr, None));
    t.push(entry(ArmInsn::ARM_INS_LDRSH, "LDRSH", 32, 1, 2, OpExec::Ldrsh, OpResolve::Ldr, None));
    t
}

pub struct Ldr_builder;

impl Ldr_builder {
    pub fn build(&self) -> (t: Vec<Opcode>)
        ensures
            ldr_table(t@),
    {
        add_ldr_def()
    }
}

} // verus!
