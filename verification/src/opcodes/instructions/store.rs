//! STR, STRB and STRH: `op{cond} Rt, [Rn {, #off}]{!}`, `[Rn], #off` and `[Rn, Rm]`.
use vstd::prelude::*;
use crate::arch::ArmInsn;
use crate::bus::PeripheralBus;
use crate::context::CpuContext;
use crate::cpu::Cpu;
use crate::opcodes::decoded::{
    DecodedInstruction, DecodedInstructionBuilder, check_condition, mem_ok_wb, mem_access_wb,
    mem_base, written_back,
};
use crate::opcodes::instructions::{cond_passes, core_kept, operand_resolver_multi_runtime_opcode};
use crate::opcodes::opcode::{Opcode, OpExec, OpResolve, entry, entry_is};
use crate::opcodes::thumb_decode::MemSize;
use crate::opcodes::thumb_runtime::{aligned_word, merge_byte, merge_half, subword_stored, write_u8, write_u16};

verus! {

/// The transfer register is R0-R15 and the memory operand can be read.
pub open spec fn store_ready(data: &DecodedInstruction) -> bool {
    &&& data.arm_operands.rd < 16
    &&& mem_ok_wb(data, data.arm_operands.mem_writeback)
}

/// The word a store rewrites is mapped.
pub open spec fn store_mapped<B>(cpu: Cpu<B>, data: &DecodedInstruction) -> bool {
    cpu.mapped(aligned_word(mem_access_wb(cpu.regs(), cpu.apsr(), data, data.arm_operands.mem_writeback).0))
}

/// A store of `size`: nothing changes when the condition fails; otherwise the base is
/// written back (when `mem_writeback`), then `rt`, as it reads after that, is stored at the
/// address: the whole aligned word, or the byte or halfword merged into it. The size is
/// returned.
pub open spec fn store_exec<B>(old: Cpu<B>, new: Cpu<B>, data: &DecodedInstruction, size: MemSize, r: u32) -> bool {
    let acc = mem_access_wb(old.regs(), old.apsr(), data, data.arm_operands.mem_writeback);
    let regs = written_back(old.regs(), mem_base(data), acc.1);
    let v = regs[data.arm_operands.rd as int];
    let addr = acc.0;
    &&& r == data.size
    &&& if cond_passes(old, data) {
        &&& core_kept(old, new)
        &&& new.regs() == regs
        &&& new.apsr() == old.apsr()
        &&& match size {
            MemSize::Byte => subword_stored(old, new, addr, |w: u32| merge_byte(w, addr, v & 0xFF)),
            MemSize::Half => subword_stored(old, new, addr, |w: u32| merge_half(w, addr, v & 0xFFFF)),
            _ => old.stored(&new, aligned_word(addr), v),
        }
    } else {
        new == old
    }
}

fn store<B: PeripheralBus>(cpu: &mut Cpu<B>, data: &DecodedInstruction, size: MemSize) -> (r: u32)
    requires
        old(cpu).wf(),
        store_ready(data),
        cond_passes(*old(cpu), data) ==> store_mapped(*old(cpu), data),
        size is Word || size is Byte || size is Half,
    ensures
        store_exec(*old(cpu), *final(cpu), data, size, r),
{
    if !check_condition(cpu, data.arm_operands.condition) {
        return data.size();
    }
    let (rt, addr) = operand_resolver_multi_runtime_opcode(cpu, data);
    let val = cpu.read_reg(rt);
    match size {
        MemSize::Byte => write_u8(cpu, addr, val & 0xFF),
        MemSize::Half => write_u16(cpu, addr, val & 0xFFFF),
        _ => cpu.write_mem(addr & !3u32, val),
    }
    data.size()
}

pub struct Op_Str;

impl Op_Str {
    /// A word at the aligned address.
    pub fn execute<B: PeripheralBus>(cpu: &mut Cpu<B>, data: &DecodedInstruction) -> (r: u32)
        requires
            old(cpu).wf(),
            store_ready(data),
            cond_passes(*old(cpu), data) ==> store_mapped(*old(cpu), data),
        ensures
            store_exec(*old(cpu), *final(cpu), data, MemSize::Word, r),
    {
        store(cpu, data, MemSize::Word)
    }
}

pub struct Op_Strb;

impl Op_Strb {
    /// The low byte.
    pub fn execute<B: PeripheralBus>(cpu: &mut Cpu<B>, data: &DecodedInstruction) -> (r: u32)
        requires
            old(cpu).wf(),
            store_ready(data),
            cond_passes(*old(cpu), data) ==> store_mapped(*old(cpu), data),
        ensures
            store_exec(*old(cpu), *final(cpu), data, MemSize::Byte, r),
    {
        store(cpu, data, MemSize::Byte)
    }
}

pub struct Op_Strh;

impl Op_Strh {
    /// The low halfword.
    pub fn execute<B: PeripheralBus>(cpu: &mut Cpu<B>, data: &DecodedInstruction) -> (r: u32)
        requires
            old(cpu).wf(),
            store_ready(data),
            cond_passes(*old(cpu), data) ==> store_mapped(*old(cpu), data),
        ensures
            store_exec(*old(cpu), *final(cpu), data, MemSize::Half, r),
    {
        store(cpu, data, MemSize::Half)
    }
}

pub struct OpStrResolver;

impl OpStrResolver {
    /// Stores read their operands when they execute; nothing is resolved beforehand.
    pub fn resolve(&self, decoded: &mut DecodedInstructionBuilder) -> (r: u32)
        ensures
            *final(decoded) == *old(decoded),
            r == 0,
    {
        0
    }
}

/// The entries of the stores.
pub open spec fn str_table(t: Seq<Opcode>) -> bool {
    &&& t.len() == 3
    &&& entry_is(t[0], ArmInsn::ARM_INS_STR, "STR"@, 16, 1, 1, OpExec::Str, OpResolve::Str, None)
    &&& entry_is(t[1], ArmInsn::ARM_INS_STRB, "STRB"@, 16, 1, 1, OpExec::Strb, OpResolve::Str, None)
    &&& entry_is(t[2], ArmInsn::ARM_INS_STRH, "STRH"@, 16, 1, 1, OpExec::Strh, OpResolve::Str, None)
}

pub fn add_str_def() -> (t: Vec<Opcode>)
    ensures
        str_table(t@),
{
    let mut t: Vec<Opcode> = Vec::new();
    t.push(entry(ArmInsn::ARM_INS_STR, "STR", 16, 1, 1, OpExec::Str, OpResolve::Str, None));
    t.push(entry(ArmInsn::ARM_INS_STRB, "STRB", 16, 1, 1, OpExec::Strb, OpResolve::Str, None));
    t.push(entry(ArmInsn::ARM_INS_STRH, "STRH", 16, 1, 1, OpExec::Strh, OpResolve::Str, None));
    t
}

pub struct Str_builder;

impl Str_builder {
    pub fn build(&self) -> (t: Vec<Opcode>)
        ensures
            str_table(t@),
    {
        add_str_def()
    }
}

} // verus!
