//! Running the executor and the operand resolver that a table entry names.
use vstd::prelude::*;
use crate::bus::PeripheralBus;
use crate::cpu::Cpu;
use crate::opcodes::decoded::{
    DecodedInstruction, DecodedInstructionBuilder, op_at, regs_of, only_arm_operands_changed,
    only_transed_changed, multi_reg_done, DecodedArmOperands,
};
use crate::opcodes::instructions::{cond_passes, operand_regs_ok, operand_value};
use crate::opcodes::instructions::adr::{OpAdr, OpAdrResolver, adr_exec};
use crate::opcodes::instructions::bit_field::{Op_Ubfx, OpBitFieldResolver, ubfx_exec, bit_field_operands};
use crate::opcodes::instructions::bitop::{Op_And, Op_Orr, Op_Eor, Op_Bic, Op_Orn, OpBitResolver, BitOp, bit_ready, bit_exec, bit_operands};
use crate::opcodes::instructions::branch::{Op_B, Op_Bl, Op_Bx, Op_Blx, OpBranchResolver, OpBxResolver, branch_ready, branch_exec, branch_label};
use crate::opcodes::instructions::breakpoint::{Op_Bkpt, OpBkptResolver};
use crate::opcodes::instructions::calculate::{
    Op_Add, Op_Adc, Op_Sub, Op_Sbc, Op_Rsb, Op_Mul, Op_Udiv, Op_Mls, OpCalculateResolver, CalcOp,
    calc_ready, calc_exec, mls_ra, mls_exec, calc_operands,
};
use crate::opcodes::instructions::cmp::{Op_Cmp, Op_Cmn, OpCmpResolver, compare_ready, compare_exec};
use crate::opcodes::instructions::compare_branch::{Op_Cbz, Op_Cbnz, OpCompareBranchResolver, compare_branch_exec};
use crate::opcodes::instructions::extend::{Op_Uxtb, Op_Uxth, OpExtendResolver, extend_ready, extend_exec, extend_operands};
use crate::opcodes::instructions::hint::{Op_Hint, OpHintResolver};
use crate::opcodes::instructions::it::{Op_It, OpItResolver};
use crate::opcodes::instructions::ldm::{Op_Ldm, OpLdm_resolver, ldm_ready, ldm_exec, listed_count};
use crate::opcodes::instructions::ldr::{
    Op_Ldr, Op_Ldrb, Op_Ldrsb, Op_Ldrh, Op_Ldrsh, OpLdrResolver, load_ready, load_mapped, load_exec,
    ldr_shape, ldr_operands,
};
use crate::opcodes::instructions::mov::{Op_Mov, Op_Mvn, OpMovResolver, mov_ready, moved, mov_operands};
use crate::opcodes::instructions::movs::{Op_Movs, OpMovsResolver, movs_ready};
use crate::opcodes::instructions::nop::{Op_Nop, OpNopResolver};
use crate::opcodes::instructions::op2_plain;
use crate::opcodes::instructions::reg_list::list_ok;
use crate::opcodes::instructions::shift::{Op_Asr, Op_Lsl, Op_Lsr, Op_Ror, Op_Rrx, OpShiftResolver, shift_ready, shift_exec, rrx_exec, shift_operands};
use crate::opcodes::instructions::stack::{Op_Push, Op_Pop, OpStackResolver, push_start, push_exec, pop_ready, pop_exec};
use crate::opcodes::instructions::stm::{Op_Stm, OpStm_resolver, stm_ready, stm_exec};
use crate::opcodes::instructions::store::{Op_Str, Op_Strb, Op_Strh, OpStrResolver, store_ready, store_mapped, store_exec};
use crate::opcodes::instructions::tst::{Op_Tst, Op_Teq, OpTst_resolver, test_ready, test_exec, test_operands};
use crate::opcodes::opcode::{OpExec, OpResolve};
use crate::opcodes::thumb_decode::MemSize;
use crate::opcodes::thumb_runtime::{ShiftKind, block_mapped};
use crate::opcodes::decoded::op2_value;

verus! {

/// What the executor `exec` asks of the core and the instruction.
pub open spec fn exec_ready<B>(exec: OpExec, cpu: Cpu<B>, data: &DecodedInstruction) -> bool {
    let go = cond_passes(cpu, data);
    &&& cpu.wf()
    &&& match exec {
        OpExec::Add | OpExec::Adc | OpExec::Sub | OpExec::Sbc | OpExec::Rsb | OpExec::Mul | OpExec::Udiv => calc_ready(data),
        OpExec::Mls => calc_ready(data) && mls_ra(data) < 16,
        OpExec::And | OpExec::Orr | OpExec::Eor | OpExec::Bic | OpExec::Orn => bit_ready(data),
        OpExec::Mov | OpExec::Mvn => mov_ready(data),
        OpExec::Movs => movs_ready(data),
        OpExec::Tst | OpExec::Teq => test_ready(data),
        OpExec::Cmp | OpExec::Cmn => compare_ready(data),
        OpExec::Uxtb | OpExec::Uxth => extend_ready(data),
        OpExec::Ubfx | OpExec::Rrx => data.arm_operands.rd < 16 && data.arm_operands.rn < 16,
        OpExec::Adr => data.arm_operands.rd < 16 && operand_regs_ok(data.arm_operands.op2),
        OpExec::Asr | OpExec::Lsl | OpExec::Lsr | OpExec::Ror => shift_ready(data),
        OpExec::B | OpExec::Bl | OpExec::Bx | OpExec::Blx => branch_ready(data),
        OpExec::Cbz | OpExec::Cbnz => {
            &&& data.arm_operands.rn < 16
            &&& operand_regs_ok(data.arm_operands.op2)
        },
        OpExec::Bkpt | OpExec::Hint | OpExec::Nop | OpExec::It => true,
        OpExec::Ldr | OpExec::Ldrb | OpExec::Ldrsb | OpExec::Ldrh | OpExec::Ldrsh => load_ready(data) && (go ==> load_mapped(cpu, data)),
        OpExec::Str | OpExec::Strb | OpExec::Strh => store_ready(data) && (go ==> store_mapped(cpu, data)),
        OpExec::Push => list_ok(data.transed_operands@) && (go ==> block_mapped(cpu, push_start(cpu, data), data.transed_operands@.len())),
        OpExec::Pop => list_ok(data.transed_operands@) && (go ==> pop_ready(cpu, data)),
        OpExec::Ldm => list_ok(data.transed_operands@) && (go ==> ldm_ready(cpu, data)),
        OpExec::Stm => list_ok(data.transed_operands@) && (go ==> stm_ready(cpu, data)),
    }
}

/// What the executor `exec` does: the contract of the executor it names.
pub open spec fn exec_effect<B>(exec: OpExec, old: Cpu<B>, new: Cpu<B>, data: &DecodedInstruction, r: u32) -> bool {
    match exec {
        OpExec::Add => calc_exec(old, new, data, CalcOp::Add, r),
        OpExec::Adc => calc_exec(old, new, data, CalcOp::Adc, r),
        OpExec::Sub => calc_exec(old, new, data, CalcOp::Sub, r),
        OpExec::Sbc => calc_exec(old, new, data, CalcOp::Sbc, r),
        OpExec::Rsb => calc_exec(old, new, data, CalcOp::Rsb, r),
        OpExec::Mul => calc_exec(old, new, data, CalcOp::Mul, r),
        OpExec::Udiv => calc_exec(old, new, data, CalcOp::Udiv, r),
        OpExec::Mls => mls_exec(old, new, data, r),
        OpExec::And => bit_exec(old, new, data, BitOp::And, r),
        OpExec::Orr => bit_exec(old, new, data, BitOp::Orr, r),
        OpExec::Eor => bit_exec(old, new, data, BitOp::Eor, r),
        OpExec::Bic => bit_exec(old, new, data, BitOp::Bic, r),
        OpExec::Orn => bit_exec(old, new, data, BitOp::Orn, r),
        OpExec::Mov => {
            let (v, c) = op2_plain(old.regs(), old.apsr(), data);
            moved(old, new, data, v, c, r)
        },
        OpExec::Mvn => {
            let (v, c) = op2_plain(old.regs(), old.apsr(), data);
            moved(old, new, data, !v, c, r)
        },
        OpExec::Movs => {
            let (v, c) = op2_value(old.regs(), old.apsr(), data);
            moved(old, new, data, v, c, r)
        },
        OpExec::Tst => test_exec(old, new, data, false, r),
        OpExec::Teq => test_exec(old, new, data, true, r),
        OpExec::Cmp => compare_exec(old, new, data, false, r),
        OpExec::Cmn => compare_exec(old, new, data, true, r),
        OpExec::Uxtb => extend_exec(old, new, data, 0xFF, r),
        OpExec::Uxth => extend_exec(old, new, data, 0xFFFF, r),
        OpExec::Ubfx => ubfx_exec(old, new, data, r),
        OpExec::Adr => adr_exec(old, new, data, r),
        OpExec::Asr => shift_exec(old, new, data, ShiftKind::Asr, r),
        OpExec::Lsl => shift_exec(old, new, data, ShiftKind::Lsl, r),
        OpExec::Lsr => shift_exec(old, new, data, ShiftKind::Lsr, r),
        OpExec::Ror => shift_exec(old, new, data, ShiftKind::Ror, r),
        OpExec::Rrx => rrx_exec(old, new, data, r),
        OpExec::B => branch_exec(old, new, data, old.regs().update(15, branch_label(old.regs(), data)), r),
        OpExec::Bl => {
            let regs = old.regs();
            branch_exec(old, new, data, regs.update(14, regs[15] | 1).update(15, branch_label(regs, data)), r)
        },
        OpExec::Bx => branch_exec(old, new, data, old.regs().update(15, branch_label(old.regs(), data) & !1u32), r),
        OpExec::Blx => {
            let regs = old.regs();
            let ret = regs[15].wrapping_sub(4).wrapping_add(data.size) | 1;
            branch_exec(old, new, data, regs.update(14, ret).update(15, branch_label(regs, data) & !1u32), r)
        },
        OpExec::Cbz => compare_branch_exec(old, new, data, false, r),
        OpExec::Cbnz => compare_branch_exec(old, new, data, true, r),
        OpExec::Bkpt => new == old && r == 0,
        OpExec::Hint | OpExec::Nop | OpExec::It => new == old && r == data.size,
        OpExec::Ldr => load_exec(old, new, data, MemSize::Word, r),
        OpExec::Ldrb => load_exec(old, new, data, MemSize::Byte, r),
        OpExec::Ldrsb => load_exec(old, new, data, MemSize::SignedByte, r),
        OpExec::Ldrh => load_exec(old, new, data, MemSize::Half, r),
        OpExec::Ldrsh => load_exec(old, new, data, MemSize::SignedHalf, r),
        OpExec::Str => store_exec(old, new, data, MemSize::Word, r),
        OpExec::Strb => store_exec(old, new, data, MemSize::Byte, r),
        OpExec::Strh => store_exec(old, new, data, MemSize::Half, r),
        OpExec::Push => push_exec(old, new, data, r),
        OpExec::Pop => pop_exec(old, new, data, r),
        OpExec::Ldm => ldm_exec(old, new, data, r),
        OpExec::Stm => stm_exec(old, new, data, r),
    }
}

/// Runs the executor `exec` on `data`.
pub fn run_exec<B: PeripheralBus>(exec: OpExec, cpu: &mut Cpu<B>, data: &DecodedInstruction) -> (r: u32)
    requires
        exec_ready(exec, *old(cpu), data),
    ensures
        exec_effect(exec, *old(cpu), *final(cpu), data, r),
        final(cpu).wf(),
{
    match exec {
        OpExec::Add => Op_Add::execute(cpu, data),
        OpExec::Adc => Op_Adc::execute(cpu, data),
        OpExec::Sub => Op_Sub::execute(cpu, data),
        OpExec::Sbc => Op_Sbc::execute(cpu, data),
        OpExec::Rsb => Op_Rsb::execute(cpu, data),
        OpExec::Mul => Op_Mul::execute(cpu, data),
        OpExec::Udiv => Op_Udiv::execute(cpu, data),
        OpExec::Mls => Op_Mls::execute(cpu, data),
        OpExec::And => Op_And::execute(cpu, data),
        OpExec::Orr => Op_Orr::execute(cpu, data),
        OpExec::Eor => Op_Eor::execute(cpu, data),
        OpExec::Bic => Op_Bic::execute(cpu, data),
        OpExec::Orn => Op_Orn::execute(cpu, data),
        OpExec::Mov => Op_Mov::execute(cpu, data),
        OpExec::Mvn => Op_Mvn::execute(cpu, data),
        OpExec::Movs => Op_Movs::execute(cpu, data),
        OpExec::Tst => Op_Tst::execute(cpu, data),
        OpExec::Teq => Op_Teq::execute(cpu, data),
        OpExec::Cmp => Op_Cmp::execute(cpu, data),
        OpExec::Cmn => Op_Cmn::execute(cpu, data),
        OpExec::Uxtb => Op_Uxtb::execute(cpu, data),
        OpExec::Uxth => Op_Uxth::execute(cpu, data),
        OpExec::Ubfx => Op_Ubfx::execute(cpu, data),
        OpExec::Adr => OpAdr::execute(cpu, data),
        OpExec::Asr => Op_Asr::execute(cpu, data),
        OpExec::Lsl => Op_Lsl::execute(cpu, data),
        OpExec::Lsr => Op_Lsr::execute(cpu, data),
        OpExec::Ror => Op_Ror::execute(cpu, data),
        OpExec::Rrx => Op_Rrx::execute(cpu, data),
        OpExec::B => Op_B::execute(cpu, data),
        OpExec::Bl => Op_Bl::execute(cpu, data),
        OpExec::Bx => Op_Bx::execute(cpu, data),
        OpExec::Blx => Op_Blx::execute(cpu, data),
        OpExec::Cbz => Op_Cbz::execute(cpu, data),
        OpExec::Cbnz => Op_Cbnz::execute(cpu, data),
        OpExec::Bkpt => Op_Bkpt::execute(cpu, data),
        OpExec::Hint => Op_Hint::execute(cpu, data),
        OpExec::Nop => Op_Nop::execute(cpu, data),
        OpExec::It => Op_It::execute(cpu, data),
        OpExec::Ldr => Op_Ldr::execute(cpu, data),
        OpExec::Ldrb => Op_Ldrb::execute(cpu, data),
        OpExec::Ldrsb => Op_Ldrsb::execute(cpu, data),
        OpExec::Ldrh => Op_Ldrh::execute(cpu, data),
        OpExec::Ldrsh => Op_Ldrsh::execute(cpu, data),
        OpExec::Str => Op_Str::execute(cpu, data),
        OpExec::Strb => Op_Strb::execute(cpu, data),
        OpExec::Strh => Op_Strh::execute(cpu, data),
        OpExec::Push => Op_Push::execute(cpu, data),
        OpExec::Pop => Op_Pop::execute(cpu, data),
        OpExec::Ldm => Op_Ldm::execute(cpu, data),
        OpExec::Stm => Op_Stm::execute(cpu, data),
    }
}

/// What the resolver `res` asks of the instruction (and of the core, for the branches that
/// read a register when they are resolved).
pub open spec fn resolve_ready<B>(res: OpResolve, cpu: Cpu<B>, decoded: DecodedInstructionBuilder) -> bool {
    match res {
        OpResolve::Ldr => ldr_shape(decoded.operands@),
        OpResolve::Ldm | OpResolve::Stm => regs_of(decoded.operands@).len() > 0,
        OpResolve::Branch | OpResolve::Bx => cpu.wf() && operand_regs_ok(op_at(decoded.operands@, 0)),
        _ => true,
    }
}

/// `new` is `old` with its resolved operands set to `a`.
pub open spec fn resolved_to(old: DecodedInstructionBuilder, new: DecodedInstructionBuilder, a: DecodedArmOperands) -> bool {
    only_arm_operands_changed(&old, &new) && new.arm_operands == a
}

/// What the resolver `res` does: the contract of the resolver it names.
pub open spec fn resolve_effect<B>(res: OpResolve, cpu: Cpu<B>, old: DecodedInstructionBuilder, new: DecodedInstructionBuilder, r: u32) -> bool {
    let ops = old.operands@;
    let a = old.arm_operands;
    match res {
        OpResolve::Calculate => resolved_to(old, new, calc_operands(ops, a)) && r == new.arm_operands.rd,
        OpResolve::Bit => resolved_to(old, new, bit_operands(ops, a)) && r == new.arm_operands.rd,
        OpResolve::Mov | OpResolve::Movs | OpResolve::Adr => resolved_to(old, new, mov_operands(ops, a)) && r == new.arm_operands.rd,
        OpResolve::Tst | OpResolve::Cmp | OpResolve::CompareBranch => resolved_to(old, new, test_operands(ops, a)) && r == new.arm_operands.rn,
        OpResolve::Extend => resolved_to(old, new, extend_operands(ops, a)) && r == new.arm_operands.rd,
        OpResolve::BitField => resolved_to(old, new, bit_field_operands(ops, a)) && r == new.arm_operands.rd,
        OpResolve::Shift => resolved_to(old, new, shift_operands(ops, a)) && r == new.arm_operands.rd,
        OpResolve::Ldr => resolved_to(old, new, ldr_operands(ops, a, old.writeback)) && r == new.arm_operands.rd,
        OpResolve::Bkpt => resolved_to(old, new, DecodedArmOperands { op2: op_at(ops, 0), ..a }) && r == 0,
        OpResolve::Hint | OpResolve::Nop | OpResolve::It | OpResolve::Str => new == old && r == 0,
        OpResolve::Branch | OpResolve::Bx => {
            &&& only_transed_changed(&old, &new)
            &&& r == operand_value(cpu.regs(), op_at(ops, 0))
            &&& new.transed_operands@ == old.transed_operands@.push(r)
        },
        OpResolve::Stack => {
            &&& only_transed_changed(&old, &new)
            &&& multi_reg_done(ops, false, Some(()), new.transed_operands@)
            &&& r == new.transed_operands@.len() as u32
        },
        OpResolve::Ldm | OpResolve::Stm => {
            &&& only_transed_changed(&old, &new)
            &&& multi_reg_done(ops, true, Some(()), new.transed_operands@)
            &&& new.transed_operands@.len() > 0
            &&& r == listed_count(new.transed_operands@)
        },
    }
}

/// Runs the operand resolver `res` on `decoded`.
pub fn run_resolver<B: PeripheralBus>(res: OpResolve, cpu: &Cpu<B>, decoded: &mut DecodedInstructionBuilder) -> (r: u32)
    requires
        resolve_ready(res, *cpu, *old(decoded)),
    ensures
        resolve_effect(res, *cpu, *old(decoded), *final(decoded), r),
{
    match res {
        OpResolve::Calculate => OpCalculateResolver.resolve(decoded),
        OpResolve::Bit => OpBitResolver.resolve(decoded),
        OpResolve::Mov => OpMovResolver.resolve(decoded),
        OpResolve::Movs => OpMovsResolver.resolve(decoded),
        OpResolve::Adr => OpAdrResolver.resolve(decoded),
        OpResolve::Tst => OpTst_resolver.resolve(decoded),
        OpResolve::Cmp => OpCmpResolver.resolve(decoded),
        OpResolve::CompareBranch => OpCompareBranchResolver.resolve(decoded),
        OpResolve::Extend => OpExtendResolver.resolve(decoded),
        OpResolve::BitField => OpBitFieldResolver.resolve(decoded),
        OpResolve::Shift => OpShiftResolver.resolve(decoded),
        OpResolve::Ldr => OpLdrResolver.resolve(decoded),
        OpResolve::Bkpt => OpBkptResolver.resolve(decoded),
        OpResolve::Hint => OpHintResolver.resolve(decoded),
        OpResolve::Nop => OpNopResolver.resolve(decoded),
        OpResolve::It => OpItResolver.resolve(decoded),
        OpResolve::Str => OpStrResolver.resolve(decoded),
        OpResolve::Branch => OpBranchResolver.resolve(cpu, decoded),
        OpResolve::Bx => OpBxResolver.resolve(cpu, decoded),
        OpResolve::Stack => OpStackResolver.resolve(decoded),
        OpResolve::Ldm => OpLdm_resolver.resolve(decoded),
        OpResolve::Stm => OpStm_resolver.resolve(decoded),
    }
}

} // verus!
