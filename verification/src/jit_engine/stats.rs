//! Counters of the block engine: blocks compiled and run, cache use, and calls that compiled
//! code makes back into the runtime helpers.
use vstd::prelude::*;

verus! {

/// A reading of the engine's counters.
#[derive(Clone, Copy, Debug, Default, PartialEq, Eq, Structural)]
pub struct JitStatsSnapshot {
    pub compiled_blocks: u64,
    pub compiled_suffix_blocks: u64,
    pub compiled_block_instructions: u64,
    pub executed_blocks: u64,
    pub executed_block_instructions: u64,
    pub cache_hits: u64,
    pub cache_misses: u64,
    pub finish_block_step_cycles_calls: u64,
    pub fallback_calls: u64,
    pub read_reg_calls: u64,
    pub write_reg_calls: u64,
    pub read_apsr_calls: u64,
    pub mem_read_calls: u64,
    pub mem_write_calls: u64,
    pub flag_update_calls: u64,
    pub exception_return_calls: u64,
    pub resolve_op2_calls: u64,
    pub resolve_mem_rt_addr_calls: u64,
    pub compute_shift_calls: u64,
    pub bkpt_calls: u64,
    pub udiv_calls: u64,
}

/// `a - b`, or 0 when `b` is larger.
pub open spec fn sat_sub(a: u64, b: u64) -> u64 {
    if a >= b { (a - b) as u64 } else { 0 }
}

impl JitStatsSnapshot {
    /// All counters, in declaration order.
    pub open spec fn counters(self) -> Seq<u64> {
        seq![
            self.compiled_blocks,
            self.compiled_suffix_blocks,
            self.compiled_block_instructions,
            self.executed_blocks,
            self.executed_block_instructions,
            self.cache_hits,
            self.cache_misses,
            self.finish_block_step_cycles_calls,
            self.fallback_calls,
            self.read_reg_calls,
            self.write_reg_calls,
            self.read_apsr_calls,
            self.mem_read_calls,
            self.mem_write_calls,
            self.flag_update_calls,
            self.exception_return_calls,
            self.resolve_op2_calls,
            self.resolve_mem_rt_addr_calls,
            self.compute_shift_calls,
            self.bkpt_calls,
            self.udiv_calls,
        ]
    }

    /// The sum of the counters of calls into runtime helpers (all counters from
    /// `finish_block_step_cycles_calls` on).
    pub open spec fn helper_total(self) -> int {
        self.finish_block_step_cycles_calls as int
            + self.fallback_calls as int
            + self.read_reg_calls as int
            + self.write_reg_calls as int
            + self.read_apsr_calls as int
            + self.mem_read_calls as int
            + self.mem_write_calls as int
            + self.flag_update_calls as int
            + self.exception_return_calls as int
            + self.resolve_op2_calls as int
            + self.resolve_mem_rt_addr_calls as int
            + self.compute_shift_calls as int
            + self.bkpt_calls as int
            + self.udiv_calls as int
    }

    /// What was counted since `previous` was read: each counter minus its earlier value,
    /// 0 where the earlier value is larger.
    pub fn delta_since(self, previous: Self) -> (r: Self)
        ensures
            r.counters().len() == self.counters().len(),
            forall|i: int| 0 <= i < r.counters().len() ==>
                #[trigger] r.counters()[i] == sat_sub(self.counters()[i], previous.counters()[i]),
    {
        let r = Self {
            compiled_blocks: self.compiled_blocks.saturating_sub(previous.compiled_blocks),
            compiled_suffix_blocks: self.compiled_suffix_blocks.saturating_sub(previous.compiled_suffix_blocks),
            compiled_block_instructions: self.compiled_block_instructions.saturating_sub(previous.compiled_block_instructions),
            executed_blocks: self.executed_blocks.saturating_sub(previous.executed_blocks),
            executed_block_instructions: self.executed_block_instructions.saturating_sub(previous.executed_block_instructions),
            cache_hits: self.cache_hits.saturating_sub(previous.cache_hits),
            cache_misses: self.cache_misses.saturating_sub(previous.cache_misses),
            finish_block_step_cycles_calls: self.finish_block_step_cycles_calls.saturating_sub(previous.finish_block_step_cycles_calls),
            fallback_calls: self.fallback_calls.saturating_sub(previous.fallback_calls),
            read_reg_calls: self.read_reg_calls.saturating_sub(previous.read_reg_calls),
            write_reg_calls: self.write_reg_calls.saturating_sub(previous.write_reg_calls),
            read_apsr_calls: self.read_apsr_calls.saturating_sub(previous.read_apsr_calls),
            mem_read_calls: self.mem_read_calls.saturating_sub(previous.mem_read_calls),
            mem_write_calls: self.mem_write_calls.saturating_sub(previous.mem_write_calls),
            flag_update_calls: self.flag_update_calls.saturating_sub(previous.flag_update_calls),
            exception_return_calls: self.exception_return_calls.saturating_sub(previous.exception_return_calls),
            resolve_op2_calls: self.resolve_op2_calls.saturating_sub(previous.resolve_op2_calls),
            resolve_mem_rt_addr_calls: self.resolve_mem_rt_addr_calls.saturating_sub(previous.resolve_mem_rt_addr_calls),
            compute_shift_calls: self.compute_shift_calls.saturating_sub(previous.compute_shift_calls),
            bkpt_calls: self.bkpt_calls.saturating_sub(previous.bkpt_calls),
            udiv_calls: self.udiv_calls.saturating_sub(previous.udiv_calls),
        };
        assert forall|i: int| 0 <= i < r.counters().len() implies
            #[trigger] r.counters()[i] == sat_sub(self.counters()[i], previous.counters()[i]) by {}
        r
    }

    /// The number of calls from compiled code into runtime helpers.
    pub fn helper_calls(&self) -> (r: u64)
        requires
            self.helper_total() <= u64::MAX,
        ensures
            r == self.helper_total(),
    {
        self.finish_block_step_cycles_calls
            + self.fallback_calls
            + self.read_reg_calls
            + self.write_reg_calls
            + self.read_apsr_calls
            + self.mem_read_calls
            + self.mem_write_calls
            + self.flag_update_calls
            + self.exception_return_calls
            + self.resolve_op2_calls
            + self.resolve_mem_rt_addr_calls
            + self.compute_shift_calls
            + self.bkpt_calls
            + self.udiv_calls
    }
}

/// When no counter went down, the earlier reading plus the delta gives the later one.
pub proof fn lemma_delta_since_adds_back(now: JitStatsSnapshot, previous: JitStatsSnapshot)
    requires
        forall|i: int| 0 <= i < now.counters().len() ==> previous.counters()[i] <= #[trigger] now.counters()[i],
    ensures
        forall|i: int| 0 <= i < now.counters().len() ==>
            previous.counters()[i] + sat_sub(#[trigger] now.counters()[i], previous.counters()[i]) == now.counters()[i],
{
}

} // verus!
