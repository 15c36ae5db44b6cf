//! The core: registers, memory map, pipeline stalls, exception entry and return, and
//! the scheduling of the peripheral buses.
use vstd::prelude::*;
use std::sync::Arc;
use std::sync::atomic::AtomicU32;
use std::time::Duration;
use crate::bits::bit;
use crate::bus::{NvicState, PeripheralBus, pending_irqs};
use crate::context::CpuContext;
use crate::memory::{le32, store_le32, store_words, read_u32_le, write_u32_le, lemma_store_words, lemma_store_then_load, lemma_store_disjoint_load};
use crate::exceptions::{select_exception, eligible, at_least_as_urgent};

verus! {

pub const FLASH_SIZE: usize = 524288;
pub const RAM_SIZE: usize = 131072;

pub const FLASH_ALIAS_BASE: u32 = 0x0000_0000;
pub const FLASH_ALIAS_LAST: u32 = 0x0007_FFFF;
pub const FLASH_BASE: u32 = 0x0800_0000;
pub const FLASH_LAST: u32 = 0x0807_FFFF;
pub const RAM_BASE: u32 = 0x2000_0000;
pub const RAM_LAST: u32 = 0x3FFF_FFFF;
pub const PERIPH_BASE: u32 = 0x4000_0000;
pub const PERIPH_LAST: u32 = 0x5FFF_FFFF;
pub const PPB_BASE: u32 = 0xE000_0000;
pub const PPB_LAST: u32 = 0xE00F_FFFF;
pub const SCB_ICSR_ADDR: u32 = 0xE000_ED04;
pub const SCB_VTOR_ADDR: u32 = 0xE000_ED08;
pub const SCB_SHPR3_ADDR: u32 = 0xE000_ED20;
pub const NVIC_BASE: u32 = 0xE000_E100;
pub const NVIC_ISPR_BASE: u32 = 0xE000_E200;
pub const NVIC_IABR_BASE: u32 = 0xE000_E300;
pub const NVIC_IPR_BASE: u32 = 0xE000_E400;
pub const NVIC_END: u32 = 0xE000_E4EF;
pub const SYSTICK_BASE: u32 = 0xE000_E010;
pub const SYSTICK_END: u32 = 0xE000_E01F;
pub const NVIC_REG_COUNT: usize = 8;
pub const SYSTICK_EXCEPTION_NUM: u32 = 15;
pub const EXC_RETURN_HANDLER_MSP: u32 = 0xFFFF_FFF1;
pub const EXC_RETURN_THREAD_MSP: u32 = 0xFFFF_FFF9;
pub const HINT_SRC_NONE: u8 = 0;
pub const HINT_SRC_OTHER: u8 = 1;
pub const HINT_SRC_PERIPHERAL: u8 = 2;

/// The regions of the address map, in the order in which an address is looked up.
pub enum MemRegion {
    Ram,
    Flash,
    FlashAlias,
    Peripheral,
    Ppb,
    Unmapped,
}

pub open spec fn addr_in(addr: u32, base: u32, last: u32) -> bool {
    base <= addr <= last
}

/// The region that decodes `addr`.
pub open spec fn region_of(addr: u32) -> MemRegion {
    if addr_in(addr, RAM_BASE, RAM_LAST) {
        MemRegion::Ram
    } else if addr_in(addr, FLASH_BASE, FLASH_LAST) {
        MemRegion::Flash
    } else if addr_in(addr, FLASH_ALIAS_BASE, FLASH_ALIAS_LAST) {
        MemRegion::FlashAlias
    } else if addr_in(addr, PERIPH_BASE, PERIPH_LAST) {
        MemRegion::Peripheral
    } else if addr_in(addr, PPB_BASE, PPB_LAST) {
        MemRegion::Ppb
    } else {
        MemRegion::Unmapped
    }
}

/// Whether a write to `addr` may change interrupt state (NVIC, SysTick, or SHPR3).
pub open spec fn interrupt_related_ppb_write(addr: u32) -> bool {
    addr_in(addr, NVIC_BASE, NVIC_END) || addr_in(addr, SYSTICK_BASE, SYSTICK_END) || addr
        == SCB_SHPR3_ADDR
}

/// Whether `value` is an EXC_RETURN value (handler or thread mode, either stack).
pub open spec fn exc_return_value(value: u32) -> bool {
    (value & 0xFF00_0000) == 0xFF00_0000 && ((value & 0xF) == 0x1 || (value & 0xF) == 0x9 || (
    value & 0xF) == 0xD)
}

/// Per-step counters; this build does not collect them, so they are always zero.
#[derive(Clone, Copy)]
pub struct CpuExecProfile {
    pub step_calls: u64,
    pub execute_calls: u64,
    pub pipeline_stall_count: u64,
    pub op_exec_duration: Duration,
    pub update_pc_duration: Duration,
    pub mem_read_count: u64,
    pub mem_write_count: u64,
    pub mem_read_duration: Duration,
    pub mem_write_duration: Duration,
    pub interrupt_check_calls: u64,
    pub interrupt_taken_count: u64,
    pub interrupt_check_duration: Duration,
    pub interrupt_hint_set_count: u64,
    pub interrupt_check_from_peripheral_count: u64,
}

/// Per-opcode execution counters.
#[derive(Clone, Copy)]
pub struct OpExecStat {
    pub calls: u64,
    pub total_duration: Duration,
    pub max_duration: Duration,
}

/// The zero-length `Duration`, from `Duration::from_nanos(0)`. The value is opaque here, so
/// the contract states nothing of it.
#[verifier::external_body]
fn zero_duration() -> Duration {
    Duration::from_nanos(0)
}

impl CpuExecProfile {
    /// A profile with every counter at zero.
    pub fn zeroed() -> (p: CpuExecProfile)
        ensures
            p.step_calls == 0 && p.execute_calls == 0 && p.pipeline_stall_count == 0
                && p.mem_read_count == 0 && p.mem_write_count == 0 && p.interrupt_check_calls
                == 0 && p.interrupt_taken_count == 0 && p.interrupt_hint_set_count == 0
                && p.interrupt_check_from_peripheral_count == 0,
    {
        CpuExecProfile {
            step_calls: 0,
            execute_calls: 0,
            pipeline_stall_count: 0,
            op_exec_duration: zero_duration(),
            update_pc_duration: zero_duration(),
            mem_read_count: 0,
            mem_write_count: 0,
            mem_read_duration: zero_duration(),
            mem_write_duration: zero_duration(),
            interrupt_check_calls: 0,
            interrupt_taken_count: 0,
            interrupt_check_duration: zero_duration(),
            interrupt_hint_set_count: 0,
            interrupt_check_from_peripheral_count: 0,
        }
    }
}

/// The register file.
pub struct Registers {
    /// R0 - R15.
    pub reg: [u32; 16],
    pub apsr: u32,
    /// Whether the main stack pointer is the one in use.
    pub is_msp: bool,
}

/// The stall state of the pipeline: cycles that the current instruction still occupies.
pub struct Cpu_pipeline {
    pub remain_cycles: u32,
}

impl Cpu_pipeline {
    pub fn new() -> (p: Cpu_pipeline)
        ensures
            p.remain_cycles == 0,
    {
        Cpu_pipeline { remain_cycles: 0 }
    }
}

pub struct Cpu<B> {
    pub frequency: Arc<AtomicU32>,
    pub machine_cycle: u8,
    pub Cycles: u64,
    pub Cpu_pipeline: Cpu_pipeline,
    /// Flash memory (512 KiB).
    pub flash: Vec<u8>,
    /// SRAM (128 KiB).
    pub ram: Vec<u8>,
    pub registers: Registers,
    /// The address of the instruction that executes next.
    pub next_pc: u32,
    pub peripheral_bus: B,
    pub ppb: B,
    pub peripheral_tick_mask: u8,
    /// Exception numbers of the handlers that are active, innermost last.
    pub exception_stack: Vec<u32>,
    pub interrupt_check_hint: bool,
    pub interrupt_hint_source: u8,
    pub pending_ppb_event_drain: bool,
    pub peripheral_schedule_dirty: bool,
    pub peripheral_next_due_cycle: u64,
    pub ppb_nvic_index: Option<usize>,
    pub ppb_systick_index: Option<usize>,
}

impl<B> Cpu<B> {
    /// Memories have their fixed sizes.
    pub open spec fn wf(&self) -> bool {
        &&& self.flash.len() == FLASH_SIZE
        &&& self.ram.len() == RAM_SIZE
    }

    pub open spec fn regs(&self) -> Seq<u32> {
        self.registers.reg@
    }

    pub open spec fn apsr(&self) -> u32 {
        self.registers.apsr
    }

    /// Whether a word access at `addr` is decoded by a region (and, for memories the core
    /// holds, lies wholly inside it).
    pub open spec fn mapped(&self, addr: u32) -> bool {
        match region_of(addr) {
            MemRegion::Ram => addr - RAM_BASE + 4 <= self.ram.len(),
            MemRegion::Flash => addr - FLASH_BASE + 4 <= self.flash.len(),
            MemRegion::FlashAlias => addr + 4 <= self.flash.len(),
            MemRegion::Peripheral => true,
            MemRegion::Ppb => true,
            MemRegion::Unmapped => false,
        }
    }

    /// The word at `addr` in flash or RAM; `None` for peripheral space.
    pub open spec fn word(&self, addr: u32) -> Option<u32> {
        match region_of(addr) {
            MemRegion::Ram => Some(le32(self.ram@, addr - RAM_BASE)),
            MemRegion::Flash => Some(le32(self.flash@, addr - FLASH_BASE)),
            MemRegion::FlashAlias => Some(le32(self.flash@, addr as int)),
            _ => None,
        }
    }

    /// Flash and RAM of `new` are those of `self` after a word write of `v` at `addr`.
    /// Writes through the flash alias are ignored.
    pub open spec fn stored(&self, new: &Self, addr: u32, v: u32) -> bool {
        match region_of(addr) {
            MemRegion::Ram => new.ram@ == store_le32(self.ram@, addr - RAM_BASE, v) && new.flash@
                == self.flash@,
            MemRegion::Flash => new.flash@ == store_le32(self.flash@, addr - FLASH_BASE, v)
                && new.ram@ == self.ram@,
            _ => new.ram@ == self.ram@ && new.flash@ == self.flash@,
        }
    }

    /// `new` has the same registers, APSR, next PC, active exceptions and pipeline as `self`.
    pub open spec fn same_core(&self, new: &Self) -> bool {
        &&& new.registers.reg@ == self.registers.reg@
        &&& new.registers.apsr == self.registers.apsr
        &&& new.registers.is_msp == self.registers.is_msp
        &&& new.next_pc == self.next_pc
        &&& new.exception_stack@ == self.exception_stack@
        &&& new.Cpu_pipeline.remain_cycles == self.Cpu_pipeline.remain_cycles
        &&& new.ppb_nvic_index == self.ppb_nvic_index
        &&& new.ppb_systick_index == self.ppb_systick_index
        &&& new.peripheral_tick_mask == self.peripheral_tick_mask
    }

    /// `new` differs from `self` at most in the two buses, the interrupt-check hint and the
    /// flag that asks for a look at the private bus's events.
    pub open spec fn only_bus_side_changed(&self, new: &Self) -> bool {
        *new == (Cpu {
            peripheral_bus: new.peripheral_bus,
            ppb: new.ppb,
            interrupt_check_hint: new.interrupt_check_hint,
            interrupt_hint_source: new.interrupt_hint_source,
            pending_ppb_event_drain: new.pending_ppb_event_drain,
            ..*self
        })
    }

    /// The interrupt-check hint is as in `self`.
    pub open spec fn same_hint(&self, new: &Self) -> bool {
        new.interrupt_check_hint == self.interrupt_check_hint && new.interrupt_hint_source == self.interrupt_hint_source
    }

    /// The hint is set with a peripheral as its source.
    pub open spec fn peripheral_hint(&self) -> bool {
        self.interrupt_check_hint && self.interrupt_hint_source == HINT_SRC_PERIPHERAL
    }

    /// `new` is `self` after looking at the interrupt events of the private bus: `event`
    /// tells whether the interrupt controller or the system timer (whichever is present)
    /// reported one; then the hint is set with a peripheral source, otherwise it stays.
    pub open spec fn events_noted(&self, new: &Self, event: bool) -> bool {
        &&& event ==> self.ppb_nvic_index is Some || self.ppb_systick_index is Some
        &&& event ==> self.hint_set(new, HINT_SRC_PERIPHERAL)
        &&& !event ==> self.same_hint(new)
    }

    /// `new` is `self` after advancing the peripherals by `cycles`: `pe` and `ppe` tell
    /// whether the peripheral bus and the private bus (each advanced only when its bit of
    /// the tick mask is set) reported an event. An event on the private bus asks for a look
    /// at its events; any event sets the hint with a peripheral source; the private bus is
    /// only touched when it is advanced or requests of the peripheral bus are forwarded.
    pub open spec fn peripherals_stepped(&self, new: &Self, cycles: u32, pe: bool, ppe: bool) -> bool {
        &&& pe ==> cycles > 0 && self.peripheral_tick_mask & 1 != 0
        &&& ppe ==> cycles > 0 && self.peripheral_tick_mask & 2 != 0
        &&& new.pending_ppb_event_drain == (self.pending_ppb_event_drain || ppe)
        &&& pe || ppe ==> new.peripheral_hint()
        &&& !pe && !ppe ==> self.same_hint(new)
        &&& (cycles == 0 || self.peripheral_tick_mask & 1 == 0) ==> new.peripheral_bus == self.peripheral_bus
        &&& (cycles == 0 || self.peripheral_tick_mask & 2 == 0) && !pe ==> new.ppb == self.ppb
    }

    /// `r` is the earlier of the next events of the buses whose tick-mask bits are set:
    /// `p` and `q` stand for what the peripheral bus and the private bus report.
    pub open spec fn next_event_from(&self, p: Option<u32>, q: Option<u32>, r: Option<u32>) -> bool {
        &&& self.peripheral_tick_mask & 1 == 0 ==> p is None
        &&& self.peripheral_tick_mask & 2 == 0 ==> q is None
        &&& r == match (p, q) {
            (Some(x), Some(y)) => Some(if x < y { x } else { y }),
            (Some(x), None) => Some(x),
            (None, Some(y)) => Some(y),
            (None, None) => None,
        }
    }

    /// The hint state after `set_interrupt_check_hint(source)`.
    pub open spec fn hint_set(&self, new: &Self, source: u8) -> bool {
        &&& new.interrupt_check_hint
        &&& new.interrupt_hint_source == (if source == HINT_SRC_PERIPHERAL
            || self.interrupt_hint_source == HINT_SRC_NONE {
            source
        } else {
            self.interrupt_hint_source
        })
    }
}

/// The set-pending register that holds interrupt line `irq`.
pub open spec fn ispr_addr(irq: u32) -> u32 {
    NVIC_ISPR_BASE.wrapping_add((irq / 32).wrapping_mul(4))
}

/// `ppb` after setting the pending bit of each of `irqs`, in order, by a word write to its
/// set-pending register.
pub open spec fn ispr_writes<B: PeripheralBus>(ppb: B, irqs: Seq<u32>) -> B
    decreases irqs.len(),
{
    if irqs.len() == 0 {
        ppb
    } else {
        ispr_writes(ppb, irqs.drop_last()).after_write(ispr_addr(irqs.last()), 1u32 << (irqs.last() % 32))
    }
}

/// How many pending requests are forwarded at a time.
pub open spec fn forwarded_count(n: int) -> int {
    if n < 8 { n } else { 8 }
}

/// The peripheral bus and the private bus after forwarding the peripheral bus's pending
/// interrupt requests: nothing happens without interrupt sources; otherwise the requests
/// are drained and the first eight of them made pending.
pub open spec fn irqs_forwarded<B: PeripheralBus>(pb: B, ppb: B) -> (B, B) {
    if !pb.irq_sources() {
        (pb, ppb)
    } else {
        let irqs = pending_irqs(pb);
        (pb.after_irq_drain(), ispr_writes(ppb, irqs.take(forwarded_count(irqs.len() as int))))
    }
}

/// Whether `base <= addr <= last`, computed with one wrapping subtraction.
pub fn in_range(addr: u32, base: u32, last: u32) -> (r: bool)
    requires
        base <= last,
    ensures
        r == addr_in(addr, base, last),
{
    addr.wrapping_sub(base) <= (last - base)
}

pub fn is_interrupt_related_ppb_write(addr: u32) -> (r: bool)
    ensures
        r == interrupt_related_ppb_write(addr),
{
    in_range(addr, NVIC_BASE, NVIC_END) || in_range(addr, SYSTICK_BASE, SYSTICK_END) || addr
        == SCB_SHPR3_ADDR
}

pub fn is_exc_return(value: u32) -> (r: bool)
    ensures
        r == exc_return_value(value),
{
    if (value & 0xFF00_0000) != 0xFF00_0000 {
        return false;
    }
    let low = value & 0xF;
    low == 0x1 || low == 0x9 || low == 0xD
}

/// `r` is what `select_exception` gives for these inputs: `None` when no exception is
/// eligible, else an eligible exception at least as urgent as every other eligible one.
pub open spec fn selected(stack: Seq<u32>, systick_priority: u8, nvic: NvicState, pending: bool, r: Option<u32>) -> bool {
    &&& (r is None <==> forall|x: u32| !#[trigger] eligible(x, stack, systick_priority, nvic, pending))
    &&& (r matches Some(e) ==> eligible(e, stack, systick_priority, nvic, pending)
        && forall|x: u32| #[trigger] eligible(x, stack, systick_priority, nvic, pending)
            ==> at_least_as_urgent(e, x, systick_priority, nvic.ipr@))
}

/// An interrupt controller state with nothing pending, active or prioritised.
pub open spec fn no_interrupt_state(nvic: NvicState) -> bool {
    &&& nvic.active_word_bitmap == 0
    &&& forall|i: int| 0 <= i < 8 ==> #[trigger] nvic.iabr@[i] == 0
    &&& forall|i: int| 0 <= i < 240 ==> #[trigger] nvic.ipr@[i] == 0
}

impl<B: PeripheralBus> Cpu<B> {
    /// A core in its reset state with zeroed flash and RAM, attached to the two buses.
    pub fn new(frequency: Arc<AtomicU32>, machine_cycle: u8, peripheral_bus: B, ppb: B) -> (cpu:
        Cpu<B>)
        ensures
            cpu.wf(),
            cpu.flash@ == Seq::new(FLASH_SIZE as nat, |i: int| 0u8),
            cpu.ram@ == Seq::new(RAM_SIZE as nat, |i: int| 0u8),
            cpu.regs() == Seq::new(16, |i: int| 0u32),
            cpu.apsr() == 0,
            cpu.registers.is_msp,
            cpu.next_pc == 0,
            cpu.Cycles == 0,
            cpu.machine_cycle == machine_cycle,
            cpu.Cpu_pipeline.remain_cycles == 0,
            cpu.exception_stack@.len() == 0,
            cpu.interrupt_check_hint,
            cpu.interrupt_hint_source == HINT_SRC_OTHER,
            !cpu.pending_ppb_event_drain,
            cpu.peripheral_schedule_dirty,
            cpu.peripheral_next_due_cycle == 0,
            cpu.peripheral_bus == peripheral_bus,
            cpu.ppb == ppb,
            cpu.peripheral_tick_mask == (if peripheral_bus.tickables() { 1u8 } else { 0u8 }) | (if ppb.tickables() { 2u8 } else { 0u8 }),
            cpu.ppb_nvic_index == ppb.index_of(NVIC_BASE),
            cpu.ppb_systick_index == ppb.index_of(SYSTICK_BASE),
    {
        let mut peripheral_tick_mask = 0u8;
        if peripheral_bus.has_tickables() {
            peripheral_tick_mask = peripheral_tick_mask | 1;
        }
        if ppb.has_tickables() {
            peripheral_tick_mask = peripheral_tick_mask | 2;
        }
        assert(0u8 | 0u8 == 0u8 && 0u8 | 1u8 == 1u8 && 0u8 | 2u8 == 2u8 && 1u8 | 2u8 == 3u8 && 1u8 | 0u8 == 1u8) by (bit_vector);
        let ppb_nvic_index = ppb.find_peripheral_index(NVIC_BASE);
        let ppb_systick_index = ppb.find_peripheral_index(SYSTICK_BASE);
        let flash = vec![0u8; FLASH_SIZE];
        let ram = vec![0u8; RAM_SIZE];
        let cpu = Cpu {
            frequency,
            machine_cycle,
            Cycles: 0,
            Cpu_pipeline: Cpu_pipeline::new(),
            flash,
            ram,
            registers: Registers { reg: [0u32; 16], apsr: 0, is_msp: true },
            next_pc: 0,
            peripheral_bus,
            ppb,
            peripheral_tick_mask,
            exception_stack: Vec::new(),
            interrupt_check_hint: true,
            interrupt_hint_source: HINT_SRC_OTHER,
            pending_ppb_event_drain: false,
            peripheral_schedule_dirty: true,
            peripheral_next_due_cycle: 0,
            ppb_nvic_index,
            ppb_systick_index,
        };
        assert(cpu.regs() =~= Seq::new(16, |i: int| 0u32));
        assert(cpu.flash@ =~= Seq::new(FLASH_SIZE as nat, |i: int| 0u8));
        assert(cpu.ram@ =~= Seq::new(RAM_SIZE as nat, |i: int| 0u8));
        cpu
    }

    /// Profiling is not built in; the setting is ignored.
    pub fn set_profiling_enabled(&mut self, _enabled: bool)
        ensures
            *final(self) == *old(self),
    {
    }

    pub fn is_profiling_enabled(&self) -> (r: bool)
        ensures
            !r,
    {
        false
    }

    /// The collected profile, which is always all zero.
    pub fn take_exec_profile(&mut self) -> (p: CpuExecProfile)
        ensures
            *final(self) == *old(self),
            p.step_calls == 0 && p.execute_calls == 0 && p.pipeline_stall_count == 0
                && p.mem_read_count == 0 && p.mem_write_count == 0 && p.interrupt_check_calls
                == 0 && p.interrupt_taken_count == 0 && p.interrupt_hint_set_count == 0
                && p.interrupt_check_from_peripheral_count == 0,
    {
        CpuExecProfile::zeroed()
    }

    /// The per-opcode statistics, which are never collected.
    pub fn take_exec_op_stats(&mut self) -> (stats: Vec<(String, OpExecStat)>)
        ensures
            *final(self) == *old(self),
            stats@.len() == 0,
    {
        Vec::new()
    }

    /// Sets the interrupt-check hint; a peripheral source wins over an earlier other one.
    pub fn set_interrupt_check_hint(&mut self, source: u8)
        ensures
            old(self).hint_set(final(self), source),
            final(self).same_core(old(self)),
            final(self).flash == old(self).flash,
            final(self).ram == old(self).ram,
            final(self).pending_ppb_event_drain == old(self).pending_ppb_event_drain,
            final(self).peripheral_schedule_dirty == old(self).peripheral_schedule_dirty,
            final(self).peripheral_next_due_cycle == old(self).peripheral_next_due_cycle,
            final(self).peripheral_bus == old(self).peripheral_bus,
            final(self).ppb == old(self).ppb,
            *final(self) == (Cpu {
                interrupt_check_hint: final(self).interrupt_check_hint,
                interrupt_hint_source: final(self).interrupt_hint_source,
                ..*old(self)
            }),
    {
        self.interrupt_check_hint = true;
        if source == HINT_SRC_PERIPHERAL || self.interrupt_hint_source == HINT_SRC_NONE {
            self.interrupt_hint_source = source;
        }
    }

    pub fn clear_interrupt_check_hint(&mut self)
        ensures
            !final(self).interrupt_check_hint,
            final(self).interrupt_hint_source == HINT_SRC_NONE,
            final(self).same_core(old(self)),
            final(self).flash == old(self).flash,
            final(self).ram == old(self).ram,
            final(self).pending_ppb_event_drain == old(self).pending_ppb_event_drain,
            *final(self) == old(self).without_hint(),
    {
        self.interrupt_check_hint = false;
        self.interrupt_hint_source = HINT_SRC_NONE;
    }

    /// Reads a word from the address map.
    pub fn read32(&self, addr: u32) -> (v: u32)
        requires
            self.wf(),
            self.mapped(addr),
        ensures
            self.word(addr) matches Some(w) ==> v == w,
            region_of(addr) is Peripheral ==> v == self.peripheral_bus.word_at(addr),
            region_of(addr) is Ppb ==> v == self.ppb.word_at(addr),
            v == self.value_at(addr),
    {
        if in_range(addr, RAM_BASE, RAM_LAST) {
            return read_u32_le(&self.ram, (addr - RAM_BASE) as usize);
        }
        if in_range(addr, FLASH_BASE, FLASH_LAST) {
            return read_u32_le(&self.flash, (addr - FLASH_BASE) as usize);
        }
        if in_range(addr, FLASH_ALIAS_BASE, FLASH_ALIAS_LAST) {
            return read_u32_le(&self.flash, addr as usize);
        }
        if in_range(addr, PERIPH_BASE, PERIPH_LAST) {
            return self.peripheral_bus.read32(addr);
        }
        self.ppb.read32(addr)
    }

    /// Writes a word to the address map. Writes through the flash alias are ignored, wherever
    /// in the alias window they fall; a bus write that changes a peripheral's schedule marks
    /// it dirty, and a write to interrupt registers of the private bus sets the
    /// interrupt-check hint.
    pub fn write32(&mut self, addr: u32, val: u32)
        requires
            old(self).wf(),
            old(self).mapped(addr) || region_of(addr) is FlashAlias,
        ensures
            final(self).wf(),
            old(self).stored(final(self), addr, val),
            final(self).same_core(old(self)),
            final(self).pending_ppb_event_drain == old(self).pending_ppb_event_drain,
            final(self).peripheral_next_due_cycle == old(self).peripheral_next_due_cycle,
            region_of(addr) is Ppb && interrupt_related_ppb_write(addr) ==> old(self).hint_set(final(self), HINT_SRC_OTHER),
            !(region_of(addr) is Ppb && interrupt_related_ppb_write(addr)) ==> (final(self).interrupt_check_hint == old(self).interrupt_check_hint && final(self).interrupt_hint_source == old(self).interrupt_hint_source),
            !(region_of(addr) is Peripheral || region_of(addr) is Ppb) ==> (final(self).peripheral_schedule_dirty == old(self).peripheral_schedule_dirty && final(self).peripheral_bus == old(self).peripheral_bus && final(self).ppb == old(self).ppb),
            region_of(addr) is Peripheral ==> final(self).ppb == old(self).ppb,
            region_of(addr) is Ppb ==> final(self).peripheral_bus == old(self).peripheral_bus,
            old(self).bus_written(final(self), addr, val),
    {
        if in_range(addr, RAM_BASE, RAM_LAST) {
            write_u32_le(&mut self.ram, (addr - RAM_BASE) as usize, val);
            return;
        }
        if in_range(addr, FLASH_BASE, FLASH_LAST) {
            write_u32_le(&mut self.flash, (addr - FLASH_BASE) as usize, val);
            return;
        }
        if in_range(addr, FLASH_ALIAS_BASE, FLASH_ALIAS_LAST) {
            return;
        }
        if in_range(addr, PERIPH_BASE, PERIPH_LAST) {
            let schedule_changed = self.peripheral_bus.write32(addr, val);
            if schedule_changed {
                self.peripheral_schedule_dirty = true;
            }
            return;
        }
        let schedule_changed = self.ppb.write32(addr, val);
        if schedule_changed {
            self.peripheral_schedule_dirty = true;
        }
        if is_interrupt_related_ppb_write(addr) {
            self.set_interrupt_check_hint(HINT_SRC_OTHER);
        }
    }
}

impl<B: PeripheralBus> CpuContext for Cpu<B> {
    open spec fn ctx_wf(&self) -> bool {
        self.wf()
    }

    open spec fn ctx_regs(&self) -> Seq<u32> {
        self.registers.reg@
    }

    open spec fn ctx_apsr(&self) -> u32 {
        self.registers.apsr
    }

    open spec fn ctx_is_msp(&self) -> bool {
        self.registers.is_msp
    }

    open spec fn ctx_mapped(&self, addr: u32) -> bool {
        self.mapped(addr)
    }

    open spec fn ctx_word(&self, addr: u32) -> Option<u32> {
        self.word(addr)
    }

    open spec fn ctx_read(&self, addr: u32) -> u32 {
        self.value_at(addr)
    }

    open spec fn ctx_stored(&self, new: &Self, addr: u32, v: u32) -> bool {
        self.stored(new, addr, v)
    }

    fn read_reg(&self, r: u32) -> (v: u32) {
        self.registers.reg[r as usize]
    }

    fn write_reg(&mut self, r: u32, v: u32)
        ensures
            final(self).same_except_regs(old(self)),
    {
        self.registers.reg[r as usize] = v;
    }

    fn read_mem(&self, addr: u32) -> (v: u32) {
        self.read32(addr)
    }

    fn write_mem(&mut self, addr: u32, v: u32)
        ensures
            old(self).stored(final(self), addr, v),
            final(self).same_core(old(self)),
            final(self).pending_ppb_event_drain == old(self).pending_ppb_event_drain,
            region_of(addr) is Ppb && interrupt_related_ppb_write(addr) ==> old(self).hint_set(final(self), HINT_SRC_OTHER),
            !(region_of(addr) is Ppb && interrupt_related_ppb_write(addr)) ==> (final(self).interrupt_check_hint == old(self).interrupt_check_hint && final(self).interrupt_hint_source == old(self).interrupt_hint_source),
    {
        self.write32(addr, v);
    }

    fn read_gpr(&self, r: u32) -> (v: u32) {
        self.registers.reg[r as usize]
    }

    fn write_gpr(&mut self, r: u32, v: u32)
        ensures
            final(self).same_except_regs(old(self)),
    {
        self.registers.reg[r as usize] = v;
    }

    fn read_msp(&self, r: u32) -> (v: u32) {
        if self.registers.is_msp {
            self.registers.reg[13]
        } else {
            0
        }
    }

    fn write_msp(&mut self, v: u32)
        ensures
            final(self).same_except_regs(old(self)),
    {
        if self.registers.is_msp {
            self.registers.reg[13] = v;
        }
    }

    fn read_psp(&self, r: u32) -> (v: u32) {
        if !self.registers.is_msp {
            self.registers.reg[13]
        } else {
            0
        }
    }

    fn write_psp(&mut self, v: u32)
        ensures
            final(self).same_except_regs(old(self)),
    {
        if !self.registers.is_msp {
            self.registers.reg[13] = v;
        }
    }

    fn read_sp(&self) -> (v: u32) {
        self.registers.reg[13]
    }

    fn write_sp(&mut self, v: u32)
        ensures
            final(self).same_except_regs(old(self)),
    {
        self.registers.reg[13] = v;
    }

    fn read_lr(&self, r: u32) -> (v: u32) {
        self.registers.reg[14]
    }

    fn write_lr(&mut self, v: u32)
        ensures
            final(self).same_except_regs(old(self)),
    {
        self.registers.reg[14] = v;
    }

    fn read_pc(&self) -> (v: u32) {
        self.registers.reg[15]
    }

    fn write_pc(&mut self, pc: u32)
        ensures
            final(self).same_except_regs(old(self)),
    {
        self.registers.reg[15] = pc;
    }

    fn read_apsr(&self) -> (v: u32) {
        self.registers.apsr
    }

    fn write_apsr(&mut self, v: u32)
        ensures
            final(self).same_except_regs(old(self)),
    {
        self.registers.apsr = v;
    }
}

impl<B> Cpu<B> {
    /// Everything but the general registers and the APSR is as in `old`.
    pub open spec fn same_except_regs(&self, old: &Self) -> bool {
        &&& self.flash == old.flash
        &&& self.ram == old.ram
        &&& self.registers.is_msp == old.registers.is_msp
        &&& self.next_pc == old.next_pc
        &&& self.exception_stack == old.exception_stack
        &&& self.Cpu_pipeline == old.Cpu_pipeline
        &&& self.interrupt_check_hint == old.interrupt_check_hint
        &&& self.interrupt_hint_source == old.interrupt_hint_source
        &&& self.pending_ppb_event_drain == old.pending_ppb_event_drain
        &&& self.peripheral_schedule_dirty == old.peripheral_schedule_dirty
        &&& self.peripheral_next_due_cycle == old.peripheral_next_due_cycle
        &&& self.peripheral_bus == old.peripheral_bus
        &&& self.ppb == old.ppb
        &&& self.ppb_nvic_index == old.ppb_nvic_index
        &&& self.ppb_systick_index == old.ppb_systick_index
        &&& self.peripheral_tick_mask == old.peripheral_tick_mask
        &&& self.Cycles == old.Cycles
    }
}

/// Address of word `i` of an exception frame that starts at `base`.
pub open spec fn frame_addr(base: u32, i: int) -> u32 {
    base.wrapping_add((4 * i) as u32)
}

/// Whether the eight-word frame at `base` lies in RAM.
pub open spec fn frame_in_ram(base: u32) -> bool {
    addr_in(base, RAM_BASE, RAM_LAST) && base - RAM_BASE + 32 <= RAM_SIZE
}

/// The xPSR stacked on exception entry: the flags, the Thumb bit and the exception number.
pub open spec fn stacked_xpsr(apsr: u32, exception_num: u32) -> u32 {
    (apsr & 0xF000_0000) | 0x0100_0000 | (exception_num & 0x1FF)
}

impl<B> Cpu<B> {
    /// Whether all eight words of the frame at `base` are mapped.
    pub open spec fn frame_mapped(&self, base: u32) -> bool {
        forall|i: int| 0 <= i < 8 ==> #[trigger] self.mapped(frame_addr(base, i))
    }

    /// The frame that exception entry stacks: R0-R3, R12, LR, the return address and xPSR.
    pub open spec fn entry_frame(&self, exception_num: u32, return_pc: u32) -> Seq<u32> {
        seq![
            self.regs()[0],
            self.regs()[1],
            self.regs()[2],
            self.regs()[3],
            self.regs()[12],
            self.regs()[14],
            return_pc | 1,
            stacked_xpsr(self.apsr(), exception_num),
        ]
    }

    /// `new` is `self` after an attempt to enter exception `exception_num` with the vector
    /// table at `vector_base`: the entry happens exactly when the vector and the eight-word
    /// frame below SP are mapped; then the handler is the vector word with bit 0 cleared,
    /// otherwise nothing changed.
    pub open spec fn entry_through(&self, new: &Self, exception_num: u32, vector_base: u32, entered: bool) -> bool {
        let vector_addr = vector_base.wrapping_add((exception_num * 4) as u32);
        &&& entered == (self.mapped(vector_addr) && self.frame_mapped(self.regs()[13].wrapping_sub(32)))
        &&& entered ==> self.entered_exception(new, exception_num, self.next_pc)
        &&& entered ==> (new.word(vector_addr) matches Some(w) ==> new.next_pc == w & !1u32)
        &&& !entered ==> *new == *self
    }

    /// `self` with the interrupt-check hint cleared.
    pub open spec fn without_hint(&self) -> Self {
        Cpu { interrupt_check_hint: false, interrupt_hint_source: HINT_SRC_NONE, ..*self }
    }

    /// `new` is `self` after the stall countdown of a step start: with stall cycles left,
    /// one is spent and the step takes one cycle; otherwise nothing changes and `None` asks
    /// for an instruction.
    pub open spec fn stall_or_run(&self, new: &Self, r: Option<u32>) -> bool {
        if self.Cpu_pipeline.remain_cycles > 0 {
            &&& r == Some(1u32)
            &&& *new == (Cpu {
                Cpu_pipeline: Cpu_pipeline { remain_cycles: (self.Cpu_pipeline.remain_cycles - 1) as u32 },
                ..*self
            })
        } else {
            r is None && *new == *self
        }
    }

    /// `new` is `self` after entering exception `exception_num`, resuming later at `return_pc`.
    pub open spec fn entered_exception(&self, new: &Self, exception_num: u32, return_pc: u32) -> bool {
        let sp = self.regs()[13];
        let base = sp.wrapping_sub(32);
        &&& new.wf()
        &&& new.regs().len() == 16
        &&& forall|r: int| 0 <= r < 13 ==> #[trigger] new.regs()[r] == self.regs()[r]
        &&& new.regs()[13] == base
        &&& new.regs()[14] == (if self.exception_stack@.len() == 0 {
            EXC_RETURN_THREAD_MSP
        } else {
            EXC_RETURN_HANDLER_MSP
        })
        &&& new.regs()[15] & 1 == 0
        &&& new.next_pc == new.regs()[15]
        &&& new.apsr() == self.apsr()
        &&& new.registers.is_msp == self.registers.is_msp
        &&& new.exception_stack@ == self.exception_stack@.push(exception_num)
        &&& frame_in_ram(base) ==> new.ram@ == store_words(
            self.ram@,
            base - RAM_BASE,
            self.entry_frame(exception_num, return_pc),
        ) && new.flash@ == self.flash@
    }

    /// `new` is the core after returning from the innermost active exception of `self`
    /// when SP held `sp` and the registers held `regs`: the frame at `sp` is unstacked into
    /// R0-R3, R12, LR, PC (bit 0 cleared) and the APSR flags; R4-R11 keep their values.
    pub open spec fn returned_from_exception_at(&self, new: &Self, sp: u32, regs: Seq<u32>) -> bool {
        &&& new.wf()
        &&& new.regs().len() == 16
        &&& (self.word(frame_addr(sp, 0)) matches Some(w) ==> new.regs()[0] == w)
        &&& (self.word(frame_addr(sp, 1)) matches Some(w) ==> new.regs()[1] == w)
        &&& (self.word(frame_addr(sp, 2)) matches Some(w) ==> new.regs()[2] == w)
        &&& (self.word(frame_addr(sp, 3)) matches Some(w) ==> new.regs()[3] == w)
        &&& (self.word(frame_addr(sp, 4)) matches Some(w) ==> new.regs()[12] == w)
        &&& (self.word(frame_addr(sp, 5)) matches Some(w) ==> new.regs()[14] == w)
        &&& (self.word(frame_addr(sp, 6)) matches Some(w) ==> new.regs()[15] == w & !1u32)
        &&& (self.word(frame_addr(sp, 7)) matches Some(w) ==> new.apsr() == w & 0xF000_0000)
        &&& forall|r: int| 4 <= r < 12 ==> #[trigger] new.regs()[r] == regs[r]
        &&& new.regs()[13] == sp.wrapping_add(32)
        &&& new.regs()[15] & 1 == 0
        &&& new.apsr() & 0x0FFF_FFFF == 0
        &&& new.next_pc == new.regs()[15]
        &&& new.registers.is_msp == self.registers.is_msp
        &&& new.exception_stack@ == self.exception_stack@.drop_last()
        &&& new.ram@ == self.ram@
        &&& new.flash@ == self.flash@
        &&& new.Cpu_pipeline.remain_cycles == self.Cpu_pipeline.remain_cycles
        &&& new.interrupt_check_hint
    }

    /// `new` is `self` after returning from the innermost active exception.
    pub open spec fn returned_from_exception(&self, new: &Self) -> bool {
        self.returned_from_exception_at(new, self.regs()[13], self.regs())
    }

    /// Only the interrupt hint, the pending-drain flag and the buses may differ.
    pub open spec fn same_machine(&self, new: &Self) -> bool {
        &&& new.wf() == self.wf()
        &&& self.same_core(new)
        &&& new.ram == self.ram
        &&& new.flash == self.flash
    }
}

impl<B: PeripheralBus> Cpu<B> {
    /// The SysTick priority: the top byte of SHPR3 on the private bus.
    pub open spec fn systick_priority_now(&self) -> u8 {
        ((self.ppb.word_at(SCB_SHPR3_ADDR) >> 24u32) & 0xFF) as u8
    }

    /// `nvic` is the interrupt controller state that the private bus gives: the registers of
    /// the controller, or a state with nothing pending, active or prioritised when there is
    /// no controller.
    pub open spec fn nvic_now(&self, nvic: NvicState) -> bool {
        match self.ppb_nvic_index {
            Some(i) => match self.ppb.nvic_registers(i) {
                Some(regs) => nvic == regs,
                None => no_interrupt_state(nvic),
            },
            None => no_interrupt_state(nvic),
        }
    }

    /// Whether the system timer has its exception pending (false without a timer).
    pub open spec fn systick_pending_now(&self) -> bool {
        match self.ppb_systick_index {
            Some(i) => self.ppb.systick_pending(i),
            None => false,
        }
    }

    /// Whether taking the interrupt events of the private bus's controller and timer (those
    /// present) reports one, and the private bus that this leaves.
    pub open spec fn ppb_events(&self) -> (bool, B) {
        let (e1, b1) = match self.ppb_nvic_index {
            Some(i) => (self.ppb.nvic_event(i), self.ppb.after_nvic_event(i)),
            None => (false, self.ppb),
        };
        match self.ppb_systick_index {
            Some(i) => (e1 || b1.systick_event(i), b1.after_systick_event(i)),
            None => (e1, b1),
        }
    }

    /// The buses after advancing those whose tick-mask bit is set by `cycles`, and whether
    /// the peripheral bus and the private bus reported an event. An event of the peripheral
    /// bus forwards, when it has interrupt sources, up to eight of its pending requests to
    /// the interrupt controller's set-pending registers before the private bus advances.
    pub open spec fn stepped_buses(&self, cycles: u32) -> (B, B, bool, bool) {
        if cycles == 0 || self.peripheral_tick_mask == 0 {
            (self.peripheral_bus, self.ppb, false, false)
        } else {
            let ticks_pb = self.peripheral_tick_mask & 1 != 0;
            let ticks_ppb = self.peripheral_tick_mask & 2 != 0;
            let pe = ticks_pb && self.peripheral_bus.tick_result(cycles);
            let pb1 = if ticks_pb { self.peripheral_bus.after_tick(cycles) } else { self.peripheral_bus };
            let (pb2, ppb1) = if pe { irqs_forwarded(pb1, self.ppb) } else { (pb1, self.ppb) };
            let ppe = ticks_ppb && ppb1.tick_result(cycles);
            let ppb2 = if ticks_ppb { ppb1.after_tick(cycles) } else { ppb1 };
            (pb2, ppb2, pe, ppe)
        }
    }

    /// `new` is `self` after `peripheral_step_n(cycles)`: nothing moves without cycles or
    /// without a tick-mask bit; otherwise only the buses, the hint and the drain flag may
    /// change, as `peripherals_stepped` says for the events that the buses reported, and
    /// the buses are those that `stepped_buses` gives.
    pub open spec fn peripheral_steps(&self, new: &Self, cycles: u32) -> bool {
        &&& self.same_machine(new)
        &&& cycles == 0 || self.peripheral_tick_mask == 0 ==> *new == *self
        &&& self.pending_ppb_event_drain ==> new.pending_ppb_event_drain
        &&& self.peripheral_tick_mask & 3 == 0 ==> *new == *self
        &&& self.only_bus_side_changed(new)
        &&& exists|pe: bool, ppe: bool| #[trigger] self.peripherals_stepped(new, cycles, pe, ppe)
        &&& ({
            let (pb, ppb, pe, ppe) = self.stepped_buses(cycles);
            &&& new.peripheral_bus == pb
            &&& new.ppb == ppb
            &&& self.peripherals_stepped(new, cycles, pe, ppe)
        })
    }

    /// The next events that the buses whose tick-mask bits are set report, the earlier of
    /// them (see `next_event_from`).
    pub open spec fn next_event_now(&self) -> Option<u32> {
        let p = if self.peripheral_tick_mask & 1 != 0 { self.peripheral_bus.next_event() } else { None };
        let q = if self.peripheral_tick_mask & 2 != 0 { self.ppb.next_event() } else { None };
        match (p, q) {
            (Some(x), Some(y)) => Some(if x < y { x } else { y }),
            (Some(x), None) => Some(x),
            (None, Some(y)) => Some(y),
            (None, None) => None,
        }
    }

    /// The word that a read at `addr` gives: the word of RAM or flash there, or what the bus
    /// that decodes `addr` returns (0 for an unmapped address, which is never read).
    pub open spec fn value_at(&self, addr: u32) -> u32 {
        match region_of(addr) {
            MemRegion::Peripheral => self.peripheral_bus.word_at(addr),
            MemRegion::Ppb => self.ppb.word_at(addr),
            _ => match self.word(addr) {
                Some(w) => w,
                None => 0,
            },
        }
    }

    /// The buses after a word write of `val` at `addr`: the bus that decodes `addr` takes
    /// the write, and the schedule is marked dirty when the write changed a peripheral's
    /// schedule; the other bus, and both outside the bus windows, are untouched.
    pub open spec fn bus_written(&self, new: &Self, addr: u32, val: u32) -> bool {
        match region_of(addr) {
            MemRegion::Peripheral => {
                &&& new.peripheral_bus == self.peripheral_bus.after_write(addr, val)
                &&& new.ppb == self.ppb
                &&& new.peripheral_schedule_dirty == (self.peripheral_schedule_dirty || self.peripheral_bus.write_result(addr, val))
            },
            MemRegion::Ppb => {
                &&& new.ppb == self.ppb.after_write(addr, val)
                &&& new.peripheral_bus == self.peripheral_bus
                &&& new.peripheral_schedule_dirty == (self.peripheral_schedule_dirty || self.ppb.write_result(addr, val))
            },
            _ => {
                &&& new.peripheral_bus == self.peripheral_bus
                &&& new.ppb == self.ppb
                &&& new.peripheral_schedule_dirty == self.peripheral_schedule_dirty
            },
        }
    }

    /// The private bus after returning from exception `e`: for an interrupt, its active bit
    /// cleared in the interrupt controller (when there is one); then the controller's and
    /// the timer's interrupt events taken.
    pub open spec fn return_ppb(&self, e: u32) -> B {
        let cleared = match self.ppb_nvic_index {
            Some(i) => if e >= 16 { self.ppb.after_active_clear(i, (e - 16) as u32) } else { self.ppb },
            None => self.ppb,
        };
        (Cpu { ppb: cleared, ..*self }).ppb_events().1
    }

    /// The vector table's base: VTOR on the private bus.
    pub open spec fn vector_base_now(&self) -> u32 {
        self.ppb.word_at(SCB_VTOR_ADDR)
    }

    /// `r` is what the exception selection gives for the current state of the private bus.
    pub open spec fn selection(&self, r: Option<u32>) -> bool {
        exists|nvic: NvicState| #[trigger] self.nvic_now(nvic)
            && selected(self.exception_stack@, self.systick_priority_now(), nvic, self.systick_pending_now(), r)
    }

    /// The buses after entering exception `exception_num` with the frame in RAM: untouched,
    /// but that taking the SysTick exception clears the timer's pending flag.
    pub open spec fn entry_buses(&self, new: &Self, exception_num: u32) -> bool {
        &&& new.peripheral_bus == self.peripheral_bus
        &&& new.ppb == (match self.ppb_systick_index {
            Some(i) => if exception_num == SYSTICK_EXCEPTION_NUM { self.ppb.after_systick_clear(i) } else { self.ppb },
            None => self.ppb,
        })
    }

    /// `new` is `self` after one look for an exception to take: the selection gave `r`;
    /// for `Some(e)` the core tried to enter `e` through the vector table at VTOR and
    /// `taken` tells whether it did; for `None` nothing was taken. Either way the hint was
    /// then cleared.
    pub open spec fn interrupt_attempt(&self, new: &Self, taken: bool) -> bool {
        exists|r: Option<u32>| #[trigger] self.selection(r) && match r {
            None => !taken && *new == self.without_hint(),
            Some(e) => exists|entered: Self|
                #[trigger] self.entry_through(&entered, e, self.vector_base_now(), taken)
                && (taken && frame_in_ram(self.regs()[13].wrapping_sub(32)) ==> self.entry_buses(&entered, e))
                && *new == entered.without_hint(),
        }
    }

    /// `new` is `self` once the private bus's interrupt events were drained, which happens
    /// exactly when the flag asks for it; the flag is then clear.
    pub open spec fn drained_for_step(&self, new: &Self) -> bool {
        if self.pending_ppb_event_drain {
            &&& self.only_bus_side_changed(new)
            &&& !new.pending_ppb_event_drain
            &&& new.peripheral_bus == self.peripheral_bus
            &&& self.interrupt_check_hint ==> new.interrupt_check_hint
            &&& self.events_noted(new, self.ppb_events().0)
            &&& new.ppb == self.ppb_events().1
        } else {
            *new == *self
        }
    }

    /// `new` is `self` after the rest of a step start: with the hint set the core looks for
    /// an exception to take, and a taken one accounts for the cycle; otherwise the stall
    /// countdown runs.
    pub open spec fn step_started(&self, new: &Self, r: Option<u32>) -> bool {
        if self.interrupt_check_hint {
            exists|taken: bool, looked: Self| #[trigger] self.interrupt_attempt(&looked, taken)
                && if taken { r == Some(1u32) && *new == looked } else { looked.stall_or_run(new, r) }
        } else {
            self.stall_or_run(new, r)
        }
    }

    /// `new` is `self` at the end of a step: the next PC set to `next`, `stall` cycles left
    /// to spend, and, with the hint set, one look for an exception to take.
    pub open spec fn step_ended(&self, new: &Self, next: u32, stall: u32) -> bool {
        let set = Cpu { next_pc: next, Cpu_pipeline: Cpu_pipeline { remain_cycles: stall }, ..*self };
        if self.interrupt_check_hint {
            exists|taken: bool| #[trigger] set.interrupt_attempt(new, taken)
        } else {
            *new == set
        }
    }

    /// `new` and `r` are what `begin_step` makes of `self`: drain, then look for an
    /// exception, then count down.
    pub open spec fn begins_step(&self, new: &Self, r: Option<u32>) -> bool {
        exists|drained: Self| #[trigger] self.drained_for_step(&drained) && drained.step_started(new, r)
    }

}

impl<B: PeripheralBus> Cpu<B> {
    /// Whether a word access at `addr` is mapped.
    pub fn is_mapped(&self, addr: u32) -> (r: bool)
        requires
            self.wf(),
        ensures
            r == self.mapped(addr),
    {
        if in_range(addr, RAM_BASE, RAM_LAST) {
            (addr - RAM_BASE) as usize + 4 <= self.ram.len()
        } else if in_range(addr, FLASH_BASE, FLASH_LAST) {
            (addr - FLASH_BASE) as usize + 4 <= self.flash.len()
        } else if in_range(addr, FLASH_ALIAS_BASE, FLASH_ALIAS_LAST) {
            addr as usize + 4 <= self.flash.len()
        } else {
            in_range(addr, PERIPH_BASE, PERIPH_LAST) || in_range(addr, PPB_BASE, PPB_LAST)
        }
    }

    /// Whether the eight words from `base` on are mapped.
    pub fn is_frame_mapped(&self, base: u32) -> (r: bool)
        requires
            self.wf(),
        ensures
            r == self.frame_mapped(base),
    {
        let mut i: u32 = 0;
        while i < 8
            invariant
                i <= 8,
                self.wf(),
                forall|k: int| 0 <= k < i ==> #[trigger] self.mapped(frame_addr(base, k)),
            decreases 8 - i,
        {
            if !self.is_mapped(base.wrapping_add(4 * i)) {
                assert(!self.mapped(frame_addr(base, i as int)));
                return false;
            }
            i = i + 1;
        }
        true
    }

    /// Pushes one word onto the stack through the memory map.
    fn push_stack_word(&mut self, value: u32)
        requires
            old(self).wf(),
            old(self).mapped(old(self).regs()[13].wrapping_sub(4)),
        ensures
            final(self).wf(),
            final(self).regs() == old(self).regs().update(13, old(self).regs()[13].wrapping_sub(4)),
            old(self).stored(final(self), old(self).regs()[13].wrapping_sub(4), value),
            final(self).apsr() == old(self).apsr(),
            final(self).registers.is_msp == old(self).registers.is_msp,
            final(self).next_pc == old(self).next_pc,
            final(self).exception_stack@ == old(self).exception_stack@,
            final(self).Cpu_pipeline.remain_cycles == old(self).Cpu_pipeline.remain_cycles,
            final(self).pending_ppb_event_drain == old(self).pending_ppb_event_drain,
    {
        let new_sp = self.registers.reg[13].wrapping_sub(4);
        self.registers.reg[13] = new_sp;
        self.write32(new_sp, value);
    }

    /// Stacks the eight-word frame straight into RAM when it fits there.
    fn push_exception_frame_fast(&mut self, frame: [u32; 8]) -> (pushed: bool)
        requires
            old(self).wf(),
        ensures
            final(self).wf(),
            pushed == frame_in_ram(old(self).regs()[13].wrapping_sub(32)),
            pushed ==> final(self).ram@ == store_words(
                old(self).ram@,
                old(self).regs()[13].wrapping_sub(32) - RAM_BASE,
                frame@,
            ) && final(self).regs() == old(self).regs().update(13, old(self).regs()[13].wrapping_sub(32)),
            !pushed ==> final(self).ram@ == old(self).ram@ && final(self).regs() == old(self).regs(),
            final(self).flash@ == old(self).flash@,
            final(self).apsr() == old(self).apsr(),
            final(self).registers.is_msp == old(self).registers.is_msp,
            final(self).next_pc == old(self).next_pc,
            final(self).exception_stack@ == old(self).exception_stack@,
            final(self).Cpu_pipeline.remain_cycles == old(self).Cpu_pipeline.remain_cycles,
            final(self).interrupt_check_hint == old(self).interrupt_check_hint,
            final(self).pending_ppb_event_drain == old(self).pending_ppb_event_drain,
            final(self).ppb_systick_index == old(self).ppb_systick_index,
            pushed ==> final(self).peripheral_bus == old(self).peripheral_bus && final(self).ppb == old(self).ppb,
    {
        let sp = self.registers.reg[13];
        let new_sp = sp.wrapping_sub(32);
        if !in_range(new_sp, RAM_BASE, RAM_LAST) {
            return false;
        }
        let offset = (new_sp - RAM_BASE) as usize;
        if offset + 32 > self.ram.len() {
            return false;
        }
        let mut i: usize = 0;
        while i < 8
            invariant
                i <= 8,
                old(self).wf(),
                offset + 32 <= self.ram.len(),
                self.ram.len() == RAM_SIZE,
                self.ram@ == store_words(old(self).ram@, offset as int, frame@.take(i as int)),
                self.flash == old(self).flash,
                self.registers == old(self).registers,
                self.next_pc == old(self).next_pc,
                self.exception_stack == old(self).exception_stack,
                self.Cpu_pipeline == old(self).Cpu_pipeline,
                self.interrupt_check_hint == old(self).interrupt_check_hint,
                self.pending_ppb_event_drain == old(self).pending_ppb_event_drain,
                self.ppb_systick_index == old(self).ppb_systick_index,
                self.peripheral_bus == old(self).peripheral_bus,
                self.ppb == old(self).ppb,
            decreases 8 - i,
        {
            let ghost before = self.ram@;
            write_u32_le(&mut self.ram, offset + 4 * i, frame[i]);
            proof {
                lemma_store_words(old(self).ram@, offset as int, frame@.take(i as int));
                assert(frame@.take(i as int + 1).drop_last() =~= frame@.take(i as int));
                assert(frame@.take(i as int + 1).last() == frame@[i as int]);
            }
            i = i + 1;
        }
        assert(frame@.take(8) =~= frame@);
        proof {
            lemma_store_words(old(self).ram@, offset as int, frame@);
        }
        self.registers.reg[13] = new_sp;
        true
    }

    /// Pops one word from the stack through the memory map.
    fn pop_stack_word(&mut self) -> (v: u32)
        requires
            old(self).wf(),
            old(self).mapped(old(self).regs()[13]),
        ensures
            final(self).wf(),
            old(self).word(old(self).regs()[13]) matches Some(w) ==> v == w,
            final(self).regs() == old(self).regs().update(13, old(self).regs()[13].wrapping_add(4)),
            final(self).ram == old(self).ram,
            final(self).flash == old(self).flash,
            final(self).apsr() == old(self).apsr(),
            final(self).registers.is_msp == old(self).registers.is_msp,
            final(self).next_pc == old(self).next_pc,
            final(self).exception_stack@ == old(self).exception_stack@,
            final(self).Cpu_pipeline.remain_cycles == old(self).Cpu_pipeline.remain_cycles,
            final(self).interrupt_check_hint == old(self).interrupt_check_hint,
            final(self).pending_ppb_event_drain == old(self).pending_ppb_event_drain,
            final(self).ppb_nvic_index == old(self).ppb_nvic_index,
            final(self).ppb_systick_index == old(self).ppb_systick_index,
            final(self).peripheral_bus == old(self).peripheral_bus,
            final(self).ppb == old(self).ppb,
            v == old(self).value_at(old(self).regs()[13]),
    {
        let sp = self.registers.reg[13];
        let value = self.read32(sp);
        self.registers.reg[13] = sp.wrapping_add(4);
        value
    }

    /// Reads the eight-word frame at SP, straight from RAM when it lies there, otherwise
    /// word by word through the memory map; SP moves past the frame.
    fn pop_exception_frame(&mut self) -> (frame: [u32; 8])
        requires
            old(self).wf(),
            old(self).frame_mapped(old(self).regs()[13]),
        ensures
            final(self).wf(),
            forall|i: int| 0 <= i < 8 ==> (old(self).word(frame_addr(old(self).regs()[13], i)) matches Some(w) ==> #[trigger] frame@[i] == w),
            final(self).regs() == old(self).regs().update(13, old(self).regs()[13].wrapping_add(32)),
            final(self).ram == old(self).ram,
            final(self).flash == old(self).flash,
            final(self).apsr() == old(self).apsr(),
            final(self).registers.is_msp == old(self).registers.is_msp,
            final(self).next_pc == old(self).next_pc,
            final(self).exception_stack@ == old(self).exception_stack@,
            final(self).Cpu_pipeline.remain_cycles == old(self).Cpu_pipeline.remain_cycles,
            final(self).interrupt_check_hint == old(self).interrupt_check_hint,
            final(self).pending_ppb_event_drain == old(self).pending_ppb_event_drain,
            final(self).ppb_nvic_index == old(self).ppb_nvic_index,
            final(self).ppb_systick_index == old(self).ppb_systick_index,
            final(self).peripheral_bus == old(self).peripheral_bus,
            final(self).ppb == old(self).ppb,
    {
        let sp = self.registers.reg[13];
        let ghost sp0 = sp;
        let mut frame = [0u32; 8];
        let mut i: usize = 0;
        while i < 8
            invariant
                i <= 8,
                self.wf(),
                old(self).wf(),
                sp0 == old(self).regs()[13],
                self.regs() == old(self).regs().update(13, sp0.wrapping_add((4 * i) as u32)),
                self.ram == old(self).ram,
                self.flash == old(self).flash,
                self.apsr() == old(self).apsr(),
                self.registers.is_msp == old(self).registers.is_msp,
                self.next_pc == old(self).next_pc,
                self.exception_stack@ == old(self).exception_stack@,
                self.Cpu_pipeline.remain_cycles == old(self).Cpu_pipeline.remain_cycles,
                self.interrupt_check_hint == old(self).interrupt_check_hint,
                self.pending_ppb_event_drain == old(self).pending_ppb_event_drain,
                self.ppb_nvic_index == old(self).ppb_nvic_index,
                self.ppb_systick_index == old(self).ppb_systick_index,
                self.peripheral_bus == old(self).peripheral_bus,
                self.ppb == old(self).ppb,
                old(self).frame_mapped(sp0),
                forall|k: int| 0 <= k < i ==> (old(self).word(frame_addr(sp0, k)) matches Some(w) ==> #[trigger] frame@[k] == w),
            decreases 8 - i,
        {
            assert(old(self).mapped(frame_addr(sp0, i as int)));
            assert(self.mapped(frame_addr(sp0, i as int)));
            assert(self.regs()[13] == frame_addr(sp0, i as int));
            let w = self.pop_stack_word();
            frame[i] = w;
            proof {
                let a = sp0.wrapping_add((4 * i) as u32);
                assert(a.wrapping_add(4) == sp0.wrapping_add((4 * (i + 1)) as u32));
            }
            i = i + 1;
        }
        frame
    }

    /// Records that the NVIC or SysTick raised an interrupt event since the last look.
    pub fn drain_interrupt_events(&mut self)
        requires
            old(self).wf(),
        ensures
            old(self).same_machine(final(self)),
            final(self).pending_ppb_event_drain == old(self).pending_ppb_event_drain,
            final(self).peripheral_schedule_dirty == old(self).peripheral_schedule_dirty,
            old(self).interrupt_check_hint ==> final(self).interrupt_check_hint,
            old(self).only_bus_side_changed(final(self)),
            final(self).peripheral_bus == old(self).peripheral_bus,
            exists|event: bool| #[trigger] old(self).events_noted(final(self), event),
            old(self).events_noted(final(self), old(self).ppb_events().0),
            final(self).ppb == old(self).ppb_events().1,
            old(self).ppb_nvic_index is None && old(self).ppb_systick_index is None ==> *final(self) == *old(self),
    {
        let mut has_event = false;
        match self.ppb_nvic_index {
            Some(index) => {
                let e = self.ppb.nvic_take_interrupt_event(index);
                has_event = has_event || e;
            },
            None => {},
        }
        match self.ppb_systick_index {
            Some(index) => {
                let e = self.ppb.systick_take_interrupt_event(index);
                has_event = has_event || e;
            },
            None => {},
        }
        if has_event {
            self.set_interrupt_check_hint(HINT_SRC_PERIPHERAL);
        }
        assert(old(self).events_noted(self, has_event));
    }

    /// The exception that should be taken now, chosen from the SysTick and NVIC state on the
    /// private bus (see `select_exception`).
    pub fn pick_preemptable_exception(&self) -> (r: Option<u32>)
        ensures
            r matches Some(e) ==> e == 15 || 16 <= e < 272,
            r matches Some(e) ==> exists|sp: u8, nvic: NvicState, pending: bool|
                #[trigger] eligible(e, self.exception_stack@, sp, nvic, pending),
            exists|sp: u8, nvic: NvicState, pending: bool|
                #[trigger] selected(self.exception_stack@, sp, nvic, pending, r)
                && (self.ppb_nvic_index is None ==> no_interrupt_state(nvic))
                && (self.ppb_systick_index is None ==> !pending),
            self.selection(r),
    {
        let systick_priority = ((self.ppb.read32(SCB_SHPR3_ADDR) >> 24) & 0xFF) as u8;
        let empty = NvicState { active_word_bitmap: 0, iabr: [0u32; 8], ipr: [0u8; 240] };
        let nvic = match self.ppb_nvic_index {
            Some(index) => match self.ppb.nvic_state(index) {
                Some(state) => state,
                None => empty,
            },
            None => empty,
        };
        let systick_pending = match self.ppb_systick_index {
            Some(index) => self.ppb.systick_is_interrupt_pending(index),
            None => false,
        };
        assert(self.ppb_nvic_index is None ==> no_interrupt_state(nvic));
        assert(self.nvic_now(nvic));
        let r = select_exception(&self.exception_stack, systick_priority, &nvic, systick_pending);
        assert(selected(self.exception_stack@, systick_priority, nvic, systick_pending, r));
        assert(self.selection(r));
        r
    }

    /// Enters exception `exception_num`: stacks the frame, loads the handler from the
    /// vector table and records the exception as active. Returns false, changing nothing,
    /// when the frame or the vector is outside mapped memory.
    pub fn enter_exception(&mut self, exception_num: u32) -> (entered: bool)
        requires
            old(self).wf(),
            exception_num < 0x4000_0000,
        ensures
            entered ==> old(self).entered_exception(final(self), exception_num, old(self).next_pc),
            !entered ==> old(self).same_machine(final(self)),
            final(self).wf(),
            final(self).pending_ppb_event_drain == old(self).pending_ppb_event_drain,
            final(self).Cpu_pipeline.remain_cycles == old(self).Cpu_pipeline.remain_cycles,
            exists|vector_base: u32| #[trigger] old(self).entry_through(final(self), exception_num, vector_base, entered),
            old(self).entry_through(final(self), exception_num, old(self).vector_base_now(), entered),
            entered && frame_in_ram(old(self).regs()[13].wrapping_sub(32)) ==> old(self).entry_buses(final(self), exception_num),
    {
        let vector_base = self.ppb.read32(SCB_VTOR_ADDR);
        self.enter_exception_at(exception_num, vector_base)
    }

    /// Enters exception `exception_num` with the vector table at `vector_base`; see
    /// `entry_through`.
    pub fn enter_exception_at(&mut self, exception_num: u32, vector_base: u32) -> (entered: bool)
        requires
            old(self).wf(),
            exception_num < 0x4000_0000,
        ensures
            old(self).entry_through(final(self), exception_num, vector_base, entered),
            entered && frame_in_ram(old(self).regs()[13].wrapping_sub(32)) ==> old(self).entry_buses(final(self), exception_num),
            final(self).wf(),
            final(self).pending_ppb_event_drain == old(self).pending_ppb_event_drain,
            final(self).Cpu_pipeline.remain_cycles == old(self).Cpu_pipeline.remain_cycles,
    {
        let vector_addr = vector_base.wrapping_add(exception_num * 4);
        let sp = self.registers.reg[13];
        let base = sp.wrapping_sub(32);
        if !self.is_mapped(vector_addr) || !self.is_frame_mapped(base) {
            return false;
        }
        let ghost old_self = *self;
        let return_pc = self.next_pc | 1;
        let return_lr = self.registers.reg[14];
        let xpsr = (self.registers.apsr & 0xF000_0000) | 0x0100_0000 | (exception_num & 0x1FF);
        let frame = [
            self.registers.reg[0],
            self.registers.reg[1],
            self.registers.reg[2],
            self.registers.reg[3],
            self.registers.reg[12],
            return_lr,
            return_pc,
            xpsr,
        ];
        assert(frame@ =~= old_self.entry_frame(exception_num, old_self.next_pc));
        if !self.push_exception_frame_fast(frame) {
            let mut k: usize = 8;
            while k > 0
                invariant
                    k <= 8,
                    self.wf(),
                    old_self.frame_mapped(base),
                    self.regs() == old_self.regs().update(13, base.wrapping_add((4 * k) as u32)),
                    self.apsr() == old_self.apsr(),
                    self.registers.is_msp == old_self.registers.is_msp,
                    self.next_pc == old_self.next_pc,
                    self.exception_stack@ == old_self.exception_stack@,
                    self.Cpu_pipeline.remain_cycles == old_self.Cpu_pipeline.remain_cycles,
                    self.pending_ppb_event_drain == old_self.pending_ppb_event_drain,
                    old_self.wf(),
                decreases k,
            {
                proof {
                    let a = base.wrapping_add((4 * k) as u32);
                    assert(a.wrapping_sub(4) == frame_addr(base, k - 1));
                    assert(old_self.mapped(frame_addr(base, k - 1)));
                    assert(self.mapped(frame_addr(base, k - 1)));
                }
                self.push_stack_word(frame[k - 1]);
                k = k - 1;
            }
            assert(base.wrapping_add(0) == base);
        }
        let exc_return = if self.exception_stack.len() == 0 {
            EXC_RETURN_THREAD_MSP
        } else {
            EXC_RETURN_HANDLER_MSP
        };
        self.registers.reg[14] = exc_return;
        let raw = self.read32(vector_addr);
        let handler = raw & !1u32;
        assert(handler & 1 == 0) by (bit_vector)
            requires
                handler == raw & !1u32,
        ;
        self.registers.reg[15] = handler;
        self.next_pc = handler;
        self.exception_stack.push(exception_num);
        if exception_num == SYSTICK_EXCEPTION_NUM {
            match self.ppb_systick_index {
                Some(index) => {
                    self.ppb.systick_clear_interrupt_pending(index);
                },
                None => {},
            }
        }
        true
    }
}

impl<B: PeripheralBus> Cpu<B> {
    fn try_take_interrupt_inner(&mut self) -> (taken: bool)
        requires
            old(self).wf(),
        ensures
            final(self).wf(),
            taken ==> exists|e: u32| #[trigger] old(self).entered_exception(final(self), e, old(self).next_pc),
            !taken ==> old(self).same_machine(final(self)),
            old(self).interrupt_check_hint ==> !final(self).interrupt_check_hint && final(self).interrupt_hint_source == HINT_SRC_NONE,
            !old(self).interrupt_check_hint ==> !taken && *final(self) == *old(self),
            final(self).Cpu_pipeline.remain_cycles == old(self).Cpu_pipeline.remain_cycles,
            final(self).pending_ppb_event_drain == old(self).pending_ppb_event_drain,
            old(self).interrupt_check_hint ==> old(self).interrupt_attempt(final(self), taken),
    {
        if !self.interrupt_check_hint {
            return false;
        }
        let ghost before = *self;
        let picked = self.pick_preemptable_exception();
        match picked {
            Some(exception_num) => {
                if self.enter_exception(exception_num) {
                    let ghost entered = *self;
                    self.clear_interrupt_check_hint();
                    proof {
                        assert(before.entered_exception(self, exception_num, before.next_pc));
                        assert(before.entry_through(&entered, exception_num, before.vector_base_now(), true) && *self == entered.without_hint());
                        assert(before.selection(picked));
                    }
                    return true;
                } else {
                    let ghost entered = *self;
                    self.clear_interrupt_check_hint();
                    proof {
                        assert(before.entry_through(&entered, exception_num, before.vector_base_now(), false) && *self == entered.without_hint());
                        assert(before.selection(picked));
                    }
                    return false;
                }
            },
            None => {},
        }
        self.clear_interrupt_check_hint();
        assert(before.selection(picked));
        false
    }

    /// Takes the most urgent pending exception when the interrupt-check hint is set.
    /// The hint is cleared whenever it was looked at.
    pub fn try_take_interrupt(&mut self) -> (taken: bool)
        requires
            old(self).wf(),
        ensures
            final(self).wf(),
            taken ==> exists|e: u32| #[trigger] old(self).entered_exception(final(self), e, old(self).next_pc),
            !taken ==> old(self).same_machine(final(self)),
            old(self).interrupt_check_hint ==> !final(self).interrupt_check_hint && final(self).interrupt_hint_source == HINT_SRC_NONE,
            !old(self).interrupt_check_hint ==> !taken && *final(self) == *old(self),
            final(self).Cpu_pipeline.remain_cycles == old(self).Cpu_pipeline.remain_cycles,
            final(self).pending_ppb_event_drain == old(self).pending_ppb_event_drain,
            old(self).interrupt_check_hint ==> old(self).interrupt_attempt(final(self), taken),
    {
        if !self.interrupt_check_hint {
            return false;
        }
        self.try_take_interrupt_inner()
    }

    /// Returns from the innermost exception when `exc_return` is an EXC_RETURN value and an
    /// exception is active; otherwise changes nothing and returns false.
    pub fn try_exception_return(&mut self, exc_return: u32) -> (returned: bool)
        requires
            old(self).wf(),
            exc_return_value(exc_return) && old(self).exception_stack@.len() > 0 ==> old(self).frame_mapped(old(self).regs()[13]),
        ensures
            final(self).wf(),
            returned == (exc_return_value(exc_return) && old(self).exception_stack@.len() > 0),
            returned ==> old(self).returned_from_exception(final(self)),
            returned ==> final(self).peripheral_bus == old(self).peripheral_bus
                && final(self).ppb == old(self).return_ppb(old(self).exception_stack@.last()),
            !returned ==> *final(self) == *old(self),
            final(self).pending_ppb_event_drain == old(self).pending_ppb_event_drain,
    {
        if !is_exc_return(exc_return) || self.exception_stack.len() == 0 {
            return false;
        }
        let ghost old_self = *self;
        let frame = self.pop_exception_frame();
        self.registers.reg[0] = frame[0];
        self.registers.reg[1] = frame[1];
        self.registers.reg[2] = frame[2];
        self.registers.reg[3] = frame[3];
        self.registers.reg[12] = frame[4];
        self.registers.reg[14] = frame[5];
        let xpsr = frame[7];
        self.registers.apsr = xpsr & 0xF000_0000;
        let pc = frame[6];
        let target_pc = pc & !1u32;
        assert(target_pc & 1 == 0 && (xpsr & 0xF000_0000) & 0x0FFF_FFFF == 0) by (bit_vector)
            requires
                target_pc == pc & !1u32,
        ;
        self.registers.reg[15] = target_pc;
        self.next_pc = target_pc;
        let popped = self.exception_stack.pop();
        match popped {
            Some(exception_num) => {
                if exception_num >= 16 {
                    match self.ppb_nvic_index {
                        Some(index) => {
                            self.ppb.nvic_clear_active_irq(index, exception_num - 16);
                        },
                        None => {},
                    }
                }
            },
            None => {},
        }
        let ghost mid = *self;
        self.drain_interrupt_events();
        self.set_interrupt_check_hint(HINT_SRC_OTHER);
        proof {
            assert(self.exception_stack@ =~= old_self.exception_stack@.drop_last());
            assert(forall|r: int| 4 <= r < 12 ==> #[trigger] self.regs()[r] == old_self.regs()[r]);
        }
        true
    }

    /// Starts a step: drains private-bus events, takes a pending interrupt, or spends one
    /// stall cycle of the previous instruction. `None` means an instruction should execute.
    pub fn begin_step(&mut self) -> (r: Option<u32>)
        requires
            old(self).wf(),
        ensures
            final(self).wf(),
            r is None || r == Some(1u32),
            !final(self).pending_ppb_event_drain,
            r is None ==> old(self).same_machine(final(self)) && old(self).Cpu_pipeline.remain_cycles == 0,
            old(self).begins_step(final(self), r),
            !old(self).interrupt_check_hint && !old(self).pending_ppb_event_drain ==> old(self).stall_or_run(final(self), r),
            r is Some ==> (exists|e: u32| #[trigger] old(self).entered_exception(final(self), e, old(self).next_pc)
                && final(self).Cpu_pipeline.remain_cycles == old(self).Cpu_pipeline.remain_cycles)
                || (old(self).Cpu_pipeline.remain_cycles > 0 && final(self).Cpu_pipeline.remain_cycles
                    == old(self).Cpu_pipeline.remain_cycles - 1 && final(self).regs() == old(self).regs()
                    && final(self).apsr() == old(self).apsr() && final(self).ram == old(self).ram
                    && final(self).flash == old(self).flash && final(self).next_pc == old(self).next_pc
                    && final(self).exception_stack@ == old(self).exception_stack@),
    {
        if self.pending_ppb_event_drain {
            self.drain_interrupt_events();
            let ghost after_drain = *self;
            self.pending_ppb_event_drain = false;
            proof {
                let event = choose|event: bool| #[trigger] old(self).events_noted(&after_drain, event);
                assert(old(self).events_noted(self, event));
            }
        }
        let ghost mid = *self;
        assert(old(self).drained_for_step(&mid));
        if self.interrupt_check_hint {
            let taken = self.try_take_interrupt();
            let ghost looked = *self;
            if taken {
                proof {
                    let e = choose|e: u32| #[trigger] mid.entered_exception(self, e, mid.next_pc);
                    assert(old(self).entered_exception(self, e, old(self).next_pc));
                    assert(mid.interrupt_attempt(&looked, taken));
                    assert(mid.step_started(self, Some(1u32)));
                }
                return Some(1);
            }
            let r = self.count_down_stall();
            proof {
                assert(mid.interrupt_attempt(&looked, taken));
                assert(mid.step_started(self, r));
            }
            r
        } else {
            self.count_down_stall()
        }
    }

    /// Spends one stall cycle of the previous instruction when any remain.
    fn count_down_stall(&mut self) -> (r: Option<u32>)
        ensures
            old(self).stall_or_run(final(self), r),
    {
        if self.Cpu_pipeline.remain_cycles > 0 {
            self.Cpu_pipeline.remain_cycles = self.Cpu_pipeline.remain_cycles - 1;
            return Some(1);
        }
        None
    }

    /// Sets the next PC from the step's PC update (0 means the instruction wrote PC).
    fn update_pc_with_current(&mut self, current_pc: u32, update: u32)
        ensures
            final(self).next_pc == (if update == 0 { old(self).regs()[15] } else { current_pc.wrapping_add(update) }),
            final(self).registers == old(self).registers,
            final(self).ram == old(self).ram,
            final(self).flash == old(self).flash,
            final(self).exception_stack == old(self).exception_stack,
            final(self).Cpu_pipeline == old(self).Cpu_pipeline,
            final(self).interrupt_check_hint == old(self).interrupt_check_hint,
            final(self).interrupt_hint_source == old(self).interrupt_hint_source,
            final(self).pending_ppb_event_drain == old(self).pending_ppb_event_drain,
            final(self).ppb_nvic_index == old(self).ppb_nvic_index,
            final(self).ppb_systick_index == old(self).ppb_systick_index,
            final(self).peripheral_tick_mask == old(self).peripheral_tick_mask,
            *final(self) == (Cpu { next_pc: final(self).next_pc, ..*old(self) }),
    {
        if update == 0 {
            self.next_pc = self.registers.reg[15];
        } else {
            self.next_pc = current_pc.wrapping_add(update);
        }
    }

    /// Finishes a step: sets the next PC, charges the remaining execute cycles as stalls,
    /// and takes a pending interrupt. Always one cycle.
    pub fn finish_step_cycles(&mut self, execute_cycles: u32, current_pc: u32, pc_update: u32) -> (cycles: u32)
        requires
            old(self).wf(),
        ensures
            cycles == 1,
            final(self).wf(),
            ({
                let next = next_pc_after(old(self).regs()[15], current_pc, pc_update);
                let stall = if execute_cycles == 0 { 0 } else { (execute_cycles - 1) as u32 };
                &&& final(self).Cpu_pipeline.remain_cycles == stall
                &&& old(self).step_ended(final(self), next, stall)
                &&& (exists|e: u32| #[trigger] old(self).entered_exception(final(self), e, next))
                    || (final(self).next_pc == next && final(self).regs() == old(self).regs()
                        && final(self).apsr() == old(self).apsr() && final(self).ram == old(self).ram
                        && final(self).flash == old(self).flash
                        && final(self).exception_stack@ == old(self).exception_stack@)
            }),
            final(self).pending_ppb_event_drain == old(self).pending_ppb_event_drain,
    {
        self.update_pc_with_current(current_pc, pc_update);
        self.Cpu_pipeline.remain_cycles = execute_cycles.saturating_sub(1);
        let ghost mid = *self;
        assert(self.Cpu_pipeline.remain_cycles == (if execute_cycles == 0 { 0 } else { (execute_cycles - 1) as u32 }));
        assert(mid == (Cpu { next_pc: mid.next_pc, Cpu_pipeline: Cpu_pipeline { remain_cycles: mid.Cpu_pipeline.remain_cycles }, ..*old(self) }));
        if self.interrupt_check_hint {
            let taken = self.try_take_interrupt();
            proof {
                assert(mid.interrupt_attempt(self, taken));
                if taken {
                    let e = choose|e: u32| #[trigger] mid.entered_exception(self, e, mid.next_pc);
                    assert(old(self).entered_exception(self, e, mid.next_pc));
                    assert(mid.next_pc == (if pc_update == 0 { old(self).regs()[15] } else { current_pc.wrapping_add(pc_update) }));
                } else {
                    assert(self.next_pc == mid.next_pc);
                }
            }
        }
        1
    }

    /// Advances the peripherals by one cycle: every outcome is one that
    /// `peripheral_step_n(1)` allows, and back.
    pub fn peripheral_step(&mut self)
        requires
            old(self).wf(),
        ensures
            old(self).peripheral_steps(final(self), 1),
    {
        self.peripheral_step_n(1);
    }

    /// Advances the peripherals of both buses by `cycles`, forwarding interrupt requests of
    /// the peripheral bus to the NVIC and noting events of the private bus.
    pub fn peripheral_step_n(&mut self, cycles: u32)
        requires
            old(self).wf(),
        ensures
            old(self).peripheral_steps(final(self), cycles),
    {
        let tick_mask = self.peripheral_tick_mask;
        assert(tick_mask & 3 == 0 <==> (tick_mask & 1 == 0 && tick_mask & 2 == 0)) by (bit_vector);
        assert(tick_mask == 0 ==> tick_mask & 1 == 0 && tick_mask & 2 == 0) by (bit_vector);
        if cycles == 0 {
            assert(old(self).peripherals_stepped(self, cycles, false, false));
            return;
        }
        if tick_mask == 0 {
            assert(old(self).peripherals_stepped(self, cycles, false, false));
            return;
        }
        let mut has_peripheral_event = false;
        let mut has_ppb_event = false;
        if (tick_mask & 1) != 0 {
            has_peripheral_event = self.peripheral_bus.tick_n(cycles);
            if has_peripheral_event {
                self.drain_peripheral_bus_irqs();
            }
        }
        if (tick_mask & 2) != 0 {
            has_ppb_event = self.ppb.tick_n(cycles);
            if has_ppb_event {
                self.pending_ppb_event_drain = true;
            }
        }
        if has_peripheral_event || has_ppb_event {
            self.set_interrupt_check_hint(HINT_SRC_PERIPHERAL);
        }
        assert(old(self).peripherals_stepped(self, cycles, has_peripheral_event, has_ppb_event));
    }

    /// Cycles until the earlier of the two buses' next events.
    pub fn next_peripheral_event_in_cycles(&self) -> (r: Option<u32>)
        ensures
            self.peripheral_tick_mask == 0 ==> r is None,
            exists|p: Option<u32>, q: Option<u32>| #[trigger] self.next_event_from(p, q, r),
            r == self.next_event_now(),
    {
        let tick_mask = self.peripheral_tick_mask;
        if tick_mask == 0 {
            assert(0u8 & 1 == 0 && 0u8 & 2 == 0) by (bit_vector);
            assert(self.next_event_from(None, None, None));
            return None;
        }
        let peripheral_next = if (tick_mask & 1) != 0 {
            self.peripheral_bus.next_event_in_cycles()
        } else {
            None
        };
        let ppb_next = if (tick_mask & 2) != 0 {
            self.ppb.next_event_in_cycles()
        } else {
            None
        };
        let r = min_option(peripheral_next, ppb_next);
        assert(self.next_event_from(peripheral_next, ppb_next, r));
        r
    }

    /// Reads and clears the "peripheral schedule changed" flag.
    pub fn take_and_clear_peripheral_schedule_dirty(&mut self) -> (dirty: bool)
        ensures
            dirty == old(self).peripheral_schedule_dirty,
            !final(self).peripheral_schedule_dirty,
            *final(self) == (Cpu { peripheral_schedule_dirty: false, ..*old(self) }),
            old(self).same_machine(final(self)),
            final(self).interrupt_check_hint == old(self).interrupt_check_hint,
            final(self).peripheral_next_due_cycle == old(self).peripheral_next_due_cycle,
    {
        let dirty = self.peripheral_schedule_dirty;
        self.peripheral_schedule_dirty = false;
        dirty
    }

    /// Schedules the next peripheral catch-up at `due_cycle(system_cycles, max_lag_cycles, e)`
    /// for the next peripheral event `e`: no later than `max_lag_cycles` (at least one)
    /// cycles after `system_cycles`, earlier when a peripheral event is due sooner.
    pub fn refresh_peripheral_due_cycle(&mut self, system_cycles: u64, max_lag_cycles: u32)
        ensures
            old(self).same_machine(final(self)),
            *final(self) == (Cpu { peripheral_next_due_cycle: final(self).peripheral_next_due_cycle, ..*old(self) }),
            exists|p: Option<u32>, q: Option<u32>, e: Option<u32>| #[trigger] old(self).next_event_from(p, q, e)
                && final(self).peripheral_next_due_cycle == due_cycle(system_cycles, max_lag_cycles, e),
            final(self).peripheral_next_due_cycle == due_cycle(system_cycles, max_lag_cycles, old(self).next_event_now()),
            *final(self) == due_refreshed(*old(self), system_cycles, max_lag_cycles),
            ({
                let max_lag = if max_lag_cycles == 0 { 1u32 } else { max_lag_cycles };
                let due = final(self).peripheral_next_due_cycle;
                &&& system_cycles < due || due == u64::MAX
                &&& due <= system_cycles + max_lag
                &&& (old(self).peripheral_tick_mask == 0 ==> due == (if system_cycles + max_lag > u64::MAX { u64::MAX as int } else { system_cycles + max_lag }))
            }),
    {
        let next = self.next_peripheral_event_in_cycles();
        self.peripheral_next_due_cycle = due_cycle_after(system_cycles, max_lag_cycles, next);
    }

    pub fn peripheral_due_cycle(&self) -> (due: u64)
        ensures
            due == self.peripheral_next_due_cycle,
    {
        self.peripheral_next_due_cycle
    }

    /// Forwards up to eight interrupt requests raised on the peripheral bus to the NVIC
    /// by setting their bits in the interrupt set-pending registers.
    fn drain_peripheral_bus_irqs(&mut self)
        requires
            old(self).wf(),
        ensures
            old(self).same_machine(final(self)),
            final(self).pending_ppb_event_drain == old(self).pending_ppb_event_drain,
            old(self).only_bus_side_changed(final(self)),
            (old(self).same_hint(final(self)) && final(self).ppb == old(self).ppb) || final(self).peripheral_hint(),
            (final(self).peripheral_bus, final(self).ppb) == irqs_forwarded(old(self).peripheral_bus, old(self).ppb),
    {
        if !self.peripheral_bus.has_irq_sources() {
            return;
        }
        let ghost irqs = pending_irqs(self.peripheral_bus);
        let pending = self.peripheral_bus.drain_pending_irqs();
        assert(pending@ =~= irqs);
        let count = if pending.len() < 8 { pending.len() } else { 8 };
        if count == 0 {
            assert(irqs.take(0) =~= Seq::<u32>::empty());
            return;
        }
        let mut i: usize = 0;
        assert(irqs.take(0) =~= Seq::<u32>::empty());
        while i < count
            invariant
                count <= pending.len(),
                count == forwarded_count(irqs.len() as int),
                pending@ == irqs,
                i <= count,
                self.peripheral_bus == old(self).peripheral_bus.after_irq_drain(),
                self.ppb == ispr_writes(old(self).ppb, irqs.take(i as int)),
                old(self).same_machine(self),
                self.pending_ppb_event_drain == old(self).pending_ppb_event_drain,
                old(self).only_bus_side_changed(self),
                old(self).same_hint(self),
            decreases count - i,
        {
            assert(irqs.take(i as int + 1).drop_last() =~= irqs.take(i as int));
            let irq = pending[i];
            let index = irq / 32;
            let bit_index = irq % 32;
            let addr = NVIC_ISPR_BASE.wrapping_add(index.wrapping_mul(4));
            assert(irqs.take(i as int + 1).last() == irq && addr == ispr_addr(irq));
            let _ = self.ppb.write32(addr, 1u32 << bit_index);
            i = i + 1;
        }
        self.set_interrupt_check_hint(HINT_SRC_PERIPHERAL);
    }

    /// Sets the next PC relative to the prefetched PC (current + 4); 0 means the
    /// instruction wrote PC itself.
    pub fn update_pc(&mut self, update: u32)
        ensures
            final(self).next_pc == (if update == 0 { old(self).regs()[15] } else { old(self).regs()[15].wrapping_sub(4).wrapping_add(update) }),
            final(self).registers == old(self).registers,
            final(self).ram == old(self).ram,
            final(self).flash == old(self).flash,
            final(self).exception_stack == old(self).exception_stack,
            *final(self) == (Cpu { next_pc: final(self).next_pc, ..*old(self) }),
    {
        if update == 0 {
            self.next_pc = self.registers.reg[15];
        } else {
            self.next_pc = self.registers.reg[15].wrapping_sub(4).wrapping_add(update);
        }
    }

    /// Sets PC to the architectural value seen by the instruction at `current_pc`.
    pub fn prefetch_next_pc(&mut self, current_pc: u32)
        ensures
            final(self).regs() == old(self).regs().update(15, current_pc.wrapping_add(4)),
            final(self).same_except_regs(old(self)),
            final(self).apsr() == old(self).apsr(),
    {
        self.registers.reg[15] = current_pc.wrapping_add(4);
    }

    /// Resets the core: PC set to `reset_vector` and execution to continue there, the other
    /// registers and APSR cleared, main stack selected, no active exception.
    pub fn reset_handler(&mut self, reset_vector: u32)
        ensures
            final(self).next_pc == reset_vector,
            final(self).regs() == Seq::new(16, |i: int| if i == 15 { reset_vector } else { 0u32 }),
            final(self).apsr() == 0,
            final(self).registers.is_msp,
            final(self).exception_stack@.len() == 0,
            final(self).interrupt_check_hint,
            final(self).interrupt_hint_source == HINT_SRC_OTHER,
            !final(self).pending_ppb_event_drain,
            final(self).peripheral_schedule_dirty,
            final(self).peripheral_next_due_cycle == 0,
            final(self).ram == old(self).ram,
            final(self).flash == old(self).flash,
            final(self).Cpu_pipeline == old(self).Cpu_pipeline,
    {
        self.next_pc = reset_vector;
        self.registers.reg = [0u32; 16];
        self.registers.reg[15] = reset_vector;
        self.registers.apsr = 0;
        self.registers.is_msp = true;
        self.exception_stack.clear();
        self.interrupt_check_hint = true;
        self.interrupt_hint_source = HINT_SRC_OTHER;
        self.pending_ppb_event_drain = false;
        self.peripheral_schedule_dirty = true;
        self.peripheral_next_due_cycle = 0;
        assert(self.regs() =~= Seq::new(16, |i: int| if i == 15 { reset_vector } else { 0u32 }));
    }
}

/// The address of the next instruction after a step at `current_pc` whose PC update is
/// `pc_update`; 0 means the instruction itself wrote `pc`.
pub open spec fn next_pc_after(pc: u32, current_pc: u32, pc_update: u32) -> u32 {
    if pc_update == 0 { pc } else { current_pc.wrapping_add(pc_update) }
}

/// The cycle at which peripherals next need a catch-up: `system_cycles` plus the distance
/// to the next event `next`, clamped to at least one and at most `max_lag_cycles` (itself at
/// least one; a missing event counts as that limit), saturating at the largest cycle count.
pub open spec fn due_cycle(system_cycles: u64, max_lag_cycles: u32, next: Option<u32>) -> u64 {
    let max_lag: u32 = if max_lag_cycles == 0 { 1 } else { max_lag_cycles };
    let n: u32 = match next {
        Some(x) => x,
        None => max_lag,
    };
    let delta: u32 = if n == 0 { 1 } else if n > max_lag { max_lag } else { n };
    if system_cycles + delta > u64::MAX { u64::MAX } else { (system_cycles + delta) as u64 }
}

/// `c` with its next peripheral due cycle computed anew at `system_cycles` from the next
/// event of its buses.
pub open spec fn due_refreshed<B: PeripheralBus>(c: Cpu<B>, system_cycles: u64, max_lag_cycles: u32) -> Cpu<B> {
    Cpu { peripheral_next_due_cycle: due_cycle(system_cycles, max_lag_cycles, c.next_event_now()), ..c }
}

/// Computes `due_cycle(system_cycles, max_lag_cycles, next)`.
pub fn due_cycle_after(system_cycles: u64, max_lag_cycles: u32, next: Option<u32>) -> (due: u64)
    ensures
        due == due_cycle(system_cycles, max_lag_cycles, next),
{
    let max_lag = if max_lag_cycles == 0 { 1u32 } else { max_lag_cycles };
    let next = match next {
        Some(n) => n,
        None => max_lag,
    };
    let at_least_one = if next == 0 { 1u32 } else { next };
    let next_delta = if at_least_one > max_lag { max_lag } else { at_least_one };
    system_cycles.saturating_add(next_delta as u64)
}

/// The smaller of two optional cycle counts; a missing one does not count.
pub fn min_option(a: Option<u32>, b: Option<u32>) -> (r: Option<u32>)
    ensures
        r == match (a, b) {
            (Some(x), Some(y)) => Some(if x < y { x } else { y }),
            (Some(x), None) => Some(x),
            (None, Some(y)) => Some(y),
            (None, None) => None,
        },
{
    match (a, b) {
        (Some(x), Some(y)) => Some(if x < y { x } else { y }),
        (Some(x), None) => Some(x),
        (None, Some(y)) => Some(y),
        (None, None) => None,
    }
}

/// What an advance of the peripherals leaves for the next step start. An event on the
/// private bus sets the drain flag, so the next `begin_step` drains the private bus's
/// interrupt events first; an event on either bus sets the hint, so the next `begin_step`
/// looks for an exception to take (and a taken one is the step's result); with no event
/// the hint and the drain flag are as before.
pub proof fn lemma_peripheral_events_reach_next_step<B: PeripheralBus>(
    c0: Cpu<B>,
    c1: Cpu<B>,
    c2: Cpu<B>,
    cycles: u32,
    pe: bool,
    ppe: bool,
    r: Option<u32>,
)
    requires
        c0.peripherals_stepped(&c1, cycles, pe, ppe),
        c1.begins_step(&c2, r),
    ensures
        ppe ==> c1.pending_ppb_event_drain,
        ppe ==> exists|d: Cpu<B>| #[trigger] c1.drained_for_step(&d) && c1.only_bus_side_changed(&d)
            && !d.pending_ppb_event_drain && exists|event: bool| #[trigger] c1.events_noted(&d, event),
        pe || ppe ==> exists|d: Cpu<B>, taken: bool, looked: Cpu<B>|
            #[trigger] c1.drained_for_step(&d) && #[trigger] d.interrupt_attempt(&looked, taken)
            && (taken ==> c2 == looked && r == Some(1u32)),
        !pe && !ppe ==> c0.same_hint(&c1) && c1.pending_ppb_event_drain == c0.pending_ppb_event_drain,
{
    let d = choose|d: Cpu<B>| #[trigger] c1.drained_for_step(&d) && d.step_started(&c2, r);
    if pe || ppe {
        assert(c1.interrupt_check_hint);
        assert(d.interrupt_check_hint);
        let (taken, looked) = choose|taken: bool, looked: Cpu<B>| #[trigger] d.interrupt_attempt(&looked, taken)
            && if taken { r == Some(1u32) && c2 == looked } else { looked.stall_or_run(&c2, r) };
        assert(c1.drained_for_step(&d) && d.interrupt_attempt(&looked, taken));
    }
}

/// Exception return undoes exception entry. Right after entering an exception (as
/// `enter_exception` does), LR holds an EXC_RETURN value, an exception is active and the
/// stacked frame is mapped, so `try_exception_return` with that LR returns; returning then
/// resumes the interrupted code as it was: R0-R12, LR and SP are restored, the APSR keeps
/// its condition flags, the active exceptions are those from before, and execution
/// continues at the return address with bit 0 cleared. (Stated for a frame that lies in
/// RAM.)
pub proof fn lemma_exception_entry_then_return<B>(
    s0: Cpu<B>,
    s1: Cpu<B>,
    s2: Cpu<B>,
    exception_num: u32,
    return_pc: u32,
)
    requires
        s0.wf(),
        s0.entered_exception(&s1, exception_num, return_pc),
        frame_in_ram(s0.regs()[13].wrapping_sub(32)),
        s1.returned_from_exception(&s2),
    ensures
        exc_return_value(s1.regs()[14]),
        s1.exception_stack@.len() > 0,
        s1.frame_mapped(s1.regs()[13]),
        forall|r: int| 0 <= r < 13 ==> #[trigger] s2.regs()[r] == s0.regs()[r],
        s2.regs()[13] == s0.regs()[13],
        s2.regs()[14] == s0.regs()[14],
        s2.regs()[15] == return_pc & !1u32,
        s2.next_pc == return_pc & !1u32,
        s2.apsr() == s0.apsr() & 0xF000_0000,
        s2.exception_stack@ == s0.exception_stack@,
        s2.ram@ == s1.ram@,
{
    let sp = s0.regs()[13];
    let base = sp.wrapping_sub(32);
    let off = base - RAM_BASE;
    let frame = s0.entry_frame(exception_num, return_pc);
    lemma_store_words(s0.ram@, off, frame);
    assert(s1.regs()[13] == base);
    assert forall|i: int| 0 <= i < 8 implies #[trigger] s1.word(frame_addr(base, i)) == Some(frame[i]) by {
        assert(frame_addr(base, i) == base + 4 * i);
        assert(le32(s1.ram@, off + 4 * i) == frame[i]);
    }
    assert(s1.word(frame_addr(base, 0)) == Some(frame[0]));
    assert(s1.word(frame_addr(base, 1)) == Some(frame[1]));
    assert(s1.word(frame_addr(base, 2)) == Some(frame[2]));
    assert(s1.word(frame_addr(base, 3)) == Some(frame[3]));
    assert(s1.word(frame_addr(base, 4)) == Some(frame[4]));
    assert(s1.word(frame_addr(base, 5)) == Some(frame[5]));
    assert(s1.word(frame_addr(base, 6)) == Some(frame[6]));
    assert(s1.word(frame_addr(base, 7)) == Some(frame[7]));
    let apsr = s0.apsr();
    assert(((return_pc | 1) & !1u32) == return_pc & !1u32) by (bit_vector);
    assert((((apsr & 0xF000_0000) | 0x0100_0000 | (exception_num & 0x1FF)) & 0xF000_0000) == apsr
        & 0xF000_0000) by (bit_vector);
    assert(s2.exception_stack@ =~= s0.exception_stack@);
    assert(exc_return_value(EXC_RETURN_THREAD_MSP) && exc_return_value(EXC_RETURN_HANDLER_MSP)) by (bit_vector);
    assert forall|i: int| 0 <= i < 8 implies #[trigger] s1.mapped(frame_addr(base, i)) by {
        assert(frame_addr(base, i) == base + 4 * i);
        assert(s1.word(frame_addr(base, i)) is Some);
    }
}

/// A word written to RAM or flash (as `write32` stores it) reads back as written, and a
/// word of the same region that does not overlap it reads as before.
pub proof fn lemma_write_then_read<B: PeripheralBus>(c0: Cpu<B>, c1: Cpu<B>, addr: u32, v: u32, other: u32)
    requires
        c0.wf(),
        c0.mapped(addr),
        region_of(addr) is Ram || region_of(addr) is Flash,
        c0.stored(&c1, addr, v),
    ensures
        c1.word(addr) == Some(v),
        c1.value_at(addr) == v,
        c0.mapped(other) && region_of(other) == region_of(addr) && (other + 4 <= addr || addr + 4 <= other)
            ==> c1.word(other) == c0.word(other),
{
    if region_of(addr) is Ram {
        lemma_store_then_load(c0.ram@, addr - RAM_BASE, v);
        if c0.mapped(other) && region_of(other) == region_of(addr) && (other + 4 <= addr || addr + 4 <= other) {
            lemma_store_disjoint_load(c0.ram@, addr - RAM_BASE, v, other - RAM_BASE);
        }
    } else {
        lemma_store_then_load(c0.flash@, addr - FLASH_BASE, v);
        if c0.mapped(other) && region_of(other) == region_of(addr) && (other + 4 <= addr || addr + 4 <= other) {
            lemma_store_disjoint_load(c0.flash@, addr - FLASH_BASE, v, other - FLASH_BASE);
        }
    }
}

/// `c` with `k` stall cycles left.
pub open spec fn with_stalls<B>(c: Cpu<B>, k: u32) -> Cpu<B> {
    Cpu { Cpu_pipeline: Cpu_pipeline { remain_cycles: k }, ..c }
}

/// The stall countdown: with the interrupt-check hint and the drain flag clear, successive
/// step starts (`cs[i + 1]` and `rs[i]` being what `begin_step` makes of `cs[i]`) spend the
/// stall cycles one at a time. The first `remain_cycles` of them take one cycle each and
/// change nothing but the count; every later one asks for an instruction and changes
/// nothing.
pub proof fn lemma_stall_countdown<B: PeripheralBus>(cs: Seq<Cpu<B>>, rs: Seq<Option<u32>>)
    requires
        cs.len() == rs.len() + 1,
        !cs[0].interrupt_check_hint,
        !cs[0].pending_ppb_event_drain,
        forall|i: int| 0 <= i < rs.len() ==> #[trigger] cs[i].begins_step(&cs[i + 1], rs[i]),
    ensures
        forall|i: int| 0 <= i < rs.len() ==> #[trigger] rs[i] == (if i < cs[0].Cpu_pipeline.remain_cycles {
            Some(1u32)
        } else {
            None::<u32>
        }),
        forall|i: int| 0 <= i < cs.len() ==> #[trigger] cs[i] == with_stalls(cs[0], (if i < cs[0].Cpu_pipeline.remain_cycles {
            cs[0].Cpu_pipeline.remain_cycles - i
        } else {
            0
        }) as u32),
{
    lemma_stall_countdown_upto(cs, rs, rs.len() as int);
}

proof fn lemma_stall_countdown_upto<B: PeripheralBus>(cs: Seq<Cpu<B>>, rs: Seq<Option<u32>>, n: int)
    requires
        cs.len() == rs.len() + 1,
        0 <= n <= rs.len(),
        !cs[0].interrupt_check_hint,
        !cs[0].pending_ppb_event_drain,
        forall|i: int| 0 <= i < rs.len() ==> #[trigger] cs[i].begins_step(&cs[i + 1], rs[i]),
    ensures
        forall|i: int| 0 <= i < n ==> #[trigger] rs[i] == (if i < cs[0].Cpu_pipeline.remain_cycles {
            Some(1u32)
        } else {
            None::<u32>
        }),
        forall|i: int| 0 <= i <= n ==> #[trigger] cs[i] == with_stalls(cs[0], (if i < cs[0].Cpu_pipeline.remain_cycles {
            cs[0].Cpu_pipeline.remain_cycles - i
        } else {
            0
        }) as u32),
    decreases n,
{
    let k0 = cs[0].Cpu_pipeline.remain_cycles;
    if n == 0 {
        assert(cs[0] == with_stalls(cs[0], k0));
    } else {
        lemma_stall_countdown_upto(cs, rs, n - 1);
        let c = cs[n - 1];
        assert(c == with_stalls(cs[0], (if n - 1 < k0 { k0 - (n - 1) } else { 0 }) as u32));
        let m = n - 1;
        assert(cs[m].begins_step(&cs[m + 1], rs[m]));
        assert(m + 1 == n);
        let d = choose|d: Cpu<B>| #[trigger] c.drained_for_step(&d) && d.step_started(&cs[n], rs[n - 1]);
        assert(d == c);
        assert(c.stall_or_run(&cs[n], rs[n - 1]));
        assert(cs[n] == with_stalls(cs[0], (if n < k0 { k0 - n } else { 0 }) as u32));
    }
}

/// `try_exception_return` undoes `enter_exception`: when exception `exception_num` was
/// entered through the vector table at `vector_base` (`entered` being true in the contract
/// of `enter_exception_at`) with the frame in RAM, LR then holds an EXC_RETURN value, so
/// `try_exception_return` with it returns; what it returns to has R0-R12, LR and SP as
/// before the entry, PC and the next PC at the interrupted address with bit 0 cleared, the
/// APSR's condition flags, and the active exceptions from before.
pub proof fn lemma_exception_return_undoes_entry<B>(
    s0: Cpu<B>,
    s1: Cpu<B>,
    s2: Cpu<B>,
    exception_num: u32,
    vector_base: u32,
)
    requires
        s0.wf(),
        s0.entry_through(&s1, exception_num, vector_base, true),
        frame_in_ram(s0.regs()[13].wrapping_sub(32)),
        s1.returned_from_exception(&s2),
    ensures
        exc_return_value(s1.regs()[14]),
        s1.exception_stack@.len() > 0,
        s1.frame_mapped(s1.regs()[13]),
        forall|r: int| 0 <= r < 15 ==> #[trigger] s2.regs()[r] == s0.regs()[r],
        s2.regs()[15] == s0.next_pc & !1u32,
        s2.next_pc == s0.next_pc & !1u32,
        s2.apsr() == s0.apsr() & 0xF000_0000,
        s2.exception_stack@ == s0.exception_stack@,
{
    lemma_exception_entry_then_return(s0, s1, s2, exception_num, s0.next_pc);
}

/// Advancing the peripherals has one outcome: two cores that start alike end alike, so
/// `peripheral_step()` leaves a core exactly as `peripheral_step_n(1)` leaves a copy of it.
pub proof fn lemma_peripheral_steps_one_outcome<B: PeripheralBus>(c: Cpu<B>, n1: Cpu<B>, n2: Cpu<B>, cycles: u32)
    requires
        c.peripheral_steps(&n1, cycles),
        c.peripheral_steps(&n2, cycles),
    ensures
        n1 == n2,
{
    let (pb, ppb, pe, ppe) = c.stepped_buses(cycles);
    assert(c.peripherals_stepped(&n1, cycles, pe, ppe));
    assert(c.peripherals_stepped(&n2, cycles, pe, ppe));
    assert(n1.interrupt_check_hint == n2.interrupt_check_hint);
    assert(n1.interrupt_hint_source == n2.interrupt_hint_source);
}

/// No exception can be taken at a step start from `c`: whatever the drain leaves, if it
/// looks for an exception the selection finds none.
pub open spec fn nothing_takeable<B: PeripheralBus>(c: Cpu<B>) -> bool {
    forall|d: Cpu<B>, r: Option<u32>| #[trigger] c.drained_for_step(&d) && d.interrupt_check_hint && #[trigger] d.selection(r)
        ==> r is None
}

/// The stall countdown whenever no exception becomes takeable: successive step starts
/// (`cs[i + 1]` and `rs[i]` being what `begin_step` makes of `cs[i]`), none of which can
/// take an exception (the hint is clear, or nothing is pending), spend the stall cycles one
/// at a time. The first `remain_cycles` of them take one cycle each, every later one asks
/// for an instruction, and the registers, APSR, memory, next PC and active exceptions stay
/// as they were. After `finish_step_cycles` charged `e` execute cycles, that makes the
/// instruction last `max(e, 1)` cycles.
pub proof fn lemma_stall_countdown_when_nothing_taken<B: PeripheralBus>(cs: Seq<Cpu<B>>, rs: Seq<Option<u32>>)
    requires
        cs.len() == rs.len() + 1,
        forall|i: int| 0 <= i < rs.len() ==> #[trigger] cs[i].begins_step(&cs[i + 1], rs[i]),
        forall|i: int| 0 <= i < rs.len() ==> nothing_takeable(#[trigger] cs[i]),
    ensures
        forall|i: int| 0 <= i < rs.len() ==> #[trigger] rs[i] == (if i < cs[0].Cpu_pipeline.remain_cycles {
            Some(1u32)
        } else {
            None::<u32>
        }),
        forall|i: int| 0 <= i < cs.len() ==> (#[trigger] cs[i]).Cpu_pipeline.remain_cycles == (if i < cs[0].Cpu_pipeline.remain_cycles {
            cs[0].Cpu_pipeline.remain_cycles - i
        } else {
            0
        }) && cs[i].regs() == cs[0].regs() && cs[i].apsr() == cs[0].apsr() && cs[i].ram == cs[0].ram
            && cs[i].flash == cs[0].flash && cs[i].next_pc == cs[0].next_pc
            && cs[i].exception_stack@ == cs[0].exception_stack@,
{
    lemma_countdown_when_nothing_taken_upto(cs, rs, rs.len() as int);
}

proof fn lemma_countdown_when_nothing_taken_upto<B: PeripheralBus>(cs: Seq<Cpu<B>>, rs: Seq<Option<u32>>, n: int)
    requires
        cs.len() == rs.len() + 1,
        0 <= n <= rs.len(),
        forall|i: int| 0 <= i < rs.len() ==> #[trigger] cs[i].begins_step(&cs[i + 1], rs[i]),
        forall|i: int| 0 <= i < rs.len() ==> nothing_takeable(#[trigger] cs[i]),
    ensures
        forall|i: int| 0 <= i < n ==> #[trigger] rs[i] == (if i < cs[0].Cpu_pipeline.remain_cycles {
            Some(1u32)
        } else {
            None::<u32>
        }),
        forall|i: int| 0 <= i <= n ==> (#[trigger] cs[i]).Cpu_pipeline.remain_cycles == (if i < cs[0].Cpu_pipeline.remain_cycles {
            cs[0].Cpu_pipeline.remain_cycles - i
        } else {
            0
        }) && cs[i].regs() == cs[0].regs() && cs[i].apsr() == cs[0].apsr() && cs[i].ram == cs[0].ram
            && cs[i].flash == cs[0].flash && cs[i].next_pc == cs[0].next_pc
            && cs[i].exception_stack@ == cs[0].exception_stack@,
    decreases n,
{
    if n > 0 {
        lemma_countdown_when_nothing_taken_upto(cs, rs, n - 1);
        let m = n - 1;
        let c = cs[m];
        assert(cs[m].begins_step(&cs[m + 1], rs[m]));
        assert(nothing_takeable(cs[m]));
        assert(m + 1 == n);
        let d = choose|d: Cpu<B>| #[trigger] c.drained_for_step(&d) && d.step_started(&cs[n], rs[m]);
        assert(d.Cpu_pipeline.remain_cycles == c.Cpu_pipeline.remain_cycles);
        if d.interrupt_check_hint {
            let (taken, looked) = choose|taken: bool, looked: Cpu<B>| #[trigger] d.interrupt_attempt(&looked, taken)
                && if taken { rs[m] == Some(1u32) && cs[n] == looked } else { looked.stall_or_run(&cs[n], rs[m]) };
            let r = choose|r: Option<u32>| #[trigger] d.selection(r) && match r {
                None => !taken && looked == d.without_hint(),
                Some(e) => exists|entered: Cpu<B>|
                    #[trigger] d.entry_through(&entered, e, d.vector_base_now(), taken)
                    && (taken && frame_in_ram(d.regs()[13].wrapping_sub(32)) ==> d.entry_buses(&entered, e))
                    && looked == entered.without_hint(),
            };
            assert(r is None);
            assert(looked.stall_or_run(&cs[n], rs[m]));
        } else {
            assert(d.stall_or_run(&cs[n], rs[m]));
        }
    }
}

} // verus!
