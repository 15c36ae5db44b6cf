//! The interface through which the core reaches the peripheral bus and the private
//! peripheral bus (NVIC, SysTick, SCB). The core is verified for every implementation
//! whose methods are functions of the bus's state and their arguments.
use vstd::prelude::*;

verus! {

/// Interrupt controller registers that exception selection reads.
#[derive(Clone, Copy)]
pub struct NvicState {
    /// Bit `i` is set when word `i` of `iabr` may hold a set bit.
    pub active_word_bitmap: u32,
    /// One bit per interrupt line that is ready to be taken.
    pub iabr: [u32; 8],
    /// One priority byte per interrupt line.
    pub ipr: [u8; 240],
}

/// A memory-mapped bus of peripherals. Each method is a function of the bus's state and its
/// arguments: the spec functions name, for an implementation, what a method returns and the
/// state it leaves. Nothing else is assumed of a bus.
pub trait PeripheralBus: Sized {
    /// What `has_tickables` returns.
    spec fn tickables(&self) -> bool;

    /// What `find_peripheral_index(base)` returns.
    spec fn index_of(&self, base: u32) -> Option<usize>;

    /// What `read32(addr)` returns.
    spec fn word_at(&self, addr: u32) -> u32;

    /// What `write32(addr, val)` returns, and the bus it leaves.
    spec fn write_result(&self, addr: u32, val: u32) -> bool;

    spec fn after_write(&self, addr: u32, val: u32) -> Self;

    /// What `tick_n(cycles)` returns, and the bus it leaves.
    spec fn tick_result(&self, cycles: u32) -> bool;

    spec fn after_tick(&self, cycles: u32) -> Self;

    /// What `next_event_in_cycles` returns.
    spec fn next_event(&self) -> Option<u32>;

    /// What `has_irq_sources` returns.
    spec fn irq_sources(&self) -> bool;

    /// How many interrupt requests `drain_pending_irqs` returns, request `k` of them, and
    /// the bus it leaves.
    spec fn pending_irq_count(&self) -> usize;

    spec fn pending_irq(&self, k: usize) -> u32;

    spec fn after_irq_drain(&self) -> Self;

    /// What `nvic_take_interrupt_event(index)` returns, and the bus it leaves.
    spec fn nvic_event(&self, index: usize) -> bool;

    spec fn after_nvic_event(&self, index: usize) -> Self;

    /// What `nvic_state(index)` returns.
    spec fn nvic_registers(&self, index: usize) -> Option<NvicState>;

    /// The bus that `nvic_clear_active_irq(index, irq)` leaves.
    spec fn after_active_clear(&self, index: usize, irq: u32) -> Self;

    /// What `systick_take_interrupt_event(index)` returns, and the bus it leaves.
    spec fn systick_event(&self, index: usize) -> bool;

    spec fn after_systick_event(&self, index: usize) -> Self;

    /// What `systick_is_interrupt_pending(index)` returns.
    spec fn systick_pending(&self, index: usize) -> bool;

    /// The bus that `systick_clear_interrupt_pending(index)` leaves.
    spec fn after_systick_clear(&self, index: usize) -> Self;

    /// Whether some peripheral on the bus advances with the clock.
    fn has_tickables(&self) -> (r: bool)
        ensures
            r == self.tickables(),
    ;

    /// The index of the peripheral whose window starts at `base`.
    fn find_peripheral_index(&self, base: u32) -> (r: Option<usize>)
        ensures
            r == self.index_of(base),
    ;

    /// Reads a word from the peripheral that decodes `addr`.
    fn read32(&self, addr: u32) -> (r: u32)
        ensures
            r == self.word_at(addr),
    ;

    /// Writes a word; the result tells whether a peripheral's event schedule changed.
    fn write32(&mut self, addr: u32, val: u32) -> (r: bool)
        ensures
            r == old(self).write_result(addr, val),
            *final(self) == old(self).after_write(addr, val),
    ;

    /// Advances the peripherals by `cycles`; the result tells whether an event was raised.
    fn tick_n(&mut self, cycles: u32) -> (r: bool)
        ensures
            r == old(self).tick_result(cycles),
            *final(self) == old(self).after_tick(cycles),
    ;

    /// Cycles until the next peripheral event, if one is scheduled.
    fn next_event_in_cycles(&self) -> (r: Option<u32>)
        ensures
            r == self.next_event(),
    ;

    /// Whether some peripheral on the bus can raise interrupt requests.
    fn has_irq_sources(&self) -> (r: bool)
        ensures
            r == self.irq_sources(),
    ;

    /// Takes the interrupt request numbers that peripherals have raised since the last call.
    fn drain_pending_irqs(&mut self) -> (r: Vec<u32>)
        ensures
            r@.len() == old(self).pending_irq_count(),
            forall|k: int| 0 <= k < r@.len() ==> r@[k] == old(self).pending_irq(k as usize),
            *final(self) == old(self).after_irq_drain(),
    ;

    /// Takes the "interrupt state changed" event of the interrupt controller at `index`.
    fn nvic_take_interrupt_event(&mut self, index: usize) -> (r: bool)
        ensures
            r == old(self).nvic_event(index),
            *final(self) == old(self).after_nvic_event(index),
    ;

    /// The registers of the interrupt controller at `index`, if that peripheral is one.
    fn nvic_state(&self, index: usize) -> (r: Option<NvicState>)
        ensures
            r == self.nvic_registers(index),
    ;

    /// Marks interrupt line `irq` as no longer active in the controller at `index`.
    fn nvic_clear_active_irq(&mut self, index: usize, irq: u32)
        ensures
            *final(self) == old(self).after_active_clear(index, irq),
    ;

    /// Takes the "interrupt state changed" event of the system timer at `index`.
    fn systick_take_interrupt_event(&mut self, index: usize) -> (r: bool)
        ensures
            r == old(self).systick_event(index),
            *final(self) == old(self).after_systick_event(index),
    ;

    /// Whether the system timer at `index` has its exception pending.
    fn systick_is_interrupt_pending(&self, index: usize) -> (r: bool)
        ensures
            r == self.systick_pending(index),
    ;

    /// Clears the pending exception of the system timer at `index`.
    fn systick_clear_interrupt_pending(&mut self, index: usize)
        ensures
            *final(self) == old(self).after_systick_clear(index),
    ;
}

/// The interrupt requests that `drain_pending_irqs` takes from `b`, in order.
pub open spec fn pending_irqs<B: PeripheralBus>(b: B) -> Seq<u32> {
    Seq::new(b.pending_irq_count() as nat, |k: int| b.pending_irq(k as usize))
}

/// A bus with no peripherals: reads give zero, writes are dropped, nothing ticks or raises
/// interrupts.
#[derive(Clone, Copy)]
pub struct NoPeripherals;

impl PeripheralBus for NoPeripherals {
    open spec fn tickables(&self) -> bool {
        false
    }

    open spec fn index_of(&self, base: u32) -> Option<usize> {
        None
    }

    open spec fn word_at(&self, addr: u32) -> u32 {
        0
    }

    open spec fn write_result(&self, addr: u32, val: u32) -> bool {
        false
    }

    open spec fn after_write(&self, addr: u32, val: u32) -> Self {
        NoPeripherals
    }

    open spec fn tick_result(&self, cycles: u32) -> bool {
        false
    }

    open spec fn after_tick(&self, cycles: u32) -> Self {
        NoPeripherals
    }

    open spec fn next_event(&self) -> Option<u32> {
        None
    }

    open spec fn irq_sources(&self) -> bool {
        false
    }

    open spec fn pending_irq_count(&self) -> usize {
        0
    }

    open spec fn pending_irq(&self, k: usize) -> u32 {
        0
    }

    open spec fn after_irq_drain(&self) -> Self {
        NoPeripherals
    }

    open spec fn nvic_event(&self, index: usize) -> bool {
        false
    }

    open spec fn after_nvic_event(&self, index: usize) -> Self {
        NoPeripherals
    }

    open spec fn nvic_registers(&self, index: usize) -> Option<NvicState> {
        None
    }

    open spec fn after_active_clear(&self, index: usize, irq: u32) -> Self {
        NoPeripherals
    }

    open spec fn systick_event(&self, index: usize) -> bool {
        false
    }

    open spec fn after_systick_event(&self, index: usize) -> Self {
        NoPeripherals
    }

    open spec fn systick_pending(&self, index: usize) -> bool {
        false
    }

    open spec fn after_systick_clear(&self, index: usize) -> Self {
        NoPeripherals
    }

    fn has_tickables(&self) -> (r: bool) {
        false
    }

    fn find_peripheral_index(&self, base: u32) -> (r: Option<usize>) {
        None
    }

    fn read32(&self, addr: u32) -> (r: u32) {
        0
    }

    fn write32(&mut self, addr: u32, val: u32) -> (r: bool) {
        false
    }

    fn tick_n(&mut self, cycles: u32) -> (r: bool) {
        false
    }

    fn next_event_in_cycles(&self) -> (r: Option<u32>) {
        None
    }

    fn has_irq_sources(&self) -> (r: bool) {
        false
    }

    fn drain_pending_irqs(&mut self) -> (r: Vec<u32>) {
        Vec::new()
    }

    fn nvic_take_interrupt_event(&mut self, index: usize) -> (r: bool) {
        false
    }

    fn nvic_state(&self, index: usize) -> (r: Option<NvicState>) {
        None
    }

    fn nvic_clear_active_irq(&mut self, index: usize, irq: u32) {
    }

    fn systick_take_interrupt_event(&mut self, index: usize) -> (r: bool) {
        false
    }

    fn systick_is_interrupt_pending(&self, index: usize) -> (r: bool) {
        false
    }

    fn systick_clear_interrupt_pending(&mut self, index: usize) {
    }
}

} // verus!
