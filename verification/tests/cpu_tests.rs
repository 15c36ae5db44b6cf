use std::hint::black_box;
use std::sync::atomic::{AtomicU32, Ordering};
use std::sync::Arc;
use std::time::Instant;

use cortex_m4_sim::bus::{NvicState, PeripheralBus};
use cortex_m4_sim::context::CpuContext;
use cortex_m4_sim::cpu::{
    due_cycle_after, Cpu, EXC_RETURN_HANDLER_MSP, EXC_RETURN_THREAD_MSP, HINT_SRC_NONE, NVIC_BASE, SYSTICK_BASE,
};

/// A bus for the tests: optionally a SysTick, an NVIC (enable, set-pending and active
/// registers) and an SCB whose registers read as zero, and a tick counter.
#[derive(Clone)]
struct TestBus {
    core_peripherals: bool,
    tickable: bool,
    ticks: u64,
    systick_pending: bool,
    systick_event: bool,
    nvic_event: bool,
    iser: [u32; 8],
    iabr: [u32; 8],
    bitmap: u32,
}

impl TestBus {
    fn empty() -> TestBus {
        TestBus {
            core_peripherals: false,
            tickable: false,
            ticks: 0,
            systick_pending: false,
            systick_event: false,
            nvic_event: false,
            iser: [0; 8],
            iabr: [0; 8],
            bitmap: 0,
        }
    }

    fn with_core_peripherals() -> TestBus {
        let mut b = TestBus::empty();
        b.core_peripherals = true;
        b
    }

    fn with_tickables() -> TestBus {
        let mut b = TestBus::empty();
        b.tickable = true;
        b
    }
}

impl PeripheralBus for TestBus {
    // What each bus method returns, and the bus it leaves, found by running the method on
    // a copy of the bus.
    fn tickables(&self) -> bool {
        self.has_tickables()
    }

    fn index_of(&self, base: u32) -> Option<usize> {
        self.find_peripheral_index(base)
    }

    fn word_at(&self, addr: u32) -> u32 {
        self.read32(addr)
    }

    fn write_result(&self, addr: u32, val: u32) -> bool {
        self.clone().write32(addr, val)
    }

    fn after_write(&self, addr: u32, val: u32) -> Self {
        let mut b = self.clone();
        b.write32(addr, val);
        b
    }

    fn tick_result(&self, cycles: u32) -> bool {
        self.clone().tick_n(cycles)
    }

    fn after_tick(&self, cycles: u32) -> Self {
        let mut b = self.clone();
        b.tick_n(cycles);
        b
    }

    fn next_event(&self) -> Option<u32> {
        self.next_event_in_cycles()
    }

    fn irq_sources(&self) -> bool {
        self.has_irq_sources()
    }

    fn pending_irq_count(&self) -> usize {
        self.clone().drain_pending_irqs().len()
    }

    fn pending_irq(&self, k: usize) -> u32 {
        self.clone().drain_pending_irqs()[k]
    }

    fn after_irq_drain(&self) -> Self {
        let mut b = self.clone();
        b.drain_pending_irqs();
        b
    }

    fn nvic_event(&self, index: usize) -> bool {
        self.clone().nvic_take_interrupt_event(index)
    }

    fn after_nvic_event(&self, index: usize) -> Self {
        let mut b = self.clone();
        b.nvic_take_interrupt_event(index);
        b
    }

    fn nvic_registers(&self, index: usize) -> Option<NvicState> {
        self.nvic_state(index)
    }

    fn after_active_clear(&self, index: usize, irq: u32) -> Self {
        let mut b = self.clone();
        b.nvic_clear_active_irq(index, irq);
        b
    }

    fn systick_event(&self, index: usize) -> bool {
        self.clone().systick_take_interrupt_event(index)
    }

    fn after_systick_event(&self, index: usize) -> Self {
        let mut b = self.clone();
        b.systick_take_interrupt_event(index);
        b
    }

    fn systick_pending(&self, index: usize) -> bool {
        self.systick_is_interrupt_pending(index)
    }

    fn after_systick_clear(&self, index: usize) -> Self {
        let mut b = self.clone();
        b.systick_clear_interrupt_pending(index);
        b
    }

    fn has_tickables(&self) -> bool {
        self.tickable
    }

    fn find_peripheral_index(&self, base: u32) -> Option<usize> {
        if !self.core_peripherals {
            return None;
        }
        if base == SYSTICK_BASE {
            Some(0)
        } else if base == NVIC_BASE {
            Some(1)
        } else {
            None
        }
    }

    fn read32(&self, addr: u32) -> u32 {
        if (0xE000_E100..0xE000_E120).contains(&addr) {
            self.iser[((addr - 0xE000_E100) / 4) as usize]
        } else if (0xE000_E300..0xE000_E320).contains(&addr) {
            self.iabr[((addr - 0xE000_E300) / 4) as usize]
        } else {
            0
        }
    }

    fn write32(&mut self, addr: u32, val: u32) -> bool {
        if (0xE000_E100..0xE000_E120).contains(&addr) {
            self.iser[((addr - 0xE000_E100) / 4) as usize] |= val;
        } else if (0xE000_E200..0xE000_E220).contains(&addr) {
            let k = ((addr - 0xE000_E200) / 4) as usize;
            let ready = val & self.iser[k];
            if ready != 0 {
                self.iabr[k] |= ready;
                self.bitmap |= 1 << k;
                self.nvic_event = true;
            }
        }
        false
    }

    fn tick_n(&mut self, cycles: u32) -> bool {
        self.ticks += cycles as u64;
        false
    }

    fn next_event_in_cycles(&self) -> Option<u32> {
        None
    }

    fn has_irq_sources(&self) -> bool {
        false
    }

    fn drain_pending_irqs(&mut self) -> Vec<u32> {
        Vec::new()
    }

    fn nvic_take_interrupt_event(&mut self, _index: usize) -> bool {
        let e = self.nvic_event;
        self.nvic_event = false;
        e
    }

    fn nvic_state(&self, index: usize) -> Option<NvicState> {
        if index == 1 {
            Some(NvicState { active_word_bitmap: self.bitmap, iabr: self.iabr, ipr: [0u8; 240] })
        } else {
            None
        }
    }

    fn nvic_clear_active_irq(&mut self, _index: usize, irq: u32) {
        let k = (irq / 32) as usize;
        self.iabr[k] &= !(1 << (irq % 32));
        if self.iabr[k] == 0 {
            self.bitmap &= !(1 << k);
        }
    }

    fn systick_take_interrupt_event(&mut self, _index: usize) -> bool {
        let e = self.systick_event;
        self.systick_event = false;
        e
    }

    fn systick_is_interrupt_pending(&self, _index: usize) -> bool {
        self.systick_pending
    }

    fn systick_clear_interrupt_pending(&mut self, _index: usize) {
        self.systick_pending = false;
    }
}

fn report_perf(name: &str, iterations: u64, elapsed: std::time::Duration) {
    let ns_per_op = elapsed.as_nanos() as f64 / iterations as f64;
    println!("CPU Perf [{}]: iters={} total={:?} ns/op={:.3}", name, iterations, elapsed, ns_per_op);
}

fn build_cpu_with_ppb() -> Cpu<TestBus> {
    Cpu::new(Arc::new(AtomicU32::new(8_000_000)), 1, TestBus::empty(), TestBus::with_core_peripherals())
}

#[test]
fn cpu_takes_systick_exception_and_clears_pending() {
    let mut cpu = build_cpu_with_ppb();
    let initial_sp = 0x2000_1000;
    let initial_pc = 0x0800_0100;
    let handler = 0x0800_1234;

    cpu.write_sp(initial_sp);
    cpu.write_pc(initial_pc);
    cpu.next_pc = initial_pc;
    cpu.write_mem(0x0800_003C, handler | 1);

    cpu.ppb.systick_pending = true;

    assert!(cpu.try_take_interrupt());
    assert_eq!(cpu.read_pc(), handler & !1);
    assert_eq!(cpu.read_lr(14), EXC_RETURN_THREAD_MSP);
    assert_eq!(cpu.exception_stack.last().copied(), Some(15));
    assert!(!cpu.ppb.systick_is_interrupt_pending(0));
}

#[test]
fn cpu_exception_return_clears_nvic_active() {
    let mut cpu = build_cpu_with_ppb();
    let initial_sp = 0x2000_1000;
    let initial_pc = 0x0800_0200;
    let irq_num = 5u32;
    let exception_num = 16 + irq_num;
    let vector_addr = 0x0800_0000 + exception_num * 4;
    let handler = 0x0800_2340;

    cpu.write_sp(initial_sp);
    cpu.write_pc(initial_pc);
    cpu.next_pc = initial_pc;
    cpu.write_mem(vector_addr, handler | 1);

    cpu.write_mem(0xE000_E100, 1 << irq_num);
    cpu.write_mem(0xE000_E200, 1 << irq_num);

    assert!(cpu.try_take_interrupt());
    assert_eq!(cpu.exception_stack.last().copied(), Some(exception_num));
    assert_ne!(cpu.read_mem(0xE000_E300) & (1 << irq_num), 0);

    let exc_return = cpu.read_lr(14);
    assert!(cpu.try_exception_return(exc_return));

    assert_eq!(cpu.read_pc(), initial_pc);
    assert_eq!(cpu.read_sp(), initial_sp);
    assert!(cpu.exception_stack.is_empty());
    assert_eq!(cpu.read_mem(0xE000_E300) & (1 << irq_num), 0);
}

#[test]
fn perf_cpu_try_take_interrupt_fastpath_no_hint() {
    let loops = 5_000_000u64;
    let mut cpu = build_cpu_with_ppb();
    cpu.interrupt_check_hint = false;
    cpu.interrupt_hint_source = HINT_SRC_NONE;

    let start = Instant::now();
    for _ in 0..loops {
        black_box(cpu.try_take_interrupt());
    }
    let elapsed = start.elapsed();

    report_perf("try_take_interrupt_fastpath_no_hint", loops, elapsed);
    assert!(elapsed.as_nanos() > 0);
}

#[test]
fn perf_cpu_try_take_interrupt_event_path() {
    let loops = 500_000u64;
    let irq_num = 5u32;
    let exception_num = 16 + irq_num;

    let mut cpu = build_cpu_with_ppb();
    cpu.write_sp(0x2000_2000);
    cpu.write_pc(0x0800_0200);
    cpu.next_pc = 0x0800_0200;
    cpu.write_mem(0x0800_0000 + exception_num * 4, 0x0800_2341);
    cpu.write_mem(0xE000_E100, 1 << irq_num);

    let start = Instant::now();
    for _ in 0..loops {
        cpu.write_mem(0xE000_E200, 1 << irq_num);
        black_box(cpu.try_take_interrupt());
        let exc_return = cpu.read_lr(14);
        black_box(cpu.try_exception_return(exc_return));
    }
    let elapsed = start.elapsed();

    report_perf("try_take_interrupt_event_path", loops * 3, elapsed);
    assert!(elapsed.as_nanos() > 0);
}

fn prepare_irq_cpu(irq_num: u32) -> Cpu<TestBus> {
    let mut cpu = build_cpu_with_ppb();
    let exception_num = 16 + irq_num;
    cpu.write_sp(0x2000_2000);
    cpu.write_pc(0x0800_0200);
    cpu.next_pc = 0x0800_0200;
    cpu.write_mem(0x0800_0000 + exception_num * 4, 0x0800_2341);
    cpu.write_mem(0xE000_E100, 1 << irq_num);
    cpu
}

#[test]
fn perf_cpu_irq_set_pending_only() {
    let loops = 1_000_000u64;
    let irq_num = 5u32;
    let mut cpu = prepare_irq_cpu(irq_num);

    let start = Instant::now();
    for _ in 0..loops {
        cpu.write_mem(0xE000_E200, 1 << irq_num);
        black_box(cpu.interrupt_check_hint);
    }
    let elapsed = start.elapsed();

    report_perf("irq_set_pending_only", loops, elapsed);
    assert!(elapsed.as_nanos() > 0);
}

#[test]
fn perf_cpu_irq_take_only() {
    let loops = 500_000u64;
    let irq_num = 5u32;
    let mut cpu = prepare_irq_cpu(irq_num);

    let start = Instant::now();
    for _ in 0..loops {
        cpu.write_mem(0xE000_E200, 1 << irq_num);
        black_box(cpu.try_take_interrupt());
        let exc_return = cpu.read_lr(14);
        black_box(cpu.try_exception_return(exc_return));
    }
    let elapsed = start.elapsed();

    report_perf("irq_take_only", loops, elapsed);
    assert!(elapsed.as_nanos() > 0);
}

#[test]
fn perf_cpu_irq_return_only() {
    let loops = 500_000u64;
    let irq_num = 5u32;
    let mut cpu = prepare_irq_cpu(irq_num);

    let start = Instant::now();
    for _ in 0..loops {
        cpu.write_mem(0xE000_E200, 1 << irq_num);
        let taken = cpu.try_take_interrupt();
        black_box(taken);
        let exc_return = cpu.read_lr(14);
        black_box(cpu.try_exception_return(exc_return));
    }
    let elapsed = start.elapsed();

    report_perf("irq_return_only", loops, elapsed);
    assert!(elapsed.as_nanos() > 0);
}

#[test]
fn perf_cpu_peripheral_step() {
    let loops = 1_000_000u64;
    let freq = Arc::new(AtomicU32::new(8_000_000));
    let mut cpu = Cpu::new(freq.clone(), 1, TestBus::with_tickables(), TestBus::with_core_peripherals());

    let start = Instant::now();
    for _ in 0..loops {
        cpu.peripheral_step();
    }
    let elapsed = start.elapsed();

    black_box(freq.load(Ordering::Relaxed));
    report_perf("cpu_peripheral_step", loops, elapsed);
    assert!(elapsed.as_nanos() > 0);
}

#[test]
fn perf_cpu_read_mem_write_mem() {
    let loops = 1_000_000u64;
    let mut cpu = Cpu::new(Arc::new(AtomicU32::new(8_000_000)), 1, TestBus::empty(), TestBus::empty());
    let base = 0x2000_0000u32;

    let write_start = Instant::now();
    for i in 0..loops {
        let addr = base.wrapping_add((i as u32) & 0x3FFC);
        cpu.write_mem(addr, i as u32);
    }
    let write_elapsed = write_start.elapsed();

    let read_start = Instant::now();
    let mut checksum = 0u32;
    for i in 0..loops {
        let addr = base.wrapping_add((i as u32) & 0x3FFC);
        checksum ^= cpu.read_mem(addr);
    }
    let read_elapsed = read_start.elapsed();

    report_perf("cpu_write_mem_ram", loops, write_elapsed);
    report_perf("cpu_read_mem_ram", loops, read_elapsed);

    black_box(checksum);
    assert!(write_elapsed.as_nanos() > 0);
    assert!(read_elapsed.as_nanos() > 0);
}

#[test]
fn exception_entry_then_return_restores_registers() {
    let mut cpu = build_cpu_with_ppb();
    for r in 0..13u32 {
        cpu.write_reg(r, 0x100 + r);
    }
    cpu.write_sp(0x2000_1000);
    cpu.write_lr(0x0800_0441);
    cpu.write_pc(0x0800_0300);
    cpu.next_pc = 0x0800_0300;
    cpu.write_apsr(0xA000_0000);
    cpu.write_mem(0x0800_003C, 0x0800_1001);
    cpu.ppb.systick_pending = true;

    assert!(cpu.try_take_interrupt());
    assert_eq!(cpu.read_sp(), 0x2000_1000 - 32);
    assert_eq!(cpu.read_mem(0x2000_1000 - 32), 0x100);
    assert_eq!(cpu.read_mem(0x2000_1000 - 32 + 24), 0x0800_0301);
    assert_eq!(cpu.read_mem(0x2000_1000 - 32 + 28), 0xA100_000F);

    let exc_return = cpu.read_lr(14);
    assert!(cpu.try_exception_return(exc_return));
    for r in 0..13u32 {
        assert_eq!(cpu.read_reg(r), 0x100 + r);
    }
    assert_eq!(cpu.read_lr(14), 0x0800_0441);
    assert_eq!(cpu.read_sp(), 0x2000_1000);
    assert_eq!(cpu.read_pc(), 0x0800_0300);
    assert_eq!(cpu.read_apsr(), 0xA000_0000);
}

#[test]
fn nested_exception_uses_handler_return_value() {
    let mut cpu = build_cpu_with_ppb();
    cpu.write_sp(0x2000_1000);
    cpu.next_pc = 0x0800_0100;
    cpu.write_mem(0x0800_0000 + 21 * 4, 0x0800_2001);
    cpu.write_mem(0x0800_003C, 0x0800_3001);
    cpu.write_mem(0xE000_E100, 1 << 5);
    cpu.write_mem(0xE000_E200, 1 << 5);
    assert!(cpu.try_take_interrupt());
    assert_eq!(cpu.read_lr(14), EXC_RETURN_THREAD_MSP);
    // Equal priorities do not preempt.
    cpu.ppb.systick_pending = true;
    cpu.interrupt_check_hint = true;
    assert!(!cpu.try_take_interrupt());
    assert_eq!(cpu.exception_stack, vec![21]);
    assert_ne!(EXC_RETURN_HANDLER_MSP, EXC_RETURN_THREAD_MSP);
}

#[test]
fn exception_return_with_plain_value_changes_nothing() {
    let mut cpu = build_cpu_with_ppb();
    cpu.write_sp(0x2000_1000);
    assert!(!cpu.try_exception_return(0xFFFF_FFF9));
    assert!(!cpu.try_exception_return(0x0800_0101));
    assert_eq!(cpu.read_sp(), 0x2000_1000);
}

#[test]
fn word_written_to_ram_reads_back_and_flash_alias_mirrors_flash() {
    let mut cpu = Cpu::new(Arc::new(AtomicU32::new(8_000_000)), 1, TestBus::empty(), TestBus::empty());
    cpu.write_mem(0x2000_0010, 0x1234_5678);
    assert_eq!(cpu.read_mem(0x2000_0010), 0x1234_5678);
    assert_eq!(cpu.ram[0x10], 0x78);
    assert_eq!(cpu.ram[0x13], 0x12);
    cpu.write_mem(0x0800_0020, 0xCAFE_F00D);
    assert_eq!(cpu.read_mem(0x0000_0020), 0xCAFE_F00D);
    // Writes through the alias are ignored.
    cpu.write_mem(0x0000_0020, 0);
    assert_eq!(cpu.read_mem(0x0800_0020), 0xCAFE_F00D);
}

#[test]
fn reset_handler_clears_registers_and_sets_next_pc() {
    let mut cpu = Cpu::new(Arc::new(AtomicU32::new(8_000_000)), 1, TestBus::empty(), TestBus::empty());
    cpu.write_reg(3, 7);
    cpu.write_apsr(0xF000_0000);
    cpu.write_mem(0x2000_0000, 0x55);
    cpu.reset_handler(0x0800_0101);
    assert_eq!(cpu.next_pc, 0x0800_0101);
    assert_eq!(cpu.read_pc(), 0x0800_0101);
    assert_eq!(cpu.read_reg(3), 0);
    assert_eq!(cpu.read_apsr(), 0);
    assert_eq!(cpu.read_mem(0x2000_0000), 0x55);
    assert!(cpu.exception_stack.is_empty());
}

#[test]
fn due_cycle_follows_the_next_peripheral_event() {
    assert_eq!(due_cycle_after(100, 10, Some(3)), 103);
    assert_eq!(due_cycle_after(100, 10, Some(0)), 101);
    assert_eq!(due_cycle_after(100, 10, Some(50)), 110);
    assert_eq!(due_cycle_after(100, 10, None), 110);
    assert_eq!(due_cycle_after(100, 0, None), 101);
    assert_eq!(due_cycle_after(u64::MAX - 1, 10, None), u64::MAX);
}

#[test]
fn refresh_without_ticking_peripherals_waits_the_full_lag() {
    let mut cpu = build_cpu_with_ppb();
    cpu.peripheral_tick_mask = 0;
    cpu.refresh_peripheral_due_cycle(1_000, 64);
    assert_eq!(cpu.peripheral_due_cycle(), 1_064);
}

#[test]
fn bus_windows_read_and_write_through_their_bus() {
    let mut cpu = build_cpu_with_ppb();
    cpu.write_mem(0xE000_E104, 0x0000_0005);
    assert_eq!(cpu.read_mem(0xE000_E104), 0x0000_0005);
    assert_eq!(cpu.ppb.iser[1], 0x0000_0005);
    assert_eq!(cpu.peripheral_bus.iser[1], 0);
    cpu.write_mem(0x4000_0000, 0x1234_5678);
    assert_eq!(cpu.read_mem(0x4000_0000), 0);
}

#[test]
fn writes_through_the_flash_alias_are_ignored() {
    let mut cpu = build_cpu_with_ppb();
    cpu.flash[0x7FFFC] = 0xAB;
    cpu.write32(0x0007_FFFE, 0xFFFF_FFFF);
    cpu.write32(0x0000_0000, 0xFFFF_FFFF);
    assert_eq!(cpu.flash[0x7FFFC], 0xAB);
    assert_eq!(cpu.flash[0x7FFFE], 0);
    assert_eq!(cpu.flash[0], 0);
}
