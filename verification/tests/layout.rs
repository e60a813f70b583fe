use oskernel::config::{
    KERNEL_STACK_SIZE, PAGE_SIZE, TRAMPOLINE, TRAP_CONTEXT_BASE, USER_STACK_SIZE,
};
use oskernel::kernel_stack::{
    kernel_stack_position, kstack_alloc_release_round_trip, trap_cx_bottom_from_tid,
    ustack_bottom_from_tid, KernelStack,
};
use oskernel::mm::MemorySet;
use oskernel::pid::RecycleAllocator;
use oskernel::tlb::Tlb;
use oskernel::merrera::MerrEra;
use oskernel::timer::{TimerConfig, TICKS_PER_SEC};

#[test]
fn stack_positions_are_fixed_functions_of_the_id() {
    let (b0, t0) = kernel_stack_position(0);
    assert_eq!(t0, TRAMPOLINE);
    assert_eq!(b0, TRAMPOLINE - KERNEL_STACK_SIZE);
    assert_eq!(t0 - b0, KERNEL_STACK_SIZE);
    let (b1, t1) = kernel_stack_position(1);
    assert_eq!(t1, TRAMPOLINE - (KERNEL_STACK_SIZE + PAGE_SIZE));
    assert_eq!(t1 - b1, KERNEL_STACK_SIZE);
    // a guard page separates neighbouring stacks; ranges never overlap
    assert_eq!(b0 - t1, PAGE_SIZE);
    assert!(t1 <= b0);
    let (b7, t7) = kernel_stack_position(7);
    let (b8, t8) = kernel_stack_position(8);
    assert!(t8 <= b7 || t7 <= b8);
    // calling twice gives the same answer: a pure function of the id
    assert_eq!(kernel_stack_position(7), (b7, t7));
}

#[test]
fn get_top_matches_the_position() {
    let ks = KernelStack(3);
    let (_, top) = kernel_stack_position(3);
    assert_eq!(ks.get_top(), top);
}

#[test]
fn trap_context_pages_step_down_one_page_per_task() {
    assert_eq!(trap_cx_bottom_from_tid(0), TRAP_CONTEXT_BASE);
    assert_eq!(trap_cx_bottom_from_tid(1), TRAP_CONTEXT_BASE - PAGE_SIZE);
    assert_eq!(trap_cx_bottom_from_tid(5), TRAP_CONTEXT_BASE - 5 * PAGE_SIZE);
}

#[test]
fn user_stacks_step_up_with_a_guard_page() {
    let base = 0x1000_0000usize;
    assert_eq!(ustack_bottom_from_tid(base, 0), base);
    assert_eq!(ustack_bottom_from_tid(base, 1), base + PAGE_SIZE + USER_STACK_SIZE);
    assert_eq!(ustack_bottom_from_tid(base, 3), base + 3 * (PAGE_SIZE + USER_STACK_SIZE));
}

#[test]
fn statically_proved_stack_round_trip_replays() {
    let mut allocator = RecycleAllocator::new();
    let mut kernel_space = MemorySet::new();
    let mut tlb = Tlb::new();
    kstack_alloc_release_round_trip(&mut allocator, &mut kernel_space, &mut tlb);
    assert!(allocator.has_no_active());
    assert_eq!(kernel_space.area_count(), 0);
}

#[test]
fn merr_era_reports_its_bits() {
    let reg = MerrEra::from(0x9000_0000_1234usize);
    assert_eq!(reg.raw(), 0x9000_0000_1234);
    assert_eq!(reg.pc(), 0x9000_0000_1234);
}

#[test]
fn timer_freq_is_computed_once_and_cached() {
    assert_eq!(TICKS_PER_SEC, 100);
    let mut cfg = TimerConfig::new();
    // base crystal 100 MHz, multiplier 4, divisor 2
    cfg.get_timer_freq_first_time(100_000_000, 4, 2);
    assert_eq!(cfg.get_clock_freq(), 200_000_000);
    assert_eq!(cfg.get_clock_freq(), 200_000_000);
}
