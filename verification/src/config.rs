//! Memory-layout constants consumed throughout the kernel: page granularity,
//! stack and heap sizes, and the fixed virtual addresses of the trampoline
//! and of the per-task trap-context pages just below it.

use vstd::prelude::*;

verus! {

/// Bytes per page.
pub const PAGE_SIZE: usize = 4096;

/// Width of the in-page offset, in bits: `PAGE_SIZE == 1 << PAGE_SIZE_BITS`.
pub const PAGE_SIZE_BITS: usize = 12;

/// Size of one user-mode stack.
pub const USER_STACK_SIZE: usize = 4096 * 2;

/// Size of one kernel-mode stack.
pub const KERNEL_STACK_SIZE: usize = 4096 * 2;

/// Size of the kernel's heap arena.
pub const KERNEL_HEAP_SIZE: usize = 0x100_0000;

/// Virtual address of the trampoline page: the highest page of the address
/// space, shared by every task for the trap entry/exit sequence.
pub const TRAMPOLINE: usize = usize::MAX - PAGE_SIZE + 1;

/// Virtual address one past the trap-context page of task 0; task `tid`'s
/// trap context sits `tid` pages lower.
pub const TRAP_CONTEXT_BASE: usize = TRAMPOLINE - PAGE_SIZE;

/// The trampoline's virtual page number; kernel stacks hang below this page.
pub const TRAMPOLINE_VPN: usize = TRAMPOLINE / PAGE_SIZE;

/// Pages of one kernel stack.
pub const KERNEL_STACK_PAGES: usize = KERNEL_STACK_SIZE / PAGE_SIZE;

} // verus!
