//! Architecture-abstracted core of a small multitasking kernel: recyclable
//! resource-id allocation, a page-table / TLB consistency model, kernel-stack
//! and trap-context placement, the task lifecycle state machine with its
//! ready-queue scheduler, and the file-descriptor bookkeeping of the syscall
//! layer. Hardware register values enter as plain parameters; the machine
//! state that privileged instructions would touch (TLB slots, status words)
//! is modelled as data so that the kernel's rules about it can be proved.

pub mod config;
pub mod kernel_stack;
pub mod manager;
pub mod merrera;
pub mod mm;
pub mod pid;
pub mod syscall;
pub mod task;
pub mod timer;
pub mod tlb;
pub mod trap_context;
