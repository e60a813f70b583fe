//! Task control blocks and the task lifecycle state machine. A task is the
//! scheduling unit: it owns one kernel stack exclusively, knows the physical
//! page of its trap context, carries a minimal saved register context for
//! kernel-to-kernel switches, a status and an optional exit code. The
//! back-reference to the owning process is a non-owning process id, looked
//! up in the process table at each use, so that no ownership cycle between
//! a process and its tasks can arise.

use vstd::prelude::*;

verus! {

use crate::kernel_stack::KernelStack;
use crate::mm::PhysPageNum;

/// Scheduling status of a live task. The terminal "exited" condition is not
/// a status: an exited task no longer exists in the task table.
#[derive(Clone, Copy, PartialEq, Eq, Structural, Debug)]
pub enum TaskStatus {
    Ready,
    Running,
    Blocked,
}

/// Minimal callee-saved register context for kernel-stack-to-kernel-stack
/// switches, distinct from and nested inside the user-trap context.
#[derive(Clone, Copy, Debug)]
pub struct TaskContext {
    /// Resume address the switch returns to.
    pub ra: usize,
    /// Kernel stack pointer of the task.
    pub sp: usize,
    /// Callee-saved registers.
    pub s: [usize; 12],
}

impl TaskContext {
    /// The all-zero context of a task that has never been switched out.
    pub fn zero_init() -> (r: Self)
        ensures
            r.ra == 0,
            r.sp == 0,
    {
        TaskContext { ra: 0, sp: 0, s: [0; 12] }
    }
}

/// User-mode resources of a task: its task id, the base of its user stack
/// arena, and the non-owning back-reference to its process.
#[derive(Clone, Copy, Debug)]
pub struct TaskUserRes {
    /// The task id, naming the trap-context page and user-stack position.
    pub tid: usize,
    /// Base address of the process's user-stack arena.
    pub ustack_base: usize,
    /// Non-owning back-reference: the owning process's id.
    pub process: usize,
}

/// Mutable inner state of a task, accessed under the interrupt-free
/// critical-section discipline (modelled here by exclusive borrows).
#[derive(Clone, Copy, Debug)]
pub struct TaskControlBlockInner {
    /// User-mode resources; absent once they have been released.
    pub res: Option<TaskUserRes>,
    /// Physical page holding the owning task's trap context.
    pub trap_cx_ppn: PhysPageNum,
    /// Saved context for kernel-to-kernel switches.
    pub task_cx: TaskContext,
    /// Scheduling status.
    pub task_status: TaskStatus,
    /// Exit code, present once the task has begun exiting.
    pub exit_code: Option<i32>,
}

/// The scheduling unit: a non-owning back-reference to its process, the
/// exclusively owned kernel stack, and the mutable inner state.
#[derive(Clone, Copy, Debug)]
pub struct TaskControlBlock {
    /// Non-owning back-reference: the owning process's id.
    pub process: usize,
    /// The task's kernel stack, owned exclusively.
    pub kstack: KernelStack,
    /// Mutable inner state.
    pub inner: TaskControlBlockInner,
}

/// The edges the task lifecycle may take in one scheduler operation:
/// Ready to Running (dispatch), Running to Ready (yield), Running to
/// Blocked (wait), Blocked to Ready (explicit wakeup), Running to exited
/// (`None`), creation (`None` to Ready), or no change. A blocked task never
/// starts running directly, and nothing leaves the exited condition.
pub open spec fn allowed_step(before: Option<TaskStatus>, after: Option<TaskStatus>) -> bool {
    ||| before == after
    ||| (before == Some(TaskStatus::Ready) && after == Some(TaskStatus::Running))
    ||| (before == Some(TaskStatus::Running) && after == Some(TaskStatus::Ready))
    ||| (before == Some(TaskStatus::Running) && after == Some(TaskStatus::Blocked))
    ||| (before == Some(TaskStatus::Blocked) && after == Some(TaskStatus::Ready))
    ||| (before == Some(TaskStatus::Running) && after == None::<TaskStatus>)
    ||| (before == None::<TaskStatus> && after == Some(TaskStatus::Ready))
}

/// The transitions the lifecycle rules forbid: a blocked task cannot start
/// running without an intervening explicit wakeup, nothing re-enters from
/// the exited condition except as a freshly created Ready task, and a ready
/// task cannot block without running first.
pub proof fn lemma_forbidden_steps()
    ensures
        !allowed_step(Some(TaskStatus::Blocked), Some(TaskStatus::Running)),
        !allowed_step(None, Some(TaskStatus::Running)),
        !allowed_step(None, Some(TaskStatus::Blocked)),
        !allowed_step(Some(TaskStatus::Ready), Some(TaskStatus::Blocked)),
        !allowed_step(Some(TaskStatus::Blocked), None),
        !allowed_step(Some(TaskStatus::Ready), None),
{
}

} // verus!
