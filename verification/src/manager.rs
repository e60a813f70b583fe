//! The task table, ready queue and dispatcher. One logical execution
//! context runs at a time: the manager tracks which task is Running, keeps
//! Ready tasks in a first-in-first-out queue, and owns the resource state a
//! task's life cycle touches — the task-id and kernel-stack-slot
//! allocators, the kernel address space holding every kernel stack, and the
//! hardware TLB model. Every operation takes only the lifecycle edges that
//! `allowed_step` names, and task exit releases the trap-context slot,
//! kernel stack (region unmapped before the slot id is recycled) and task
//! id, leaving no resource behind.

use vstd::prelude::*;

verus! {

use crate::kernel_stack::{
    kernel_space_stacks_only, kstack_alloc, kstack_bottom_vpn, kstack_dealloc, KSTACK_ID_LIMIT,
    TASK_ID_LIMIT,
};
use crate::mm::{MemorySet, PhysPageNum};
use crate::pid::RecycleAllocator;
use crate::task::{
    allowed_step, TaskContext, TaskControlBlock, TaskControlBlockInner, TaskStatus, TaskUserRes,
};
use crate::tlb::Tlb;

/// The scheduler state: task table indexed by task id, FIFO ready queue,
/// the currently running task, the recyclable id allocators, the kernel
/// address space and the TLB model.
pub struct TaskManager {
    tasks: Vec<Option<TaskControlBlock>>,
    ready_queue: Vec<usize>,
    current: Option<usize>,
    tid_allocator: RecycleAllocator,
    kstack_allocator: RecycleAllocator,
    kernel_space: MemorySet,
    tlb: Tlb,
    last_exit: Option<(usize, i32)>,
}

impl TaskManager {
    /// The task table: slot `tid` holds the task with that id, if alive.
    pub closed spec fn spec_tasks(&self) -> Seq<Option<TaskControlBlock>> {
        self.tasks@
    }

    /// The ready queue, front first.
    pub closed spec fn spec_queue(&self) -> Seq<usize> {
        self.ready_queue@
    }

    /// The currently running task, if any.
    pub closed spec fn spec_current(&self) -> Option<usize> {
        self.current
    }

    /// The task-id allocator.
    pub closed spec fn tid_pool(&self) -> RecycleAllocator {
        self.tid_allocator
    }

    /// The kernel-stack-slot allocator.
    pub closed spec fn kstack_pool(&self) -> RecycleAllocator {
        self.kstack_allocator
    }

    /// The kernel address space holding the kernel stacks.
    pub closed spec fn spec_kernel_space(&self) -> MemorySet {
        self.kernel_space
    }

    /// The hardware TLB model.
    pub closed spec fn spec_tlb(&self) -> Tlb {
        self.tlb
    }

    /// The most recently recorded task exit, visible to a reaping parent.
    pub closed spec fn spec_last_exit(&self) -> Option<(usize, i32)> {
        self.last_exit
    }

    /// The task control block of `tid`, if such a task is alive.
    pub open spec fn task_at(&self, tid: usize) -> Option<TaskControlBlock> {
        if (tid as int) < self.spec_tasks().len() {
            self.spec_tasks()[tid as int]
        } else {
            None
        }
    }

    /// The lifecycle state of `tid`: its status while alive, `None` when it
    /// does not exist (never created, or exited).
    pub open spec fn status_of(&self, tid: usize) -> Option<TaskStatus> {
        match self.task_at(tid) {
            Some(t) => Some(t.inner.task_status),
            None => None,
        }
    }

    /// Scheduler invariant: allocator and address-space invariants hold;
    /// the task table mirrors the task-id allocator; every live task's
    /// kernel-stack slot is active, stacks of distinct tasks use distinct
    /// slots, and each stack's region is mapped; the ready queue holds
    /// Ready tasks without duplicates; exactly the current task is Running.
    pub open spec fn wf(&self) -> bool {
        &&& self.tid_pool().wf()
        &&& self.kstack_pool().wf()
        &&& self.spec_kernel_space().wf()
        &&& self.spec_tlb().wf()
        &&& kernel_space_stacks_only(&self.spec_kernel_space(), &self.kstack_pool())
        &&& self.spec_tasks().len() == self.tid_pool().spec_current()
        &&& self.spec_tasks().len() <= TASK_ID_LIMIT
        &&& forall|t: int|
            0 <= t < self.spec_tasks().len() ==> ((#[trigger] self.spec_tasks()[t]) is Some
                <==> self.tid_pool().is_active(t as usize))
        &&& forall|t: int|
            0 <= t < self.spec_tasks().len() ==> ((#[trigger] self.spec_tasks()[t]) matches Some(
                tcb,
            ) ==> {
                &&& tcb.kstack.0 < KSTACK_ID_LIMIT
                &&& self.kstack_pool().is_active(tcb.kstack.0)
                &&& self.spec_kernel_space().has_area_starting(kstack_bottom_vpn(tcb.kstack.0))
            })
        &&& forall|t1: int, t2: int|
            #![trigger self.spec_tasks()[t1], self.spec_tasks()[t2]]
            0 <= t1 < self.spec_tasks().len() && 0 <= t2 < self.spec_tasks().len() && t1 != t2
                ==> !(self.spec_tasks()[t1] matches Some(a) && self.spec_tasks()[t2] matches Some(
                b,
            ) && a.kstack.0 == b.kstack.0)
        &&& forall|q: int|
            0 <= q < self.spec_queue().len() ==> self.status_of(#[trigger] self.spec_queue()[q])
                == Some(TaskStatus::Ready)
        &&& forall|q1: int, q2: int|
            #![trigger self.spec_queue()[q1], self.spec_queue()[q2]]
            0 <= q1 < self.spec_queue().len() && 0 <= q2 < self.spec_queue().len() && q1 != q2
                ==> self.spec_queue()[q1] != self.spec_queue()[q2]
        &&& (self.spec_current() matches Some(c) ==> self.status_of(c) == Some(
            TaskStatus::Running,
        ))
        &&& forall|t: usize|
            #[trigger] self.status_of(t) == Some(TaskStatus::Running) ==> self.spec_current()
                == Some(t)
    }

    /// A powered-up scheduler: no tasks, nothing queued, nothing running,
    /// no kernel stacks mapped.
    pub fn new() -> (r: Self)
        ensures
            r.wf(),
            r.spec_tasks().len() == 0,
            r.spec_queue().len() == 0,
            r.spec_current() is None,
            forall|t: usize| r.status_of(t) is None,
            r.spec_kernel_space().spec_areas().len() == 0,
            forall|id: usize| !r.kstack_pool().is_active(id),
            forall|id: usize| !r.tid_pool().is_active(id),
            r.tid_pool().spec_current() == 0,
            r.kstack_pool().spec_current() == 0,
            r.spec_kernel_space().frame_pool().spec_current() == 0,
            r.spec_last_exit() is None,
    {
        TaskManager {
            tasks: Vec::new(),
            ready_queue: Vec::new(),
            current: None,
            tid_allocator: RecycleAllocator::new(),
            kstack_allocator: RecycleAllocator::new(),
            kernel_space: MemorySet::new(),
            tlb: Tlb::new(),
            last_exit: None,
        }
    }

    /// Number of map areas the kernel address space currently holds (one
    /// per live kernel stack).
    pub fn kernel_area_count(&self) -> (r: usize)
        ensures
            r == self.spec_kernel_space().spec_areas().len(),
    {
        self.kernel_space.area_count()
    }

    /// True exactly when no kernel-stack slot is in use.
    pub fn kstack_slots_all_free(&self) -> (r: bool)
        requires
            self.wf(),
        ensures
            r <==> (forall|id: usize| !self.kstack_pool().is_active(id)),
    {
        self.kstack_allocator.has_no_active()
    }

    /// True exactly when no task id is in use.
    pub fn tid_slots_all_free(&self) -> (r: bool)
        requires
            self.wf(),
        ensures
            r <==> (forall|id: usize| !self.tid_pool().is_active(id)),
    {
        self.tid_allocator.has_no_active()
    }

    /// The currently running task's id, if any.
    pub fn current_task(&self) -> (r: Option<usize>)
        ensures
            r == self.spec_current(),
    {
        self.current
    }

    /// The lifecycle state of `tid`.
    pub fn status(&self, tid: usize) -> (r: Option<TaskStatus>)
        ensures
            r == self.status_of(tid),
    {
        if tid < self.tasks.len() {
            match self.tasks[tid] {
                Some(tcb) => Some(tcb.inner.task_status),
                None => None,
            }
        } else {
            None
        }
    }

    /// Create a task for process `process`: draw a task id, map a fresh
    /// kernel stack, and enter the task in the table as Ready (not yet
    /// queued; `add_task` queues it).
    pub fn spawn_task(&mut self, process: usize, trap_cx_ppn: PhysPageNum, ustack_base: usize) -> (
        tid: usize)
        requires
            old(self).wf(),
            old(self).spec_tasks().len() < TASK_ID_LIMIT,
            old(self).kstack_pool().spec_current() < KSTACK_ID_LIMIT,
            old(self).spec_kernel_space().frame_pool().spec_current()
                + crate::config::KERNEL_STACK_PAGES <= usize::MAX,
        ensures
            final(self).wf(),
            tid < TASK_ID_LIMIT,
            tid == crate::pid::next_alloc_id(
                old(self).tid_pool().spec_current(),
                old(self).tid_pool().spec_recycled(),
            ),
            old(self).status_of(tid) is None,
            final(self).status_of(tid) == Some(TaskStatus::Ready),
            forall|t: usize| t != tid ==> final(self).status_of(t) == old(self).status_of(t),
            forall|t: usize|
                allowed_step(old(self).status_of(t), #[trigger] final(self).status_of(t)),
            final(self).spec_queue() == old(self).spec_queue(),
            final(self).spec_current() == old(self).spec_current(),
            final(self).spec_kernel_space().spec_areas().len() == old(self).spec_kernel_space().spec_areas().len() + 1,
            final(self).spec_tasks().len() <= old(self).spec_tasks().len() + 1,
            final(self).kstack_pool().spec_current() <= old(self).kstack_pool().spec_current()
                + 1,
            final(self).spec_kernel_space().frame_pool().spec_current() <= old(
                self,
            ).spec_kernel_space().frame_pool().spec_current() + crate::config::KERNEL_STACK_PAGES,
            !old(self).kstack_pool().is_active(final(self).task_at(tid)->0.kstack.0),
            final(self).kstack_pool().is_active(final(self).task_at(tid)->0.kstack.0),
            forall|id: usize|
                id != final(self).task_at(tid)->0.kstack.0 ==> final(self).kstack_pool(
                ).is_active(id) == old(self).kstack_pool().is_active(id),
            final(self).task_at(tid) matches Some(tcb) && tcb.process == process
                && tcb.inner.trap_cx_ppn == trap_cx_ppn && tcb.inner.task_status
                == TaskStatus::Ready && (tcb.inner.res matches Some(res) && res.tid == tid
                && res.ustack_base == ustack_base && res.process == process),
            final(self).spec_last_exit() == old(self).spec_last_exit(),
    {
        let tid = self.tid_allocator.allocate();
        proof {
            assert(self.tid_pool().is_active(tid));
            assert((tid as nat) < self.tid_pool().spec_current());
            assert(self.tid_pool().spec_current() <= old(self).tid_pool().spec_current() + 1);
        }
        let kstack = kstack_alloc(&mut self.kstack_allocator, &mut self.kernel_space);
        let tcb = TaskControlBlock {
            process,
            kstack,
            inner: TaskControlBlockInner {
                res: Some(TaskUserRes { tid, ustack_base, process }),
                trap_cx_ppn,
                task_cx: TaskContext::zero_init(),
                task_status: TaskStatus::Ready,
                exit_code: None,
            },
        };
        if tid < self.tasks.len() {
            self.tasks[tid] = Some(tcb);
        } else {
            proof {
                assert(tid == self.spec_tasks().len());
            }
            self.tasks.push(Some(tcb));
        }
        proof {
            assert forall|t: usize|
                allowed_step(old(self).status_of(t), #[trigger] self.status_of(t)) by {
                if t != tid {
                    assert(self.status_of(t) == old(self).status_of(t));
                }
            }
        }
        tid
    }

    /// Queue a Ready task for dispatch at the back of the ready queue.
    pub fn add_task(&mut self, tid: usize)
        requires
            old(self).wf(),
            old(self).status_of(tid) == Some(TaskStatus::Ready),
            !old(self).spec_queue().contains(tid),
        ensures
            final(self).wf(),
            final(self).spec_queue() == old(self).spec_queue().push(tid),
            forall|t: usize| final(self).status_of(t) == old(self).status_of(t),
            forall|t: usize|
                allowed_step(old(self).status_of(t), #[trigger] final(self).status_of(t)),
            final(self).spec_current() == old(self).spec_current(),
            final(self).spec_kernel_space() == old(self).spec_kernel_space(),
            final(self).tid_pool() == old(self).tid_pool(),
            final(self).kstack_pool() == old(self).kstack_pool(),
            final(self).spec_last_exit() == old(self).spec_last_exit(),
    {
        let ghost q0 = old(self).spec_queue();
        self.ready_queue.push(tid);
        proof {
            assert(self.spec_queue() == q0.push(tid));
            assert forall|q: int| 0 <= q < self.spec_queue().len() implies self.status_of(
                #[trigger] self.spec_queue()[q],
            ) == Some(TaskStatus::Ready) by {
                if q < q0.len() {
                    assert(self.spec_queue()[q] == q0[q]);
                    assert(old(self).status_of(q0[q]) == Some(TaskStatus::Ready));
                } else {
                    assert(self.spec_queue()[q] == tid);
                }
            }
            assert forall|q1: int, q2: int|
                #![trigger self.spec_queue()[q1], self.spec_queue()[q2]]
                0 <= q1 < self.spec_queue().len() && 0 <= q2 < self.spec_queue().len() && q1 != q2
                implies self.spec_queue()[q1] != self.spec_queue()[q2] by {
                if q1 < q0.len() && q2 < q0.len() {
                    assert(self.spec_queue()[q1] == q0[q1]);
                    assert(self.spec_queue()[q2] == q0[q2]);
                } else if q1 < q0.len() {
                    assert(self.spec_queue()[q2] == tid);
                    if q0[q1] == tid {
                        assert(q0.contains(tid));
                    }
                } else if q2 < q0.len() {
                    assert(self.spec_queue()[q1] == tid);
                    if q0[q2] == tid {
                        assert(q0.contains(tid));
                    }
                }
            }
            assert forall|t: usize|
                #[trigger] self.status_of(t) == Some(TaskStatus::Running) implies self
                .spec_current() == Some(t) by {
                assert(old(self).status_of(t) == self.status_of(t));
            }
        }
    }

    /// Dispatch the next Ready task: remove the queue's front entry and run
    /// it. Requires an idle execution context and a non-empty queue.
    fn dispatch(&mut self)
        requires
            old(self).wf(),
            old(self).spec_current() is None,
            old(self).spec_queue().len() > 0,
        ensures
            final(self).wf(),
            final(self).spec_current() == Some(old(self).spec_queue()[0]),
            final(self).spec_queue() == old(self).spec_queue().drop_first(),
            final(self).status_of(old(self).spec_queue()[0]) == Some(TaskStatus::Running),
            forall|t: usize|
                t != old(self).spec_queue()[0] ==> final(self).status_of(t) == old(self).status_of(t),
            forall|t: usize|
                allowed_step(old(self).status_of(t), #[trigger] final(self).status_of(t)),
            final(self).spec_kernel_space() == old(self).spec_kernel_space(),
            final(self).spec_last_exit() == old(self).spec_last_exit(),
            final(self).tid_pool() == old(self).tid_pool(),
            final(self).kstack_pool() == old(self).kstack_pool(),
    {
        let t = self.ready_queue.remove(0);
        proof {
            assert(old(self).status_of(t) == Some(TaskStatus::Ready));
            assert((t as int) < self.spec_tasks().len());
        }
        let slot = self.tasks[t];
        match slot {
            Some(mut tcb) => {
                tcb.inner.task_status = TaskStatus::Running;
                self.tasks[t] = Some(tcb);
            },
            None => {
                proof {
                    assert(false);
                }
            },
        }
        self.current = Some(t);
        proof {
            assert forall|t2: usize|
                allowed_step(old(self).status_of(t2), #[trigger] self.status_of(t2)) by {
                if t2 != t {
                    assert(self.status_of(t2) == old(self).status_of(t2));
                }
            }
            assert forall|q: int| 0 <= q < self.spec_queue().len() implies self.status_of(
                #[trigger] self.spec_queue()[q],
            ) == Some(TaskStatus::Ready) by {
                assert(self.spec_queue()[q] == old(self).spec_queue()[q + 1]);
                assert(old(self).spec_queue()[q + 1] != t);
            }
        }
    }

    /// The idle loop's dispatch step: when the execution context is idle
    /// and a task is queued, remove the queue's front task and run it;
    /// otherwise nothing changes.
    pub fn run_tasks(&mut self)
        requires
            old(self).wf(),
        ensures
            final(self).wf(),
            old(self).spec_current() is None && old(self).spec_queue().len() > 0 ==> {
                &&& final(self).spec_current() == Some(old(self).spec_queue()[0])
                &&& final(self).status_of(old(self).spec_queue()[0]) == Some(TaskStatus::Running)
                &&& final(self).spec_queue() == old(self).spec_queue().drop_first()
                &&& forall|t: usize|
                    t != old(self).spec_queue()[0] ==> final(self).status_of(t) == old(self).status_of(t)
            },
            !(old(self).spec_current() is None && old(self).spec_queue().len() > 0) ==> *final(self) == *old(self),
            forall|t: usize|
                allowed_step(old(self).status_of(t), #[trigger] final(self).status_of(t)),
            final(self).spec_kernel_space() == old(self).spec_kernel_space(),
            final(self).tid_pool() == old(self).tid_pool(),
            final(self).kstack_pool() == old(self).kstack_pool(),
            final(self).spec_last_exit() == old(self).spec_last_exit(),
    {
        if self.current.is_none() && self.ready_queue.len() > 0 {
            self.dispatch();
        }
    }

    /// Yield: the running task goes back to Ready at the tail of the queue,
    /// and the next queued task (possibly the same one, if it is alone) is
    /// dispatched.
    pub fn suspend_current_and_run_next(&mut self)
        requires
            old(self).wf(),
            old(self).spec_current() is Some,
        ensures
            final(self).wf(),
            final(self).spec_current() matches Some(n) && n == (if old(self).spec_queue().len()
                > 0 {
                old(self).spec_queue()[0]
            } else {
                old(self).spec_current()->0
            }) && final(self).status_of(n) == Some(TaskStatus::Running),
            final(self).spec_queue() == old(self).spec_queue().push(
                old(self).spec_current()->0,
            ).drop_first(),
            forall|t: usize|
                t != old(self).spec_current()->0 && Some(t) != final(self).spec_current()
                    ==> final(self).status_of(t) == old(self).status_of(t),
            forall|t: usize|
                allowed_step(old(self).status_of(t), #[trigger] final(self).status_of(t)),
            final(self).spec_kernel_space() == old(self).spec_kernel_space(),
            final(self).tid_pool() == old(self).tid_pool(),
            final(self).kstack_pool() == old(self).kstack_pool(),
            final(self).spec_last_exit() == old(self).spec_last_exit(),
    {
        let c = match self.current {
            Some(c) => c,
            None => {
                proof {
                    assert(false);
                }
                0
            },
        };
        let slot = self.tasks[c];
        match slot {
            Some(mut tcb) => {
                tcb.inner.task_status = TaskStatus::Ready;
                self.tasks[c] = Some(tcb);
            },
            None => {
                proof {
                    assert(false);
                }
            },
        }
        self.current = None;
        proof {
            assert forall|q: int| 0 <= q < self.spec_queue().len() implies self.status_of(
                #[trigger] self.spec_queue()[q],
            ) == Some(TaskStatus::Ready) by {
                assert(old(self).status_of(self.spec_queue()[q]) == Some(TaskStatus::Ready));
                assert(self.spec_queue()[q] != c);
            }
            assert forall|t: usize|
                #[trigger] self.status_of(t) == Some(TaskStatus::Running) implies self
                .spec_current() == Some(t) by {
                if t != c {
                    assert(old(self).status_of(t) == self.status_of(t));
                    assert(old(self).spec_current() == Some(t));
                }
            }
            if self.spec_queue().contains(c) {
                let q = choose|q: int| 0 <= q < self.spec_queue().len() && self.spec_queue()[q] == c;
                assert(old(self).status_of(self.spec_queue()[q]) == Some(TaskStatus::Ready));
            }
        }
        self.add_task(c);
        self.dispatch();
        proof {
            assert forall|t: usize|
                allowed_step(old(self).status_of(t), #[trigger] self.status_of(t)) by {
                if t != c && Some(t) != self.spec_current() {
                    assert(self.status_of(t) == old(self).status_of(t));
                }
            }
        }
    }

    /// Block the running task: it leaves the execution context and waits
    /// for an explicit wakeup. Returns the blocked task's id (whose saved
    /// task context the switch code then stores into).
    pub fn block_current_task(&mut self) -> (tid: usize)
        requires
            old(self).wf(),
            old(self).spec_current() is Some,
        ensures
            final(self).wf(),
            Some(tid) == old(self).spec_current(),
            final(self).spec_current() is None,
            final(self).status_of(tid) == Some(TaskStatus::Blocked),
            forall|t: usize| t != tid ==> final(self).status_of(t) == old(self).status_of(t),
            forall|t: usize|
                allowed_step(old(self).status_of(t), #[trigger] final(self).status_of(t)),
            final(self).spec_queue() == old(self).spec_queue(),
            final(self).spec_kernel_space() == old(self).spec_kernel_space(),
            final(self).tid_pool() == old(self).tid_pool(),
            final(self).kstack_pool() == old(self).kstack_pool(),
            final(self).spec_last_exit() == old(self).spec_last_exit(),
    {
        let c = match self.current {
            Some(c) => c,
            None => {
                proof {
                    assert(false);
                }
                0
            },
        };
        let slot = self.tasks[c];
        match slot {
            Some(mut tcb) => {
                tcb.inner.task_status = TaskStatus::Blocked;
                self.tasks[c] = Some(tcb);
            },
            None => {
                proof {
                    assert(false);
                }
            },
        }
        self.current = None;
        proof {
            assert forall|q: int| 0 <= q < self.spec_queue().len() implies self.status_of(
                #[trigger] self.spec_queue()[q],
            ) == Some(TaskStatus::Ready) by {
                assert(old(self).status_of(self.spec_queue()[q]) == Some(TaskStatus::Ready));
                assert(self.spec_queue()[q] != c);
            }
            assert forall|t: usize|
                allowed_step(old(self).status_of(t), #[trigger] self.status_of(t)) by {
                if t != c {
                    assert(self.status_of(t) == old(self).status_of(t));
                }
            }
            assert forall|t: usize|
                #[trigger] self.status_of(t) == Some(TaskStatus::Running) implies self
                .spec_current() == Some(t) by {
                if t != c {
                    assert(old(self).status_of(t) == self.status_of(t));
                    assert(old(self).spec_current() == Some(t));
                }
            }
        }
        c
    }

    /// Block the running task, then dispatch the next queued task if any;
    /// otherwise the execution context idles.
    pub fn block_current_and_run_next(&mut self)
        requires
            old(self).wf(),
            old(self).spec_current() is Some,
        ensures
            final(self).wf(),
            final(self).status_of(old(self).spec_current()->0) == Some(TaskStatus::Blocked),
            old(self).spec_queue().len() > 0 ==> final(self).spec_current() == Some(
                old(self).spec_queue()[0],
            ) && final(self).status_of(old(self).spec_queue()[0]) == Some(TaskStatus::Running)
                && final(self).spec_queue() == old(self).spec_queue().drop_first(),
            old(self).spec_queue().len() == 0 ==> final(self).spec_current() is None && final(self).spec_queue() == old(self).spec_queue(),
            forall|t: usize|
                t != old(self).spec_current()->0 && (old(self).spec_queue().len() == 0 || t
                    != old(self).spec_queue()[0]) ==> final(self).status_of(t) == old(self).status_of(t),
            forall|t: usize|
                allowed_step(old(self).status_of(t), #[trigger] final(self).status_of(t)),
            final(self).spec_kernel_space() == old(self).spec_kernel_space(),
            final(self).tid_pool() == old(self).tid_pool(),
            final(self).kstack_pool() == old(self).kstack_pool(),
            final(self).spec_last_exit() == old(self).spec_last_exit(),
    {
        let c = self.block_current_task();
        if self.ready_queue.len() > 0 {
            self.dispatch();
        }
        proof {
            assert forall|t: usize|
                allowed_step(old(self).status_of(t), #[trigger] self.status_of(t)) by {
                if t != c && (old(self).spec_queue().len() == 0 || t != old(self).spec_queue()[0]) {
                    assert(self.status_of(t) == old(self).status_of(t));
                }
            }
        }
    }

    /// Wake a blocked task: the one lifecycle edge out of Blocked, taken
    /// only by this explicit call naming the task. The task becomes Ready
    /// and is queued.
    pub fn wakeup_task(&mut self, tid: usize)
        requires
            old(self).wf(),
            old(self).status_of(tid) == Some(TaskStatus::Blocked),
        ensures
            final(self).wf(),
            final(self).status_of(tid) == Some(TaskStatus::Ready),
            final(self).spec_queue() == old(self).spec_queue().push(tid),
            forall|t: usize| t != tid ==> final(self).status_of(t) == old(self).status_of(t),
            forall|t: usize|
                allowed_step(old(self).status_of(t), #[trigger] final(self).status_of(t)),
            final(self).spec_current() == old(self).spec_current(),
            final(self).spec_kernel_space() == old(self).spec_kernel_space(),
            final(self).tid_pool() == old(self).tid_pool(),
            final(self).kstack_pool() == old(self).kstack_pool(),
            final(self).spec_last_exit() == old(self).spec_last_exit(),
    {
        let slot = self.tasks[tid];
        match slot {
            Some(mut tcb) => {
                tcb.inner.task_status = TaskStatus::Ready;
                self.tasks[tid] = Some(tcb);
            },
            None => {
                proof {
                    assert(false);
                }
            },
        }
        proof {
            assert forall|q: int| 0 <= q < self.spec_queue().len() implies self.status_of(
                #[trigger] self.spec_queue()[q],
            ) == Some(TaskStatus::Ready) by {
                assert(old(self).status_of(self.spec_queue()[q]) == Some(TaskStatus::Ready));
                assert(self.spec_queue()[q] != tid);
            }
            assert forall|t: usize|
                #[trigger] self.status_of(t) == Some(TaskStatus::Running) implies self
                .spec_current() == Some(t) by {
                if t != tid {
                    assert(old(self).status_of(t) == self.status_of(t));
                    assert(old(self).spec_current() == Some(t));
                }
            }
            match old(self).spec_current() {
                Some(cur) => {
                    assert(cur != tid);
                    assert(self.status_of(cur) == old(self).status_of(cur));
                },
                None => {},
            }
            if self.spec_queue().contains(tid) {
                let q = choose|q: int|
                    0 <= q < self.spec_queue().len() && self.spec_queue()[q] == tid;
                assert(old(self).status_of(self.spec_queue()[q]) == Some(TaskStatus::Ready));
            }
            assert forall|t: usize|
                allowed_step(old(self).status_of(t), #[trigger] self.status_of(t)) by {
                if t != tid {
                    assert(self.status_of(t) == old(self).status_of(t));
                }
            }
        }
        self.add_task(tid);
    }

    /// The running task exits: record its exit code for the reaper, remove
    /// it from the task table, release its kernel stack (region unmapped
    /// and TLB slots invalidated before the slot id is recycled) and its
    /// task id, then dispatch the next queued task if any.
    pub fn exit_current_and_run_next(&mut self, exit_code: i32)
        requires
            old(self).wf(),
            old(self).spec_current() is Some,
        ensures
            final(self).wf(),
            final(self).status_of(old(self).spec_current()->0) is None,
            final(self).spec_last_exit() == Some((old(self).spec_current()->0, exit_code)),
            !final(self).tid_pool().is_active(old(self).spec_current()->0),
            final(self).spec_kernel_space().spec_areas().len() == old(self).spec_kernel_space().spec_areas().len() - 1,
            forall|id: usize|
                id != old(self).task_at(old(self).spec_current()->0)->0.kstack.0 ==> final(self).kstack_pool().is_active(id) == old(self).kstack_pool().is_active(id),
            !final(self).kstack_pool().is_active(
                old(self).task_at(old(self).spec_current()->0)->0.kstack.0,
            ),
            old(self).spec_queue().len() > 0 ==> final(self).spec_current() == Some(
                old(self).spec_queue()[0],
            ) && final(self).spec_queue() == old(self).spec_queue().drop_first(),
            old(self).spec_queue().len() == 0 ==> final(self).spec_current() is None && final(self).spec_queue() == old(self).spec_queue(),
            forall|t: usize|
                t != old(self).spec_current()->0 && (old(self).spec_queue().len() == 0 || t
                    != old(self).spec_queue()[0]) ==> final(self).status_of(t) == old(self).status_of(t),
            forall|t: usize|
                allowed_step(old(self).status_of(t), #[trigger] final(self).status_of(t)),
            forall|t: usize|
                t != old(self).spec_current()->0 ==> final(self).tid_pool().is_active(t) == old(
                    self,
                ).tid_pool().is_active(t),
            final(self).spec_tasks().len() == old(self).spec_tasks().len(),
            final(self).tid_pool().spec_current() == old(self).tid_pool().spec_current(),
            final(self).kstack_pool().spec_current() == old(self).kstack_pool().spec_current(),
            final(self).spec_kernel_space().frame_pool().spec_current() == old(
                self,
            ).spec_kernel_space().frame_pool().spec_current(),
    {
        let c = match self.current {
            Some(c) => c,
            None => {
                proof {
                    assert(false);
                }
                0
            },
        };
        let slot = self.tasks[c];
        let tcb = match slot {
            Some(tcb) => tcb,
            None => {
                proof {
                    assert(false);
                }
                self.tasks[c].unwrap()
            },
        };
        self.tasks[c] = None;
        self.current = None;
        self.last_exit = Some((c, exit_code));
        proof {
            assert forall|i: int|
                0 <= i < self.spec_tasks().len() implies ((#[trigger] self.spec_tasks()[i])
                matches Some(o) ==> o.kstack.0 != tcb.kstack.0) by {
                if i != c as int && self.spec_tasks()[i] is Some {
                    assert(old(self).spec_tasks()[i] is Some);
                }
            }
        }
        kstack_dealloc(tcb.kstack, &mut self.kstack_allocator, &mut self.kernel_space, &mut self.tlb);
        self.tid_allocator.dealloc(c);
        proof {
            assert(self.spec_kernel_space().frame_pool().spec_current() == old(
                self,
            ).spec_kernel_space().frame_pool().spec_current());
            assert forall|q: int| 0 <= q < self.spec_queue().len() implies self.status_of(
                #[trigger] self.spec_queue()[q],
            ) == Some(TaskStatus::Ready) by {
                assert(old(self).status_of(self.spec_queue()[q]) == Some(TaskStatus::Ready));
                assert(self.spec_queue()[q] != c);
            }
            assert forall|t: int|
                0 <= t < self.spec_tasks().len() implies ((#[trigger] self.spec_tasks()[t])
                is Some <==> self.tid_pool().is_active(t as usize)) by {
                if t != c as int {
                    assert(self.spec_tasks()[t] == old(self).spec_tasks()[t]);
                }
            }
            assert forall|t: int|
                0 <= t < self.spec_tasks().len() implies ((#[trigger] self.spec_tasks()[t])
                matches Some(o) ==> {
                    &&& o.kstack.0 < KSTACK_ID_LIMIT
                    &&& self.kstack_pool().is_active(o.kstack.0)
                    &&& self.spec_kernel_space().has_area_starting(kstack_bottom_vpn(o.kstack.0))
                }) by {
                if t != c as int && self.spec_tasks()[t] is Some {
                    let o = self.spec_tasks()[t]->0;
                    assert(old(self).spec_tasks()[t] is Some);
                    assert(o.kstack.0 != tcb.kstack.0);
                }
            }
            assert forall|t1: int, t2: int|
                #![trigger self.spec_tasks()[t1], self.spec_tasks()[t2]]
                0 <= t1 < self.spec_tasks().len() && 0 <= t2 < self.spec_tasks().len() && t1 != t2
                implies !(self.spec_tasks()[t1] matches Some(a)
                && self.spec_tasks()[t2] matches Some(b) && a.kstack.0 == b.kstack.0) by {
                if t1 != c as int && t2 != c as int {
                    assert(self.spec_tasks()[t1] == old(self).spec_tasks()[t1]);
                    assert(self.spec_tasks()[t2] == old(self).spec_tasks()[t2]);
                }
            }
            assert forall|t: usize|
                #[trigger] self.status_of(t) == Some(TaskStatus::Running) implies self
                .spec_current() == Some(t) by {
                if t != c {
                    assert(old(self).status_of(t) == self.status_of(t));
                    assert(old(self).spec_current() == Some(t));
                }
            }
        }
        if self.ready_queue.len() > 0 {
            self.dispatch();
        }
        proof {
            assert forall|t: usize|
                allowed_step(old(self).status_of(t), #[trigger] self.status_of(t)) by {
                if t != c && (old(self).spec_queue().len() == 0 || t != old(self).spec_queue()[0]) {
                    assert(self.status_of(t) == old(self).status_of(t));
                }
            }
        }
    }
}

/// End-to-end teardown, established from the operation contracts alone:
/// creating two tasks, blocking the first, waking it, and then exiting
/// both leaves the id allocators with no active slot and the kernel
/// address space with no map area of either former kernel stack. Every
/// assertion below is discharged statically; running the function merely
/// replays the proved scenario.
pub fn teardown_leaves_no_resources() {
    let mut m = TaskManager::new();
    let t0 = m.spawn_task(1, PhysPageNum(0), 0x1000_0000);
    let t1 = m.spawn_task(2, PhysPageNum(1), 0x1000_0000);
    assert(t0 != t1);
    m.add_task(t0);
    m.add_task(t1);
    m.run_tasks();
    assert(m.status_of(t0) == Some(TaskStatus::Running));
    m.block_current_and_run_next();
    assert(m.status_of(t0) == Some(TaskStatus::Blocked));
    assert(m.status_of(t1) == Some(TaskStatus::Running));
    m.wakeup_task(t0);
    m.exit_current_and_run_next(0);
    assert(m.status_of(t1) is None);
    m.exit_current_and_run_next(0);
    assert(m.status_of(t0) is None);
    assert(m.spec_kernel_space().spec_areas().len() == 0);
    let stacks_free = m.kstack_slots_all_free();
    assert(stacks_free);
    let tids_free = m.tid_slots_all_free();
    assert(tids_free);
}

} // verus!
