use oskernel::manager::{teardown_leaves_no_resources, TaskManager};
use oskernel::mm::PhysPageNum;
use oskernel::task::TaskStatus;

const USTACK_BASE: usize = 0x1000_0000;

#[test]
fn lifecycle_follows_only_the_allowed_edges() {
    let mut m = TaskManager::new();
    assert_eq!(m.status(0), None);
    // creation: none -> Ready
    let t0 = m.spawn_task(1, PhysPageNum(0), USTACK_BASE);
    assert_eq!(m.status(t0), Some(TaskStatus::Ready));
    m.add_task(t0);
    assert_eq!(m.status(t0), Some(TaskStatus::Ready));
    // dispatch: Ready -> Running
    m.run_tasks();
    assert_eq!(m.status(t0), Some(TaskStatus::Running));
    assert_eq!(m.current_task(), Some(t0));
    // yield: Running -> Ready -> Running (alone in the queue)
    m.suspend_current_and_run_next();
    assert_eq!(m.status(t0), Some(TaskStatus::Running));
    // wait: Running -> Blocked
    m.block_current_and_run_next();
    assert_eq!(m.status(t0), Some(TaskStatus::Blocked));
    assert_eq!(m.current_task(), None);
    // explicit wakeup naming the task: Blocked -> Ready
    m.wakeup_task(t0);
    assert_eq!(m.status(t0), Some(TaskStatus::Ready));
    m.run_tasks();
    assert_eq!(m.status(t0), Some(TaskStatus::Running));
    // exit: Running -> exited (the task no longer exists)
    m.exit_current_and_run_next(0);
    assert_eq!(m.status(t0), None);
}

#[test]
fn fifo_dispatch_order() {
    let mut m = TaskManager::new();
    let t0 = m.spawn_task(1, PhysPageNum(0), USTACK_BASE);
    let t1 = m.spawn_task(1, PhysPageNum(1), USTACK_BASE);
    m.add_task(t0);
    m.add_task(t1);
    m.run_tasks();
    assert_eq!(m.current_task(), Some(t0));
    // yielding moves the head to the tail: the other task runs next
    m.suspend_current_and_run_next();
    assert_eq!(m.current_task(), Some(t1));
    assert_eq!(m.status(t0), Some(TaskStatus::Ready));
    m.suspend_current_and_run_next();
    assert_eq!(m.current_task(), Some(t0));
}

#[test]
fn blocked_task_stays_out_of_dispatch_until_woken() {
    let mut m = TaskManager::new();
    let t0 = m.spawn_task(1, PhysPageNum(0), USTACK_BASE);
    let t1 = m.spawn_task(1, PhysPageNum(1), USTACK_BASE);
    m.add_task(t0);
    m.add_task(t1);
    m.run_tasks();
    m.block_current_and_run_next();
    // the blocked head was skipped; the second task runs
    assert_eq!(m.current_task(), Some(t1));
    assert_eq!(m.status(t0), Some(TaskStatus::Blocked));
    // yielding never resumes the blocked task
    m.suspend_current_and_run_next();
    assert_eq!(m.current_task(), Some(t1));
    assert_eq!(m.status(t0), Some(TaskStatus::Blocked));
    m.wakeup_task(t0);
    m.suspend_current_and_run_next();
    assert_eq!(m.current_task(), Some(t0));
}

#[test]
fn two_tasks_block_wake_exit_leave_nothing_behind() {
    let mut m = TaskManager::new();
    assert_eq!(m.kernel_area_count(), 0);
    let t0 = m.spawn_task(1, PhysPageNum(0), USTACK_BASE);
    let t1 = m.spawn_task(2, PhysPageNum(1), USTACK_BASE);
    assert_eq!(m.kernel_area_count(), 2);
    assert!(!m.kstack_slots_all_free());
    assert!(!m.tid_slots_all_free());
    m.add_task(t0);
    m.add_task(t1);
    m.run_tasks();
    assert_eq!(m.current_task(), Some(t0));
    // block the first task; the second runs
    m.block_current_and_run_next();
    assert_eq!(m.current_task(), Some(t1));
    // wake the first again
    m.wakeup_task(t0);
    assert_eq!(m.status(t0), Some(TaskStatus::Ready));
    // exit the second, then the first
    m.exit_current_and_run_next(0);
    assert_eq!(m.status(t1), None);
    assert_eq!(m.current_task(), Some(t0));
    m.exit_current_and_run_next(7);
    assert_eq!(m.status(t0), None);
    assert_eq!(m.current_task(), None);
    // every id slot is back in the pool and the kernel address space holds
    // no map area of either former kernel stack
    assert!(m.kstack_slots_all_free());
    assert!(m.tid_slots_all_free());
    assert_eq!(m.kernel_area_count(), 0);
}

#[test]
fn statically_proved_teardown_round_replays() {
    teardown_leaves_no_resources();
}

#[test]
fn exited_task_ids_are_recycled_for_new_tasks() {
    let mut m = TaskManager::new();
    let t0 = m.spawn_task(1, PhysPageNum(0), USTACK_BASE);
    m.add_task(t0);
    m.run_tasks();
    m.exit_current_and_run_next(0);
    let t2 = m.spawn_task(3, PhysPageNum(2), USTACK_BASE);
    // the recyclable allocator hands the freed id out again
    assert_eq!(t2, t0);
    assert_eq!(m.status(t2), Some(TaskStatus::Ready));
}
