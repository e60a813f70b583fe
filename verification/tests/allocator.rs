use oskernel::pid::{pid_alloc, pid_dealloc, RecycleAllocator, IDLE_PID};

#[test]
fn fresh_allocator_counts_up() {
    let mut a = RecycleAllocator::new();
    assert_eq!(a.allocate(), 0);
    assert_eq!(a.allocate(), 1);
    assert_eq!(a.allocate(), 2);
}

#[test]
fn alloc_after_dealloc_returns_same_id() {
    let mut a = RecycleAllocator::new();
    let x = a.allocate();
    let y = a.allocate();
    let z = a.allocate();
    assert_eq!((x, y, z), (0, 1, 2));
    a.dealloc(y);
    // the most recently freed id comes back before any fresh id
    assert_eq!(a.allocate(), y);
    assert_eq!(a.allocate(), 3);
}

#[test]
fn lifo_reuse_order() {
    let mut a = RecycleAllocator::new();
    let _id0 = a.allocate();
    let id1 = a.allocate();
    let id2 = a.allocate();
    a.dealloc(id1);
    a.dealloc(id2);
    assert_eq!(a.allocate(), id2);
    assert_eq!(a.allocate(), id1);
}

#[test]
fn no_active_after_freeing_everything() {
    let mut a = RecycleAllocator::new();
    assert!(a.has_no_active());
    let id0 = a.allocate();
    let id1 = a.allocate();
    assert!(!a.has_no_active());
    a.dealloc(id0);
    assert!(!a.has_no_active());
    a.dealloc(id1);
    assert!(a.has_no_active());
}

#[test]
fn pid_handles_wrap_the_allocator() {
    let mut pids = RecycleAllocator::new();
    let h0 = pid_alloc(&mut pids);
    let h1 = pid_alloc(&mut pids);
    assert_eq!(h0.0, IDLE_PID);
    assert_eq!(h1.0, 1);
    let freed = h1.0;
    pid_dealloc(h1, &mut pids);
    let h2 = pid_alloc(&mut pids);
    assert_eq!(h2.0, freed);
}
