//! Recyclable integer-id allocation, used for process ids, task ids and
//! kernel-stack slots. The allocator keeps a "next never-used id" counter and
//! a pool of previously freed ids; allocation prefers the most recently freed
//! id (LIFO, O(1)) and only then issues a fresh one. Freeing an id that was
//! never issued, or freeing an id twice, is a fatal kernel defect and is
//! excluded by precondition rather than handled.

use vstd::prelude::*;

verus! {

/// Reserved id for the idle/bootstrap task.
pub const IDLE_PID: usize = 0;

/// An id is active when it has been issued (`id < current`) and has not been
/// returned to the freed pool since.
pub open spec fn id_active(current: nat, recycled: Seq<usize>, id: usize) -> bool {
    (id as nat) < current && !recycled.contains(id)
}

/// Allocator invariant: every freed id was previously issued, and no id sits
/// in the freed pool twice. Together these keep the active set and the freed
/// pool disjoint.
pub open spec fn allocator_inv(current: nat, recycled: Seq<usize>) -> bool {
    &&& forall|i: int| 0 <= i < recycled.len() ==> ((#[trigger] recycled[i]) as nat) < current
    &&& recycled.no_duplicates()
}

/// The id the allocator hands out next: the most recently freed id if any,
/// otherwise the fresh counter value.
pub open spec fn next_alloc_id(current: nat, recycled: Seq<usize>) -> usize {
    if recycled.len() > 0 {
        recycled.last()
    } else {
        current as usize
    }
}

/// Precondition of `dealloc`: only a currently active id may be freed.
/// A violation is a kernel bug (double free of a resource id), not a
/// recoverable error.
pub open spec fn can_dealloc(current: nat, recycled: Seq<usize>, id: usize) -> bool {
    id_active(current, recycled, id)
}

/// Recyclable id allocator: `current` is the next never-issued id, `recycled`
/// the pool of freed ids awaiting reuse.
pub struct RecycleAllocator {
    current: usize,
    recycled: Vec<usize>,
}

impl RecycleAllocator {
    /// The "next never-used id" counter.
    pub closed spec fn spec_current(&self) -> nat {
        self.current as nat
    }

    /// The freed pool, oldest first.
    pub closed spec fn spec_recycled(&self) -> Seq<usize> {
        self.recycled@
    }

    pub open spec fn wf(&self) -> bool {
        allocator_inv(self.spec_current(), self.spec_recycled())
    }

    pub open spec fn is_active(&self, id: usize) -> bool {
        id_active(self.spec_current(), self.spec_recycled(), id)
    }

    /// A fresh allocator has issued nothing.
    pub fn new() -> (r: Self)
        ensures
            r.wf(),
            r.spec_current() == 0,
            r.spec_recycled() == Seq::<usize>::empty(),
            forall|id: usize| !r.is_active(id),
    {
        RecycleAllocator { current: 0, recycled: Vec::new() }
    }

    /// Issue an id that is not currently active: the most recently freed one
    /// if the pool is non-empty, otherwise the fresh counter value.
    pub fn allocate(&mut self) -> (id: usize)
        requires
            old(self).wf(),
            old(self).spec_current() < usize::MAX as nat,
        ensures
            final(self).wf(),
            id == next_alloc_id(old(self).spec_current(), old(self).spec_recycled()),
            !old(self).is_active(id),
            final(self).is_active(id),
            forall|x: usize| x != id ==> final(self).is_active(x) == old(self).is_active(x),
            old(self).spec_recycled().len() > 0 ==> {
                &&& final(self).spec_current() == old(self).spec_current()
                &&& final(self).spec_recycled() == old(self).spec_recycled().drop_last()
            },
            old(self).spec_recycled().len() == 0 ==> {
                &&& final(self).spec_current() == old(self).spec_current() + 1
                &&& final(self).spec_recycled() == old(self).spec_recycled()
            },
    {
        if let Some(id) = self.recycled.pop() {
            proof {
                let r = old(self).spec_recycled();
                assert(id == r.last());
                assert(!r.drop_last().contains(id)) by {
                    if r.drop_last().contains(id) {
                        let i = choose|i: int| 0 <= i < r.drop_last().len() && r.drop_last()[i] == id;
                        assert(r[i] == r[r.len() - 1]);
                    }
                }
                assert forall|x: usize| x != id implies
                    final(self).is_active(x) == old(self).is_active(x) by {
                    if r.contains(x) {
                        let i = choose|i: int| 0 <= i < r.len() && r[i] == x;
                        assert(i < r.len() - 1);
                        assert(r.drop_last()[i] == x);
                    } else {
                        assert forall|i: int| 0 <= i < r.drop_last().len() implies
                            r.drop_last()[i] != x by {
                            assert(r[i] == r.drop_last()[i]);
                        }
                    }
                }
            }
            id
        } else {
            self.current += 1;
            self.current - 1
        }
    }

    /// Return an active id to the freed pool. Freeing a never-issued id or
    /// freeing twice is a fatal kernel condition and is excluded by the
    /// precondition.
    pub fn dealloc(&mut self, id: usize)
        requires
            old(self).wf(),
            can_dealloc(old(self).spec_current(), old(self).spec_recycled(), id),
        ensures
            final(self).wf(),
            final(self).spec_current() == old(self).spec_current(),
            final(self).spec_recycled() == old(self).spec_recycled().push(id),
            !final(self).is_active(id),
            forall|x: usize| x != id ==> final(self).is_active(x) == old(self).is_active(x),
    {
        proof {
            let r = old(self).spec_recycled();
            assert forall|i: int, j: int|
                0 <= i < r.push(id).len() && 0 <= j < r.push(id).len() && i != j implies
                r.push(id)[i] != r.push(id)[j] by {
                if i < r.len() && j < r.len() {
                    assert(r[i] != r[j]);
                }
            }
            assert(r.push(id).no_duplicates());
            assert forall|x: usize| x != id implies
                (r.push(id).contains(x) == r.contains(x)) by {
                if r.contains(x) {
                    let i = choose|i: int| 0 <= i < r.len() && r[i] == x;
                    assert(r.push(id)[i] == x);
                } else if r.push(id).contains(x) {
                    let i = choose|i: int| 0 <= i < r.push(id).len() && r.push(id)[i] == x;
                    assert(i < r.len() ==> r[i] == x);
                }
            }
            assert(r.push(id).contains(id)) by {
                assert(r.push(id)[r.len() as int] == id);
            }
        }
        self.recycled.push(id);
    }

    /// True exactly when no id is active, i.e. every issued id has been freed
    /// again. Used to observe that a torn-down kernel leaks no resource slot.
    pub fn has_no_active(&self) -> (r: bool)
        requires
            self.wf(),
        ensures
            r <==> (forall|id: usize| !self.is_active(id)),
    {
        proof {
            lemma_full_pool_means_no_active(self.spec_current(), self.spec_recycled());
            if self.spec_recycled().len() == self.spec_current() {
                assert forall|id: usize| !self.is_active(id) by {
                    assert(!id_active(self.spec_current(), self.spec_recycled(), id));
                }
            } else {
                let w = choose|id: usize|
                    id_active(self.spec_current(), self.spec_recycled(), id);
                assert(self.is_active(w));
            }
        }
        self.recycled.len() == self.current
    }
}

/// Under the allocator invariant, the freed pool holds every issued id
/// exactly when its length equals the counter (pigeonhole on `[0, current)`).
proof fn lemma_full_pool_means_no_active(current: nat, recycled: Seq<usize>)
    requires
        allocator_inv(current, recycled),
        current <= usize::MAX as nat,
    ensures
        (recycled.len() == current) <==> (forall|id: usize| !id_active(current, recycled, id)),
{
    let values = recycled.map_values(|v: usize| v as int);
    assert(values.no_duplicates());
    assert forall|i: int| 0 <= i < values.len() implies 0 <= #[trigger] values[i] < current as int by {
        assert((recycled[i] as nat) < current);
    }
    let range = vstd::set_lib::set_int_range(0, current as int);
    vstd::set_lib::lemma_int_range(0, current as int);
    values.unique_seq_to_set();
    assert(values.to_set().len() == values.len());
    assert(values.to_set().subset_of(range)) by {
        assert forall|v: int| values.to_set().contains(v) implies range.contains(v) by {
            let i = choose|i: int| 0 <= i < values.len() && values[i] == v;
        }
    }
    vstd::set_lib::lemma_len_subset(values.to_set(), range);
    if recycled.len() == current {
        assert forall|id: usize| !id_active(current, recycled, id) by {
            if (id as nat) < current && !recycled.contains(id) {
                let smaller = range.remove(id as int);
                assert(values.to_set().subset_of(smaller)) by {
                    assert forall|v: int| values.to_set().contains(v) implies smaller.contains(v) by {
                        let i = choose|i: int| 0 <= i < values.len() && values[i] == v;
                        assert(recycled[i] != id);
                        assert(v != id as int);
                    }
                }
                vstd::set_lib::lemma_len_subset(values.to_set(), smaller);
                assert(smaller.len() == current - 1);
            }
        }
    }
    if forall|id: usize| !id_active(current, recycled, id) {
        assert(range.subset_of(values.to_set())) by {
            assert forall|v: int| range.contains(v) implies values.to_set().contains(v) by {
                let id = v as usize;
                assert(id as int == v);
                assert(!id_active(current, recycled, id));
                assert(recycled.contains(id));
                let i = choose|i: int| 0 <= i < recycled.len() && recycled[i] == id;
                assert(values[i] == v);
            }
        }
        vstd::set_lib::lemma_len_subset(range, values.to_set());
        assert(recycled.len() == current);
    }
}

/// The id an allocator hands out next is never one that is already active:
/// across any sequence of allocations and frees the active set acquires no
/// duplicate.
pub proof fn lemma_alloc_never_duplicates(current: nat, recycled: Seq<usize>)
    requires
        allocator_inv(current, recycled),
        current <= usize::MAX as nat,
    ensures
        !id_active(current, recycled, next_alloc_id(current, recycled)),
{
    if recycled.len() > 0 {
        assert(recycled.contains(recycled.last()));
    }
}

/// An allocation immediately following `dealloc(x)` returns `x` itself —
/// an already-issued id strictly below the counter — before any fresh id at
/// or above the counter would be issued.
pub proof fn lemma_alloc_after_dealloc_returns_same(current: nat, recycled: Seq<usize>, x: usize)
    requires
        allocator_inv(current, recycled),
        can_dealloc(current, recycled, x),
    ensures
        next_alloc_id(current, recycled.push(x)) == x,
        (x as nat) < current,
{
    assert(recycled.push(x).last() == x);
}

/// Freeing the same id twice in a row, with no allocation of it in between,
/// violates the precondition of the second free: a double free is a fatal
/// kernel condition, never silently absorbed.
pub proof fn lemma_dealloc_twice_is_fatal(current: nat, recycled: Seq<usize>, x: usize)
    requires
        can_dealloc(current, recycled, x),
    ensures
        !can_dealloc(current, recycled.push(x), x),
{
    assert(recycled.push(x)[recycled.len() as int] == x);
}

/// A handle for an issued process id; releasing it returns the id to the
/// allocator through `pid_dealloc`.
pub struct PidHandle(pub usize);

/// Issue a fresh process id from the process-id allocator.
pub fn pid_alloc(allocator: &mut RecycleAllocator) -> (r: PidHandle)
    requires
        old(allocator).wf(),
        old(allocator).spec_current() < usize::MAX as nat,
    ensures
        final(allocator).wf(),
        r.0 == next_alloc_id(old(allocator).spec_current(), old(allocator).spec_recycled()),
        !old(allocator).is_active(r.0),
        final(allocator).is_active(r.0),
        forall|x: usize| x != r.0 ==> final(allocator).is_active(x) == old(allocator).is_active(x),
{
    PidHandle(allocator.allocate())
}

/// Return a process id to the allocator when its handle is released.
pub fn pid_dealloc(handle: PidHandle, allocator: &mut RecycleAllocator)
    requires
        old(allocator).wf(),
        can_dealloc(old(allocator).spec_current(), old(allocator).spec_recycled(), handle.0),
    ensures
        final(allocator).wf(),
        !final(allocator).is_active(handle.0),
        forall|x: usize| x != handle.0 ==> final(allocator).is_active(x) == old(allocator).is_active(x),
        final(allocator).spec_current() == old(allocator).spec_current(),
        final(allocator).spec_recycled() == old(allocator).spec_recycled().push(handle.0),
{
    allocator.dealloc(handle.0);
}

} // verus!
