//! Kernel-stack and trap-context placement. Each task's kernel stack is a
//! framed area of the kernel address space at a position that is a pure
//! function of its recyclable slot id, with one guard page below each stack;
//! each task's trap context occupies one dedicated page below the
//! trampoline, distinct from its stack. Releasing a stack unmaps the region
//! (invalidating the TLB slots covering it) strictly before the slot id is
//! recycled, so a reused id can never alias stale frames.

use vstd::prelude::*;

verus! {

use crate::config::{
    KERNEL_STACK_PAGES, KERNEL_STACK_SIZE, PAGE_SIZE, TRAMPOLINE, TRAMPOLINE_VPN,
    TRAP_CONTEXT_BASE, USER_STACK_SIZE,
};
use crate::mm::{MapArea, MemorySet, VirtAddr, VirtPageNum, MAP_PERM_R, MAP_PERM_W};
use crate::pid::RecycleAllocator;
use crate::tlb::Tlb;
use vstd::arithmetic::div_mod::{lemma_div_by_multiple, lemma_mod_multiples_basic};

/// Highest admissible kernel-stack slot id: keeps every stack position
/// representable on the narrowest supported address width.
pub const KSTACK_ID_LIMIT: usize = 0x10000;

/// Highest admissible task id: keeps every trap-context page position
/// representable.
pub const TASK_ID_LIMIT: usize = 0x10000;

/// Byte address one past the top of slot `id`'s kernel stack.
pub open spec fn spec_kstack_top(id: usize) -> int {
    TRAMPOLINE - id * (KERNEL_STACK_SIZE + PAGE_SIZE)
}

/// Byte address of the bottom of slot `id`'s kernel stack.
pub open spec fn spec_kstack_bottom(id: usize) -> int {
    spec_kstack_top(id) - KERNEL_STACK_SIZE
}

/// First virtual page of slot `id`'s kernel stack: each slot takes three
/// pages below the trampoline page — two stack pages and one guard page.
pub open spec fn kstack_bottom_vpn(id: usize) -> int {
    TRAMPOLINE_VPN - 3 * id - 2
}

/// One past the last virtual page of slot `id`'s kernel stack.
pub open spec fn kstack_top_vpn(id: usize) -> int {
    TRAMPOLINE_VPN - 3 * id
}

/// The trampoline sits on a page boundary, and the page-count constants
/// match the byte constants, on either supported address width.
proof fn lemma_layout_constants()
    ensures
        TRAMPOLINE == TRAMPOLINE_VPN * PAGE_SIZE,
        PAGE_SIZE == 4096,
        KERNEL_STACK_SIZE == 8192,
        KERNEL_STACK_PAGES == 2,
        TRAMPOLINE_VPN >= 0xfffff,
        TRAMPOLINE >= 0xfffff000,
{
    assert(usize::BITS == 32 || usize::BITS == 64);
    if usize::BITS == 32 {
        assert(usize::MAX == 0xffffffff);
        assert(TRAMPOLINE == 0xfffff000);
        assert(TRAMPOLINE_VPN == 0xfffff) by {
            lemma_div_by_multiple(0xfffff, 4096);
        }
    } else {
        assert(usize::MAX == 0xffffffffffffffff);
        assert(TRAMPOLINE == 0xfffffffffffff000);
        assert(TRAMPOLINE_VPN == 0xfffffffffffff) by {
            lemma_div_by_multiple(0xfffffffffffff, 4096);
        }
    }
}

/// The byte range of slot `id`'s kernel stack is page-aligned and spans
/// exactly the pages `[kstack_bottom_vpn(id), kstack_top_vpn(id))`.
pub proof fn lemma_kstack_vpn_range(id: usize)
    requires
        id < KSTACK_ID_LIMIT,
    ensures
        spec_kstack_bottom(id) % (PAGE_SIZE as int) == 0,
        spec_kstack_top(id) % (PAGE_SIZE as int) == 0,
        spec_kstack_bottom(id) / (PAGE_SIZE as int) == kstack_bottom_vpn(id),
        spec_kstack_top(id) / (PAGE_SIZE as int) == kstack_top_vpn(id),
        0 < spec_kstack_bottom(id) < spec_kstack_top(id) <= TRAMPOLINE,
{
    lemma_layout_constants();
    let t = TRAMPOLINE_VPN as int;
    let x = id as int;
    assert((t - 3 * x - 2) * 4096 == t * 4096 - x * 12288 - 8192) by (nonlinear_arith);
    assert((t - 3 * x) * 4096 == t * 4096 - x * 12288) by (nonlinear_arith);
    assert(x * (KERNEL_STACK_SIZE + PAGE_SIZE) == x * 12288);
    assert(kstack_bottom_vpn(id) * (PAGE_SIZE as int) == (t - 3 * x - 2) * 4096);
    assert(kstack_top_vpn(id) * (PAGE_SIZE as int) == (t - 3 * x) * 4096);
    assert(spec_kstack_bottom(id) == kstack_bottom_vpn(id) * (PAGE_SIZE as int));
    assert(spec_kstack_top(id) == kstack_top_vpn(id) * (PAGE_SIZE as int));
    lemma_mod_multiples_basic(kstack_bottom_vpn(id), PAGE_SIZE as int);
    lemma_mod_multiples_basic(kstack_top_vpn(id), PAGE_SIZE as int);
    lemma_div_by_multiple(kstack_bottom_vpn(id), PAGE_SIZE as int);
    lemma_div_by_multiple(kstack_top_vpn(id), PAGE_SIZE as int);
    assert(x * 12288 <= 0xffff * 12288) by (nonlinear_arith)
        requires
            x <= 0xffff,
    ;
    assert(0 < kstack_bottom_vpn(id)) by {
        assert(3 * x + 2 <= 3 * 0xffff + 2);
    }
}

/// Kernel-stack placement is a pure function of the slot id: each stack has
/// exactly the fixed kernel-stack size, and the ranges of distinct ids
/// never overlap (a guard page separates neighbours).
pub proof fn lemma_kernel_stack_positions_disjoint(id1: usize, id2: usize)
    requires
        id1 < KSTACK_ID_LIMIT,
        id2 < KSTACK_ID_LIMIT,
        id1 != id2,
    ensures
        spec_kstack_top(id1) - spec_kstack_bottom(id1) == KERNEL_STACK_SIZE,
        spec_kstack_bottom(id1) >= spec_kstack_top(id2) || spec_kstack_bottom(id2)
            >= spec_kstack_top(id1),
        kstack_bottom_vpn(id1) >= kstack_top_vpn(id2) || kstack_bottom_vpn(id2)
            >= kstack_top_vpn(id1),
{
    lemma_kstack_vpn_range(id1);
    lemma_kstack_vpn_range(id2);
    let x1 = id1 as int;
    let x2 = id2 as int;
    if x1 < x2 {
        assert(x2 * 12288 - x1 * 12288 >= 12288) by (nonlinear_arith)
            requires
                x1 < x2,
        ;
    } else {
        assert(x1 * 12288 - x2 * 12288 >= 12288) by (nonlinear_arith)
            requires
                x2 < x1,
        ;
    }
    lemma_layout_constants();
    assert(x1 * (KERNEL_STACK_SIZE + PAGE_SIZE) == x1 * 12288);
    assert(x2 * (KERNEL_STACK_SIZE + PAGE_SIZE) == x2 * 12288);
}

/// Deterministic position of slot `kstack_id`'s kernel stack:
/// `(bottom, top)` with `top = TRAMPOLINE - id * (KERNEL_STACK_SIZE +
/// PAGE_SIZE)` and `bottom = top - KERNEL_STACK_SIZE`.
pub fn kernel_stack_position(kstack_id: usize) -> (r: (usize, usize))
    requires
        kstack_id < KSTACK_ID_LIMIT,
    ensures
        r.0 == spec_kstack_bottom(kstack_id),
        r.1 == spec_kstack_top(kstack_id),
        r.1 - r.0 == KERNEL_STACK_SIZE,
{
    proof {
        lemma_kstack_vpn_range(kstack_id);
        lemma_layout_constants();
        assert((kstack_id as int) * (KERNEL_STACK_SIZE + PAGE_SIZE) == (kstack_id as int)
            * 12288);
        assert((kstack_id as int) * 12288 <= 0xffff * 12288) by (nonlinear_arith)
            requires
                kstack_id as int <= 0xffff,
        ;
    }
    let top = TRAMPOLINE - kstack_id * (KERNEL_STACK_SIZE + PAGE_SIZE);
    let bottom = top - KERNEL_STACK_SIZE;
    (bottom, top)
}

/// Byte address of the trap-context page of task `tid`: one dedicated page
/// per task, directly below the trampoline region, distinct from any kernel
/// stack.
pub fn trap_cx_bottom_from_tid(tid: usize) -> (r: usize)
    requires
        tid < TASK_ID_LIMIT,
    ensures
        r == TRAP_CONTEXT_BASE - tid * PAGE_SIZE,
{
    proof {
        lemma_layout_constants();
    }
    TRAP_CONTEXT_BASE - tid * PAGE_SIZE
}

/// Byte address of the bottom of task `tid`'s user stack within its
/// process's stack arena, one guard page between neighbours.
pub fn ustack_bottom_from_tid(ustack_base: usize, tid: usize) -> (r: usize)
    requires
        ustack_base + tid * (PAGE_SIZE + USER_STACK_SIZE) <= usize::MAX,
    ensures
        r == ustack_base + tid * (PAGE_SIZE + USER_STACK_SIZE),
{
    ustack_base + tid * (PAGE_SIZE + USER_STACK_SIZE)
}

/// An exclusively owned kernel stack, named by its slot id.
#[derive(Clone, Copy, Debug)]
pub struct KernelStack(pub usize);

impl KernelStack {
    /// The byte address one past the top of this stack.
    pub fn get_top(&self) -> (r: usize)
        requires
            self.0 < KSTACK_ID_LIMIT,
        ensures
            r == spec_kstack_top(self.0),
    {
        let position = kernel_stack_position(self.0);
        position.1
    }
}

/// `a` is exactly the kernel-stack area of slot `id`.
pub open spec fn is_kstack_area(a: MapArea, id: usize) -> bool {
    &&& id < KSTACK_ID_LIMIT
    &&& a.start_vpn.0 == kstack_bottom_vpn(id)
    &&& a.end_vpn.0 == kstack_top_vpn(id)
}

/// Every area of the kernel address space is the kernel stack of some
/// active slot id: the discipline `kstack_alloc` and `kstack_dealloc`
/// maintain, which rules out aliasing between an exiting and a newly
/// created task. The `MemorySet` managed here models only the stack arena
/// below the trampoline; the kernel-image mappings live outside it and are
/// fixed at boot.
/// `a` is the kernel-stack area of some id that is active in `allocator`.
pub open spec fn area_is_stack_of_active(a: MapArea, allocator: &RecycleAllocator) -> bool {
    exists|id: usize| allocator.is_active(id) && is_kstack_area(a, id)
}

pub open spec fn kernel_space_stacks_only(ks: &MemorySet, allocator: &RecycleAllocator) -> bool {
    forall|i: int|
        0 <= i < ks.spec_areas().len() ==> area_is_stack_of_active(
            #[trigger] ks.spec_areas()[i],
            allocator,
        )
}

/// Obtain a kernel stack: draw a slot id, compute its deterministic
/// position, and map the region `[bottom, top)` into the kernel address
/// space as a fresh framed area with read/write permission.
pub fn kstack_alloc(allocator: &mut RecycleAllocator, kernel_space: &mut MemorySet) -> (r:
    KernelStack)
    requires
        old(allocator).wf(),
        old(allocator).spec_current() < KSTACK_ID_LIMIT,
        old(kernel_space).wf(),
        kernel_space_stacks_only(old(kernel_space), old(allocator)),
        old(kernel_space).frame_pool().spec_current() + KERNEL_STACK_PAGES <= usize::MAX,
    ensures
        final(allocator).wf(),
        final(kernel_space).wf(),
        kernel_space_stacks_only(final(kernel_space), final(allocator)),
        r.0 < KSTACK_ID_LIMIT,
        r.0 == crate::pid::next_alloc_id(
            old(allocator).spec_current(),
            old(allocator).spec_recycled(),
        ),
        !old(allocator).is_active(r.0),
        final(allocator).is_active(r.0),
        forall|x: usize| x != r.0 ==> final(allocator).is_active(x) == old(allocator).is_active(x),
        final(allocator).spec_current() <= old(allocator).spec_current() + 1,
        final(kernel_space).spec_areas().len() == old(kernel_space).spec_areas().len() + 1,
        forall|i: int|
            0 <= i < old(kernel_space).spec_areas().len() ==> #[trigger] final(kernel_space).spec_areas()[i] == old(kernel_space).spec_areas()[i],
        is_kstack_area(final(kernel_space).spec_areas().last(), r.0),
        final(kernel_space).spec_areas().last().perm == MAP_PERM_R | MAP_PERM_W,
        final(kernel_space).has_area_starting(kstack_bottom_vpn(r.0)),
        final(kernel_space).frame_pool().spec_current() <= old(kernel_space).frame_pool().spec_current() + KERNEL_STACK_PAGES,
        forall|vpn: int|
            old(kernel_space).maps(vpn) ==> final(kernel_space).maps(vpn) && final(kernel_space).spec_translate(vpn) == old(kernel_space).spec_translate(vpn),
        forall|vpn: int|
            kstack_bottom_vpn(r.0) <= vpn < kstack_top_vpn(r.0) ==> final(kernel_space).maps(vpn),
        forall|sv: int|
            old(kernel_space).has_area_starting(sv) ==> final(kernel_space).has_area_starting(sv),
{
    let kstack_id = allocator.allocate();
    let position = kernel_stack_position(kstack_id);
    let kstack_bottom = position.0;
    let kstack_top = position.1;
    proof {
        lemma_kstack_vpn_range(kstack_id);
        assert forall|i: int| 0 <= i < kernel_space.spec_areas().len() implies (crate::mm::vpn_of(
            kstack_top,
        ) <= (#[trigger] kernel_space.spec_areas()[i]).start_vpn.0
            || kernel_space.spec_areas()[i].end_vpn.0 <= crate::mm::vpn_of(kstack_bottom)) by {
            let a = kernel_space.spec_areas()[i];
            let id2 = choose|id2: usize|
                old(allocator).is_active(id2) && is_kstack_area(a, id2);
            assert(id2 != kstack_id);
            lemma_kernel_stack_positions_disjoint(kstack_id, id2);
        }
    }
    kernel_space.insert_framed_area(
        VirtAddr(kstack_bottom),
        VirtAddr(kstack_top),
        MAP_PERM_R | MAP_PERM_W,
    );
    proof {
        let fs = kernel_space.spec_areas();
        let os = old(kernel_space).spec_areas();
        assert(is_kstack_area(fs.last(), kstack_id));
        kernel_space.lemma_area_starting_at(kstack_bottom_vpn(kstack_id), fs.len() - 1);
        assert forall|i: int| 0 <= i < kernel_space.spec_areas().len() implies exists|id: usize|
            allocator.is_active(id) && is_kstack_area(
                #[trigger] kernel_space.spec_areas()[i],
                id,
            ) by {
            if i < os.len() {
                let id2 = choose|id2: usize|
                    old(allocator).is_active(id2) && is_kstack_area(os[i], id2);
                assert(allocator.is_active(id2) && is_kstack_area(fs[i], id2));
            } else {
                assert(allocator.is_active(kstack_id) && is_kstack_area(fs[i], kstack_id));
            }
        }
        assert forall|sv: int| old(kernel_space).has_area_starting(sv) implies kernel_space
            .has_area_starting(sv) by {
            let j = choose|j: int|
                0 <= j < os.len() && (#[trigger] os[j]).start_vpn.0 == sv;
            assert(kernel_space.spec_areas()[j].start_vpn.0 == sv);
        }
    }
    KernelStack(kstack_id)
}

/// Release a kernel stack: first unmap its region from the kernel address
/// space — which also invalidates every TLB slot covering it — and only
/// then return the slot id to the allocator. The reverse order would let a
/// newly created task reuse the id while stale frames are still mapped,
/// aliasing another task's memory.
pub fn kstack_dealloc(
    kstack: KernelStack,
    allocator: &mut RecycleAllocator,
    kernel_space: &mut MemorySet,
    tlb: &mut Tlb,
)
    requires
        old(allocator).wf(),
        old(kernel_space).wf(),
        old(tlb).wf(),
        kstack.0 < KSTACK_ID_LIMIT,
        old(allocator).is_active(kstack.0),
        kernel_space_stacks_only(old(kernel_space), old(allocator)),
        old(kernel_space).has_area_starting(kstack_bottom_vpn(kstack.0)),
    ensures
        final(allocator).wf(),
        final(kernel_space).wf(),
        final(tlb).wf(),
        final(tlb).spec_asid() == old(tlb).spec_asid(),
        kernel_space_stacks_only(final(kernel_space), final(allocator)),
        !final(allocator).is_active(kstack.0),
        forall|x: usize|
            x != kstack.0 ==> final(allocator).is_active(x) == old(allocator).is_active(x),
        final(allocator).spec_current() == old(allocator).spec_current(),
        final(kernel_space).spec_areas().len() == old(kernel_space).spec_areas().len() - 1,
        final(kernel_space).spec_areas() == old(kernel_space).spec_areas().remove(
            old(kernel_space).area_starting_idx(kstack_bottom_vpn(kstack.0)),
        ),
        !final(kernel_space).has_area_starting(kstack_bottom_vpn(kstack.0)),
        forall|vpn: int|
            kstack_bottom_vpn(kstack.0) <= vpn < kstack_top_vpn(kstack.0) ==> !final(kernel_space).maps(vpn) && final(tlb).resolves(vpn) is None,
        forall|vpn: int|
            !(kstack_bottom_vpn(kstack.0) <= vpn < kstack_top_vpn(kstack.0)) ==> final(kernel_space).maps(vpn) == old(kernel_space).maps(vpn) && final(kernel_space).spec_translate(vpn)
                == old(kernel_space).spec_translate(vpn),
        final(kernel_space).frame_pool().spec_current() == old(kernel_space).frame_pool().spec_current(),
        crate::mm::tlb_consistent(old(tlb), old(kernel_space)) ==> crate::mm::tlb_consistent(
            final(tlb),
            final(kernel_space),
        ),
        forall|id2: usize|
            id2 < KSTACK_ID_LIMIT && id2 != kstack.0 && old(kernel_space).has_area_starting(
                kstack_bottom_vpn(id2),
            ) ==> final(kernel_space).has_area_starting(kstack_bottom_vpn(id2)),
{
    let position = kernel_stack_position(kstack.0);
    let kernel_stack_bottom = position.0;
    proof {
        lemma_kstack_vpn_range(kstack.0);
    }
    let bottom_vpn = kernel_stack_bottom / PAGE_SIZE;
    let ghost sv = kstack_bottom_vpn(kstack.0);
    let ghost ai = old(kernel_space).area_starting_idx(sv);
    let ghost removed = old(kernel_space).spec_areas()[ai];
    proof {
        let id2 = choose|id2: usize|
            old(allocator).is_active(id2) && is_kstack_area(removed, id2);
        lemma_layout_constants();
        assert(id2 == kstack.0);
        assert(removed.end_vpn.0 == kstack_top_vpn(kstack.0));
    }
    kernel_space.remove_area_with_start_vpn(tlb, VirtPageNum(bottom_vpn));
    proof {
        let fs = kernel_space.spec_areas();
        let os = old(kernel_space).spec_areas();
        assert(fs == os.remove(ai));
        assert forall|j: int| 0 <= j < fs.len() implies #[trigger] fs[j] == (if j < ai {
            os[j]
        } else {
            os[j + 1]
        }) by {}
    }
    allocator.dealloc(kstack.0);
    proof {
        assert forall|i: int|
            0 <= i < kernel_space.spec_areas().len() implies area_is_stack_of_active(
            #[trigger] kernel_space.spec_areas()[i],
            allocator,
        ) by {
            let i0 = if i < ai {
                i
            } else {
                i + 1
            };
            assert(kernel_space.spec_areas()[i] == old(kernel_space).spec_areas()[i0]);
            let id2 = choose|id2: usize|
                old(allocator).is_active(id2) && is_kstack_area(
                    old(kernel_space).spec_areas()[i0],
                    id2,
                );
            lemma_layout_constants();
            if id2 == kstack.0 {
                assert(old(kernel_space).spec_areas()[i0].start_vpn.0 == kstack_bottom_vpn(
                    kstack.0,
                ));
                assert(i0 != ai);
                assert(crate::mm::areas_disjoint(
                    old(kernel_space).spec_areas()[i0],
                    old(kernel_space).spec_areas()[ai],
                ));
                assert(old(kernel_space).spec_areas()[i0].wf());
                assert(old(kernel_space).spec_areas()[ai].wf());
                assert(false);
            }
            assert(allocator.is_active(id2) && is_kstack_area(
                kernel_space.spec_areas()[i],
                id2,
            ));
        }
        assert forall|id2: usize|
            id2 < KSTACK_ID_LIMIT && id2 != kstack.0 && old(kernel_space).has_area_starting(
                kstack_bottom_vpn(id2),
            ) implies kernel_space.has_area_starting(kstack_bottom_vpn(id2)) by {
            let j = choose|j: int|
                0 <= j < old(kernel_space).spec_areas().len() && (#[trigger] old(kernel_space).spec_areas()[j]).start_vpn.0 == kstack_bottom_vpn(id2);
            assert(kstack_bottom_vpn(id2) != kstack_bottom_vpn(kstack.0));
            assert(j != ai);
            let jf = if j < ai {
                j
            } else {
                j - 1
            };
            assert(kernel_space.spec_areas()[jf] == old(kernel_space).spec_areas()[j]);
            assert(kernel_space.spec_areas()[jf].start_vpn.0 == kstack_bottom_vpn(id2));
        }
        if kernel_space.has_area_starting(kstack_bottom_vpn(kstack.0)) {
            let j = choose|j: int|
                0 <= j < kernel_space.spec_areas().len() && (#[trigger] kernel_space.spec_areas()[
                    j]).start_vpn.0 == kstack_bottom_vpn(kstack.0);
            let j0 = if j < ai {
                j
            } else {
                j + 1
            };
            assert(old(kernel_space).spec_areas()[j0].start_vpn.0 == kstack_bottom_vpn(
                kstack.0,
            ));
            assert(j0 != ai);
            assert(crate::mm::areas_disjoint(
                old(kernel_space).spec_areas()[j0],
                old(kernel_space).spec_areas()[ai],
            ));
            assert(old(kernel_space).spec_areas()[j0].wf());
            assert(old(kernel_space).spec_areas()[ai].wf());
            assert(false);
        }
    }
}

/// Obtaining a kernel stack and then releasing it is an identity on the
/// kernel address space's area set and on the allocator's active slot set:
/// established from the contracts of `kstack_alloc` and `kstack_dealloc`
/// alone. Every assertion is discharged statically; running the function
/// merely replays the proved round trip.
pub fn kstack_alloc_release_round_trip(
    allocator: &mut RecycleAllocator,
    kernel_space: &mut MemorySet,
    tlb: &mut Tlb,
)
    requires
        old(allocator).wf(),
        old(allocator).spec_current() < KSTACK_ID_LIMIT,
        old(kernel_space).wf(),
        old(tlb).wf(),
        kernel_space_stacks_only(old(kernel_space), old(allocator)),
        old(kernel_space).frame_pool().spec_current() + KERNEL_STACK_PAGES <= usize::MAX,
    ensures
        final(kernel_space).spec_areas() == old(kernel_space).spec_areas(),
        forall|id: usize| final(allocator).is_active(id) == old(allocator).is_active(id),
{
    let ghost areas0 = kernel_space.spec_areas();
    let stack = kstack_alloc(allocator, kernel_space);
    proof {
        kernel_space.lemma_area_starting_at(
            kstack_bottom_vpn(stack.0),
            kernel_space.spec_areas().len() - 1,
        );
    }
    kstack_dealloc(stack, allocator, kernel_space, tlb);
    proof {
        assert(kernel_space.spec_areas() =~= areas0);
    }
}

} // verus!
