//! Address-space model: physical/virtual page numbers, map areas (contiguous
//! virtual ranges backed frame-by-frame), and the `MemorySet` that owns a set
//! of non-overlapping areas together with the pool of physical frames backing
//! them. Mutating operations keep the hardware TLB model consistent with the
//! authoritative page table: a page absent from the page table is never
//! resolvable through the TLB.

use vstd::prelude::*;

verus! {

use crate::config::PAGE_SIZE;
use crate::pid::RecycleAllocator;
use crate::tlb::{entry_matches, Tlb, TlbEntry, tlb_invalidate_range, tlb_refill_entry};

/// A physical page number.
#[derive(Clone, Copy, PartialEq, Eq, Structural, Debug)]
pub struct PhysPageNum(pub usize);

/// A virtual page number.
#[derive(Clone, Copy, PartialEq, Eq, Structural, Debug)]
pub struct VirtPageNum(pub usize);

/// A byte-granular virtual address.
#[derive(Clone, Copy, PartialEq, Eq, Structural, Debug)]
pub struct VirtAddr(pub usize);

/// Permission bit: readable.
pub const MAP_PERM_R: u8 = 0x02;

/// Permission bit: writable.
pub const MAP_PERM_W: u8 = 0x04;

/// Permission bit: executable.
pub const MAP_PERM_X: u8 = 0x08;

/// Permission bit: user-accessible.
pub const MAP_PERM_U: u8 = 0x10;

/// A contiguous virtual-page range with one permission set, backed page by
/// page with its own physical frames (framed mapping).
pub struct MapArea {
    /// First virtual page of the range.
    pub start_vpn: VirtPageNum,
    /// One past the last virtual page of the range.
    pub end_vpn: VirtPageNum,
    /// Permission bits of every page in the range.
    pub perm: u8,
    /// The backing frames, one per page: `frames[k]` backs `start_vpn + k`.
    pub frames: Vec<PhysPageNum>,
}

impl MapArea {
    /// The backing frames: `spec_frames()[k]` backs page `start_vpn + k`.
    pub open spec fn spec_frames(&self) -> Seq<PhysPageNum> {
        self.frames@
    }

    /// A well-formed area is non-empty and has one frame per page of its
    /// range.
    pub open spec fn wf(&self) -> bool {
        &&& self.start_vpn.0 < self.end_vpn.0
        &&& self.spec_frames().len() == self.end_vpn.0 - self.start_vpn.0
    }

    /// The area's range contains `vpn`.
    pub open spec fn covers(&self, vpn: int) -> bool {
        self.start_vpn.0 <= vpn < self.end_vpn.0
    }

    /// The frame backing page `vpn` of this area.
    pub open spec fn frame_at(&self, vpn: int) -> PhysPageNum {
        self.spec_frames()[vpn - self.start_vpn.0]
    }
}

/// Two areas occupy disjoint virtual ranges.
pub open spec fn areas_disjoint(a: MapArea, b: MapArea) -> bool {
    a.end_vpn.0 <= b.start_vpn.0 || b.end_vpn.0 <= a.start_vpn.0
}

/// The virtual page holding byte address `addr`.
pub open spec fn vpn_of(addr: usize) -> int {
    addr as int / PAGE_SIZE as int
}

/// An address space: a root of page-table state modelled as the set of its
/// map areas, together with the pool of physical frames backing them. The
/// set owns every backing frame of its framed areas; the frames of live
/// areas are exactly the active ids of the pool that the areas name, and no
/// frame backs two pages.
pub struct MemorySet {
    areas: Vec<MapArea>,
    frame_allocator: RecycleAllocator,
}

impl MemorySet {
    /// The map areas, in insertion order.
    pub closed spec fn spec_areas(&self) -> Seq<MapArea> {
        self.areas@
    }

    /// The physical-frame pool the areas draw from.
    pub closed spec fn frame_pool(&self) -> RecycleAllocator {
        self.frame_allocator
    }

    /// Address-space invariant: well-formed areas over disjoint ranges,
    /// every backing frame an active id of the pool, and no frame shared
    /// between two pages.
    pub open spec fn wf(&self) -> bool {
        &&& self.frame_pool().wf()
        &&& forall|i: int|
            0 <= i < self.spec_areas().len() ==> (#[trigger] self.spec_areas()[i]).wf()
        &&& forall|i: int, j: int|
            #![trigger self.spec_areas()[i], self.spec_areas()[j]]
            0 <= i < self.spec_areas().len() && 0 <= j < self.spec_areas().len() && i != j
                ==> areas_disjoint(self.spec_areas()[i], self.spec_areas()[j])
        &&& forall|i: int, k: int|
            #![trigger self.spec_areas()[i].spec_frames()[k]]
            0 <= i < self.spec_areas().len() && 0 <= k < self.spec_areas()[i].spec_frames().len()
                ==> self.frame_pool().is_active(self.spec_areas()[i].spec_frames()[k].0)
        &&& forall|i: int, k: int, j: int, l: int|
            #![trigger self.spec_areas()[i].spec_frames()[k], self.spec_areas()[j].spec_frames()[l]]
            0 <= i < self.spec_areas().len() && 0 <= k < self.spec_areas()[i].spec_frames().len()
                && 0 <= j < self.spec_areas().len() && 0 <= l
                < self.spec_areas()[j].spec_frames().len() && (i != j || k != l)
                ==> self.spec_areas()[i].spec_frames()[k].0 != self.spec_areas()[j].spec_frames()[l].0
    }

    /// The page table maps `vpn`: some area's range contains it.
    pub open spec fn maps(&self, vpn: int) -> bool {
        exists|i: int| 0 <= i < self.spec_areas().len() && (#[trigger] self.spec_areas()[i]).covers(vpn)
    }

    /// The authoritative translation of `vpn`: the backing frame of the
    /// (unique) area covering it, absent when no area does.
    pub open spec fn spec_translate(&self, vpn: int) -> Option<PhysPageNum> {
        if self.maps(vpn) {
            let i = choose|i: int|
                0 <= i < self.spec_areas().len() && (#[trigger] self.spec_areas()[i]).covers(vpn);
            Some(self.spec_areas()[i].frame_at(vpn))
        } else {
            None
        }
    }

    /// Any covering area decides the translation: under `wf` at most one
    /// area covers a page.
    pub proof fn lemma_translate_at(&self, vpn: int, i: int)
        requires
            self.wf(),
            0 <= i < self.spec_areas().len(),
            self.spec_areas()[i].covers(vpn),
        ensures
            self.maps(vpn),
            self.spec_translate(vpn) == Some(self.spec_areas()[i].frame_at(vpn)),
    {
        let j = choose|j: int|
            0 <= j < self.spec_areas().len() && (#[trigger] self.spec_areas()[j]).covers(vpn);
        if j != i {
            assert(areas_disjoint(self.spec_areas()[i], self.spec_areas()[j]));
        }
    }

    /// An empty address space: nothing mapped, no frame issued.
    pub fn new() -> (r: Self)
        ensures
            r.wf(),
            r.spec_areas() == Seq::<MapArea>::empty(),
            forall|vpn: int| !r.maps(vpn),
            forall|id: usize| !r.frame_pool().is_active(id),
            r.frame_pool().spec_current() == 0,
    {
        MemorySet { areas: Vec::new(), frame_allocator: RecycleAllocator::new() }
    }

    /// Number of map areas currently held.
    pub fn area_count(&self) -> (r: usize)
        ensures
            r == self.spec_areas().len(),
    {
        self.areas.len()
    }

    /// The authoritative page-table lookup. `None` is the ordinary
    /// "unmapped" outcome, handled by the caller (e.g. a fault path).
    pub fn translate(&self, vpn: VirtPageNum) -> (r: Option<PhysPageNum>)
        requires
            self.wf(),
        ensures
            r == self.spec_translate(vpn.0 as int),
            r is Some <==> self.maps(vpn.0 as int),
    {
        let n = self.areas.len();
        let mut i: usize = 0;
        while i < n
            invariant
                n == self.spec_areas().len(),
                i <= n,
                self.wf(),
                forall|j: int| 0 <= j < i ==> !(#[trigger] self.spec_areas()[j]).covers(vpn.0 as int),
            decreases n - i,
        {
            let a = &self.areas[i];
            if a.start_vpn.0 <= vpn.0 && vpn.0 < a.end_vpn.0 {
                proof {
                    self.lemma_translate_at(vpn.0 as int, i as int);
                }
                return Some(a.frames[vpn.0 - a.start_vpn.0]);
            }
            i += 1;
        }
        proof {
            if self.maps(vpn.0 as int) {
                let j = choose|j: int|
                    0 <= j < self.spec_areas().len() && (#[trigger] self.spec_areas()[j]).covers(
                        vpn.0 as int,
                    );
            }
        }
        None
    }

    /// Allocate one fresh physical frame per page of `[start_va, end_va)`,
    /// install a new framed area owning them. The range overlapping an
    /// existing area is a construction-time fatal condition, excluded by
    /// precondition. Existing areas and their translations are untouched.
    pub fn insert_framed_area(&mut self, start_va: VirtAddr, end_va: VirtAddr, permission: u8)
        requires
            old(self).wf(),
            start_va.0 % PAGE_SIZE == 0,
            end_va.0 % PAGE_SIZE == 0,
            start_va.0 < end_va.0,
            forall|i: int|
                0 <= i < old(self).spec_areas().len() ==> (vpn_of(end_va.0) <= (
                #[trigger] old(self).spec_areas()[i]).start_vpn.0 || old(self).spec_areas()[i].end_vpn.0 <= vpn_of(start_va.0)),
            old(self).frame_pool().spec_current() + (vpn_of(end_va.0) - vpn_of(start_va.0))
                <= usize::MAX,
        ensures
            final(self).wf(),
            final(self).spec_areas().len() == old(self).spec_areas().len() + 1,
            forall|i: int|
                0 <= i < old(self).spec_areas().len() ==> #[trigger] final(self).spec_areas()[i]
                    == old(self).spec_areas()[i],
            final(self).spec_areas().last().start_vpn.0 == vpn_of(start_va.0),
            final(self).spec_areas().last().end_vpn.0 == vpn_of(end_va.0),
            final(self).spec_areas().last().perm == permission,
            forall|vpn: int|
                final(self).maps(vpn) <==> (old(self).maps(vpn) || (vpn_of(start_va.0) <= vpn
                    < vpn_of(end_va.0))),
            forall|vpn: int|
                old(self).maps(vpn) ==> final(self).spec_translate(vpn) == old(self).spec_translate(vpn),
            forall|id: usize|
                old(self).frame_pool().is_active(id) ==> final(self).frame_pool().is_active(id),
            final(self).frame_pool().spec_current() <= old(self).frame_pool().spec_current() + (
            vpn_of(end_va.0) - vpn_of(start_va.0)),
    {
        let start_vpn = start_va.0 / PAGE_SIZE;
        let end_vpn = end_va.0 / PAGE_SIZE;
        let mut frames: Vec<PhysPageNum> = Vec::new();
        let mut vpn = start_vpn;
        while vpn < end_vpn
            invariant
                start_vpn == vpn_of(start_va.0),
                end_vpn == vpn_of(end_va.0),
                start_vpn <= vpn <= end_vpn,
                old(self).frame_pool().spec_current() + (end_vpn - start_vpn) <= usize::MAX,
                self.spec_areas() == old(self).spec_areas(),
                self.frame_pool().wf(),
                frames@.len() == vpn - start_vpn,
                self.frame_pool().spec_current() <= old(self).frame_pool().spec_current() + (vpn
                    - start_vpn),
                forall|k: int|
                    0 <= k < frames@.len() ==> self.frame_pool().is_active(
                        (#[trigger] frames@[k]).0,
                    ),
                forall|k: int|
                    0 <= k < frames@.len() ==> !old(self).frame_pool().is_active(
                        (#[trigger] frames@[k]).0,
                    ),
                forall|k: int, l: int|
                    #![trigger frames@[k], frames@[l]]
                    0 <= k < frames@.len() && 0 <= l < frames@.len() && k != l ==> frames@[k].0
                        != frames@[l].0,
                forall|id: usize|
                    old(self).frame_pool().is_active(id) ==> self.frame_pool().is_active(id),
            decreases end_vpn - vpn,
        {
            let f = self.frame_allocator.allocate();
            frames.push(PhysPageNum(f));
            vpn += 1;
        }
        let area = MapArea {
            start_vpn: VirtPageNum(start_vpn),
            end_vpn: VirtPageNum(end_vpn),
            perm: permission,
            frames,
        };
        self.areas.push(area);
        proof {
            let fs = final(self).spec_areas();
            let os = old(self).spec_areas();
            let n = os.len() as int;
            assert(fs.len() == n + 1);
            assert(fs[n].wf());
            assert forall|vpn2: int|
                final(self).maps(vpn2) <==> (old(self).maps(vpn2) || (vpn_of(start_va.0) <= vpn2
                    < vpn_of(end_va.0))) by {
                if final(self).maps(vpn2) {
                    let i = choose|i: int| 0 <= i < fs.len() && (#[trigger] fs[i]).covers(vpn2);
                    if i < n {
                        assert(os[i].covers(vpn2));
                    }
                } else {
                    if old(self).maps(vpn2) {
                        let i = choose|i: int| 0 <= i < os.len() && (#[trigger] os[i]).covers(vpn2);
                        assert(fs[i].covers(vpn2));
                    }
                    if vpn_of(start_va.0) <= vpn2 < vpn_of(end_va.0) {
                        assert(fs[n].covers(vpn2));
                    }
                }
            }
            assert forall|vpn2: int| old(self).maps(vpn2) implies final(self).spec_translate(vpn2)
                == old(self).spec_translate(vpn2) by {
                let i = choose|i: int| 0 <= i < os.len() && (#[trigger] os[i]).covers(vpn2);
                old(self).lemma_translate_at(vpn2, i);
                assert(fs[i].covers(vpn2));
                final(self).lemma_translate_at(vpn2, i);
            }
        }
    }

    /// Some area begins exactly at `vpn`.
    pub open spec fn has_area_starting(&self, vpn: int) -> bool {
        exists|i: int|
            0 <= i < self.spec_areas().len() && (#[trigger] self.spec_areas()[i]).start_vpn.0
                == vpn
    }

    /// The index of the area beginning at `vpn` (unique under `wf`).
    pub open spec fn area_starting_idx(&self, vpn: int) -> int {
        choose|i: int|
            0 <= i < self.spec_areas().len() && (#[trigger] self.spec_areas()[i]).start_vpn.0
                == vpn
    }

    /// Any index of an area beginning at `vpn` is the index: under `wf`,
    /// disjoint non-empty ranges cannot share a first page.
    pub proof fn lemma_area_starting_at(&self, sv: int, i: int)
        requires
            self.wf(),
            0 <= i < self.spec_areas().len(),
            self.spec_areas()[i].start_vpn.0 == sv,
        ensures
            self.has_area_starting(sv),
            self.area_starting_idx(sv) == i,
    {
        let j = self.area_starting_idx(sv);
        if j != i {
            assert(areas_disjoint(self.spec_areas()[i], self.spec_areas()[j]));
        }
    }

    /// Locate the area beginning at `start_vpn`; clear it from the page
    /// table, release its backing frames to the pool, and invalidate every
    /// hardware TLB slot covering its range — the page-table update alone is
    /// not authoritative. Without such an area, nothing changes.
    pub fn remove_area_with_start_vpn(&mut self, tlb: &mut Tlb, start_vpn: VirtPageNum)
        requires
            old(self).wf(),
            old(tlb).wf(),
        ensures
            final(self).wf(),
            final(tlb).wf(),
            final(tlb).spec_asid() == old(tlb).spec_asid(),
            !old(self).has_area_starting(start_vpn.0 as int) ==> *final(self) == *old(self)
                && *final(tlb) == *old(tlb),
            old(self).has_area_starting(start_vpn.0 as int) ==> {
                let i = old(self).area_starting_idx(start_vpn.0 as int);
                let a = old(self).spec_areas()[i];
                &&& final(self).spec_areas() == old(self).spec_areas().remove(i)
                &&& forall|vpn: int|
                    a.start_vpn.0 <= vpn < a.end_vpn.0 ==> !final(self).maps(vpn)
                &&& forall|vpn: int|
                    a.start_vpn.0 <= vpn < a.end_vpn.0 ==> final(tlb).resolves(vpn) is None
                &&& forall|vpn: int|
                    !(a.start_vpn.0 <= vpn < a.end_vpn.0) ==> final(self).maps(vpn) == old(self).maps(vpn) && final(self).spec_translate(vpn) == old(self).spec_translate(
                        vpn,
                    )
                &&& forall|k: int|
                    0 <= k < a.spec_frames().len() ==> !final(self).frame_pool().is_active(
                        (#[trigger] a.spec_frames()[k]).0,
                    )
                &&& forall|id: usize|
                    !a.spec_frames().contains(PhysPageNum(id)) ==> final(self).frame_pool().is_active(id) == old(self).frame_pool().is_active(id)
            },
            tlb_consistent(old(tlb), old(self)) ==> tlb_consistent(final(tlb), final(self)),
            final(self).frame_pool().spec_current() == old(self).frame_pool().spec_current(),
    {
        let n = self.areas.len();
        let mut i: usize = 0;
        while i < n
            invariant
                n == self.spec_areas().len(),
                i <= n,
                self == old(self),
                tlb == old(tlb),
                old(self).wf(),
                old(tlb).wf(),
                forall|j: int|
                    0 <= j < i ==> (#[trigger] self.spec_areas()[j]).start_vpn.0 != start_vpn.0,
            decreases n - i,
        {
            if self.areas[i].start_vpn.0 == start_vpn.0 {
                proof {
                    old(self).lemma_area_starting_at(start_vpn.0 as int, i as int);
                }
                let area = self.areas.remove(i);
                let m = area.frames.len();
                let mut k: usize = 0;
                while k < m
                    invariant
                        m == area.spec_frames().len(),
                        k <= m,
                        i < old(self).spec_areas().len(),
                        area == old(self).spec_areas()[i as int],
                        self.spec_areas() == old(self).spec_areas().remove(i as int),
                        self.frame_pool().wf(),
                        old(self).wf(),
                        old(tlb).wf(),
                        tlb == old(tlb),
                        forall|l: int|
                            k <= l < m ==> self.frame_pool().is_active(
                                (#[trigger] area.spec_frames()[l]).0,
                            ),
                        forall|l: int|
                            0 <= l < k ==> !self.frame_pool().is_active(
                                (#[trigger] area.spec_frames()[l]).0,
                            ),
                        forall|id: usize|
                            !area.spec_frames().contains(PhysPageNum(id)) ==> self.frame_pool(
                            ).is_active(id) == old(self).frame_pool().is_active(id),
                        self.frame_pool().spec_current() == old(self).frame_pool().spec_current(),
                    decreases m - k,
                {
                    proof {
                        assert(area.spec_frames()[k as int] == old(self).spec_areas()[
                            i as int].spec_frames()[k as int]);
                        assert forall|l: int| k + 1 <= l < m implies self.frame_pool().is_active(
                            (#[trigger] area.spec_frames()[l]).0) by {
                            assert(old(self).spec_areas()[i as int].spec_frames()[l].0 != old(self).spec_areas()[i as int].spec_frames()[k as int].0);
                        }
                    }
                    self.frame_allocator.dealloc(area.frames[k].0);
                    proof {
                        assert forall|id: usize|
                            !area.spec_frames().contains(PhysPageNum(id)) implies self.frame_pool(
                            ).is_active(id) == old(self).frame_pool().is_active(id) by {
                            assert(area.spec_frames()[k as int] == PhysPageNum(
                                area.spec_frames()[k as int].0,
                            ));
                            if id == area.spec_frames()[k as int].0 {
                                assert(area.spec_frames().contains(PhysPageNum(id)));
                            }
                        }
                    }
                    k += 1;
                }
                tlb_invalidate_range(tlb, area.start_vpn.0, area.end_vpn.0);
                proof {
                    let os = old(self).spec_areas();
                    let fs = final(self).spec_areas();
                    let ii = i as int;
                    let a = os[ii];
                    assert(fs == os.remove(ii));
                    assert(fs.len() == os.len() - 1);
                    assert forall|j: int| 0 <= j < fs.len() implies #[trigger] fs[j] == (if j < ii {
                        os[j]
                    } else {
                        os[j + 1]
                    }) by {}
                    // the removed range is gone from the page table
                    assert forall|vpn: int| a.start_vpn.0 <= vpn < a.end_vpn.0 implies !final(self).maps(vpn) by {
                        if final(self).maps(vpn) {
                            let j = choose|j: int|
                                0 <= j < fs.len() && (#[trigger] fs[j]).covers(vpn);
                            let j0 = if j < ii { j } else { j + 1 };
                            assert(os[j0].covers(vpn));
                            assert(j0 != ii);
                            assert(areas_disjoint(os[j0], os[ii]));
                        }
                    }
                    // pages outside the removed range keep their mapping
                    assert forall|vpn: int| !(a.start_vpn.0 <= vpn < a.end_vpn.0) implies final(self).maps(vpn) == old(self).maps(vpn) && final(self).spec_translate(vpn) == old(self).spec_translate(vpn) by {
                        if old(self).maps(vpn) {
                            let j0 = choose|j0: int|
                                0 <= j0 < os.len() && (#[trigger] os[j0]).covers(vpn);
                            assert(j0 != ii);
                            let j = if j0 < ii { j0 } else { j0 - 1 };
                            assert(fs[j] == os[j0]);
                            assert(fs[j].covers(vpn));
                            old(self).lemma_translate_at(vpn, j0);
                            final(self).lemma_translate_at(vpn, j);
                        } else {
                            if final(self).maps(vpn) {
                                let j = choose|j: int|
                                    0 <= j < fs.len() && (#[trigger] fs[j]).covers(vpn);
                                let j0 = if j < ii { j } else { j + 1 };
                                assert(os[j0].covers(vpn));
                            }
                        }
                    }
                    // well-formedness of the shrunk set
                    assert(final(self).wf()) by {
                        assert forall|x: int, y: int|
                            #![trigger fs[x], fs[y]]
                            0 <= x < fs.len() && 0 <= y < fs.len() && x != y implies
                            areas_disjoint(fs[x], fs[y]) by {
                            let x0 = if x < ii { x } else { x + 1 };
                            let y0 = if y < ii { y } else { y + 1 };
                            assert(areas_disjoint(os[x0], os[y0]));
                        }
                        assert forall|x: int, p: int, y: int, q: int|
                            #![trigger fs[x].spec_frames()[p], fs[y].spec_frames()[q]]
                            0 <= x < fs.len() && 0 <= p < fs[x].spec_frames().len() && 0 <= y
                            < fs.len() && 0 <= q < fs[y].spec_frames().len() && (x != y || p != q)
                            implies fs[x].spec_frames()[p].0 != fs[y].spec_frames()[q].0 by {
                            let x0 = if x < ii { x } else { x + 1 };
                            let y0 = if y < ii { y } else { y + 1 };
                            assert(os[x0].spec_frames()[p].0 != os[y0].spec_frames()[q].0);
                        }
                        assert forall|x: int, p: int|
                            #![trigger fs[x].spec_frames()[p]]
                            0 <= x < fs.len() && 0 <= p < fs[x].spec_frames().len() implies final(self).frame_pool().is_active(fs[x].spec_frames()[p].0) by {
                            let x0 = if x < ii { x } else { x + 1 };
                            assert(os[x0].spec_frames()[p].0 == fs[x].spec_frames()[p].0);
                            if area.spec_frames().contains(PhysPageNum(fs[x].spec_frames()[p].0)) {
                                let l = choose|l: int|
                                    0 <= l < area.spec_frames().len() && area.spec_frames()[l]
                                        == PhysPageNum(fs[x].spec_frames()[p].0);
                                assert(os[ii].spec_frames()[l].0 == os[x0].spec_frames()[p].0);
                                assert(false);
                            }
                        }
                    }
                    // consistency with the TLB is preserved
                    if tlb_consistent(old(tlb), old(self)) {
                        assert forall|t: int|
                            0 <= t < final(tlb).spec_entries().len() implies entry_consistent(
                            #[trigger] final(tlb).spec_entries()[t],
                            final(tlb).spec_asid(),
                            final(self),
                        ) by {
                            let e = final(tlb).spec_entries()[t];
                            assert(old(tlb).spec_entries().contains(e));
                            assert(!crate::tlb::entry_overlaps(
                                e,
                                a.start_vpn.0 as int,
                                a.end_vpn.0 as int,
                            ));
                            let t0 = choose|t0: int|
                                0 <= t0 < old(tlb).spec_entries().len() && old(tlb).spec_entries()[t0] == e;
                            assert(entry_consistent(e, old(tlb).spec_asid(), old(self)));
                            if e.asid == final(tlb).spec_asid() {
                                assert(2 * e.vppn + 1 <= usize::MAX);
                                if e.even_ppn is Some {
                                    assert(old(self).spec_translate(2 * e.vppn) == Some(
                                        e.even_ppn->0,
                                    ));
                                    assert(old(self).maps(2 * e.vppn));
                                    assert(!(a.start_vpn.0 <= 2 * e.vppn < a.end_vpn.0));
                                }
                                if e.odd_ppn is Some {
                                    assert(old(self).spec_translate(2 * e.vppn + 1) == Some(
                                        e.odd_ppn->0,
                                    ));
                                    assert(!(a.start_vpn.0 <= 2 * e.vppn + 1 < a.end_vpn.0));
                                }
                            }
                        }
                    }
                }
                return;
            }
            i += 1;
        }
    }
}

/// One TLB slot agrees with the page table of `ms` wherever it claims a
/// translation for address space `asid`.
pub open spec fn entry_consistent(e: TlbEntry, asid: usize, ms: &MemorySet) -> bool {
    e.asid == asid ==> {
        &&& (e.even_ppn matches Some(p) ==> ms.spec_translate(2 * e.vppn) == Some(p))
        &&& (e.odd_ppn matches Some(p) ==> ms.spec_translate(2 * e.vppn + 1) == Some(p))
    }
}

/// The TLB claims no translation for the current address space that the
/// page table of `ms` does not hold. This is the consistency relation every
/// mapping mutation must re-establish.
pub open spec fn tlb_consistent(tlb: &Tlb, ms: &MemorySet) -> bool {
    forall|i: int|
        0 <= i < tlb.spec_entries().len() ==> entry_consistent(
            #[trigger] tlb.spec_entries()[i],
            tlb.spec_asid(),
            ms,
        )
}

/// A virtual page absent from the authoritative page table is never
/// resolvable through the hardware TLB: the invariant that must hold after
/// every mapping mutation and address-space switch.
pub proof fn lemma_unmapped_not_in_tlb(tlb: &Tlb, ms: &MemorySet, vpn: int)
    requires
        tlb.wf(),
        ms.wf(),
        tlb_consistent(tlb, ms),
        vpn >= 0,
        !ms.maps(vpn),
    ensures
        tlb.resolves(vpn) is None,
{
    if tlb.has_match(vpn) {
        let i = tlb.match_idx(vpn);
        let e = tlb.spec_entries()[i];
        assert(entry_consistent(e, tlb.spec_asid(), ms));
        if vpn % 2 == 0 {
            assert(2 * e.vppn == vpn);
            if e.even_ppn is Some {
                assert(ms.maps(vpn));
            }
        } else {
            assert(2 * e.vppn + 1 == vpn);
            if e.odd_ppn is Some {
                assert(ms.maps(vpn));
            }
        }
    }
}

/// The explicit TLB-refill step of the miss path: walk the page table of
/// `ms` for the even/odd pair of `vpn` and load a fresh slot with whatever
/// translations the table holds, tagged with the current address-space
/// identifier. Consistency is preserved, and the pair then resolves exactly
/// as the page table dictates.
pub fn tlb_refill(ms: &MemorySet, tlb: &mut Tlb, vpn: VirtPageNum)
    requires
        ms.wf(),
        old(tlb).wf(),
        !old(tlb).has_match(vpn.0 as int),
        vpn.0 < usize::MAX,
    ensures
        final(tlb).wf(),
        final(tlb).spec_asid() == old(tlb).spec_asid(),
        tlb_consistent(old(tlb), ms) ==> tlb_consistent(final(tlb), ms),
        final(tlb).resolves(vpn.0 as int) == ms.spec_translate(vpn.0 as int),
        forall|v: int| v / 2 != vpn.0 as int / 2 ==> final(tlb).resolves(v) == old(tlb).resolves(v),
{
    let even_vpn = VirtPageNum(vpn.0 / 2 * 2);
    let odd_vpn = VirtPageNum(vpn.0 / 2 * 2 + 1);
    let even_ppn = ms.translate(even_vpn);
    let odd_ppn = ms.translate(odd_vpn);
    tlb_refill_entry(tlb, vpn, even_ppn, odd_ppn);
    proof {
        let v0 = vpn.0 as int;
        let es = final(tlb).spec_entries();
        let ne = es[es.len() - 1];
        assert(ne.vppn == v0 / 2);
        final(tlb).lemma_match_unique(v0, es.len() - 1);
        assert(2 * (v0 / 2) == even_vpn.0 as int);
        assert(2 * (v0 / 2) + 1 == odd_vpn.0 as int);
        if v0 % 2 == 0 {
            assert(v0 == even_vpn.0 as int);
        } else {
            assert(v0 == odd_vpn.0 as int);
        }
        if tlb_consistent(old(tlb), ms) {
            assert forall|t: int| 0 <= t < es.len() implies entry_consistent(
                #[trigger] es[t],
                final(tlb).spec_asid(),
                ms,
            ) by {
                if t < es.len() - 1 {
                    assert(es[t] == old(tlb).spec_entries()[t]);
                    assert(entry_consistent(old(tlb).spec_entries()[t], old(tlb).spec_asid(), ms));
                }
            }
        }
        assert forall|v: int| v / 2 != v0 / 2 implies final(tlb).resolves(v) == old(tlb).resolves(
            v,
        ) by {
            if old(tlb).has_match(v) {
                let t = old(tlb).match_idx(v);
                assert(es[t] == old(tlb).spec_entries()[t]);
                final(tlb).lemma_match_unique(v, t);
                old(tlb).lemma_match_unique(v, t);
            } else {
                if final(tlb).has_match(v) {
                    let t = final(tlb).match_idx(v);
                    assert(0 <= t < es.len());
                    if t < es.len() - 1 {
                        assert(entry_matches(old(tlb).spec_entries()[t], old(tlb).spec_asid(), v));
                    } else {
                        assert(es[t].vppn == v0 / 2);
                    }
                }
            }
        }
    }
}

} // verus!
