//! Model of a software-managed TLB: a set of slots, each caching the
//! translations of one even/odd virtual-page pair under one address-space
//! identifier. The hardware's content-addressed search, indexed read, write
//! of the matched slot, and the per-address-space and global invalidations
//! are all modelled as operations on this state, so that the kernel's
//! consistency discipline over them can be proved. A miss is an ordinary,
//! recoverable outcome reported as `Err`, to be handled by the refill path.

use vstd::prelude::*;

verus! {

use crate::mm::{PhysPageNum, VirtPageNum};
use vstd::arithmetic::power2::pow2;
use vstd::bits::{
    lemma_usize_low_bits_mask_is_mod, lemma_usize_pow2_no_overflow, lemma_usize_shl_is_mul,
    lemma_usize_shr_is_div, low_bits_mask,
};

/// Bits of an address-space identifier the hardware implements.
pub const ASID_WIDTH: usize = 10;

/// Mask selecting the implemented address-space-identifier bits.
pub const ASID_MASK: usize = 0x3ff;

/// Address-space identifier used for user address spaces.
pub const USR_ASID: usize = 0;

/// Address-space identifier reserved for the kernel: the maximum
/// representable identifier.
pub const KERN_ASID: usize = 0x3ff;

/// One TLB slot: the translations of the even/odd virtual-page pair `vppn`
/// (`vppn == vpn >> 1`) under address-space identifier `asid`. An absent
/// half is an invalid translation; `*_dirty` mirrors the hardware dirty bit
/// that permits stores through the half.
#[derive(Clone, Copy)]
pub struct TlbEntry {
    /// Tag: the virtual page-pair number, `vpn >> 1`.
    pub vppn: usize,
    /// Tag: the address-space identifier the pair belongs to.
    pub asid: usize,
    /// Translation of the even page `2 * vppn`, if valid.
    pub even_ppn: Option<PhysPageNum>,
    /// Translation of the odd page `2 * vppn + 1`, if valid.
    pub odd_ppn: Option<PhysPageNum>,
    /// Dirty (write-enable) bit of the even half.
    pub even_dirty: bool,
    /// Dirty (write-enable) bit of the odd half.
    pub odd_dirty: bool,
}

/// The slot `e` caches the pair of `vpn` for address space `asid`.
pub open spec fn entry_matches(e: TlbEntry, asid: usize, vpn: int) -> bool {
    e.asid == asid && e.vppn == vpn / 2
}

/// The half of slot `e` that would translate `vpn`.
pub open spec fn entry_half(e: TlbEntry, vpn: int) -> Option<PhysPageNum> {
    if vpn % 2 == 0 {
        e.even_ppn
    } else {
        e.odd_ppn
    }
}

/// The slot pair of `e` overlaps the virtual-page range `[start, end)`.
pub open spec fn entry_overlaps(e: TlbEntry, start: int, end: int) -> bool {
    2 * e.vppn < end && 2 * e.vppn + 1 >= start
}

/// The hardware TLB: its slots and the currently installed address-space
/// identifier. Not authoritative: subordinate to the page table, to which it
/// must be kept consistent by explicit invalidation.
pub struct Tlb {
    entries: Vec<TlbEntry>,
    current_asid: usize,
}

impl Tlb {
    /// The occupied slots.
    pub closed spec fn spec_entries(&self) -> Seq<TlbEntry> {
        self.entries@
    }

    /// The address-space identifier translations are currently tagged with.
    pub closed spec fn spec_asid(&self) -> usize {
        self.current_asid
    }

    /// Hardware invariant: no two slots cache the same pair of the same
    /// address space, and pair numbers leave the odd page representable.
    pub open spec fn wf(&self) -> bool {
        &&& forall|i: int, j: int|
            #![trigger self.spec_entries()[i], self.spec_entries()[j]]
            0 <= i < self.spec_entries().len() && 0 <= j < self.spec_entries().len() && i != j
                ==> !(self.spec_entries()[i].vppn == self.spec_entries()[j].vppn
                    && self.spec_entries()[i].asid == self.spec_entries()[j].asid)
        &&& forall|i: int| 0 <= i < self.spec_entries().len()
                ==> 2 * (#[trigger] self.spec_entries()[i]).vppn + 1 <= usize::MAX
    }

    /// Some slot matches `vpn` under the current address-space identifier.
    pub open spec fn has_match(&self, vpn: int) -> bool {
        exists|i: int|
            0 <= i < self.spec_entries().len() && entry_matches(
                self.spec_entries()[i],
                self.spec_asid(),
                vpn,
            )
    }

    /// The index of the slot matching `vpn` (unique under `wf`).
    pub open spec fn match_idx(&self, vpn: int) -> int {
        choose|i: int|
            0 <= i < self.spec_entries().len() && entry_matches(
                self.spec_entries()[i],
                self.spec_asid(),
                vpn,
            )
    }

    /// What the TLB translates `vpn` to, if anything: the matching slot's
    /// half for `vpn`, under the current address-space identifier.
    pub open spec fn resolves(&self, vpn: int) -> Option<PhysPageNum> {
        if self.has_match(vpn) {
            entry_half(self.spec_entries()[self.match_idx(vpn)], vpn)
        } else {
            None
        }
    }

    /// A powered-on TLB with no valid slots.
    pub fn new() -> (r: Tlb)
        ensures
            r.wf(),
            r.spec_entries() == Seq::<TlbEntry>::empty(),
            r.spec_asid() == USR_ASID,
            forall|vpn: int| r.resolves(vpn) is None,
    {
        Tlb { entries: Vec::new(), current_asid: USR_ASID }
    }

    /// The currently installed address-space identifier.
    pub fn asid(&self) -> (r: usize)
        ensures
            r == self.spec_asid(),
    {
        self.current_asid
    }

    /// Any matching slot index is the matching index: under `wf` at most one
    /// slot matches a page under one address-space identifier.
    pub proof fn lemma_match_unique(&self, vpn: int, i: int)
        requires
            self.wf(),
            0 <= i < self.spec_entries().len(),
            entry_matches(self.spec_entries()[i], self.spec_asid(), vpn),
        ensures
            self.has_match(vpn),
            self.match_idx(vpn) == i,
            self.resolves(vpn) == entry_half(self.spec_entries()[i], vpn),
    {
        let j = self.match_idx(vpn);
        if j != i {
            assert(self.spec_entries()[i].vppn == self.spec_entries()[j].vppn
                && self.spec_entries()[i].asid == self.spec_entries()[j].asid);
        }
    }
}

/// Install an address-space identifier, masked to the implemented width.
pub fn set_asid(tlb: &mut Tlb, asid: usize)
    ensures
        final(tlb).spec_asid() == asid & ASID_MASK,
        final(tlb).spec_entries() == old(tlb).spec_entries(),
        old(tlb).wf() ==> final(tlb).wf(),
{
    tlb.current_asid = asid & ASID_MASK;
}

/// Content-addressed lookup of `vpn` under the current address-space
/// identifier. `Err` is the ordinary miss indicator: no slot matches, or the
/// matching slot's half for `vpn` is invalid.
pub fn tlb_serach(tlb: &Tlb, vpn: VirtPageNum) -> (r: Result<PhysPageNum, ()>)
    requires
        tlb.wf(),
    ensures
        r matches Ok(p) ==> tlb.resolves(vpn.0 as int) == Some(p),
        r is Err ==> tlb.resolves(vpn.0 as int) is None,
{
    let target = vpn.0 >> 1;
    proof {
        let v: usize = vpn.0;
        assert(v >> 1 == v / 2) by (bit_vector);
    }
    let n = tlb.entries.len();
    let mut i: usize = 0;
    while i < n
        invariant
            n == tlb.spec_entries().len(),
            i <= n,
            tlb.wf(),
            target == vpn.0 as int / 2,
            forall|j: int|
                0 <= j < i ==> !entry_matches(
                    tlb.spec_entries()[j],
                    tlb.spec_asid(),
                    vpn.0 as int,
                ),
        decreases n - i,
    {
        let e = tlb.entries[i];
        if e.vppn == target && e.asid == tlb.current_asid {
            proof {
                tlb.lemma_match_unique(vpn.0 as int, i as int);
                let v: usize = vpn.0;
                assert((v & 1 == 0) == (v % 2 == 0)) by (bit_vector);
            }
            if vpn.0 & 1 == 0 {
                return match e.even_ppn {
                    Some(p) => Ok(p),
                    None => Err(()),
                };
            } else {
                return match e.odd_ppn {
                    Some(p) => Ok(p),
                    None => Err(()),
                };
            }
        }
        i += 1;
    }
    Err(())
}

/// Index of the slot matching `vpn` under the current address-space
/// identifier, if any — the model of the hardware probe that precedes a
/// write to the matched slot.
pub fn tlb_probe(tlb: &Tlb, vpn: VirtPageNum) -> (r: Option<usize>)
    requires
        tlb.wf(),
    ensures
        r matches Some(i) ==> tlb.has_match(vpn.0 as int) && i == tlb.match_idx(vpn.0 as int)
            && i < tlb.spec_entries().len(),
        r is None ==> !tlb.has_match(vpn.0 as int),
{
    let target = vpn.0 >> 1;
    proof {
        let v: usize = vpn.0;
        assert(v >> 1 == v / 2) by (bit_vector);
    }
    let n = tlb.entries.len();
    let mut i: usize = 0;
    while i < n
        invariant
            n == tlb.spec_entries().len(),
            i <= n,
            tlb.wf(),
            target == vpn.0 as int / 2,
            forall|j: int|
                0 <= j < i ==> !entry_matches(
                    tlb.spec_entries()[j],
                    tlb.spec_asid(),
                    vpn.0 as int,
                ),
        decreases n - i,
    {
        let e = tlb.entries[i];
        if e.vppn == target && e.asid == tlb.current_asid {
            proof {
                tlb.lemma_match_unique(vpn.0 as int, i as int);
            }
            return Some(i);
        }
        i += 1;
    }
    None
}

/// Read back the even/odd translation pair held at slot `idx`. `Err` reports
/// an index that refers to no occupied slot.
pub fn tlb_read(tlb: &Tlb, idx: usize) -> (r: Result<(Option<PhysPageNum>, Option<PhysPageNum>), ()>)
    ensures
        idx < tlb.spec_entries().len() ==> r == Ok::<(Option<PhysPageNum>, Option<PhysPageNum>), ()>((
            tlb.spec_entries()[idx as int].even_ppn,
            tlb.spec_entries()[idx as int].odd_ppn,
        )),
        idx >= tlb.spec_entries().len() ==> r is Err,
{
    if idx < tlb.entries.len() {
        let e = tlb.entries[idx];
        Ok((e.even_ppn, e.odd_ppn))
    } else {
        Err(())
    }
}

/// The slot value after a write of `ppn` into the half of `vpn`: the half
/// becomes valid and dirty, the rest of the slot is unchanged.
pub open spec fn entry_with_write(e: TlbEntry, vpn: int, ppn: PhysPageNum) -> TlbEntry {
    if vpn % 2 == 0 {
        TlbEntry { even_ppn: Some(ppn), even_dirty: true, ..e }
    } else {
        TlbEntry { odd_ppn: Some(ppn), odd_dirty: true, ..e }
    }
}

/// Write `ppn` into the half of `vpn` of the matched slot, making the half
/// valid and dirty. `Err` (no matched slot: the caller was expected to have
/// triggered a refill first) leaves the TLB unchanged.
pub fn tlb_addr_allow_write(tlb: &mut Tlb, vpn: VirtPageNum, ppn: PhysPageNum) -> (r: Result<(), ()>)
    requires
        old(tlb).wf(),
    ensures
        final(tlb).wf(),
        final(tlb).spec_asid() == old(tlb).spec_asid(),
        !old(tlb).has_match(vpn.0 as int) ==> r is Err && final(tlb).spec_entries() == old(tlb).spec_entries(),
        old(tlb).has_match(vpn.0 as int) ==> r is Ok && final(tlb).spec_entries() == old(tlb).spec_entries().update(
            old(tlb).match_idx(vpn.0 as int),
            entry_with_write(
                old(tlb).spec_entries()[old(tlb).match_idx(vpn.0 as int)],
                vpn.0 as int,
                ppn,
            ),
        ),
{
    let found = tlb_probe(tlb, vpn);
    match found {
        None => Err(()),
        Some(i) => {
            proof {
                let v: usize = vpn.0;
                assert((v & 1 == 0) == (v % 2 == 0)) by (bit_vector);
            }
            let mut e = tlb.entries[i];
            if vpn.0 & 1 == 0 {
                e.even_ppn = Some(ppn);
                e.even_dirty = true;
            } else {
                e.odd_ppn = Some(ppn);
                e.odd_dirty = true;
            }
            tlb.entries[i] = e;
            proof {
                let es = final(tlb).spec_entries();
                let os = old(tlb).spec_entries();
                assert forall|a: int, b: int|
                    #![trigger es[a], es[b]]
                    0 <= a < es.len() && 0 <= b < es.len() && a != b implies !(es[a].vppn
                    == es[b].vppn && es[a].asid == es[b].asid) by {
                    assert(es[a].vppn == os[a].vppn && es[a].asid == os[a].asid);
                    assert(es[b].vppn == os[b].vppn && es[b].asid == os[b].asid);
                }
                assert forall|a: int| 0 <= a < es.len() implies 2 * (#[trigger] es[a]).vppn + 1
                    <= usize::MAX by {
                    assert(es[a].vppn == os[a].vppn);
                }
            }
            Ok(())
        },
    }
}

/// Record a refill of the pair of `vpn` under the current address-space
/// identifier: the explicit state-machine step the hardware miss handler
/// performs after walking the page table. Both halves enter clean.
pub fn tlb_refill_entry(
    tlb: &mut Tlb,
    vpn: VirtPageNum,
    even_ppn: Option<PhysPageNum>,
    odd_ppn: Option<PhysPageNum>,
)
    requires
        old(tlb).wf(),
        !old(tlb).has_match(vpn.0 as int),
        vpn.0 <= usize::MAX - 1,
    ensures
        final(tlb).wf(),
        final(tlb).spec_asid() == old(tlb).spec_asid(),
        final(tlb).spec_entries() == old(tlb).spec_entries().push(
            TlbEntry {
                vppn: (vpn.0 / 2) as usize,
                asid: old(tlb).spec_asid(),
                even_ppn,
                odd_ppn,
                even_dirty: false,
                odd_dirty: false,
            },
        ),
{
    let vppn = vpn.0 >> 1;
    proof {
        let v: usize = vpn.0;
        assert(v >> 1 == v / 2) by (bit_vector);
        assert(2 * (v / 2) <= v) by (bit_vector);
    }
    let e = TlbEntry { vppn, asid: tlb.current_asid, even_ppn, odd_ppn, even_dirty: false, odd_dirty: false };
    tlb.entries.push(e);
    proof {
        let es = final(tlb).spec_entries();
        let os = old(tlb).spec_entries();
        assert forall|a: int, b: int|
            #![trigger es[a], es[b]]
            0 <= a < es.len() && 0 <= b < es.len() && a != b implies !(es[a].vppn == es[b].vppn
            && es[a].asid == es[b].asid) by {
            if a < os.len() && b < os.len() {
                assert(!(os[a].vppn == os[b].vppn && os[a].asid == os[b].asid));
            } else if a < os.len() {
                assert(es[b] == e);
                if os[a].vppn == e.vppn && os[a].asid == e.asid {
                    assert(entry_matches(os[a], old(tlb).spec_asid(), vpn.0 as int));
                }
            } else {
                assert(es[a] == e);
                if os[b].vppn == e.vppn && os[b].asid == e.asid {
                    assert(entry_matches(os[b], old(tlb).spec_asid(), vpn.0 as int));
                }
            }
        }
    }
}

/// Drop every slot tagged with the current address-space identifier: the
/// per-address-space invalidation issued on address-space teardown. After it
/// nothing resolves under the current identifier; slots of other address
/// spaces survive.
pub fn tlb_invalidate(tlb: &mut Tlb)
    requires
        old(tlb).wf(),
    ensures
        final(tlb).wf(),
        final(tlb).spec_asid() == old(tlb).spec_asid(),
        forall|vpn: int| final(tlb).resolves(vpn) is None,
        forall|i: int|
            0 <= i < final(tlb).spec_entries().len() ==> (#[trigger] final(tlb).spec_entries()[i]).asid != old(tlb).spec_asid() && old(tlb).spec_entries().contains(
                final(tlb).spec_entries()[i],
            ),
        forall|i: int|
            0 <= i < old(tlb).spec_entries().len() && (#[trigger] old(tlb).spec_entries()[i]).asid != old(tlb).spec_asid() ==> final(tlb).spec_entries().contains(old(tlb).spec_entries()[i]),
{
    let n = tlb.entries.len();
    let mut kept: Vec<TlbEntry> = Vec::new();
    let mut i: usize = 0;
    while i < n
        invariant
            n == old(tlb).spec_entries().len(),
            i <= n,
            tlb == old(tlb),
            forall|k: int|
                #![trigger kept@[k]]
                0 <= k < kept@.len() ==> exists|j: int|
                    0 <= j < i && kept@[k] == #[trigger] old(tlb).spec_entries()[j],
            forall|k: int|
                0 <= k < kept@.len() ==> (#[trigger] kept@[k]).asid != old(tlb).spec_asid(),
            forall|k1: int, k2: int|
                #![trigger kept@[k1], kept@[k2]]
                0 <= k1 < kept@.len() && 0 <= k2 < kept@.len() && k1 != k2 ==> !(kept@[k1].vppn
                    == kept@[k2].vppn && kept@[k1].asid == kept@[k2].asid),
            forall|j: int|
                0 <= j < i && (#[trigger] old(tlb).spec_entries()[j]).asid != old(tlb).spec_asid()
                    ==> kept@.contains(old(tlb).spec_entries()[j]),
            old(tlb).wf(),
        decreases n - i,
    {
        let e = tlb.entries[i];
        if e.asid != tlb.current_asid {
            proof {
                let os = old(tlb).spec_entries();
                assert forall|k: int| 0 <= k < kept@.len() implies !(kept@[k].vppn == e.vppn
                    && kept@[k].asid == e.asid) by {
                    let j = choose|j: int| 0 <= j < i && kept@[k] == os[j];
                    assert(!(os[j].vppn == os[i as int].vppn && os[j].asid == os[i as int].asid));
                }
            }
            let ghost kept0 = kept@;
            kept.push(e);
            proof {
                let os = old(tlb).spec_entries();
                assert(kept@ == kept0.push(e));
                assert forall|j: int|
                    0 <= j < i + 1 && (#[trigger] os[j]).asid != old(tlb).spec_asid()
                    implies kept@.contains(os[j]) by {
                    if j < i {
                        let k = choose|k: int| 0 <= k < kept0.len() && kept0[k] == os[j];
                        assert(kept@[k] == os[j]);
                    } else {
                        assert(kept@[kept@.len() - 1] == os[j]);
                    }
                }
            }
        }
        i += 1;
    }
    let ghost ks = kept@;
    tlb.entries = kept;
    proof {
        let os = old(tlb).spec_entries();
        assert(final(tlb).spec_entries() == ks);
        assert forall|vpn: int| final(tlb).resolves(vpn) is None by {
            if final(tlb).has_match(vpn) {
                let k = final(tlb).match_idx(vpn);
                assert(ks[k].asid == final(tlb).spec_asid());
                assert(ks[k].asid != old(tlb).spec_asid());
            }
        }
        assert forall|a: int| 0 <= a < final(tlb).spec_entries().len() implies 2 * (
        #[trigger] final(tlb).spec_entries()[a]).vppn + 1 <= usize::MAX by {
            assert(exists|j: int| 0 <= j < n && ks[a] == #[trigger] os[j]);
            let j = choose|j: int| 0 <= j < n && ks[a] == #[trigger] os[j];
            assert(2 * os[j].vppn + 1 <= usize::MAX);
        }
    }
}

/// Drop every slot regardless of its address-space tag: the global
/// invalidation used when a precise one cannot be trusted.
pub fn tlb_global_invalidate(tlb: &mut Tlb)
    ensures
        final(tlb).wf(),
        final(tlb).spec_asid() == old(tlb).spec_asid(),
        final(tlb).spec_entries() == Seq::<TlbEntry>::empty(),
        forall|vpn: int| final(tlb).resolves(vpn) is None,
{
    tlb.entries = Vec::new();
}

/// Drop every slot whose pair overlaps the virtual-page range
/// `[start_vpn, end_vpn)`, under any address-space tag: the precise
/// invalidation a mapping mutation of that range must issue. Afterwards no
/// page of the range resolves; slots not touching the range survive.
pub fn tlb_invalidate_range(tlb: &mut Tlb, start_vpn: usize, end_vpn: usize)
    requires
        old(tlb).wf(),
    ensures
        final(tlb).wf(),
        final(tlb).spec_asid() == old(tlb).spec_asid(),
        forall|vpn: int| start_vpn <= vpn < end_vpn ==> final(tlb).resolves(vpn) is None,
        forall|i: int|
            0 <= i < final(tlb).spec_entries().len() ==> !entry_overlaps(
                #[trigger] final(tlb).spec_entries()[i],
                start_vpn as int,
                end_vpn as int,
            ) && old(tlb).spec_entries().contains(final(tlb).spec_entries()[i]),
        forall|i: int|
            0 <= i < old(tlb).spec_entries().len() && !entry_overlaps(
                #[trigger] old(tlb).spec_entries()[i],
                start_vpn as int,
                end_vpn as int,
            ) ==> final(tlb).spec_entries().contains(old(tlb).spec_entries()[i]),
{
    let n = tlb.entries.len();
    let mut kept: Vec<TlbEntry> = Vec::new();
    let mut i: usize = 0;
    while i < n
        invariant
            n == old(tlb).spec_entries().len(),
            i <= n,
            tlb == old(tlb),
            forall|k: int|
                #![trigger kept@[k]]
                0 <= k < kept@.len() ==> exists|j: int|
                    0 <= j < i && kept@[k] == #[trigger] old(tlb).spec_entries()[j],
            forall|k: int|
                0 <= k < kept@.len() ==> !entry_overlaps(
                    #[trigger] kept@[k],
                    start_vpn as int,
                    end_vpn as int,
                ),
            forall|k1: int, k2: int|
                #![trigger kept@[k1], kept@[k2]]
                0 <= k1 < kept@.len() && 0 <= k2 < kept@.len() && k1 != k2 ==> !(kept@[k1].vppn
                    == kept@[k2].vppn && kept@[k1].asid == kept@[k2].asid),
            forall|j: int|
                0 <= j < i && !entry_overlaps(
                    #[trigger] old(tlb).spec_entries()[j],
                    start_vpn as int,
                    end_vpn as int,
                ) ==> kept@.contains(old(tlb).spec_entries()[j]),
            old(tlb).wf(),
        decreases n - i,
    {
        let e = tlb.entries[i];
        // keep iff the pair [2*vppn, 2*vppn + 1] misses [start_vpn, end_vpn)
        let pair_lo = 2 * e.vppn;
        if pair_lo >= end_vpn || pair_lo + 1 < start_vpn {
            proof {
                let os = old(tlb).spec_entries();
                assert forall|k: int| 0 <= k < kept@.len() implies !(kept@[k].vppn == e.vppn
                    && kept@[k].asid == e.asid) by {
                    let j = choose|j: int| 0 <= j < i && kept@[k] == os[j];
                    assert(!(os[j].vppn == os[i as int].vppn && os[j].asid == os[i as int].asid));
                }
            }
            let ghost kept0 = kept@;
            kept.push(e);
            proof {
                let os = old(tlb).spec_entries();
                assert(kept@ == kept0.push(e));
                assert forall|j: int|
                    0 <= j < i + 1 && !entry_overlaps(
                        #[trigger] os[j],
                        start_vpn as int,
                        end_vpn as int,
                    ) implies kept@.contains(os[j]) by {
                    if j < i {
                        let k = choose|k: int| 0 <= k < kept0.len() && kept0[k] == os[j];
                        assert(kept@[k] == os[j]);
                    } else {
                        assert(kept@[kept@.len() - 1] == os[j]);
                    }
                }
            }
        }
        i += 1;
    }
    let ghost ks = kept@;
    tlb.entries = kept;
    proof {
        let os = old(tlb).spec_entries();
        assert(final(tlb).spec_entries() == ks);
        assert forall|vpn: int| start_vpn <= vpn < end_vpn implies final(tlb).resolves(vpn)
            is None by {
            if final(tlb).has_match(vpn) {
                let k = final(tlb).match_idx(vpn);
                let e = final(tlb).spec_entries()[k];
                assert(e.vppn == vpn / 2);
                assert(2 * (vpn / 2) <= vpn < 2 * (vpn / 2) + 2);
                assert(entry_overlaps(e, start_vpn as int, end_vpn as int));
                assert(!entry_overlaps(ks[k], start_vpn as int, end_vpn as int));
            }
        }
        assert forall|a: int| 0 <= a < final(tlb).spec_entries().len() implies 2 * (
        #[trigger] final(tlb).spec_entries()[a]).vppn + 1 <= usize::MAX by {
            assert(exists|j: int| 0 <= j < n && ks[a] == #[trigger] os[j]);
            let j = choose|j: int| 0 <= j < n && ks[a] == #[trigger] os[j];
            assert(2 * os[j].vppn + 1 <= usize::MAX);
        }
    }
}

/// The bit field `[start, end)` of `value`: the contiguous bits from `start`
/// (inclusive, counted from the least significant bit) to `end` (exclusive),
/// shifted down to the low end.
pub fn get_bits(value: usize, start: usize, end: usize) -> (r: usize)
    requires
        start < end,
        end <= usize::BITS,
    ensures
        r as nat == ((value as nat) / pow2(start as nat)) % pow2((end - start) as nat),
{
    let width = end - start;
    proof {
        lemma_usize_shr_is_div(value, start as usize);
    }
    if width == usize::BITS as usize {
        proof {
            assert(start == 0);
            vstd::arithmetic::power2::lemma2_to64();
            vstd::arithmetic::power2::lemma2_to64_rest();
            assert(usize::BITS == 32 || usize::BITS == 64);
            assert((value as nat) < pow2(width as nat));
            vstd::arithmetic::div_mod::lemma_small_mod(value as nat, pow2(width as nat));
        }
        value
    } else {
        proof {
            lemma_usize_pow2_no_overflow(width as nat);
            lemma_usize_shl_is_mul(1usize, width);
        }
        let mask = (1usize << width) - 1;
        proof {
            assert(mask as nat == low_bits_mask(width as nat));
            lemma_usize_low_bits_mask_is_mod(value >> start, width as nat);
        }
        (value >> start) & mask
    }
}

} // verus!
