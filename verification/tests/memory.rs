use oskernel::mm::{tlb_refill, MemorySet, PhysPageNum, VirtAddr, VirtPageNum, MAP_PERM_R, MAP_PERM_W};
use oskernel::tlb::{
    get_bits, set_asid, tlb_addr_allow_write, tlb_global_invalidate, tlb_invalidate, tlb_read,
    tlb_serach, Tlb, ASID_MASK, KERN_ASID, USR_ASID,
};

#[test]
fn translate_after_insert() {
    let mut ms = MemorySet::new();
    assert_eq!(ms.area_count(), 0);
    ms.insert_framed_area(VirtAddr(0x10000), VirtAddr(0x13000), MAP_PERM_R | MAP_PERM_W);
    assert_eq!(ms.area_count(), 1);
    assert!(ms.translate(VirtPageNum(0x10)).is_some());
    assert!(ms.translate(VirtPageNum(0x11)).is_some());
    assert!(ms.translate(VirtPageNum(0x12)).is_some());
    assert!(ms.translate(VirtPageNum(0x0f)).is_none());
    assert!(ms.translate(VirtPageNum(0x13)).is_none());
}

#[test]
fn distinct_pages_get_distinct_frames() {
    let mut ms = MemorySet::new();
    ms.insert_framed_area(VirtAddr(0x10000), VirtAddr(0x12000), MAP_PERM_R);
    let f0 = ms.translate(VirtPageNum(0x10)).unwrap();
    let f1 = ms.translate(VirtPageNum(0x11)).unwrap();
    assert_ne!(f0.0, f1.0);
}

#[test]
fn removed_range_reports_not_found_everywhere() {
    // mapping inserted, cached in the TLB, then removed: neither the page
    // table nor the TLB may still resolve any page of the range
    let mut ms = MemorySet::new();
    let mut tlb = Tlb::new();
    ms.insert_framed_area(VirtAddr(0x10000), VirtAddr(0x13000), MAP_PERM_R | MAP_PERM_W);
    tlb_refill(&ms, &mut tlb, VirtPageNum(0x10));
    tlb_refill(&ms, &mut tlb, VirtPageNum(0x12));
    assert!(tlb_serach(&tlb, VirtPageNum(0x10)).is_ok());
    assert!(tlb_serach(&tlb, VirtPageNum(0x11)).is_ok());
    assert!(tlb_serach(&tlb, VirtPageNum(0x12)).is_ok());
    ms.remove_area_with_start_vpn(&mut tlb, VirtPageNum(0x10));
    for vpn in 0x10usize..0x13usize {
        assert!(ms.translate(VirtPageNum(vpn)).is_none());
        assert!(tlb_serach(&tlb, VirtPageNum(vpn)).is_err());
    }
}

#[test]
fn remove_keeps_other_areas() {
    let mut ms = MemorySet::new();
    let mut tlb = Tlb::new();
    ms.insert_framed_area(VirtAddr(0x10000), VirtAddr(0x12000), MAP_PERM_R);
    ms.insert_framed_area(VirtAddr(0x20000), VirtAddr(0x21000), MAP_PERM_R);
    ms.remove_area_with_start_vpn(&mut tlb, VirtPageNum(0x10));
    assert_eq!(ms.area_count(), 1);
    assert!(ms.translate(VirtPageNum(0x10)).is_none());
    assert!(ms.translate(VirtPageNum(0x20)).is_some());
}

#[test]
fn remove_of_absent_start_changes_nothing() {
    let mut ms = MemorySet::new();
    let mut tlb = Tlb::new();
    ms.insert_framed_area(VirtAddr(0x10000), VirtAddr(0x12000), MAP_PERM_R);
    ms.remove_area_with_start_vpn(&mut tlb, VirtPageNum(0x11));
    assert_eq!(ms.area_count(), 1);
    assert!(ms.translate(VirtPageNum(0x11)).is_some());
}

#[test]
fn tlb_search_after_refill_matches_page_table() {
    let mut ms = MemorySet::new();
    let mut tlb = Tlb::new();
    ms.insert_framed_area(VirtAddr(0x10000), VirtAddr(0x11000), MAP_PERM_R);
    // pair of page 0x10: even half 0x10 mapped, odd half 0x11 unmapped
    tlb_refill(&ms, &mut tlb, VirtPageNum(0x10));
    let expected = ms.translate(VirtPageNum(0x10)).unwrap();
    assert_eq!(tlb_serach(&tlb, VirtPageNum(0x10)).unwrap().0, expected.0);
    assert!(tlb_serach(&tlb, VirtPageNum(0x11)).is_err());
}

#[test]
fn tlb_write_allow_fills_the_matched_half() {
    let mut ms = MemorySet::new();
    let mut tlb = Tlb::new();
    ms.insert_framed_area(VirtAddr(0x10000), VirtAddr(0x11000), MAP_PERM_R | MAP_PERM_W);
    tlb_refill(&ms, &mut tlb, VirtPageNum(0x10));
    // no slot matches the pair of page 0x30: the write is refused
    assert!(tlb_addr_allow_write(&mut tlb, VirtPageNum(0x30), PhysPageNum(0x99)).is_err());
    // the odd half of the cached pair is invalid until written
    assert!(tlb_serach(&tlb, VirtPageNum(0x11)).is_err());
    assert!(tlb_addr_allow_write(&mut tlb, VirtPageNum(0x11), PhysPageNum(0x77)).is_ok());
    assert_eq!(tlb_serach(&tlb, VirtPageNum(0x11)).unwrap().0, 0x77);
}

#[test]
fn tlb_read_reports_slot_contents() {
    let mut ms = MemorySet::new();
    let mut tlb = Tlb::new();
    ms.insert_framed_area(VirtAddr(0x10000), VirtAddr(0x11000), MAP_PERM_R);
    tlb_refill(&ms, &mut tlb, VirtPageNum(0x10));
    let (even, odd) = tlb_read(&tlb, 0).unwrap();
    assert!(even.is_some());
    assert!(odd.is_none());
    assert!(tlb_read(&tlb, 1).is_err());
}

#[test]
fn asid_is_masked_to_the_hardware_width() {
    let mut tlb = Tlb::new();
    assert_eq!(tlb.asid(), USR_ASID);
    set_asid(&mut tlb, 0x1403);
    assert_eq!(tlb.asid(), 0x003);
    set_asid(&mut tlb, KERN_ASID);
    assert_eq!(tlb.asid(), ASID_MASK);
}

#[test]
fn search_misses_under_another_asid() {
    let mut ms = MemorySet::new();
    let mut tlb = Tlb::new();
    ms.insert_framed_area(VirtAddr(0x10000), VirtAddr(0x11000), MAP_PERM_R);
    tlb_refill(&ms, &mut tlb, VirtPageNum(0x10));
    assert!(tlb_serach(&tlb, VirtPageNum(0x10)).is_ok());
    set_asid(&mut tlb, KERN_ASID);
    assert!(tlb_serach(&tlb, VirtPageNum(0x10)).is_err());
}

#[test]
fn invalidate_drops_the_current_asid_only() {
    let mut ms = MemorySet::new();
    let mut tlb = Tlb::new();
    ms.insert_framed_area(VirtAddr(0x10000), VirtAddr(0x11000), MAP_PERM_R);
    // cache the pair under the user asid, then invalidate under the kernel
    // asid: the user entry survives
    tlb_refill(&ms, &mut tlb, VirtPageNum(0x10));
    set_asid(&mut tlb, KERN_ASID);
    tlb_invalidate(&mut tlb);
    set_asid(&mut tlb, USR_ASID);
    assert!(tlb_serach(&tlb, VirtPageNum(0x10)).is_ok());
    // invalidating under the user asid drops it
    tlb_invalidate(&mut tlb);
    assert!(tlb_serach(&tlb, VirtPageNum(0x10)).is_err());
}

#[test]
fn global_invalidate_drops_everything() {
    let mut ms = MemorySet::new();
    let mut tlb = Tlb::new();
    ms.insert_framed_area(VirtAddr(0x10000), VirtAddr(0x11000), MAP_PERM_R);
    tlb_refill(&ms, &mut tlb, VirtPageNum(0x10));
    tlb_global_invalidate(&mut tlb);
    assert!(tlb_serach(&tlb, VirtPageNum(0x10)).is_err());
    assert!(tlb_read(&tlb, 0).is_err());
}

#[test]
fn get_bits_extracts_fields() {
    assert_eq!(get_bits(0b110100, 2, 4), 0b01);
    assert_eq!(get_bits(0b110100, 2, 6), 0b1101);
    assert_eq!(get_bits(0xabcd_1234, 16, 32), 0xabcd);
    assert_eq!(get_bits(0x5, 0, 64), 0x5);
    assert_eq!(get_bits(usize::MAX, 0, 64), usize::MAX);
    assert_eq!(get_bits(usize::MAX, 63, 64), 1);
}
