use oskernel::trap_context::{Sstatus, TrapContext, SPP, SPP_BIT};

#[test]
fn initial_context_zeroes_everything_but_sp_and_entry() {
    let status = Sstatus { bits: 0x8000_0000_0000_0120 };
    let cx = TrapContext::app_init_context(0x1_0000, 0x2_0000, 0x8765, 0x3_0000, 0x4_0000, status);
    let r = cx.general_regs;
    assert_eq!(r.sp, 0x2_0000);
    assert_eq!(cx.sepc, 0x1_0000);
    let others = [
        r.pc, r.ra, r.gp, r.tp, r.t0, r.t1, r.t2, r.s0, r.s1, r.a0, r.a1, r.a2, r.a3, r.a4,
        r.a5, r.a6, r.a7, r.s2, r.s3, r.s4, r.s5, r.s6, r.s7, r.s8, r.s9, r.s10, r.s11, r.t3,
        r.t4, r.t5, r.t6,
    ];
    for v in others {
        assert_eq!(v, 0);
    }
    assert_eq!(cx.kernel_satp, 0x8765);
    assert_eq!(cx.kernel_sp, 0x3_0000);
    assert_eq!(cx.trap_handler, 0x4_0000);
    // control returns to unprivileged mode: the privilege field is cleared,
    // every other status bit is kept
    assert_eq!(cx.sstatus.bits & SPP_BIT, 0);
    assert_eq!(cx.sstatus.bits, 0x8000_0000_0000_0020);
}

#[test]
fn set_spp_toggles_only_the_privilege_field() {
    let mut s = Sstatus { bits: 0x22 };
    s.set_spp(SPP::Supervisor);
    assert_eq!(s.bits, 0x122);
    s.set_spp(SPP::User);
    assert_eq!(s.bits, 0x22);
}

#[test]
fn set_sp_changes_only_the_stack_pointer() {
    let status = Sstatus { bits: 0 };
    let mut cx = TrapContext::app_init_context(0x100, 0x200, 1, 2, 3, status);
    cx.set_sp(0x999);
    assert_eq!(cx.general_regs.sp, 0x999);
    assert_eq!(cx.general_regs.ra, 0);
    assert_eq!(cx.sepc, 0x100);
    assert_eq!(cx.kernel_satp, 1);
}
