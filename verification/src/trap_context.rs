//! The trap context: the full general-register file, processor status and
//! the three kernel-resume fields saved for a task while it is not executing
//! in user mode. The initial context of a fresh user task zeroes every
//! general register except the stack pointer, points the saved program
//! counter at the entry address, and configures the status word so control
//! returns to unprivileged mode on the next resume. The hardware status
//! register is read at the boundary and handed in as a plain value.

use vstd::prelude::*;

verus! {

/// Privilege level the processor returns to when the trap context is
/// resumed.
#[derive(Clone, Copy, PartialEq, Eq, Structural, Debug)]
pub enum SPP {
    Supervisor,
    User,
}

/// Bit of the status word holding the previous privilege level.
pub const SPP_BIT: usize = 0x100;

/// Model of the saved processor status word: raw bits, with the
/// previous-privilege field interpreted.
#[derive(Clone, Copy, PartialEq, Eq, Structural, Debug)]
pub struct Sstatus {
    /// The raw status bits.
    pub bits: usize,
}

impl Sstatus {
    /// The previous-privilege field: the mode control returns to.
    pub open spec fn spec_spp(&self) -> SPP {
        if self.bits & SPP_BIT == 0 {
            SPP::User
        } else {
            SPP::Supervisor
        }
    }

    /// Set the previous-privilege field, leaving every other bit unchanged.
    pub fn set_spp(&mut self, spp: SPP)
        ensures
            final(self).spec_spp() == spp,
            final(self).bits & !SPP_BIT == old(self).bits & !SPP_BIT,
    {
        let b = self.bits;
        match spp {
            SPP::User => {
                self.bits = b & !SPP_BIT;
                proof {
                    assert((b & !0x100usize) & 0x100usize == 0) by (bit_vector);
                    assert((b & !0x100usize) & !0x100usize == b & !0x100usize) by (bit_vector);
                }
            },
            SPP::Supervisor => {
                self.bits = b | SPP_BIT;
                proof {
                    assert((b | 0x100usize) & 0x100usize != 0) by (bit_vector);
                    assert((b | 0x100usize) & !0x100usize == b & !0x100usize) by (bit_vector);
                }
            },
        }
    }
}

/// The full general-register file saved across a trap.
#[derive(Clone, Copy, Debug)]
pub struct GeneralRegs {
    pub pc: usize,
    pub ra: usize,
    pub sp: usize,
    pub gp: usize,
    pub tp: usize,
    pub t0: usize,
    pub t1: usize,
    pub t2: usize,
    pub s0: usize,
    pub s1: usize,
    pub a0: usize,
    pub a1: usize,
    pub a2: usize,
    pub a3: usize,
    pub a4: usize,
    pub a5: usize,
    pub a6: usize,
    pub a7: usize,
    pub s2: usize,
    pub s3: usize,
    pub s4: usize,
    pub s5: usize,
    pub s6: usize,
    pub s7: usize,
    pub s8: usize,
    pub s9: usize,
    pub s10: usize,
    pub s11: usize,
    pub t3: usize,
    pub t4: usize,
    pub t5: usize,
    pub t6: usize,
}

/// Every register of `r` is zero.
pub open spec fn regs_all_zero(r: GeneralRegs) -> bool {
    &&& r.pc == 0 && r.ra == 0 && r.sp == 0 && r.gp == 0 && r.tp == 0
    &&& r.t0 == 0 && r.t1 == 0 && r.t2 == 0 && r.s0 == 0 && r.s1 == 0
    &&& r.a0 == 0 && r.a1 == 0 && r.a2 == 0 && r.a3 == 0 && r.a4 == 0
    &&& r.a5 == 0 && r.a6 == 0 && r.a7 == 0 && r.s2 == 0 && r.s3 == 0
    &&& r.s4 == 0 && r.s5 == 0 && r.s6 == 0 && r.s7 == 0 && r.s8 == 0
    &&& r.s9 == 0 && r.s10 == 0 && r.s11 == 0 && r.t3 == 0 && r.t4 == 0
    &&& r.t5 == 0 && r.t6 == 0
}

/// Every register of `r` is zero except the stack pointer, which holds
/// `sp`.
pub open spec fn regs_zero_except_sp(r: GeneralRegs, sp: usize) -> bool {
    regs_all_zero(GeneralRegs { sp: 0, ..r }) && r.sp == sp
}

impl Default for GeneralRegs {
    /// The zeroed register file.
    fn default() -> (r: Self)
        ensures
            regs_all_zero(r),
    {
        GeneralRegs {
            pc: 0,
            ra: 0,
            sp: 0,
            gp: 0,
            tp: 0,
            t0: 0,
            t1: 0,
            t2: 0,
            s0: 0,
            s1: 0,
            a0: 0,
            a1: 0,
            a2: 0,
            a3: 0,
            a4: 0,
            a5: 0,
            a6: 0,
            a7: 0,
            s2: 0,
            s3: 0,
            s4: 0,
            s5: 0,
            s6: 0,
            s7: 0,
            s8: 0,
            s9: 0,
            s10: 0,
            s11: 0,
            t3: 0,
            t4: 0,
            t5: 0,
            t6: 0,
        }
    }
}

/// The register/status snapshot of a task while it is not running in user
/// mode, plus the three kernel-resume fields consulted by the trap entry
/// sequence.
#[derive(Clone, Copy, Debug)]
pub struct TrapContext {
    /// Saved general registers.
    pub general_regs: GeneralRegs,
    /// Saved processor status.
    pub sstatus: Sstatus,
    /// Saved exceptional program counter: where user execution resumes.
    pub sepc: usize,
    /// Page-table token of the kernel address space.
    pub kernel_satp: usize,
    /// Top of the owning task's kernel stack.
    pub kernel_sp: usize,
    /// Entry address of the kernel trap handler.
    pub trap_handler: usize,
}

impl TrapContext {
    /// Point the saved user stack pointer at `sp`, leaving everything else
    /// unchanged.
    pub fn set_sp(&mut self, sp: usize)
        ensures
            final(self).general_regs == (GeneralRegs { sp, ..old(self).general_regs }),
            final(self).sstatus == old(self).sstatus,
            final(self).sepc == old(self).sepc,
            final(self).kernel_satp == old(self).kernel_satp,
            final(self).kernel_sp == old(self).kernel_sp,
            final(self).trap_handler == old(self).trap_handler,
    {
        self.general_regs.sp = sp;
    }

    /// The initial trap context of a fresh user task: every general
    /// register zero except the stack pointer (set to `sp`), the saved
    /// program counter at `entry`, the kernel-resume fields filled in, and
    /// the status word — read from hardware at the boundary and handed in
    /// as `sstatus` — adjusted so control returns to unprivileged mode.
    pub fn app_init_context(
        entry: usize,
        sp: usize,
        kernel_satp: usize,
        kernel_sp: usize,
        trap_handler: usize,
        sstatus: Sstatus,
    ) -> (cx: Self)
        ensures
            regs_zero_except_sp(cx.general_regs, sp),
            cx.sepc == entry,
            cx.kernel_satp == kernel_satp,
            cx.kernel_sp == kernel_sp,
            cx.trap_handler == trap_handler,
            cx.sstatus.spec_spp() == SPP::User,
            cx.sstatus.bits & !SPP_BIT == sstatus.bits & !SPP_BIT,
    {
        let mut sstatus = sstatus;
        sstatus.set_spp(SPP::User);
        let mut cx = TrapContext {
            general_regs: GeneralRegs::default(),
            sstatus,
            sepc: entry,
            kernel_satp,
            kernel_sp,
            trap_handler,
        };
        cx.set_sp(sp);
        cx
    }
}

} // verus!
