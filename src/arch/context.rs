//! Guest general-purpose registers and the saved host (Linux) context.

use vstd::prelude::*;

verus! {

/// General-purpose registers in the order the exit trampolines push them.
#[derive(Clone, Copy, Debug, PartialEq, Eq, Structural)]
pub struct GeneralRegisters {
    pub rax: u64,
    pub rcx: u64,
    pub rdx: u64,
    pub rbx: u64,
    pub unused_rsp: u64,
    pub rbp: u64,
    pub rsi: u64,
    pub rdi: u64,
    pub r8: u64,
    pub r9: u64,
    pub r10: u64,
    pub r11: u64,
    pub r12: u64,
    pub r13: u64,
    pub r14: u64,
    pub r15: u64,
}

impl GeneralRegisters {
    /// All registers zero.
    pub open spec fn spec_zeroed() -> Self {
        GeneralRegisters {
            rax: 0,
            rcx: 0,
            rdx: 0,
            rbx: 0,
            unused_rsp: 0,
            rbp: 0,
            rsi: 0,
            rdi: 0,
            r8: 0,
            r9: 0,
            r10: 0,
            r11: 0,
            r12: 0,
            r13: 0,
            r14: 0,
            r15: 0,
        }
    }

    /// All registers zero.
    pub fn zeroed() -> (r: Self)
        ensures
            r.rax == 0 && r.rcx == 0 && r.rdx == 0 && r.rbx == 0 && r.rbp == 0 && r.rsi == 0
                && r.rdi == 0 && r.r8 == 0 && r.r9 == 0 && r.r10 == 0 && r.r11 == 0 && r.r12 == 0
                && r.r13 == 0 && r.r14 == 0 && r.r15 == 0 && r.unused_rsp == 0,
    {
        GeneralRegisters {
            rax: 0,
            rcx: 0,
            rdx: 0,
            rbx: 0,
            unused_rsp: 0,
            rbp: 0,
            rsi: 0,
            rdi: 0,
            r8: 0,
            r9: 0,
            r10: 0,
            r11: 0,
            r12: 0,
            r13: 0,
            r14: 0,
            r15: 0,
        }
    }
}

/// A segment register: selector and the descriptor it loaded.
#[derive(Clone, Copy, Debug, PartialEq, Eq, Structural)]
pub struct Segment {
    pub selector: u16,
    pub base: u64,
    pub limit: u32,
    pub access_rights: u32,
}

impl Segment {
    /// The unusable segment (access rights bit 16 set).
    pub fn invalid() -> (r: Self)
        ensures
            r.selector == 0 && r.base == 0 && r.limit == 0 && r.access_rights == 0x10000,
    {
        Segment { selector: 0, base: 0, limit: 0, access_rights: 0x10000 }
    }
}

/// A GDTR or IDTR value.
#[derive(Clone, Copy, Debug, PartialEq, Eq, Structural)]
pub struct DescriptorTablePointer {
    pub limit: u16,
    pub base: u64,
}

/// The architectural state of one CPU that the host context covers.
#[derive(Clone, Copy, Debug, PartialEq, Eq, Structural)]
pub struct MachineState {
    pub es: Segment,
    pub cs: Segment,
    pub ss: Segment,
    pub ds: Segment,
    pub fs: Segment,
    pub gs: Segment,
    pub tr: Segment,
    pub gdtr: DescriptorTablePointer,
    pub idtr: DescriptorTablePointer,
    pub cr0: u64,
    pub cr3: u64,
    pub cr4: u64,
    pub efer: u64,
    pub star: u64,
    pub lstar: u64,
    pub cstar: u64,
    pub fmask: u64,
    pub kernel_gsbase: u64,
    pub pat: u64,
    pub mtrr_def_type: u64,
    pub fs_base: u64,
    pub gs_base: u64,
}

/// The words the loader's entry trampoline leaves on the Linux stack: the
/// GS base slot, r15, r14, r13, r12, rbx, rbp and the return address.
pub const SAVED_LINUX_REGS: usize = 8;

/// Everything needed to resume the host.
#[derive(Clone, Copy, Debug, PartialEq, Eq, Structural)]
pub struct LinuxContext {
    pub rsp: u64,
    pub rip: u64,
    pub r15: u64,
    pub r14: u64,
    pub r13: u64,
    pub r12: u64,
    pub rbx: u64,
    pub rbp: u64,
    pub es: Segment,
    pub cs: Segment,
    pub ss: Segment,
    pub ds: Segment,
    pub fs: Segment,
    pub gs: Segment,
    pub tss: Segment,
    pub gdt: DescriptorTablePointer,
    pub idt: DescriptorTablePointer,
    pub cr0: u64,
    pub cr3: u64,
    pub cr4: u64,
    pub efer: u64,
    pub star: u64,
    pub lstar: u64,
    pub cstar: u64,
    pub fmask: u64,
    pub kernel_gsbase: u64,
    pub pat: u64,
    pub mtrr_def_type: u64,
}

/// The parts of two contexts that `restore` writes back to the CPU.
pub open spec fn restored_parts_equal(a: LinuxContext, b: LinuxContext) -> bool {
    &&& a.es == b.es && a.cs == b.cs && a.ss == b.ss && a.ds == b.ds
    &&& a.fs == b.fs && a.tss == b.tss
    &&& a.gs.selector == b.gs.selector && a.gs.limit == b.gs.limit && a.gs.access_rights
        == b.gs.access_rights
    &&& a.gdt == b.gdt && a.idt == b.idt
    &&& a.cr0 == b.cr0 && a.cr4 == b.cr4 && a.cr3 == b.cr3
    &&& a.efer == b.efer && a.star == b.star && a.lstar == b.lstar && a.cstar == b.cstar
    &&& a.fmask == b.fmask && a.kernel_gsbase == b.kernel_gsbase && a.pat == b.pat
}

/// The context captured from the saved stack words and the CPU.
pub open spec fn spec_capture(linux_sp: u64, regs: Seq<u64>, cpu: MachineState) -> LinuxContext {
    LinuxContext {
        rsp: (linux_sp + 8 * SAVED_LINUX_REGS) as u64,
        rip: regs[7],
        r15: regs[1],
        r14: regs[2],
        r13: regs[3],
        r12: regs[4],
        rbx: regs[5],
        rbp: regs[6],
        es: cpu.es,
        cs: cpu.cs,
        ss: cpu.ss,
        ds: cpu.ds,
        fs: Segment { base: cpu.fs_base, ..cpu.fs },
        gs: Segment { base: regs[0], ..cpu.gs },
        tss: cpu.tr,
        gdt: cpu.gdtr,
        idt: cpu.idtr,
        cr0: cpu.cr0,
        cr3: cpu.cr3 & !0xfffu64,
        cr4: cpu.cr4,
        efer: cpu.efer,
        star: cpu.star,
        lstar: cpu.lstar,
        cstar: cpu.cstar,
        fmask: cpu.fmask,
        kernel_gsbase: cpu.kernel_gsbase,
        pat: cpu.pat,
        mtrr_def_type: cpu.mtrr_def_type,
    }
}

/// The CPU state after restoring `ctx` on `cpu`.
pub open spec fn spec_restore(ctx: LinuxContext, cpu: MachineState) -> MachineState {
    MachineState {
        es: ctx.es,
        cs: ctx.cs,
        ss: ctx.ss,
        ds: ctx.ds,
        fs: ctx.fs,
        gs: ctx.gs,
        tr: ctx.tss,
        gdtr: ctx.gdt,
        idtr: ctx.idt,
        cr0: ctx.cr0,
        cr3: ctx.cr3 & !0xfffu64,
        cr4: ctx.cr4,
        efer: ctx.efer,
        star: ctx.star,
        lstar: ctx.lstar,
        cstar: ctx.cstar,
        fmask: ctx.fmask,
        kernel_gsbase: ctx.kernel_gsbase,
        pat: ctx.pat,
        mtrr_def_type: cpu.mtrr_def_type,
        fs_base: ctx.fs.base,
        gs_base: cpu.gs_base,
    }
}

impl LinuxContext {
    /// Captures the host context: callee-saved registers, the return
    /// address and the GS base from the words at the Linux stack pointer
    /// `linux_sp`, everything else from the CPU.
    pub fn load_from(linux_sp: u64, regs: &[u64], cpu: &MachineState) -> (r: Self)
        requires
            regs@.len() == SAVED_LINUX_REGS,
            linux_sp + 8 * SAVED_LINUX_REGS <= u64::MAX,
        ensures
            r == spec_capture(linux_sp, regs@, *cpu),
    {
        let mut fs = cpu.fs;
        fs.base = cpu.fs_base;
        let mut gs = cpu.gs;
        gs.base = regs[0];
        LinuxContext {
            rsp: linux_sp + 8 * SAVED_LINUX_REGS as u64,
            rip: regs[7],
            r15: regs[1],
            r14: regs[2],
            r13: regs[3],
            r12: regs[4],
            rbx: regs[5],
            rbp: regs[6],
            es: cpu.es,
            cs: cpu.cs,
            ss: cpu.ss,
            ds: cpu.ds,
            fs,
            gs,
            tss: cpu.tr,
            gdt: cpu.gdtr,
            idt: cpu.idtr,
            cr0: cpu.cr0,
            cr3: cpu.cr3 & !0xfff,
            cr4: cpu.cr4,
            efer: cpu.efer,
            star: cpu.star,
            lstar: cpu.lstar,
            cstar: cpu.cstar,
            fmask: cpu.fmask,
            kernel_gsbase: cpu.kernel_gsbase,
            pat: cpu.pat,
            mtrr_def_type: cpu.mtrr_def_type,
        }
    }

    /// Restores the system registers: the MSRs, CR0, CR4, then CR3 (with no
    /// PCID), the TSS, GDT and IDT, the segment selectors and the FS base.
    /// The GS base and the general registers are restored on the way back
    /// to Linux, and MTRR_DEF_TYPE is left as it is.
    pub fn restore(&self, cpu: &mut MachineState)
        ensures
            *final(cpu) == spec_restore(*self, *old(cpu)),
    {
        cpu.efer = self.efer;
        cpu.star = self.star;
        cpu.lstar = self.lstar;
        cpu.cstar = self.cstar;
        cpu.fmask = self.fmask;
        cpu.kernel_gsbase = self.kernel_gsbase;
        cpu.pat = self.pat;
        cpu.cr0 = self.cr0;
        cpu.cr4 = self.cr4;
        cpu.cr3 = self.cr3 & !0xfff;
        cpu.tr = self.tss;
        cpu.gdtr = self.gdt;
        cpu.idtr = self.idt;
        cpu.es = self.es;
        cpu.cs = self.cs;
        cpu.ss = self.ss;
        cpu.ds = self.ds;
        cpu.fs = self.fs;
        cpu.gs = self.gs;
        cpu.fs_base = self.fs.base;
    }
}

proof fn lemma_cr3_mask_idempotent(x: u64)
    by (bit_vector)
    ensures
        (x & !0xfffu64) & !0xfffu64 == x & !0xfffu64,
{
}

/// Capturing the context right after restoring `ctx` gives `ctx` back in
/// every part that `restore` writes, whatever the CPU held before; CR3
/// keeps its page frame only, as restoring drops the PCID bits.
pub proof fn lemma_capture_after_restore(ctx: LinuxContext, cpu: MachineState, linux_sp: u64, regs: Seq<u64>)
    requires
        ctx.cr3 & !0xfffu64 == ctx.cr3,
    ensures
        restored_parts_equal(spec_capture(linux_sp, regs, spec_restore(ctx, cpu)), ctx),
{
    lemma_cr3_mask_idempotent(ctx.cr3);
}

} // verus!
