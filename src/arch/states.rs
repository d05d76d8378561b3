//! A view of a VMX vCPU's guest state, read-only (`In`) or writable
//! (`Out`).

use core::marker::PhantomData;
use vstd::prelude::*;

use super::context::GeneralRegisters;
use super::vmm::VcpuAccessGuestState;
use super::vmx::{Vcpu, VmcsGuest};

verus! {

/// Whether a view may be read or written.
pub trait Policy {}

pub trait Read: Policy {}

pub trait Write: Policy {}

/// The read-only policy.
pub enum In {
    ReadOnly,
}

/// The writable policy.
pub enum Out {
    Writable,
}

impl Policy for In {}

impl Policy for Out {}

impl Read for In {}

impl Write for Out {}

/// A snapshot of a vCPU's guest state under policy `P`.
pub struct VcpuGuestState<P: Policy> {
    pub vcpu: Vcpu,
    pub mark: PhantomData<P>,
}

impl<P: Policy> VcpuGuestState<P> {
    pub fn from(vcpu: &Vcpu) -> (r: Self)
        ensures
            r.vcpu == *vcpu,
    {
        VcpuGuestState { vcpu: *vcpu, mark: PhantomData }
    }

    pub fn regs(&self) -> (r: GeneralRegisters)
        ensures
            r == self.vcpu.guest_regs,
    {
        self.vcpu.guest_regs
    }

    pub fn rip(&self) -> (r: u64)
        ensures
            r == self.vcpu.vmcs.rip,
    {
        self.vcpu.vmcs.rip
    }

    pub fn rsp(&self) -> (r: u64)
        ensures
            r == self.vcpu.vmcs.rsp,
    {
        self.vcpu.vmcs.rsp
    }

    pub fn rbp(&self) -> (r: u64)
        ensures
            r == self.vcpu.guest_regs.rbp,
    {
        self.vcpu.guest_regs.rbp
    }

    pub fn rflags(&self) -> (r: u64)
        ensures
            r == self.vcpu.vmcs.rflags,
    {
        self.vcpu.vmcs.rflags
    }

    /// The guest's view of CR0, CR3 or CR4.
    pub fn cr(&self, cr_idx: u64) -> (r: u64)
        requires
            cr_idx == 0 || cr_idx == 3 || cr_idx == 4,
        ensures
            r == self.vcpu.spec_cr(cr_idx),
    {
        self.vcpu.get_guest_cr(cr_idx)
    }
}

impl VcpuGuestState<Out> {
    /// Writes the changed guest state back to `vcpu`.
    pub fn write_back(&self, vcpu: &mut Vcpu)
        ensures
            *final(vcpu) == self.vcpu,
    {
        *vcpu = self.vcpu;
    }

    /// The guest registers, for writing.
    pub fn regs_mut(&mut self) -> (r: &mut GeneralRegisters)
        ensures
            *r == old(self).vcpu.guest_regs,
            final(self).vcpu.guest_regs == *final(r),
            final(self).vcpu.vmcs == old(self).vcpu.vmcs,
    {
        &mut self.vcpu.guest_regs
    }

    pub fn set_rsp(&mut self, rsp: u64)
        ensures
            final(self).vcpu.vmcs.rsp == rsp,
            final(self).vcpu.guest_regs == old(self).vcpu.guest_regs,
            final(self).vcpu.vmcs == (VmcsGuest { rsp, ..old(self).vcpu.vmcs }),
    {
        self.vcpu.vmcs.rsp = rsp;
    }
}

} // verus!
