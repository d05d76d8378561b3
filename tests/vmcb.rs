use rvm::arch::vmcb::{Vmcb, VmcbControlArea, VmcbStateSaveArea};
use std::mem::size_of;

#[test]
fn test_vmcb_size() {
    assert_eq!(size_of::<Vmcb>(), 0x1000);
    assert_eq!(size_of::<VmcbControlArea>(), 0x400);
    assert_eq!(size_of::<VmcbStateSaveArea>(), 0x400);
}
