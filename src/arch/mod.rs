//! The x86_64 realisation: entry formats, control structures, VM exits.

pub mod context;
pub mod cpu;
pub mod ept;
pub mod exception;
pub mod npt;
pub mod page_table;
pub mod serial;
pub mod states;
pub mod svm;
pub mod vmcb;
pub mod vmexit;
pub mod vmm;
pub mod vmx;
