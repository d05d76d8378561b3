//! Physical memory, frames, page tables and memory sets.

pub mod addr;
pub mod frame;
pub mod gaccess;
pub mod init;
pub mod mapper;
pub mod mm;
pub mod pagetable;
pub mod paging;
pub mod physmem;
