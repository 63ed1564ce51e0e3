use vstd::prelude::*;

pub mod entry;
pub mod error;
pub mod frame;
pub mod frame_allocator;
pub mod memory;
pub mod page;
pub mod paging;
pub mod remap;
pub mod temporary_page;
pub mod vga;

verus! {

} // verus!
