use vstd::prelude::*;

verus! {

/// Size in bytes of one physical frame or virtual page.
pub const PAGE_SIZE: u64 = 4096;

/// A 4 KiB-aligned unit of physical memory, identified by its index.
#[derive(Clone, Copy, Debug, PartialEq, Eq, Structural)]
pub struct Frame {
    pub number: u64,
}

impl Frame {
    /// The frame that holds the byte at `address`.
    pub fn containing_address(address: u64) -> (r: Frame)
        ensures
            r.number == address / 4096,
    {
        Frame { number: address / PAGE_SIZE }
    }
}

} // verus!
