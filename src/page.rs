use vstd::prelude::*;

verus! {

/// An address in the low or the high canonical half of the address space.
pub open spec fn canonical(address: u64) -> bool {
    address < 0x0000_8000_0000_0000 || address >= 0xffff_8000_0000_0000
}

/// A 4 KiB-aligned unit of virtual address space, identified by its index.
#[derive(Clone, Copy, Debug, PartialEq, Eq, Structural)]
pub struct Page {
    pub number: u64,
}

impl Page {
    pub open spec fn index_at(self, shift: u64) -> u64 {
        ((self.number >> shift) & 0x1ff) as u64
    }

    /// The page that holds `address`; the address must be canonical.
    pub fn containing_address(address: u64) -> (r: Page)
        requires
            canonical(address),
        ensures
            r.number == address / 4096,
    {
        Page { number: address / 4096 }
    }

    pub fn start_address(&self) -> (r: u64)
        requires
            self.number < 0x10_0000_0000_0000,
        ensures
            r == self.number * 4096,
    {
        self.number * 4096
    }

    pub fn p4_index(&self) -> (r: usize)
        ensures
            r == self.index_at(27),
            r < 512,
    {
        let n = self.number;
        assert((n >> 27u64) & 0x1ffu64 < 512) by (bit_vector);
        ((self.number >> 27u64) & 0x1ff) as usize
    }

    pub fn p3_index(&self) -> (r: usize)
        ensures
            r == self.index_at(18),
            r < 512,
    {
        let n = self.number;
        assert((n >> 18u64) & 0x1ffu64 < 512) by (bit_vector);
        ((self.number >> 18u64) & 0x1ff) as usize
    }

    pub fn p2_index(&self) -> (r: usize)
        ensures
            r == self.index_at(9),
            r < 512,
    {
        let n = self.number;
        assert((n >> 9u64) & 0x1ffu64 < 512) by (bit_vector);
        ((self.number >> 9u64) & 0x1ff) as usize
    }

    pub fn p1_index(&self) -> (r: usize)
        ensures
            r == self.index_at(0),
            r < 512,
    {
        let n = self.number;
        assert((n >> 0u64) & 0x1ffu64 < 512) by (bit_vector);
        ((self.number >> 0u64) & 0x1ff) as usize
    }
}

} // verus!
