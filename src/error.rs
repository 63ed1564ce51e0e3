use vstd::prelude::*;

verus! {

/// The ways the memory subsystem can fail.
#[derive(Clone, Copy, Debug, PartialEq, Eq, Structural)]
pub enum MemoryError {
    /// A required part of the boot information is absent.
    MissingBootTag,
    /// A frame or section address is not 4 KiB-aligned.
    AlignmentViolation,
    /// No free frame is left.
    AllocatorExhausted,
    /// An address lies outside the canonical halves of the address space.
    InvalidVirtualAddress,
    /// Frames cannot be given back to the allocator.
    DeallocationUnsupported,
    /// A table on the walked path is a huge page, lies outside physical
    /// memory, or is shared with the top-level table or another level of the
    /// same path.
    TableConflict,
}

} // verus!
