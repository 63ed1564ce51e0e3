use vstd::prelude::*;

use crate::entry::{elf_section_flags, Entry, EntryFlags, PRESENT, WRITABLE};
use crate::error::MemoryError;
use crate::frame::Frame;
use crate::frame_allocator::{AreaFrameAllocator, FrameAllocator};
use crate::page::Page;
use crate::paging::{lemma_unmapped_page, leaf_entry, ActivePageTable, InactivePageTable};
use crate::temporary_page::TemporaryPage;

verus! {

/// Frame of the text-mode display buffer.
pub const VGA_BUFFER_FRAME: u64 = 0xb8;

/// One past the last frame that an identity mapping can reach: its page must
/// lie in the low canonical half.
pub const IDENTITY_LIMIT: u64 = 0x8_0000_0000;

/// Number of the virtual page kept free for reaching frames that no mapping
/// leads to yet.
pub const SCRATCH_PAGE: u64 = 0xcafe_babe;

/// A section of the running kernel image.
#[derive(Clone, Copy, Debug, PartialEq, Eq, Structural)]
pub struct KernelSection {
    pub start: u64,
    pub size: u64,
    pub loaded: bool,
    pub writable: bool,
    pub executable: bool,
}

/// What the mapping steps keep of the table they work on.
pub open spec fn keeps_tables(before: ActivePageTable, after: ActivePageTable) -> bool {
    &&& after.wf()
    &&& after.p4_frame == before.p4_frame
    &&& after.root() == before.root()
    &&& after.memory.entry(before.root(), 511) == before.memory.entry(before.root(), 511)
    &&& after.memory.frames() == before.memory.frames()
}

/// Page `n` is mapped to frame `n` through a level-1 entry that holds `flags`
/// and the present bit.
pub open spec fn identity_mapped(t: ActivePageTable, n: int, flags: EntryFlags) -> bool {
    &&& t.translate_page_spec(Page { number: n as u64 }) == Some(Frame { number: n as u64 })
    &&& leaf_entry(t.memory, t.root(), Page { number: n as u64 }) == Some(
        Entry(((n * 4096) as u64) | (flags.bits | PRESENT)),
    )
}

/// Whether a loaded, non-empty section lies where identity mappings reach.
pub open spec fn section_in_range(s: KernelSection) -> bool {
    s.loaded && s.size > 0 ==> s.start / 4096 < IDENTITY_LIMIT && s.size - 1 <= IDENTITY_LIMIT
        * 4096 - 1 - s.start
}

pub open spec fn first_section_frame(s: KernelSection) -> int {
    (s.start / 4096) as int
}

pub open spec fn last_section_frame(s: KernelSection) -> int {
    (s.start + s.size - 1) / 4096
}

/// Every frame of every loaded section maps to itself with the section's
/// flags, the display buffer's frame maps to itself writable, and every frame
/// of the boot information `[boot_start, boot_end)` maps to itself present
/// only; all but the frame `guard`, whose page is left unmapped.
pub open spec fn kernel_mapped(
    t: ActivePageTable,
    sections: Seq<KernelSection>,
    boot_start: u64,
    boot_end: u64,
    guard: int,
) -> bool {
    &&& forall|i: int, n: int|
        0 <= i < sections.len() && sections[i].loaded && sections[i].size > 0
            && first_section_frame(sections[i]) <= n <= last_section_frame(sections[i]) && n
            != guard ==> identity_mapped(t, n, elf_section_flags(sections[i]))
    &&& VGA_BUFFER_FRAME != guard ==> identity_mapped(
        t,
        VGA_BUFFER_FRAME as int,
        EntryFlags { bits: WRITABLE },
    )
    &&& boot_end > boot_start ==> forall|n: int|
        boot_start / 4096 <= n <= (boot_end - 1) / 4096 && n != guard ==> identity_mapped(
            t,
            n,
            EntryFlags { bits: PRESENT },
        )
}

/// Whether every frame from `first` to `last` but `guard` maps to itself
/// with `flags`.
fn range_mapped(t: &ActivePageTable, first: u64, last: u64, flags: EntryFlags, guard: u64) -> (r:
    bool)
    requires
        t.wf(),
        last < IDENTITY_LIMIT,
    ensures
        r ==> forall|n: int| first <= n <= last && n != guard ==> identity_mapped(*t, n, flags),
{
    let mut f = first;
    while f <= last
        invariant
            t.wf(),
            last < IDENTITY_LIMIT,
            first <= f,
            forall|n: int| first <= n < f && n != guard ==> identity_mapped(*t, n, flags),
        decreases last + 1 - f,
    {
        if f != guard {
            match t.translate_page(Page { number: f }) {
                None => return false,
                Some(g) => {
                    if g.number != f {
                        return false;
                    }
                },
            }
            let expected = Entry((f * 4096) | (flags.bits | PRESENT));
            match t.leaf(Page { number: f }) {
                None => return false,
                Some(e) => {
                    if e != expected {
                        return false;
                    }
                },
            }
        }
        f = f + 1;
    }
    true
}

/// Whether the loaded sections, the display buffer and the boot information
/// all map to themselves with their flags, but for the frame `guard`.
fn kernel_is_mapped(
    t: &ActivePageTable,
    sections: &Vec<KernelSection>,
    boot_start: u64,
    boot_end: u64,
    guard: u64,
) -> (r: bool)
    requires
        t.wf(),
        forall|i: int| 0 <= i < sections@.len() ==> section_in_range(#[trigger] sections@[i]),
        boot_end > boot_start ==> boot_end <= IDENTITY_LIMIT * 4096,
    ensures
        r ==> kernel_mapped(*t, sections@, boot_start, boot_end, guard as int),
{
    let mut i: usize = 0;
    while i < sections.len()
        invariant
            t.wf(),
            i <= sections@.len(),
            forall|k: int| 0 <= k < sections@.len() ==> section_in_range(#[trigger] sections@[k]),
            forall|k: int, n: int|
                0 <= k < i && sections@[k].loaded && sections@[k].size > 0 && first_section_frame(
                    sections@[k],
                ) <= n <= last_section_frame(sections@[k]) && n != guard ==> identity_mapped(
                    *t,
                    n,
                    elf_section_flags(sections@[k]),
                ),
        decreases sections@.len() - i,
    {
        let s = sections[i];
        assert(section_in_range(sections@[i as int]));
        if s.loaded && s.size > 0 {
            let flags = EntryFlags::from_elf_section_flags(&s);
            if !range_mapped(t, s.start / 4096, (s.start + (s.size - 1)) / 4096, flags, guard) {
                return false;
            }
        }
        i = i + 1;
    }
    if !range_mapped(t, VGA_BUFFER_FRAME, VGA_BUFFER_FRAME, EntryFlags { bits: WRITABLE }, guard) {
        return false;
    }
    if boot_end > boot_start {
        if !range_mapped(
            t,
            boot_start / 4096,
            (boot_end - 1) / 4096,
            EntryFlags { bits: PRESENT },
            guard,
        ) {
            return false;
        }
    }
    true
}

/// Identity-maps every frame from `first` to `last`, both included.
fn map_range<A: FrameAllocator>(
    active: &mut ActivePageTable,
    first: u64,
    last: u64,
    flags: EntryFlags,
    allocator: &mut A,
) -> (r: Result<(), MemoryError>)
    requires
        old(active).wf(),
        old(allocator).ready(),
        old(active).memory.entry(old(active).root(), 511).spec_frame() is Some,
        last < IDENTITY_LIMIT,
        flags.valid(),
    ensures
        keeps_tables(*old(active), *final(active)),
        final(allocator).ready(),
        r matches Err(e) ==> e == MemoryError::AllocatorExhausted || e == MemoryError::TableConflict,
        r == Err::<(), MemoryError>(MemoryError::AllocatorExhausted) ==> final(allocator).exhausted(),
{
    let mut f = first;
    while f <= last
        invariant
            keeps_tables(*old(active), *active),
            allocator.ready(),
            old(active).memory.entry(old(active).root(), 511).spec_frame() is Some,
            last < IDENTITY_LIMIT,
            flags.valid(),
        decreases last + 1 - f,
    {
        active.identity_map(Frame { number: f }, flags, allocator)?;
        f = f + 1;
    }
    Ok(())
}

/// Identity-maps the loaded sections, the display buffer and the boot
/// information into the table that the recursive slot points at.
fn map_kernel<A: FrameAllocator>(
    active: &mut ActivePageTable,
    sections: &Vec<KernelSection>,
    boot_start: u64,
    boot_end: u64,
    allocator: &mut A,
) -> (r: Result<(), MemoryError>)
    requires
        old(active).wf(),
        old(allocator).ready(),
        old(active).memory.entry(old(active).root(), 511).spec_frame() is Some,
        forall|i: int| 0 <= i < sections@.len() ==> section_in_range(#[trigger] sections@[i]),
        boot_end > boot_start ==> boot_end <= IDENTITY_LIMIT * 4096,
    ensures
        keeps_tables(*old(active), *final(active)),
        final(allocator).ready(),
        r matches Err(e) ==> e == MemoryError::AllocatorExhausted || e == MemoryError::TableConflict,
        r == Err::<(), MemoryError>(MemoryError::AllocatorExhausted) ==> final(allocator).exhausted(),
{
    let mut i: usize = 0;
    while i < sections.len()
        invariant
            keeps_tables(*old(active), *active),
            allocator.ready(),
            old(active).memory.entry(old(active).root(), 511).spec_frame() is Some,
            forall|k: int| 0 <= k < sections@.len() ==> section_in_range(#[trigger] sections@[k]),
        decreases sections@.len() - i,
    {
        let s = sections[i];
        assert(section_in_range(sections@[i as int]));
        if s.loaded && s.size > 0 {
            let flags = EntryFlags::from_elf_section_flags(&s);
            map_range(active, s.start / 4096, (s.start + (s.size - 1)) / 4096, flags, allocator)?;
        }
        i = i + 1;
    }
    let writable = EntryFlags { bits: WRITABLE };
    let present = EntryFlags { bits: PRESENT };
    assert(2u64 & 0x8000_0000_0000_01ffu64 == 2u64 && 1u64 & 0x8000_0000_0000_01ffu64 == 1u64)
        by (bit_vector);
    map_range(active, VGA_BUFFER_FRAME, VGA_BUFFER_FRAME, writable, allocator)?;
    if boot_end > boot_start {
        map_range(active, boot_start / 4096, (boot_end - 1) / 4096, present, allocator)?;
    }
    Ok(())
}

/// One past the last byte of a section, or the top of the address space if
/// the section would run past it.
pub open spec fn section_end(s: KernelSection) -> u64 {
    if s.start + s.size > u64::MAX {
        u64::MAX
    } else {
        (s.start + s.size) as u64
    }
}

/// The range `[start, end)` from the lowest start to the highest end of the
/// loaded sections: the kernel image that the frame allocator must keep
/// clear of. Without loaded sections it is empty.
pub fn kernel_bounds(sections: &Vec<KernelSection>) -> (r: (u64, u64))
    ensures
        (forall|i: int| 0 <= i < sections@.len() ==> !(#[trigger] sections@[i]).loaded) ==> r == (
        0u64, 0u64),
        forall|i: int|
            0 <= i < sections@.len() && (#[trigger] sections@[i]).loaded ==> r.0 <= sections@[i].start
                && section_end(sections@[i]) <= r.1,
        (exists|i: int| 0 <= i < sections@.len() && (#[trigger] sections@[i]).loaded) ==> (exists|
            i: int,
        |
            0 <= i < sections@.len() && (#[trigger] sections@[i]).loaded && r.0 == sections@[i].start)
            && (exists|j: int|
            0 <= j < sections@.len() && (#[trigger] sections@[j]).loaded && r.1 == section_end(
                sections@[j],
            )),
{
    let mut found = false;
    let mut lo: u64 = 0;
    let mut hi: u64 = 0;
    let mut i: usize = 0;
    while i < sections.len()
        invariant
            i <= sections@.len(),
            found <==> exists|k: int| 0 <= k < i && (#[trigger] sections@[k]).loaded,
            !found ==> lo == 0 && hi == 0,
            forall|k: int|
                0 <= k < i && (#[trigger] sections@[k]).loaded ==> lo <= sections@[k].start
                    && section_end(sections@[k]) <= hi,
            found ==> exists|k: int|
                0 <= k < i && (#[trigger] sections@[k]).loaded && lo == sections@[k].start,
            found ==> exists|k: int|
                0 <= k < i && (#[trigger] sections@[k]).loaded && hi == section_end(sections@[k]),
        decreases sections@.len() - i,
    {
        let s = sections[i];
        if s.loaded {
            let end = if s.size > u64::MAX - s.start {
                u64::MAX
            } else {
                s.start + s.size
            };
            if !found || s.start < lo {
                lo = s.start;
            }
            if !found || end > hi {
                hi = end;
            }
            found = true;
        }
        i = i + 1;
    }
    (lo, hi)
}

/// Whether some loaded section lies beyond where identity mappings reach.
fn find_out_of_range(sections: &Vec<KernelSection>) -> (r: bool)
    ensures
        r == exists|i: int| 0 <= i < sections@.len() && !section_in_range(#[trigger] sections@[i]),
{
    let mut i: usize = 0;
    while i < sections.len()
        invariant
            i <= sections@.len(),
            forall|k: int| 0 <= k < i ==> section_in_range(#[trigger] sections@[k]),
        decreases sections@.len() - i,
    {
        let s = sections[i];
        if s.loaded && s.size > 0 && (s.start / 4096 >= IDENTITY_LIMIT || s.size - 1
            > IDENTITY_LIMIT * 4096 - 1 - s.start) {
            return true;
        }
        i = i + 1;
    }
    false
}

/// Builds a new address space that identity-maps the kernel image, the
/// display buffer and the boot information `[boot_start, boot_end)`, loads
/// it, and unmaps the page of the retired top-level table so that it becomes
/// a guard page, which it returns. The top-level frame of the new space is
/// the first frame taken from `allocator`. The loaded sections must start on
/// page boundaries; the caller halts if the boot information lists none.
/// Success is reported only once every frame that had to be mapped, but the
/// guard, is seen to map to itself with its flags in the loaded tables.
pub fn remap_the_kernel(
    active: &mut ActivePageTable,
    allocator: &mut AreaFrameAllocator,
    sections: &Vec<KernelSection>,
    boot_start: u64,
    boot_end: u64,
) -> (r: Result<Page, MemoryError>)
    requires
        old(active).wf(),
        old(allocator).ready(),
        forall|i: int|
            0 <= i < sections@.len() ==> ((#[trigger] sections@[i]).loaded ==> sections@[i].start
                % 4096 == 0),
    ensures
        final(active).wf(),
        final(allocator).ready(),
        r == Err::<Page, MemoryError>(MemoryError::InvalidVirtualAddress) <==> (exists|i: int|
            0 <= i < sections@.len() && !section_in_range(#[trigger] sections@[i])) || (boot_end
            > boot_start && boot_end > IDENTITY_LIMIT * 4096),
        r == Err::<Page, MemoryError>(MemoryError::InvalidVirtualAddress) ==> *final(active) == *old(
            active,
        ) && *final(allocator) == *old(allocator),
        r == Err::<Page, MemoryError>(MemoryError::AllocatorExhausted) ==> final(allocator).exhausted(),
        r matches Err(e) ==> e == MemoryError::InvalidVirtualAddress || e
            == MemoryError::AllocatorExhausted || e == MemoryError::TableConflict,
        r matches Ok(guard) ==> {
            &&& guard.number == old(active).p4_frame.number
            &&& old(allocator).usable(final(active).p4_frame.number as int)
            &&& forall|n: int|
                old(allocator).cursor() <= n < final(active).p4_frame.number ==> !old(
                    allocator,
                ).usable(n)
            &&& final(active).p4_frame != old(active).p4_frame
            &&& final(active).translate_page_spec(guard) is None
            &&& guard.number < IDENTITY_LIMIT ==> forall|offset: u64|
                offset < 4096 ==> #[trigger] final(active).translate_spec(
                    (guard.number * 4096 + offset) as u64,
                ) is None
            &&& kernel_mapped(*final(active), sections@, boot_start, boot_end, guard.number as int)
        },
{
    if find_out_of_range(sections) || (boot_end > boot_start && boot_end > IDENTITY_LIMIT * 4096) {
        return Err(MemoryError::InvalidVirtualAddress);
    }
    let ghost first = *allocator;
    let frame = match allocator.allocate_frame() {
        None => {
            proof {
                assert forall|n: int| allocator.cursor() <= n implies !allocator.usable(n) by {
                    AreaFrameAllocator::lemma_same_usable(first, *allocator, n);
                }
            }
            return Err(MemoryError::AllocatorExhausted);
        },
        Some(f) => f,
    };
    assert((0xcafe_babeu64 >> 0u64) & 0x1ffu64 == 0xbeu64) by (bit_vector);
    let mut temporary_page = TemporaryPage::new(Page { number: SCRATCH_PAGE }, allocator)?;
    let root = active.current_root();
    if frame.number >= active.memory.frame_count() || frame.number >= 0x100_0000_0000 || frame
        == active.p4_frame || frame == root {
        return Err(MemoryError::TableConflict);
    }
    let new_table = match InactivePageTable::new(frame, active, &mut temporary_page) {
        Ok(t) => t,
        // The scratch page's own reserve ran dry: its path needed more tables
        // than a single mapping can.
        Err(_) => return Err(MemoryError::TableConflict),
    };
    let backup = active.redirect_to(&new_table);
    let mapped = map_kernel(active, sections, boot_start, boot_end, allocator);
    active.restore_recursive_slot(backup);
    mapped?;
    let old_table = active.switch(new_table);
    let guard = Page { number: old_table.p4_frame.number };
    active.unmap(guard)?;
    if !kernel_is_mapped(active, sections, boot_start, boot_end, guard.number) {
        return Err(MemoryError::TableConflict);
    }
    proof {
        if guard.number < IDENTITY_LIMIT {
            assert forall|offset: u64| offset < 4096 implies #[trigger] active.translate_spec(
                (guard.number * 4096 + offset) as u64,
            ) is None by {
                lemma_unmapped_page(*active, guard, offset);
            }
        }
    }
    Ok(guard)
}

} // verus!
