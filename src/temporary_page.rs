use vstd::prelude::*;

use crate::entry::{frame_fits, EntryFlags, PRESENT, WRITABLE};
use crate::error::MemoryError;
use crate::frame::Frame;
use crate::frame_allocator::FrameAllocator;
use crate::page::Page;
use crate::paging::{path_tables, ActivePageTable};

verus! {

/// Holds at most three frames, enough for the tables that one mapping can
/// need.
pub struct TinyAllocator {
    pub frames: Vec<Frame>,
}

impl TinyAllocator {
    /// Takes three frames from `allocator`.
    pub fn new<A: FrameAllocator>(allocator: &mut A) -> (r: Result<TinyAllocator, MemoryError>)
        requires
            old(allocator).ready(),
        ensures
            final(allocator).ready(),
            r matches Ok(t) ==> t.frames@.len() == 3,
            r matches Err(e) ==> e == MemoryError::AllocatorExhausted && final(allocator).exhausted(),
    {
        let mut frames: Vec<Frame> = Vec::new();
        let mut i: usize = 0;
        while i < 3
            invariant
                i <= 3,
                frames@.len() == i,
                allocator.ready(),
            decreases 3 - i,
        {
            match allocator.allocate_frame() {
                None => return Err(MemoryError::AllocatorExhausted),
                Some(f) => frames.push(f),
            }
            i = i + 1;
        }
        Ok(TinyAllocator { frames })
    }
}

impl FrameAllocator for TinyAllocator {
    open spec fn ready(&self) -> bool {
        self.frames@.len() <= 3
    }

    open spec fn exhausted(&self) -> bool {
        self.frames@.len() == 0
    }

    fn allocate_frame(&mut self) -> (r: Option<Frame>) {
        self.frames.pop()
    }

    /// Takes a frame back while there is room for it.
    fn deallocate(&mut self, frame: Frame) -> (r: Result<(), MemoryError>) {
        if self.frames.len() < 3 {
            self.frames.push(frame);
            Ok(())
        } else {
            Err(MemoryError::DeallocationUnsupported)
        }
    }
}

/// One reserved virtual page through which a physical frame can be reached
/// before any other mapping leads to it.
pub struct TemporaryPage<A> {
    pub page: Page,
    pub allocator: A,
}

impl TemporaryPage<TinyAllocator> {
    /// Reserves `page`, with three spare frames from `allocator` for the
    /// tables its mapping may need. Its last-level index must not be the
    /// recursive slot's.
    pub fn new<A: FrameAllocator>(page: Page, allocator: &mut A) -> (r: Result<
        TemporaryPage<TinyAllocator>,
        MemoryError,
    >)
        requires
            old(allocator).ready(),
            page.index_at(0) != 511,
        ensures
            final(allocator).ready(),
            r matches Ok(t) ==> t.wf() && t.page == page,
            r matches Err(e) ==> e == MemoryError::AllocatorExhausted && final(allocator).exhausted(),
    {
        let tiny = TinyAllocator::new(allocator)?;
        Ok(TemporaryPage { page, allocator: tiny })
    }
}

impl<A: FrameAllocator> TemporaryPage<A> {
    pub open spec fn wf(self) -> bool {
        &&& self.allocator.ready()
        &&& self.page.index_at(0) != 511
    }

    /// Maps the scratch page to `frame` and returns the frame that the
    /// scratch page now leads to, which is `frame`.
    pub fn map_table_frame(&mut self, frame: Frame, active_table: &mut ActivePageTable) -> (r:
        Result<Frame, MemoryError>)
        requires
            old(self).wf(),
            old(active_table).wf(),
            frame_fits(frame),
        ensures
            final(self).wf(),
            final(self).page == old(self).page,
            final(active_table).wf(),
            final(active_table).p4_frame == old(active_table).p4_frame,
            final(active_table).root() == old(active_table).root(),
            final(active_table).memory.frames() == old(active_table).memory.frames(),
            r matches Err(e) ==> e == MemoryError::AllocatorExhausted || e == MemoryError::TableConflict,
            r == Err::<Frame, MemoryError>(MemoryError::AllocatorExhausted) ==> final(self).allocator.exhausted(),
            old(active_table).path_ready(old(self).page) && old(active_table).memory.holds(frame) ==> r
                is Ok,
            old(active_table).path_ready(old(self).page) ==> forall|g: Frame, j: int|
                !(g == path_tables(old(active_table).memory, old(active_table).root(), old(self).page).unwrap().2
                    && j == old(self).page.index_at(0)) ==> #[trigger] final(active_table).memory.entry(g, j)
                    == old(active_table).memory.entry(g, j),
            r matches Ok(f) ==> f == frame && final(active_table).translate_page_spec(old(self).page)
                == Some(frame) && final(active_table).memory.holds(f),
    {
        let fb: u64 = PRESENT | WRITABLE;
        assert(fb & 0x8000_0000_0000_01ffu64 == fb) by (bit_vector)
            requires
                fb == PRESENT | WRITABLE,
        ;
        active_table.map_to(self.page, frame, EntryFlags { bits: fb }, &mut self.allocator)?;
        match active_table.translate_page(self.page) {
            None => Err(MemoryError::TableConflict),
            Some(f) => {
                if f.number >= active_table.memory.frame_count() {
                    return Err(MemoryError::TableConflict);
                }
                Ok(f)
            },
        }
    }

    /// Removes the scratch page's mapping.
    pub fn unmap(&self, active_table: &mut ActivePageTable) -> (r: Result<(), MemoryError>)
        requires
            old(active_table).wf(),
        ensures
            final(active_table).wf(),
            final(active_table).p4_frame == old(active_table).p4_frame,
            final(active_table).root() == old(active_table).root(),
            final(active_table).memory.frames() == old(active_table).memory.frames(),
            r matches Err(e) ==> e == MemoryError::TableConflict,
            r is Err <==> old(active_table).path_conflict(self.page) && old(
                active_table,
            ).translate_page_spec(self.page) is Some,
            r is Ok ==> final(active_table).translate_page_spec(self.page) is None,
            forall|g: Frame, j: int|
                #[trigger] final(active_table).memory.entry(g, j) == old(active_table).memory.entry(g, j) || (j
                    == self.page.index_at(0) && final(active_table).memory.entry(g, j).0 == 0),
            forall|g: Frame, j: int|
                !(path_tables(old(active_table).memory, old(active_table).root(), self.page) matches Some(
                    t,
                ) && g == t.2 && j == self.page.index_at(0)) ==> #[trigger] final(active_table).memory.entry(g, j) == old(active_table).memory.entry(g, j),
    {
        active_table.unmap(self.page)
    }
}

} // verus!
