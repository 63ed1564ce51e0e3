use vstd::prelude::*;

use crate::entry::{frame_fits, lemma_entry_round_trip, Entry, EntryFlags, HUGE_PAGE, PRESENT, WRITABLE};
use crate::error::MemoryError;
use crate::frame::Frame;
use crate::frame_allocator::FrameAllocator;
use crate::memory::PhysicalMemory;
use crate::page::{canonical, Page};
use crate::temporary_page::TemporaryPage;

verus! {

/// Index of the top-level slot that points back at the top-level table.
pub const RECURSIVE_INDEX: usize = 511;

/// The frame that a walk of `page` from the top-level table `root` ends in:
/// an unused entry at any level maps nothing, and a huge level-2 entry maps a
/// 2 MiB region directly.
pub open spec fn walk(mem: PhysicalMemory, root: Frame, page: Page) -> Option<Frame> {
    match mem.entry(root, page.index_at(27) as int).spec_frame() {
        None => None,
        Some(p3) => match mem.entry(p3, page.index_at(18) as int).spec_frame() {
            None => None,
            Some(p2) => {
                let e2 = mem.entry(p2, page.index_at(9) as int);
                match e2.spec_frame() {
                    None => None,
                    Some(p1) => if e2.0 & HUGE_PAGE == HUGE_PAGE {
                        Some(Frame { number: (p1.number + page.index_at(0)) as u64 })
                    } else {
                        mem.entry(p1, page.index_at(0) as int).spec_frame()
                    },
                }
            },
        },
    }
}

/// The level-1 entry that a walk of `page` from `root` reaches, if the walk
/// gets that far without meeting a huge level-2 entry.
pub open spec fn leaf_entry(mem: PhysicalMemory, root: Frame, page: Page) -> Option<Entry> {
    match mem.entry(root, page.index_at(27) as int).spec_frame() {
        None => None,
        Some(p3) => match mem.entry(p3, page.index_at(18) as int).spec_frame() {
            None => None,
            Some(p2) => {
                let e2 = mem.entry(p2, page.index_at(9) as int);
                match e2.spec_frame() {
                    None => None,
                    Some(p1) => if e2.0 & HUGE_PAGE == HUGE_PAGE {
                        None
                    } else {
                        Some(mem.entry(p1, page.index_at(0) as int))
                    },
                }
            },
        },
    }
}

/// The level-3, level-2 and level-1 tables that a walk of `page` from `root`
/// passes through, when all three entries leading to them are present.
pub open spec fn path_tables(mem: PhysicalMemory, root: Frame, page: Page) -> Option<(Frame, Frame, Frame)> {
    match mem.entry(root, page.index_at(27) as int).spec_frame() {
        None => None,
        Some(p3) => match mem.entry(p3, page.index_at(18) as int).spec_frame() {
            None => None,
            Some(p2) => match mem.entry(p2, page.index_at(9) as int).spec_frame() {
                None => None,
                Some(p1) => Some((p3, p2, p1)),
            },
        },
    }
}

pub open spec fn is_huge(e: Entry) -> bool {
    e.0 & HUGE_PAGE == HUGE_PAGE
}

/// An entry that points at the table in `f`, present and writable.
pub open spec fn table_entry_spec(f: Frame) -> Entry {
    Entry(((f.number * 4096) as u64) | (PRESENT | WRITABLE))
}

/// Builds the entry that links a table in `frame` into the hierarchy.
pub fn table_entry(frame: Frame) -> (r: Entry)
    requires
        frame_fits(frame),
    ensures
        r == table_entry_spec(frame),
        r.spec_frame() == Some(frame),
        r.0 & HUGE_PAGE != HUGE_PAGE,
{
    let fb: u64 = PRESENT | WRITABLE;
    assert(1u64 | 2u64 == 3u64) by (bit_vector);
    let flags = EntryFlags { bits: fb };
    let mut entry = Entry(0);
    entry.set(frame, flags);
    assert(fb & 0x8000_0000_0000_01ffu64 == fb && fb & 1u64 == 1u64) by (bit_vector)
        requires
            fb == 3u64,
    ;
    proof {
        lemma_entry_round_trip(entry, frame, flags);
        let v = entry.0;
        assert(v & 0x80u64 != 0x80u64) by (bit_vector)
            requires
                (v & 0x8000_0000_0000_01ffu64) == fb,
                fb == 3u64,
        ;
    }
    entry
}

/// The page tables in force: `p4_frame` is the frame loaded in the
/// translation-base register, and every walk starts at the table that its
/// recursive slot points at.
pub struct ActivePageTable {
    pub memory: PhysicalMemory,
    pub p4_frame: Frame,
}

/// A top-level table that is built but not loaded.
#[derive(Debug, PartialEq, Eq, Structural)]
pub struct InactivePageTable {
    pub p4_frame: Frame,
}

impl ActivePageTable {
    /// The table that walks start at: whatever the recursive slot points at.
    pub open spec fn root(self) -> Frame {
        self.memory.entry(self.p4_frame, 511).spec_frame().unwrap()
    }

    pub open spec fn wf(self) -> bool {
        &&& self.memory.wf()
        &&& self.memory.holds(self.p4_frame)
        &&& self.memory.entry(self.p4_frame, 511).spec_frame() is Some
        &&& self.memory.holds(self.root())
    }

    /// The four tables of the path are pairwise different, and the level-1
    /// table is not the loaded top-level table.
    pub open spec fn path_distinct(self, p3: Frame, p2: Frame, p1: Frame) -> bool {
        let root = self.root();
        &&& root != p3 && root != p2 && root != p1
        &&& p3 != p2 && p3 != p1 && p2 != p1
        &&& p1 != self.p4_frame
    }

    /// The path of `page` exists but cannot be changed safely: its level-2
    /// entry is huge, or its tables are shared.
    pub open spec fn path_conflict(self, page: Page) -> bool {
        match path_tables(self.memory, self.root(), page) {
            None => false,
            Some((p3, p2, p1)) => is_huge(self.memory.entry(p2, page.index_at(9) as int))
                || !self.path_distinct(p3, p2, p1),
        }
    }

    /// `f` is one of the level-3, level-2 and level-1 tables of the path of
    /// `page`.
    pub open spec fn on_path(self, page: Page, f: Frame) -> bool {
        match path_tables(self.memory, self.root(), page) {
            None => false,
            Some((p3, p2, p1)) => f == p3 || f == p2 || f == p1,
        }
    }

    /// Every table of the path of `page` exists, lies in memory, is reached
    /// through an entry that is not huge, and no two coincide: mapping `page`
    /// needs no new table.
    pub open spec fn path_ready(self, page: Page) -> bool {
        match path_tables(self.memory, self.root(), page) {
            None => false,
            Some((p3, p2, p1)) => {
                &&& !is_huge(self.memory.entry(self.root(), page.index_at(27) as int))
                &&& !is_huge(self.memory.entry(p3, page.index_at(18) as int))
                &&& !is_huge(self.memory.entry(p2, page.index_at(9) as int))
                &&& self.memory.holds(p3) && self.memory.holds(p2) && self.memory.holds(p1)
                &&& self.path_distinct(p3, p2, p1)
            },
        }
    }

    pub open spec fn translate_page_spec(self, page: Page) -> Option<Frame> {
        walk(self.memory, self.root(), page)
    }

    pub open spec fn translate_spec(self, address: u64) -> Option<int> {
        match self.translate_page_spec(Page { number: address / 4096 }) {
            None => None,
            Some(f) => Some(f.number * 4096 + address % 4096),
        }
    }

    /// Takes over `memory` with the table in `p4_frame` loaded.
    pub fn new(memory: PhysicalMemory, p4_frame: Frame) -> (r: Option<ActivePageTable>)
        requires
            memory.wf(),
        ensures
            r matches Some(t) ==> t.wf() && t.memory == memory && t.p4_frame == p4_frame,
            (ActivePageTable { memory, p4_frame }).wf() ==> r is Some,
    {
        if p4_frame.number >= memory.frame_count() {
            return None;
        }
        match memory.read_entry(p4_frame, RECURSIVE_INDEX).pointed_frame() {
            None => None,
            Some(root) => {
                if root.number < memory.frame_count() {
                    Some(ActivePageTable { memory, p4_frame })
                } else {
                    None
                }
            },
        }
    }

    fn entry_frame(&self, table: Frame, index: usize) -> (r: Option<Frame>)
        requires
            self.memory.wf(),
            index < 512,
        ensures
            r == self.memory.entry(table, index as int).spec_frame(),
            r matches Some(f) ==> frame_fits(f),
            r is Some ==> self.memory.holds(table),
    {
        assert(0u64 & 1u64 != 1u64) by (bit_vector);
        if table.number < self.memory.frame_count() {
            self.memory.read_entry(table, index).pointed_frame()
        } else {
            None
        }
    }

    /// The table that walks start at.
    pub fn current_root(&self) -> (r: Frame)
        requires
            self.wf(),
        ensures
            r == self.root(),
            frame_fits(r),
    {
        self.root_frame()
    }

    fn root_frame(&self) -> (r: Frame)
        requires
            self.wf(),
        ensures
            r == self.root(),
            frame_fits(r),
    {
        self.entry_frame(self.p4_frame, RECURSIVE_INDEX).unwrap()
    }

    /// The frame that `page` is mapped to, if any.
    pub fn translate_page(&self, page: Page) -> (r: Option<Frame>)
        requires
            self.wf(),
        ensures
            r == self.translate_page_spec(page),
            r matches Some(f) ==> f.number < 0x100_0000_0200,
    {
        let root = self.root_frame();
        let p3 = match self.entry_frame(root, page.p4_index()) {
            None => return None,
            Some(f) => f,
        };
        let p2 = match self.entry_frame(p3, page.p3_index()) {
            None => return None,
            Some(f) => f,
        };
        let p1 = match self.entry_frame(p2, page.p2_index()) {
            None => return None,
            Some(f) => f,
        };
        let e2 = self.memory.read_entry(p2, page.p2_index());
        if e2.flags().contains(HUGE_PAGE) {
            let v = e2.0;
            assert((v & 0x8000_0000_0000_01ffu64) & 0x80u64 == v & 0x80u64) by (bit_vector);
            Some(Frame { number: p1.number + page.p1_index() as u64 })
        } else {
            let v = e2.0;
            assert((v & 0x8000_0000_0000_01ffu64) & 0x80u64 == v & 0x80u64) by (bit_vector);
            self.entry_frame(p1, page.p1_index())
        }
    }

    /// The level-1 entry that the walk of `page` reaches, if any.
    pub fn leaf(&self, page: Page) -> (r: Option<Entry>)
        requires
            self.wf(),
        ensures
            r == leaf_entry(self.memory, self.root(), page),
    {
        let root = self.root_frame();
        let p3 = match self.entry_frame(root, page.p4_index()) {
            None => return None,
            Some(f) => f,
        };
        let p2 = match self.entry_frame(p3, page.p3_index()) {
            None => return None,
            Some(f) => f,
        };
        let p1 = match self.entry_frame(p2, page.p2_index()) {
            None => return None,
            Some(f) => f,
        };
        let e2 = self.memory.read_entry(p2, page.p2_index());
        let v = e2.0;
        assert((v & 0x8000_0000_0000_01ffu64) & 0x80u64 == v & 0x80u64) by (bit_vector);
        if e2.flags().contains(HUGE_PAGE) {
            None
        } else if p1.number < self.memory.frame_count() {
            Some(self.memory.read_entry(p1, page.p1_index()))
        } else {
            Some(Entry(0))
        }
    }

    /// The physical address that `address` is mapped to, if any.
    pub fn translate(&self, address: u64) -> (r: Option<u64>)
        requires
            self.wf(),
            canonical(address),
        ensures
            r matches Some(a) ==> self.translate_spec(address) == Some(a as int),
            r is None <==> self.translate_spec(address) is None,
    {
        let page = Page::containing_address(address);
        match self.translate_page(page) {
            None => None,
            Some(f) => Some(f.number * 4096 + address % 4096),
        }
    }

    /// The next table below entry `index` of `table`, made from a fresh
    /// zeroed frame and installed as present and writable if the entry is
    /// not present.
    fn get_or_create<A: FrameAllocator>(&mut self, table: Frame, index: usize, allocator: &mut A) -> (r:
        Result<Frame, MemoryError>)
        requires
            old(self).wf(),
            old(allocator).ready(),
            old(self).memory.holds(table),
            index < 512,
        ensures
            final(self).wf(),
            final(allocator).ready(),
            final(self).p4_frame == old(self).p4_frame,
            final(self).memory.entry(old(self).p4_frame, 511) == old(self).memory.entry(old(self).p4_frame, 511),
            old(self).memory.entry(old(self).root(), 511).spec_frame() is Some ==> final(self).memory.entry(
                old(self).root(),
                511,
            ) == old(self).memory.entry(old(self).root(), 511),
            final(self).memory.frames() == old(self).memory.frames(),
            old(self).memory.entry(table, index as int).spec_frame() is Some ==> final(self).memory == old(self).memory,
            old(self).memory.entry(table, index as int).spec_frame() matches Some(f) ==> (if is_huge(
                old(self).memory.entry(table, index as int),
            ) || !old(self).memory.holds(f) {
                r == Err::<Frame, MemoryError>(MemoryError::TableConflict)
            } else {
                r == Ok::<Frame, MemoryError>(f)
            }),
            old(self).memory.entry(table, index as int).spec_frame() is None ==> (r matches Ok(f) ==> (
            final(self).memory.entry(table, index as int) == table_entry_spec(f) && forall|j: int|
                0 <= j < 512 && !(f == table && j == index) ==> (#[trigger] final(self).memory.entry(
                f,
                j,
            )).0 == 0)),
            r matches Err(e) ==> e == MemoryError::AllocatorExhausted || e == MemoryError::TableConflict,
            r == Err::<Frame, MemoryError>(MemoryError::AllocatorExhausted) ==> final(allocator).exhausted(),
            r matches Ok(f) ==> {
                &&& final(self).memory.holds(f)
                &&& final(self).memory.entry(table, index as int).spec_frame() == Some(f)
                &&& final(self).memory.entry(table, index as int).0 & HUGE_PAGE != HUGE_PAGE
                &&& forall|g: Frame, j: int|
                    !(g == table && j == index) && g != f ==> #[trigger] final(self).memory.entry(g, j)
                        == old(self).memory.entry(g, j)
            },
    {
        let ghost before = self.memory;
        let e = self.memory.read_entry(table, index);
        match e.pointed_frame() {
            Some(f) => {
                let v = e.0;
                assert((v & 0x8000_0000_0000_01ffu64) & 0x80u64 == v & 0x80u64) by (bit_vector);
                if e.flags().contains(HUGE_PAGE) || f.number >= self.memory.frame_count() {
                    return Err(MemoryError::TableConflict);
                }
                Ok(f)
            },
            None => {
                let root = self.root_frame();
                let f = match allocator.allocate_frame() {
                    None => return Err(MemoryError::AllocatorExhausted),
                    Some(f) => f,
                };
                self.install_table(table, index, f)
            },
        }
    }

    /// Makes the table in the fresh frame `f` empty and links it in as entry
    /// `index` of `table`, present and writable. A frame outside memory, or
    /// one that holds the loaded or the root table, is refused.
    pub fn install_table(&mut self, table: Frame, index: usize, f: Frame) -> (r: Result<
        Frame,
        MemoryError,
    >)
        requires
            old(self).wf(),
            old(self).memory.holds(table),
            index < 512,
            old(self).memory.entry(table, index as int).spec_frame() is None,
        ensures
            final(self).wf(),
            final(self).p4_frame == old(self).p4_frame,
            final(self).memory.entry(old(self).p4_frame, 511) == old(self).memory.entry(old(self).p4_frame, 511),
            old(self).memory.entry(old(self).root(), 511).spec_frame() is Some ==> final(self).memory.entry(
                old(self).root(),
                511,
            ) == old(self).memory.entry(old(self).root(), 511),
            final(self).memory.frames() == old(self).memory.frames(),
            r is Ok <==> old(self).memory.holds(f) && frame_fits(f) && f != old(self).p4_frame && f
                != old(self).root(),
            r matches Err(e) ==> e == MemoryError::TableConflict && *final(self) == *old(self),
            r matches Ok(g) ==> {
                &&& g == f
                &&& final(self).memory.entry(table, index as int) == table_entry_spec(f)
                &&& final(self).memory.entry(table, index as int).spec_frame() == Some(f)
                &&& !is_huge(final(self).memory.entry(table, index as int))
                &&& forall|j: int| 0 <= j < 512 && !(f == table && j == index) ==> (
                #[trigger] final(self).memory.entry(f, j)).0 == 0
                &&& forall|h: Frame, j: int|
                    !(h == table && j == index) && h != f ==> #[trigger] final(self).memory.entry(h, j)
                        == old(self).memory.entry(h, j)
            },
    {
        let root = self.root_frame();
        if f.number >= self.memory.frame_count() || f == self.p4_frame || f == root || f.number
            >= 0x100_0000_0000 {
            return Err(MemoryError::TableConflict);
        }
        self.memory.zero_frame(f);
        let entry = table_entry(f);
        self.memory.write_entry(table, index, entry);
        Ok(f)
    }

    /// Maps `page` to `frame` with `flags` and the present bit, creating the
    /// intermediate tables it lacks from `allocator`.
    pub fn map_to<A: FrameAllocator>(
        &mut self,
        page: Page,
        frame: Frame,
        flags: EntryFlags,
        allocator: &mut A,
    ) -> (r: Result<(), MemoryError>)
        requires
            old(self).wf(),
            old(allocator).ready(),
            frame_fits(frame),
            flags.valid(),
        ensures
            final(self).wf(),
            final(allocator).ready(),
            final(self).p4_frame == old(self).p4_frame,
            final(self).root() == old(self).root(),
            old(self).memory.entry(old(self).root(), 511).spec_frame() is Some ==> final(self).memory.entry(
                old(self).root(),
                511,
            ) == old(self).memory.entry(old(self).root(), 511),
            final(self).memory.frames() == old(self).memory.frames(),
            r matches Err(e) ==> e == MemoryError::AllocatorExhausted || e == MemoryError::TableConflict,
            r == Err::<(), MemoryError>(MemoryError::AllocatorExhausted) ==> final(allocator).exhausted(),
            old(self).path_ready(page) ==> r is Ok,
            path_tables(old(self).memory, old(self).root(), page) is Some ==> (r is Ok <==> old(
                self,
            ).path_ready(page)),
            path_tables(old(self).memory, old(self).root(), page) is Some ==> (r is Err ==> r
                == Err::<(), MemoryError>(MemoryError::TableConflict)),
            old(self).path_ready(page) ==> forall|g: Frame, j: int|
                !(g == path_tables(old(self).memory, old(self).root(), page).unwrap().2 && j
                    == page.index_at(0)) ==> #[trigger] final(self).memory.entry(g, j) == old(
                    self,
                ).memory.entry(g, j),
            r is Ok ==> final(self).translate_page_spec(page) == Some(frame),
            r is Ok ==> leaf_entry(final(self).memory, final(self).root(), page) == Some(
                Entry(((frame.number * 4096) as u64) | (flags.bits | PRESENT)),
            ),
    {
        let root = self.root_frame();
        let p3 = self.get_or_create(root, page.p4_index(), allocator)?;
        let ghost m3 = self.memory;
        let p2 = self.get_or_create(p3, page.p3_index(), allocator)?;
        let ghost m2 = self.memory;
        let p1 = self.get_or_create(p2, page.p2_index(), allocator)?;
        let ghost m1 = self.memory;
        if root == p3 || root == p2 || root == p1 || p3 == p2 || p3 == p1 || p2 == p1 || p1
            == self.p4_frame {
            return Err(MemoryError::TableConflict);
        }
        let all = EntryFlags { bits: flags.bits | PRESENT };
        let b = flags.bits;
        assert((b | 1u64) & 0x8000_0000_0000_01ffu64 == (b | 1u64) && (b | 1u64) & 1u64 == 1u64)
            by (bit_vector)
            requires
                b & 0x8000_0000_0000_01ffu64 == b,
        ;
        let mut entry = Entry(0);
        entry.set(frame, all);
        proof {
            lemma_entry_round_trip(entry, frame, all);
        }
        self.memory.write_entry(p1, page.p1_index(), entry);
        proof {
            assert(self.memory.entry(root, page.index_at(27) as int) == m3.entry(root, page.index_at(27) as int));
            assert(self.memory.entry(p3, page.index_at(18) as int) == m2.entry(p3, page.index_at(18) as int));
            assert(self.memory.entry(p2, page.index_at(9) as int) == m1.entry(p2, page.index_at(9) as int));
        }
        Ok(())
    }

    /// Maps the page whose number equals `frame`'s to `frame`.
    pub fn identity_map<A: FrameAllocator>(&mut self, frame: Frame, flags: EntryFlags, allocator: &mut A) -> (r:
        Result<(), MemoryError>)
        requires
            old(self).wf(),
            old(allocator).ready(),
            frame.number < 0x8_0000_0000,
            flags.valid(),
        ensures
            final(self).wf(),
            final(allocator).ready(),
            final(self).p4_frame == old(self).p4_frame,
            final(self).root() == old(self).root(),
            old(self).memory.entry(old(self).root(), 511).spec_frame() is Some ==> final(self).memory.entry(
                old(self).root(),
                511,
            ) == old(self).memory.entry(old(self).root(), 511),
            final(self).memory.frames() == old(self).memory.frames(),
            r matches Err(e) ==> e == MemoryError::AllocatorExhausted || e == MemoryError::TableConflict,
            r == Err::<(), MemoryError>(MemoryError::AllocatorExhausted) ==> final(allocator).exhausted(),
            old(self).path_ready(Page { number: frame.number }) ==> r is Ok,
            path_tables(old(self).memory, old(self).root(), Page { number: frame.number }) is Some ==> (
            r is Ok <==> old(self).path_ready(Page { number: frame.number })),
            path_tables(old(self).memory, old(self).root(), Page { number: frame.number }) is Some ==> (
            r is Err ==> r == Err::<(), MemoryError>(MemoryError::TableConflict)),
            r is Ok ==> leaf_entry(final(self).memory, final(self).root(), Page { number: frame.number })
                == Some(Entry(((frame.number * 4096) as u64) | (flags.bits | PRESENT))),
            r is Ok ==> forall|offset: u64|
                offset < 4096 ==> #[trigger] final(self).translate_spec((frame.number * 4096 + offset) as u64)
                    == Some(frame.number * 4096 + offset),
    {
        let r = self.map_to(Page { number: frame.number }, frame, flags, allocator);
        proof {
            if r is Ok {
            assert forall|offset: u64| offset < 4096 implies #[trigger] self.translate_spec(
                (frame.number * 4096 + offset) as u64,
            ) == Some(frame.number * 4096 + offset) by {
                assert(frame.number * 4096 + offset < 0x10_0000_0000_0000) by (nonlinear_arith)
                    requires
                        frame.number < 0x8_0000_0000,
                        offset < 4096,
                ;
                let a = (frame.number * 4096 + offset) as u64;
                assert(a / 4096 == frame.number && a % 4096 == offset) by (nonlinear_arith)
                    requires
                        a == frame.number * 4096 + offset,
                        offset < 4096,
                ;
            }
            }
        }
        r
    }

    /// Clears the level-1 entry of `page`, so that it maps nothing.
    pub fn unmap(&mut self, page: Page) -> (r: Result<(), MemoryError>)
        requires
            old(self).wf(),
        ensures
            final(self).wf(),
            final(self).p4_frame == old(self).p4_frame,
            final(self).root() == old(self).root(),
            r matches Err(e) ==> e == MemoryError::TableConflict,
            r is Err <==> old(self).path_conflict(page) && old(self).translate_page_spec(page) is Some,
            r is Ok ==> final(self).translate_page_spec(page) is None,
            old(self).translate_page_spec(page) is None ==> r is Ok,
            final(self).memory.frames() == old(self).memory.frames(),
            forall|g: Frame, j: int|
                #[trigger] final(self).memory.entry(g, j) == old(self).memory.entry(g, j) || (j
                    == page.index_at(0) && final(self).memory.entry(g, j).0 == 0),
            forall|g: Frame, j: int|
                !(path_tables(old(self).memory, old(self).root(), page) matches Some(
                    t,
                ) && g == t.2 && j == page.index_at(0)) ==> #[trigger] final(self).memory.entry(g, j)
                    == old(self).memory.entry(g, j),
    {
        let root = self.root_frame();
        let p3 = match self.entry_frame(root, page.p4_index()) {
            None => return Ok(()),
            Some(f) => f,
        };
        let p2 = match self.entry_frame(p3, page.p3_index()) {
            None => return Ok(()),
            Some(f) => f,
        };
        let p1 = match self.entry_frame(p2, page.p2_index()) {
            None => return Ok(()),
            Some(f) => f,
        };
        let e2 = self.memory.read_entry(p2, page.p2_index());
        let v = e2.0;
        assert((v & 0x8000_0000_0000_01ffu64) & 0x80u64 == v & 0x80u64) by (bit_vector);
        if !e2.flags().contains(HUGE_PAGE) && p1.number >= self.memory.frame_count() {
            assert(0u64 & 1u64 != 1u64) by (bit_vector);
            return Ok(());
        }
        if e2.flags().contains(HUGE_PAGE) || root == p3 || root == p2 || root == p1 || p3 == p2
            || p3 == p1 || p2 == p1 || p1 == self.p4_frame {
            if self.translate_page(page).is_none() {
                return Ok(());
            }
            return Err(MemoryError::TableConflict);
        }
        self.memory.write_entry(p1, page.p1_index(), Entry(0));
        assert(0u64 & 1u64 != 1u64) by (bit_vector);
        Ok(())
    }

    /// Points the recursive slot of the loaded table at `table`, so that
    /// mapping operations act on `table` from here on; returns the table it
    /// pointed at before, for `restore_recursive_slot`.
    pub fn redirect_to(&mut self, table: &InactivePageTable) -> (r: Frame)
        requires
            old(self).wf(),
            old(self).memory.holds(table.p4_frame),
            frame_fits(table.p4_frame),
        ensures
            final(self).wf(),
            final(self).memory.frames() == old(self).memory.frames(),
            r == old(self).root(),
            frame_fits(r),
            final(self).p4_frame == old(self).p4_frame,
            final(self).root() == table.p4_frame,
            final(self).memory.entry(old(self).p4_frame, 511) == table_entry_spec(table.p4_frame),
            forall|g: Frame, j: int|
                !(g == old(self).p4_frame && j == 511) ==> #[trigger] final(self).memory.entry(g, j)
                    == old(self).memory.entry(g, j),
    {
        let backup = self.root_frame();
        self.set_recursive_slot(table.p4_frame);
        backup
    }

    /// Points the recursive slot of the loaded table back at `backup`.
    pub fn restore_recursive_slot(&mut self, backup: Frame)
        requires
            old(self).wf(),
            old(self).memory.holds(backup),
            frame_fits(backup),
        ensures
            final(self).wf(),
            final(self).memory.frames() == old(self).memory.frames(),
            final(self).p4_frame == old(self).p4_frame,
            final(self).root() == backup,
            final(self).memory.entry(old(self).p4_frame, 511) == table_entry_spec(backup),
            forall|g: Frame, j: int|
                !(g == old(self).p4_frame && j == 511) ==> #[trigger] final(self).memory.entry(g, j)
                    == old(self).memory.entry(g, j),
    {
        self.set_recursive_slot(backup);
    }

    fn set_recursive_slot(&mut self, target: Frame)
        requires
            old(self).wf(),
            old(self).memory.holds(target),
            frame_fits(target),
        ensures
            final(self).wf(),
            final(self).memory.frames() == old(self).memory.frames(),
            final(self).p4_frame == old(self).p4_frame,
            final(self).root() == target,
            final(self).memory.entry(old(self).p4_frame, 511) == table_entry_spec(target),
            forall|g: Frame, j: int|
                !(g == old(self).p4_frame && j == 511) ==> #[trigger] final(self).memory.entry(g, j)
                    == old(self).memory.entry(g, j),
    {
        let entry = table_entry(target);
        let p4 = self.p4_frame;
        self.memory.write_entry(p4, RECURSIVE_INDEX, entry);
    }

    /// Loads `new_table` and hands back the table that was loaded before.
    pub fn switch(&mut self, new_table: InactivePageTable) -> (r: InactivePageTable)
        requires
            old(self).wf(),
            old(self).memory.holds(new_table.p4_frame),
            old(self).memory.entry(new_table.p4_frame, 511).spec_frame() == Some(new_table.p4_frame),
        ensures
            final(self).wf(),
            r.p4_frame == old(self).p4_frame,
            final(self).p4_frame == new_table.p4_frame,
            final(self).memory == old(self).memory,
            final(self).root() == new_table.p4_frame,
    {
        let old_table = InactivePageTable { p4_frame: self.p4_frame };
        self.p4_frame = new_table.p4_frame;
        old_table
    }
}

/// A page that maps nothing leaves every address inside it untranslated.
pub proof fn lemma_unmapped_page(t: ActivePageTable, page: Page, offset: u64)
    requires
        t.translate_page_spec(page) is None,
        page.number < 0x10_0000_0000_0000,
        offset < 4096,
    ensures
        t.translate_spec((page.number * 4096 + offset) as u64) is None,
{
    let a = page.number * 4096 + offset;
    assert(a < 0x1_0000_0000_0000_0000) by (nonlinear_arith)
        requires
            page.number < 0x10_0000_0000_0000,
            offset < 4096,
            a == page.number * 4096 + offset,
    ;
    assert(a / 4096 == page.number) by (nonlinear_arith)
        requires
            a == page.number * 4096 + offset,
            offset < 4096,
    ;
}

impl InactivePageTable {
    /// Makes the table in `frame` empty but for its last slot, which points
    /// back at the table itself. The frame is reached through the scratch
    /// page of `temporary_page`, which is unmapped again afterwards.
    pub fn new<A: FrameAllocator>(
        frame: Frame,
        active_table: &mut ActivePageTable,
        temporary_page: &mut TemporaryPage<A>,
    ) -> (r: Result<InactivePageTable, MemoryError>)
        requires
            old(active_table).wf(),
            old(temporary_page).wf(),
            old(active_table).memory.holds(frame),
            frame_fits(frame),
            frame != old(active_table).p4_frame,
            frame != old(active_table).root(),
        ensures
            final(active_table).wf(),
            final(temporary_page).wf(),
            final(temporary_page).page == old(temporary_page).page,
            final(active_table).memory.frames() == old(active_table).memory.frames(),
            final(active_table).p4_frame == old(active_table).p4_frame,
            final(active_table).root() == old(active_table).root(),
            r matches Err(e) ==> e == MemoryError::AllocatorExhausted || e == MemoryError::TableConflict,
            r matches Err(e) ==> (e == MemoryError::AllocatorExhausted ==> final(temporary_page).allocator.exhausted()),
            old(active_table).path_ready(old(temporary_page).page) && !old(active_table).on_path(
                old(temporary_page).page,
                frame,
            ) ==> r is Ok,
            old(active_table).path_ready(old(temporary_page).page) && !old(active_table).on_path(
                old(temporary_page).page,
                frame,
            ) ==> forall|g: Frame, j: int|
                g != frame && !(g == path_tables(
                    old(active_table).memory,
                    old(active_table).root(),
                    old(temporary_page).page,
                ).unwrap().2 && j == old(temporary_page).page.index_at(0)) ==> #[trigger] final(active_table).memory.entry(g, j) == old(active_table).memory.entry(g, j),
            r matches Ok(t) ==> {
                &&& t.p4_frame == frame
                &&& final(active_table).memory.entry(frame, 511) == table_entry_spec(frame)
                &&& final(active_table).memory.entry(frame, 511).spec_frame() == Some(frame)
                &&& forall|j: int| 0 <= j < 511 ==> (#[trigger] final(active_table).memory.entry(frame, j)).0 == 0
                &&& final(active_table).translate_page_spec(final(temporary_page).page) is None
            },
    {
        let ghost before = *active_table;
        let ghost page = temporary_page.page;
        let table = temporary_page.map_table_frame(frame, active_table)?;
        let ghost mapped = *active_table;
        active_table.memory.zero_frame(table);
        let entry = table_entry(frame);
        active_table.memory.write_entry(table, RECURSIVE_INDEX, entry);
        proof {
            if before.path_ready(page) && !before.on_path(page, frame) {
                let (p3, p2, p1) = path_tables(before.memory, before.root(), page).unwrap();
                let root = before.root();
                assert(active_table.memory.entry(root, page.index_at(27) as int) == before.memory.entry(
                    root,
                    page.index_at(27) as int,
                ));
                assert(active_table.memory.entry(p3, page.index_at(18) as int) == before.memory.entry(
                    p3,
                    page.index_at(18) as int,
                ));
                assert(active_table.memory.entry(p2, page.index_at(9) as int) == before.memory.entry(
                    p2,
                    page.index_at(9) as int,
                ));
                assert(path_tables(active_table.memory, active_table.root(), page) == Some((p3, p2, p1)));
                assert(!active_table.path_conflict(page));
            }
        }
        temporary_page.unmap(active_table)?;
        Ok(InactivePageTable { p4_frame: frame })
    }
}

} // verus!
