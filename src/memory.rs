use vstd::prelude::*;

use crate::entry::Entry;
use crate::frame::Frame;

verus! {

/// Number of entries in one page table.
pub const ENTRY_COUNT: u64 = 512;

/// Position of entry `i` of the table held by frame `f`.
pub open spec fn slot(f: int, i: int) -> int {
    f * 512 + i
}

pub proof fn lemma_slot(f: int, i: int, g: int, j: int, frames: int)
    requires
        0 <= f,
        0 <= g,
        0 <= i < 512,
        0 <= j < 512,
    ensures
        slot(f, i) == slot(g, j) ==> f == g && i == j,
        f < frames ==> slot(f, i) < frames * 512,
        f != g ==> !(slot(g, 0) <= slot(f, i) < slot(g, 0) + 512),
        0 <= slot(f, i),
{
    assert(slot(f, i) == slot(g, j) ==> f == g && i == j) by (nonlinear_arith)
        requires
            0 <= i < 512,
            0 <= j < 512,
    ;
    assert(f < frames ==> slot(f, i) < frames * 512) by (nonlinear_arith)
        requires
            0 <= i < 512,
    ;
    assert(f != g ==> !(slot(g, 0) <= slot(f, i) < slot(g, 0) + 512)) by (nonlinear_arith)
        requires
            0 <= i < 512,
    ;
    assert(0 <= slot(f, i)) by (nonlinear_arith)
        requires
            0 <= f,
            0 <= i,
    ;
}

proof fn lemma_frames_fit(len: int)
    requires
        0 <= len,
    ensures
        (len / 512) * 512 <= len,
{
    assert((len / 512) * 512 <= len) by (nonlinear_arith)
        requires
            0 <= len,
    ;
}

/// Physical memory seen as page tables: frame `f` holds the 512 words
/// starting at word `f * 512`. All access to table contents goes through here.
pub struct PhysicalMemory {
    pub words: Vec<u64>,
}

impl PhysicalMemory {
    pub open spec fn frames(self) -> int {
        (self.words@.len() / 512) as int
    }

    pub open spec fn holds(self, f: Frame) -> bool {
        f.number < self.frames()
    }

    /// Entry `i` of the table in frame `f`; nothing is mapped outside memory.
    pub open spec fn entry(self, f: Frame, i: int) -> Entry {
        if self.holds(f) && 0 <= i < 512 {
            Entry(self.words@[slot(f.number as int, i)])
        } else {
            Entry(0)
        }
    }

    pub open spec fn wf(self) -> bool {
        self.words@.len() % 512 == 0
    }

    /// Zeroed memory of `frame_count` frames.
    pub fn new(frame_count: u64) -> (r: PhysicalMemory)
        requires
            frame_count <= 0x10_0000_0000,
        ensures
            r.wf(),
            r.frames() == frame_count,
            forall|f: Frame, i: int| 0 <= i < 512 ==> (#[trigger] r.entry(f, i)).0 == 0,
    {
        let total: u64 = frame_count * ENTRY_COUNT;
        let mut words: Vec<u64> = Vec::new();
        let mut k: u64 = 0;
        while k < total
            invariant
                k <= total,
                total == frame_count * 512,
                words@.len() == k,
                forall|m: int| 0 <= m < k ==> words@[m] == 0,
            decreases total - k,
        {
            words.push(0);
            k = k + 1;
        }
        PhysicalMemory { words }
    }

    pub fn frame_count(&self) -> (r: u64)
        requires
            self.wf(),
        ensures
            r == self.frames(),
    {
        (self.words.len() / 512) as u64
    }

    pub fn read_entry(&self, f: Frame, i: usize) -> (r: Entry)
        requires
            self.wf(),
            self.holds(f),
            i < 512,
        ensures
            r == self.entry(f, i as int),
    {
        proof {
            lemma_slot(f.number as int, i as int, 0, 0, self.frames());
            lemma_frames_fit(self.words@.len() as int);
        }
        let len = self.words.len();
        assert(slot(f.number as int, i as int) < len);
        let k: usize = (f.number * 512 + i as u64) as usize;
        Entry(self.words[k])
    }

    pub fn write_entry(&mut self, f: Frame, i: usize, e: Entry)
        requires
            old(self).wf(),
            old(self).holds(f),
            i < 512,
        ensures
            final(self).wf(),
            final(self).frames() == old(self).frames(),
            final(self).entry(f, i as int) == e,
            forall|g: Frame, j: int|
                !(g.number == f.number && j == i) ==> #[trigger] final(self).entry(g, j) == old(
                    self,
                ).entry(g, j),
    {
        proof {
            lemma_slot(f.number as int, i as int, 0, 0, self.frames());
            lemma_frames_fit(self.words@.len() as int);
        }
        let len = self.words.len();
        assert(slot(f.number as int, i as int) < len);
        let k: usize = (f.number * 512 + i as u64) as usize;
        self.words.set(k, e.0);
        proof {
            assert forall|g: Frame, j: int|
                !(g.number == f.number && j == i) implies #[trigger] self.entry(g, j) == old(
                self,
            ).entry(g, j) by {
                if self.holds(g) && 0 <= j < 512 {
                    lemma_slot(f.number as int, i as int, g.number as int, j, self.frames());
                    lemma_slot(g.number as int, j, 0, 0, self.frames());
                }
            }
        }
    }

    /// Clears every entry of the table in frame `f`.
    pub fn zero_frame(&mut self, f: Frame)
        requires
            old(self).wf(),
            old(self).holds(f),
        ensures
            final(self).wf(),
            final(self).frames() == old(self).frames(),
            forall|j: int| 0 <= j < 512 ==> (#[trigger] final(self).entry(f, j)).0 == 0,
            forall|g: Frame, j: int|
                g.number != f.number ==> #[trigger] final(self).entry(g, j) == old(self).entry(
                    g,
                    j,
                ),
    {
        let mut i: usize = 0;
        while i < 512
            invariant
                i <= 512,
                self.wf(),
                self.holds(f),
                self.frames() == old(self).frames(),
                forall|j: int| 0 <= j < i ==> (#[trigger] self.entry(f, j)).0 == 0,
                forall|g: Frame, j: int|
                    g.number != f.number ==> #[trigger] self.entry(g, j) == old(self).entry(g, j),
            decreases 512 - i,
        {
            self.write_entry(f, i, Entry(0));
            i = i + 1;
        }
    }
}

} // verus!
