use vstd::prelude::*;

use crate::error::MemoryError;
use crate::frame::Frame;

verus! {

/// A source of fresh physical frames.
pub trait FrameAllocator {
    /// The state in which the allocator can be asked for frames.
    spec fn ready(&self) -> bool;

    /// No frame is left to hand out.
    spec fn exhausted(&self) -> bool;

    fn allocate_frame(&mut self) -> (r: Option<Frame>)
        requires
            old(self).ready(),
        ensures
            final(self).ready(),
            r is None ==> final(self).exhausted(),
    ;

    fn deallocate(&mut self, frame: Frame) -> (r: Result<(), MemoryError>)
        requires
            old(self).ready(),
        ensures
            final(self).ready(),
    ;
}

/// A region of usable physical RAM reported by the boot loader.
#[derive(Clone, Copy, Debug, PartialEq, Eq, Structural)]
pub struct MemoryArea {
    pub start: u64,
    pub size: u64,
}

/// Index of the first frame that lies wholly inside the area.
pub open spec fn area_first(a: MemoryArea) -> int {
    (a.start + 4095) / 4096
}

/// Index one past the last frame that lies wholly inside the area.
pub open spec fn area_end(a: MemoryArea) -> int {
    (a.start + a.size) / 4096
}

/// The area holds a frame at or above `cursor`.
pub open spec fn has_frame_from(a: MemoryArea, cursor: int) -> bool {
    cursor < area_end(a) && area_first(a) < area_end(a)
}

/// Whether frame `n` lies wholly inside one of `areas`.
pub open spec fn in_some_area(areas: Seq<MemoryArea>, n: int) -> bool {
    exists|i: int| 0 <= i < areas.len() && area_first(#[trigger] areas[i]) <= n < area_end(areas[i])
}

/// Index of the first frame that holds any byte at or above `address`.
pub open spec fn frame_ceil(address: u64) -> int {
    (address + 4095) / 4096
}

/// Frame `n` holds a byte of `[start, end)`.
pub open spec fn overlaps(n: int, start: u64, end: u64) -> bool {
    start < end && start < (n + 1) * 4096 && n * 4096 < end
}

proof fn lemma_overlaps(n: int, start: u64, end: u64)
    requires
        0 <= n,
        start < end,
    ensures
        overlaps(n, start, end) <==> (start / 4096 <= n < frame_ceil(end)),
{
    assert((start < (n + 1) * 4096 && n * 4096 < end) <==> (start / 4096 <= n < (end + 4095)
        / 4096)) by (nonlinear_arith)
        requires
            0 <= n,
            start < end,
    ;
}

/// One past the last frame that holds a byte of `[start, end)`; for an empty
/// range, the first frame, so that the range covers no frame.
fn end_frame_of_range(start: u64, end: u64) -> (r: u64)
    ensures
        r == if start < end {
            frame_ceil(end)
        } else {
            (start / 4096) as int
        },
{
    if start < end {
        first_frame_of(end)
    } else {
        start / 4096
    }
}

fn first_frame_of(address: u64) -> (r: u64)
    ensures
        r == frame_ceil(address),
{
    address / 4096 + if address % 4096 != 0 {
        1u64
    } else {
        0u64
    }
}

fn end_frame_of(a: &MemoryArea) -> (r: u64)
    ensures
        r == area_end(*a),
{
    a.start / 4096 + a.size / 4096 + (a.start % 4096 + a.size % 4096) / 4096
}

/// Hands out the physical frames of the reported areas in increasing order,
/// skipping those that hold any byte of the kernel image or of the boot
/// information.
pub struct AreaFrameAllocator {
    pub next_free_frame: Frame,
    pub curr_area: Option<usize>,
    /// First frame of the kernel image.
    pub kernel_start: Frame,
    /// One past the last frame of the kernel image.
    pub kernel_end: Frame,
    /// First frame of the boot information.
    pub multiboot_start: Frame,
    /// One past the last frame of the boot information.
    pub multiboot_end: Frame,
    pub areas: Vec<MemoryArea>,
    /// Every frame handed out so far.
    pub handed_out: Ghost<Set<int>>,
}

impl AreaFrameAllocator {
    pub open spec fn in_areas(self, n: int) -> bool {
        in_some_area(self.areas@, n)
    }

    pub open spec fn excluded(self, n: int) -> bool {
        (self.kernel_start.number <= n < self.kernel_end.number) || (self.multiboot_start.number
            <= n < self.multiboot_end.number)
    }

    /// A frame that the allocator may hand out.
    pub open spec fn usable(self, n: int) -> bool {
        self.in_areas(n) && !self.excluded(n)
    }

    pub open spec fn cursor(self) -> int {
        self.next_free_frame.number as int
    }

    pub open spec fn same_layout(self, other: Self) -> bool {
        self.areas@ == other.areas@ && self.kernel_start == other.kernel_start && self.kernel_end
            == other.kernel_end && self.multiboot_start == other.multiboot_start
            && self.multiboot_end == other.multiboot_end
    }

    pub open spec fn wf(self) -> bool {
        &&& self.next_free_frame.number <= 0x40_0000_0000_0000
        &&& forall|n: int| #[trigger] self.handed_out@.contains(n) ==> n < self.cursor()
        &&& self.handed_out@.finite()
        &&& self.kernel_end.number <= 0x40_0000_0000_0000
        &&& self.multiboot_end.number <= 0x40_0000_0000_0000
        &&& match self.curr_area {
            Some(i) => {
                &&& i < self.areas@.len()
                &&& area_first(self.areas@[i as int]) <= self.cursor()
            },
            None => forall|i: int|
                0 <= i < self.areas@.len() ==> area_end(#[trigger] self.areas@[i])
                    <= self.cursor() || area_end(self.areas@[i]) <= area_first(self.areas@[i]),
        }
    }

    /// The result of one allocation: the least usable frame at or above the
    /// cursor, after which the cursor stands; or nothing when none is left.
    pub open spec fn allocation(self, next: Self, r: Option<Frame>) -> bool {
        &&& next.same_layout(self)
        &&& next.handed_out@ == match r {
            Some(f) => self.handed_out@.insert(f.number as int),
            None => self.handed_out@,
        }
        &&& (r matches Some(f) ==> !self.handed_out@.contains(f.number as int))
        &&& match r {
            Some(f) => {
                &&& self.cursor() <= f.number
                &&& self.usable(f.number as int)
                &&& forall|n: int| self.cursor() <= n < f.number ==> !self.usable(n)
                &&& next.cursor() == f.number + 1
            },
            None => {
                &&& forall|n: int| self.cursor() <= n ==> !self.usable(n)
                &&& self.cursor() <= next.cursor()
            },
        }
    }

    pub proof fn lemma_same_usable(a: Self, b: Self, n: int)
        requires
            a.same_layout(b),
        ensures
            a.usable(n) == b.usable(n),
    {
    }

    /// Builds an allocator over `areas` that never hands out a frame holding a
    /// byte of `[kernel_start, kernel_end)` or of `[multiboot_start, multiboot_end)`.
    pub fn new(
        kernel_start: u64,
        kernel_end: u64,
        multiboot_start: u64,
        multiboot_end: u64,
        areas: Vec<MemoryArea>,
    ) -> (r: AreaFrameAllocator)
        ensures
            r.wf(),
            r.areas@ == areas@,
            r.handed_out@ == Set::<int>::empty(),
            forall|n: int|
                0 <= n ==> (r.excluded(n) <==> (overlaps(n, kernel_start, kernel_end) || overlaps(
                    n,
                    multiboot_start,
                    multiboot_end,
                ))),
            forall|n: int| 0 <= n < r.cursor() ==> !r.usable(n),
    {
        let mut allocator = AreaFrameAllocator {
            next_free_frame: Frame { number: 0 },
            curr_area: None,
            kernel_start: Frame::containing_address(kernel_start),
            kernel_end: Frame { number: end_frame_of_range(kernel_start, kernel_end) },
            multiboot_start: Frame::containing_address(multiboot_start),
            multiboot_end: Frame { number: end_frame_of_range(multiboot_start, multiboot_end) },
            areas,
            handed_out: Ghost(Set::empty()),
        };
        allocator.choose_next_area();
        proof {
            assert forall|n: int| 0 <= n implies (allocator.excluded(n) <==> (overlaps(
                n,
                kernel_start,
                kernel_end,
            ) || overlaps(n, multiboot_start, multiboot_end))) by {
                if kernel_start < kernel_end {
                    lemma_overlaps(n, kernel_start, kernel_end);
                }
                if multiboot_start < multiboot_end {
                    lemma_overlaps(n, multiboot_start, multiboot_end);
                }
            }
        }
        allocator
    }

    /// Selects, among the areas that still hold a frame at or above the
    /// cursor, the one that starts lowest, and moves the cursor up to its
    /// first frame.
    fn choose_next_area(&mut self)
        requires
            old(self).next_free_frame.number <= 0x40_0000_0000_0000,
            forall|n: int| #[trigger] old(self).handed_out@.contains(n) ==> n < old(self).cursor(),
            old(self).handed_out@.finite(),
            old(self).kernel_end.number <= 0x40_0000_0000_0000,
            old(self).multiboot_end.number <= 0x40_0000_0000_0000,
        ensures
            final(self).wf(),
            final(self).same_layout(*old(self)),
            final(self).handed_out == old(self).handed_out,
            old(self).cursor() <= final(self).cursor(),
            forall|n: int| old(self).cursor() <= n < final(self).cursor() ==> !final(self).in_areas(n),
            final(self).curr_area matches Some(i) ==> final(self).cursor() < area_end(final(self).areas@[i as int]),
            match final(self).curr_area {
                Some(i) => {
                    &&& i < old(self).areas@.len()
                    &&& has_frame_from(old(self).areas@[i as int], old(self).cursor())
                    &&& forall|j: int|
                        0 <= j < old(self).areas@.len() && has_frame_from(
                            #[trigger] old(self).areas@[j],
                            old(self).cursor(),
                        ) ==> area_first(old(self).areas@[i as int]) <= area_first(old(self).areas@[j])
                    &&& final(self).cursor() == if old(self).cursor() < area_first(
                        old(self).areas@[i as int],
                    ) {
                        area_first(old(self).areas@[i as int])
                    } else {
                        old(self).cursor()
                    }
                },
                None => {
                    &&& forall|j: int|
                        0 <= j < old(self).areas@.len() ==> !has_frame_from(
                            #[trigger] old(self).areas@[j],
                            old(self).cursor(),
                        )
                    &&& final(self).cursor() == old(self).cursor()
                },
            },
    {
        let cursor = self.next_free_frame.number;
        let mut best: Option<usize> = None;
        let mut best_first: u64 = 0;
        let mut i: usize = 0;
        while i < self.areas.len()
            invariant
                i <= self.areas@.len(),
                self.next_free_frame.number == cursor,
                match best {
                    Some(b) => {
                        &&& b < i
                        &&& best_first == area_first(self.areas@[b as int])
                        &&& area_first(self.areas@[b as int]) < area_end(self.areas@[b as int])
                        &&& cursor < area_end(self.areas@[b as int])
                        &&& forall|j: int|
                            0 <= j < i && cursor < area_end(self.areas@[j])
                                && area_first(self.areas@[j]) < area_end(self.areas@[j])
                                ==> best_first <= area_first(#[trigger] self.areas@[j])
                    },
                    None => forall|j: int|
                        0 <= j < i ==> !(cursor < area_end(#[trigger] self.areas@[j])
                            && area_first(self.areas@[j]) < area_end(self.areas@[j])),
                },
            decreases self.areas@.len() - i,
        {
            let a = self.areas[i];
            let first = first_frame_of(a.start);
            let end = end_frame_of(&a);
            if cursor < end && first < end {
                match best {
                    Some(_) => {
                        if first < best_first {
                            best = Some(i);
                            best_first = first;
                        }
                    },
                    None => {
                        best = Some(i);
                        best_first = first;
                    },
                }
            }
            i = i + 1;
        }
        self.curr_area = best;
        match best {
            Some(_) => {
                if cursor < best_first {
                    self.next_free_frame = Frame { number: best_first };
                }
            },
            None => {},
        }
        proof {
            assert forall|n: int| old(self).cursor() <= n < self.cursor() implies !self.in_areas(
                n,
            ) by {
                if self.in_areas(n) {
                    let j = choose|j: int|
                        0 <= j < self.areas@.len() && area_first(#[trigger] self.areas@[j]) <= n
                            < area_end(self.areas@[j]);
                    assert(cursor < area_end(self.areas@[j]));
                }
            }
        }
    }

    /// Returns the least usable frame at or above the cursor and moves the
    /// cursor past it, or `None` once every area is used up.
    pub fn allocate_frame(&mut self) -> (r: Option<Frame>)
        requires
            old(self).wf(),
        ensures
            final(self).wf(),
            old(self).allocation(*final(self), r),
    {
        let ghost start = self.cursor();
        assert(start == old(self).cursor());
        loop
            invariant
                self.wf(),
                self.same_layout(*old(self)),
                start == old(self).cursor(),
                self.handed_out == old(self).handed_out,
                start <= self.cursor(),
                forall|n: int| start <= n < self.cursor() ==> !self.usable(n),
            decreases 0x40_0000_0000_0000 - self.cursor(),
        {
            let needs_area = match self.curr_area {
                None => false,
                Some(i) => self.next_free_frame.number >= end_frame_of(&self.areas[i]),
            };
            if needs_area {
                let ghost s0 = *self;
                self.choose_next_area();
                assert forall|n: int| start <= n < self.cursor() implies !self.usable(n) by {
                    if n >= s0.cursor() {
                        assert(!self.in_areas(n));
                    } else {
                        assert(!s0.usable(n));
                        Self::lemma_same_usable(s0, *self, n);
                    }
                }
            }
            match self.curr_area {
                None => {
                    proof {
                        assert forall|n: int| start <= n implies !old(self).usable(n) by {
                            if n >= self.cursor() && self.in_areas(n) {
                                let j = choose|j: int|
                                    0 <= j < self.areas@.len() && area_first(
                                        #[trigger] self.areas@[j],
                                    ) <= n < area_end(self.areas@[j]);
                                assert(area_end(self.areas@[j]) <= self.cursor() || area_end(
                                    self.areas@[j],
                                ) <= area_first(self.areas@[j]));
                            }
                            Self::lemma_same_usable(*old(self), *self, n);
                        }
                    }
                    return None;
                },
                Some(i) => {
                    let cursor = self.next_free_frame.number;
                    proof {
                        assert(area_first(self.areas@[i as int]) <= cursor < area_end(
                            self.areas@[i as int],
                        ));
                        assert(self.in_areas(cursor as int));
                    }
                    if self.kernel_start.number <= cursor && cursor < self.kernel_end.number {
                        let ghost s1 = *self;
                        self.next_free_frame = self.kernel_end;
                        assert forall|n: int| start <= n < self.cursor() implies !self.usable(
                            n,
                        ) by {
                            Self::lemma_same_usable(s1, *self, n);
                        }
                    } else if self.multiboot_start.number <= cursor && cursor
                        < self.multiboot_end.number {
                        let ghost s1 = *self;
                        self.next_free_frame = self.multiboot_end;
                        assert forall|n: int| start <= n < self.cursor() implies !self.usable(
                            n,
                        ) by {
                            Self::lemma_same_usable(s1, *self, n);
                        }
                    } else {
                        proof {
                            assert forall|n: int| start <= n < cursor implies !old(
                                self,
                            ).usable(n) by {
                                Self::lemma_same_usable(*old(self), *self, n);
                            }
                            Self::lemma_same_usable(*old(self), *self, cursor as int);
                            assert(old(self).usable(cursor as int));
                        }
                        self.next_free_frame = Frame { number: cursor + 1 };
                        self.handed_out = Ghost(self.handed_out@.insert(cursor as int));
                        return Some(Frame { number: cursor });
                    }
                },
            }
        }
    }

    /// Frames are never given back: this always reports that it cannot.
    pub fn deallocate(&mut self, frame: Frame) -> (r: Result<(), MemoryError>)
        ensures
            r == Err::<(), MemoryError>(MemoryError::DeallocationUnsupported),
            *final(self) == *old(self),
    {
        Err(MemoryError::DeallocationUnsupported)
    }
}

impl FrameAllocator for AreaFrameAllocator {
    open spec fn ready(&self) -> bool {
        self.wf()
    }

    open spec fn exhausted(&self) -> bool {
        forall|n: int| self.cursor() <= n ==> !self.usable(n)
    }

    fn allocate_frame(&mut self) -> (r: Option<Frame>) {
        let ghost before = *self;
        let r = AreaFrameAllocator::allocate_frame(self);
        proof {
            if r is None {
                assert forall|n: int| self.cursor() <= n implies !self.usable(n) by {
                    Self::lemma_same_usable(before, *self, n);
                }
            }
        }
        r
    }

    fn deallocate(&mut self, frame: Frame) -> (r: Result<(), MemoryError>) {
        AreaFrameAllocator::deallocate(self, frame)
    }
}

/// Each state of `states` is the allocator before the call that gave the
/// result of the same index.
pub open spec fn allocation_run(states: Seq<AreaFrameAllocator>, results: Seq<Option<Frame>>) -> bool {
    &&& states.len() == results.len() + 1
    &&& forall|i: int|
        0 <= i < results.len() ==> states[i].allocation(states[i + 1], #[trigger] results[i])
}

proof fn lemma_run_cursor(states: Seq<AreaFrameAllocator>, results: Seq<Option<Frame>>, i: int, j: int)
    requires
        allocation_run(states, results),
        0 <= i <= j < states.len(),
    ensures
        states[i].cursor() <= states[j].cursor(),
        states[j].same_layout(states[i]),
    decreases j - i,
{
    if i < j {
        lemma_run_cursor(states, results, i, j - 1);
        assert(states[j - 1].allocation(states[j], results[j - 1]));
    }
}

/// Over any run of allocations, frames come out in strictly increasing order
/// (so none twice), and none holds a byte of the kernel image or of the boot
/// information.
pub proof fn lemma_allocations_increase(
    states: Seq<AreaFrameAllocator>,
    results: Seq<Option<Frame>>,
    kernel_start: u64,
    kernel_end: u64,
    multiboot_start: u64,
    multiboot_end: u64,
)
    requires
        allocation_run(states, results),
        forall|n: int|
            0 <= n ==> (states[0].excluded(n) <==> (overlaps(n, kernel_start, kernel_end)
                || overlaps(n, multiboot_start, multiboot_end))),
    ensures
        forall|i: int, j: int|
            0 <= i < j < results.len() && results[i] is Some && results[j] is Some ==> (
            #[trigger] results[i]).unwrap().number < (#[trigger] results[j]).unwrap().number,
        forall|i: int|
            0 <= i < results.len() && (#[trigger] results[i]) is Some ==> {
                let n = results[i].unwrap().number as int;
                &&& !overlaps(n, kernel_start, kernel_end)
                &&& !overlaps(n, multiboot_start, multiboot_end)
            },
{
    assert forall|i: int, j: int|
        0 <= i < j < results.len() && results[i] is Some && results[j] is Some implies (
        #[trigger] results[i]).unwrap().number < (#[trigger] results[j]).unwrap().number by {
        assert(states[i].allocation(states[i + 1], results[i]));
        assert(states[j].allocation(states[j + 1], results[j]));
        lemma_run_cursor(states, results, i + 1, j);
    }
    assert forall|i: int| 0 <= i < results.len() && (#[trigger] results[i]) is Some implies {
        let n = results[i].unwrap().number as int;
        &&& !overlaps(n, kernel_start, kernel_end)
        &&& !overlaps(n, multiboot_start, multiboot_end)
    } by {
        assert(states[i].allocation(states[i + 1], results[i]));
        lemma_run_cursor(states, results, 0, i);
        let n = results[i].unwrap().number as int;
        assert(!states[i].excluded(n));
        assert(!states[0].excluded(n));
    }
}

proof fn lemma_find_step(states: Seq<AreaFrameAllocator>, results: Seq<Option<Frame>>, n: int, k: int) -> (i: int)
    requires
        allocation_run(states, results),
        0 <= k < states.len(),
        states[k].cursor() <= n,
        n < states[states.len() - 1].cursor(),
    ensures
        k <= i < results.len(),
        states[i].cursor() <= n < states[i + 1].cursor(),
    decreases states.len() - k,
{
    if k == states.len() - 1 {
        k
    } else if n < states[k + 1].cursor() {
        k
    } else {
        lemma_find_step(states, results, n, k + 1)
    }
}

/// A run that ends in `None` has handed out every usable frame at or above
/// where it started, and nothing else: the number of frames it gave equals the
/// number of frames of the areas outside both excluded ranges.
pub proof fn lemma_allocations_exhaust(states: Seq<AreaFrameAllocator>, results: Seq<Option<Frame>>)
    requires
        allocation_run(states, results),
        results.len() > 0,
        results.last() is None,
    ensures
        forall|n: int|
            states[0].cursor() <= n ==> (states[0].usable(n) <==> exists|i: int|
                0 <= i < results.len() && #[trigger] results[i] == Some(Frame { number: n as u64 })
                    && 0 <= n <= u64::MAX),
{
    let last = results.len() - 1;
    assert(states[last].allocation(states[last + 1], results[last]));
    lemma_run_cursor(states, results, 0, last);
    lemma_run_cursor(states, results, 0, last + 1);
    assert forall|n: int| states[0].cursor() <= n implies (states[0].usable(n) <==> exists|i: int|
        0 <= i < results.len() && #[trigger] results[i] == Some(Frame { number: n as u64 })
            && 0 <= n <= u64::MAX) by {
        if states[0].usable(n) {
            if n >= states[last].cursor() {
                assert(states[last].usable(n));
            }
            let i = lemma_find_step(states, results, n, 0);
            assert(states[i].allocation(states[i + 1], results[i]));
            lemma_run_cursor(states, results, 0, i);
            assert(states[i].usable(n));
            assert(results[i] == Some(Frame { number: n as u64 }));
        }
        if exists|i: int|
            0 <= i < results.len() && #[trigger] results[i] == Some(Frame { number: n as u64 })
                && 0 <= n <= u64::MAX {
            let i = choose|i: int|
                0 <= i < results.len() && #[trigger] results[i] == Some(Frame { number: n as u64 })
                    && 0 <= n <= u64::MAX;
            assert(states[i].allocation(states[i + 1], results[i]));
            lemma_run_cursor(states, results, 0, i);
            assert(states[i].usable(n));
        }
    }
}

/// How many of `results` hold a frame.
pub open spec fn returned_count(results: Seq<Option<Frame>>) -> nat
    decreases results.len(),
{
    if results.len() == 0 {
        0
    } else {
        returned_count(results.drop_last()) + if results.last() is Some {
            1nat
        } else {
            0nat
        }
    }
}

proof fn lemma_run_handed(states: Seq<AreaFrameAllocator>, results: Seq<Option<Frame>>, k: int)
    requires
        allocation_run(states, results),
        0 <= k < states.len(),
        states[0].handed_out@.finite(),
    ensures
        states[k].handed_out@.finite(),
        states[k].handed_out@.len() == states[0].handed_out@.len() + returned_count(results.take(k)),
        forall|n: int|
            #[trigger] states[k].handed_out@.contains(n) <==> (states[0].handed_out@.contains(n) || (
            states[0].cursor() <= n < states[k].cursor() && states[0].usable(n))),
    decreases k,
{
    if k == 0 {
        assert(results.take(0).len() == 0);
    } else {
        lemma_run_handed(states, results, k - 1);
        lemma_run_cursor(states, results, 0, k - 1);
        lemma_run_cursor(states, results, 0, k);
        let prev = states[k - 1];
        let cur = states[k];
        assert(prev.allocation(cur, results[k - 1]));
        assert(results.take(k).drop_last() =~= results.take(k - 1));
        assert(results.take(k).last() == results[k - 1]);
        assert forall|n: int| #[trigger] cur.handed_out@.contains(n) <==> (
        states[0].handed_out@.contains(n) || (states[0].cursor() <= n < cur.cursor()
            && states[0].usable(n))) by {
            AreaFrameAllocator::lemma_same_usable(states[0], prev, n);
        }
    }
}

/// A run that starts from a fresh allocator and ends in `None` hands out as
/// many frames as there are usable ones: frames of the areas that hold no
/// byte of either excluded range.
pub proof fn lemma_allocations_count(states: Seq<AreaFrameAllocator>, results: Seq<Option<Frame>>)
    requires
        allocation_run(states, results),
        results.len() > 0,
        results.last() is None,
        states[0].handed_out@ == Set::<int>::empty(),
        forall|n: int| n < states[0].cursor() ==> !states[0].usable(n),
    ensures
        Set::new(|n: int| states[0].usable(n)).finite(),
        returned_count(results) == Set::new(|n: int| states[0].usable(n)).len(),
{
    let last = results.len() as int;
    lemma_run_handed(states, results, last);
    lemma_run_cursor(states, results, 0, last - 1);
    lemma_run_cursor(states, results, 0, last);
    assert(states[last - 1].allocation(states[last], results[last - 1]));
    assert(results.take(last) =~= results);
    let usable = Set::new(|n: int| states[0].usable(n));
    assert forall|n: int| states[last].handed_out@.contains(n) <==> usable.contains(n) by {
        AreaFrameAllocator::lemma_same_usable(states[0], states[last - 1], n);
    }
    assert(states[last].handed_out@ =~= usable);
}

} // verus!
