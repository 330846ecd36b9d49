//! Mapping the segments of an image to the addresses they ask for.
//!
//! The loader does not touch memory itself here. It plans: for each segment
//! the pages to allocate at fixed addresses, the bytes to copy from the
//! image, and the tail to fill with zeros. `SegmentMapper` hands the plan
//! out one step at a time, so that the firmware can be asked for each page
//! and the plan can stop at the first refusal.

use vstd::prelude::*;
use crate::format::RtoskSegment;

verus! {

/// Bytes in a page.
pub const PAGE_BYTES: u64 = 4096;

/// The number of pages that can be remembered as allocated.
pub const MAX_TRACKED: usize = 4096;

/// The kind of memory a page is allocated as.
#[derive(Clone, Copy, Debug, PartialEq, Eq, Structural)]
pub enum MemoryKind {
    /// Memory that holds the loaded program's code.
    LoaderCode,
    /// Memory that holds the loaded program's data.
    LoaderData,
}

/// Why mapping stopped.
#[derive(Clone, Copy, Debug, PartialEq, Eq, Structural)]
pub enum MapError {
    /// The firmware did not give the page at the address asked for.
    AllocationRefused,
    /// The file bytes of a segment do not lie inside the image.
    FileRangeOutOfBounds,
    /// The memory range of a segment does not end inside the address space.
    AddressOverflow,
}

/// One step of the plan.
#[derive(Clone, Copy, Debug, PartialEq, Eq, Structural)]
pub enum MapStep {
    /// Allocate the page at exactly `addr`.
    AllocatePage { addr: u64, kind: MemoryKind },
    /// Copy `len` bytes of the image, from `file_offset` on, to `dest`.
    Copy { file_offset: u64, dest: u64, len: u64 },
    /// Fill `len` bytes from `dest` on with zeros.
    ZeroFill { dest: u64, len: u64 },
    /// Every segment is mapped.
    Done,
    /// Mapping has failed.
    Fail(MapError),
}

/// The pages allocated so far, as far as they could be remembered.
#[derive(Debug)]
pub struct PageTracker {
    pub pages: Vec<u64>,
}

/// The pages remembered after `page` was allocated: one more, unless the
/// tracker is full.
pub open spec fn known_with(known: Seq<u64>, page: u64) -> Seq<u64> {
    if known.len() < MAX_TRACKED {
        known.push(page)
    } else {
        known
    }
}

impl PageTracker {
    /// Validity: no more pages than the tracker has room for.
    pub open spec fn wf(&self) -> bool {
        self.pages@.len() <= MAX_TRACKED
    }

    /// A tracker that remembers nothing.
    pub fn new() -> (t: PageTracker)
        ensures
            t.wf(),
            t.pages@ == Seq::<u64>::empty(),
    {
        PageTracker { pages: Vec::new() }
    }

    /// Whether `page` is remembered as allocated.
    pub fn seen(&self, page: u64) -> (yes: bool)
        ensures
            yes == self.pages@.contains(page),
    {
        let mut i: usize = 0;
        while i < self.pages.len()
            invariant
                i <= self.pages.len(),
                forall|k: int| 0 <= k < i ==> self.pages@[k] != page,
            decreases self.pages.len() - i,
        {
            if self.pages[i] == page {
                return true;
            }
            i = i + 1;
        }
        false
    }

    /// Remembers `page` as allocated, and says whether there was room.
    pub fn track(&mut self, page: u64) -> (kept: bool)
        requires
            old(self).wf(),
        ensures
            final(self).wf(),
            final(self).pages@ == known_with(old(self).pages@, page),
            kept == (old(self).pages@.len() < MAX_TRACKED),
    {
        if self.pages.len() < MAX_TRACKED {
            self.pages.push(page);
            true
        } else {
            false
        }
    }
}

/// The kind of memory the pages of `seg` are allocated as.
pub open spec fn kind_of(seg: RtoskSegment) -> MemoryKind {
    if seg.executable() {
        MemoryKind::LoaderCode
    } else {
        MemoryKind::LoaderData
    }
}

/// The first page of `seg`: its address rounded down to a page.
pub open spec fn first_page(seg: RtoskSegment) -> int {
    seg.memory_addr - seg.memory_addr % 4096
}

/// The end of the last page of `seg`: the end of its memory rounded up to a
/// page.
pub open spec fn end_page(seg: RtoskSegment) -> int {
    (seg.memory_addr + seg.memory_size + 4095) / 4096 * 4096
}

/// Whether the memory of `seg`, rounded up to a page, ends beyond the
/// 64-bit address space.
pub open spec fn overflows(seg: RtoskSegment) -> bool {
    seg.memory_addr + seg.memory_size + 4095 > u64::MAX
}

/// The allocations for the pages from `page` up to `end`, leaving out the
/// pages remembered as allocated.
pub open spec fn page_steps(page: int, end: int, kind: MemoryKind, known: Seq<u64>) -> Seq<
    MapStep,
>
    decreases
            (if end > page {
                end - page
            } else {
                0
            }),
{
    if page >= end {
        Seq::empty()
    } else if known.contains(page as u64) {
        page_steps(page + 4096, end, kind, known)
    } else {
        seq![MapStep::AllocatePage { addr: page as u64, kind }] + page_steps(
            page + 4096,
            end,
            kind,
            known_with(known, page as u64),
        )
    }
}

/// The pages remembered after the pages from `page` up to `end` were
/// allocated.
pub open spec fn known_after(page: int, end: int, known: Seq<u64>) -> Seq<u64>
    decreases
            (if end > page {
                end - page
            } else {
                0
            }),
{
    if page >= end {
        known
    } else if known.contains(page as u64) {
        known_after(page + 4096, end, known)
    } else {
        known_after(page + 4096, end, known_with(known, page as u64))
    }
}

/// Whether `seg` asks for file bytes that are not in an image of
/// `image_len` bytes.
pub open spec fn file_out_of_bounds(seg: RtoskSegment, image_len: u64) -> bool {
    seg.file_size > 0 && seg.file_offset + seg.file_size > image_len
}

/// The zero fill of `seg` and what follows it.
pub open spec fn zero_steps(
    segs: Seq<RtoskSegment>,
    k: int,
    image_len: u64,
    known: Seq<u64>,
) -> Seq<MapStep>
    recommends
        0 <= k < segs.len(),
    decreases segs.len() - k, 1int,
{
    let seg = segs[k];
    if 0 <= k < segs.len() {
        if seg.memory_size > seg.file_size {
            seq![
                MapStep::ZeroFill {
                    dest: (seg.memory_addr + seg.file_size) as u64,
                    len: (seg.memory_size - seg.file_size) as u64,
                },
            ] + plan_from(segs, k + 1, image_len, known)
        } else {
            plan_from(segs, k + 1, image_len, known)
        }
    } else {
        Seq::empty()
    }
}

/// The copy of `seg` and what follows it.
pub open spec fn copy_steps(
    segs: Seq<RtoskSegment>,
    k: int,
    image_len: u64,
    known: Seq<u64>,
) -> Seq<MapStep>
    recommends
        0 <= k < segs.len(),
    decreases segs.len() - k, 2int,
{
    let seg = segs[k];
    if 0 <= k < segs.len() {
        if file_out_of_bounds(seg, image_len) {
            seq![MapStep::Fail(MapError::FileRangeOutOfBounds)]
        } else if seg.file_size > 0 {
            seq![
                MapStep::Copy { file_offset: seg.file_offset, dest: seg.memory_addr, len: seg.file_size },
            ] + zero_steps(segs, k, image_len, known)
        } else {
            zero_steps(segs, k, image_len, known)
        }
    } else {
        Seq::empty()
    }
}

/// The plan from segment `k` on, given the pages remembered as allocated.
///
/// A segment without memory is passed over. For each other segment the
/// pages that cover its memory are allocated, lowest first, as code where
/// the segment is executable and as data where not; then its file bytes are
/// copied to its address; then what its memory has beyond its file bytes is
/// filled with zeros. The plan ends with a failure at the first segment
/// whose memory does not end inside the address space, before anything is
/// done for it, and at the first segment whose file bytes are not in the
/// image, after its pages were allocated.
pub open spec fn plan_from(
    segs: Seq<RtoskSegment>,
    k: int,
    image_len: u64,
    known: Seq<u64>,
) -> Seq<MapStep>
    decreases segs.len() - k, 3int,
{
    if k < 0 || k >= segs.len() {
        Seq::empty()
    } else {
        let seg = segs[k];
        if seg.memory_size == 0 {
            plan_from(segs, k + 1, image_len, known)
        } else if overflows(seg) {
            seq![MapStep::Fail(MapError::AddressOverflow)]
        } else {
            page_steps(first_page(seg), end_page(seg), kind_of(seg), known) + copy_steps(
                segs,
                k,
                image_len,
                known_after(first_page(seg), end_page(seg), known),
            )
        }
    }
}

/// The whole plan for the segments of an image of `image_len` bytes.
pub open spec fn map_plan(segs: Seq<RtoskSegment>, image_len: u64) -> Seq<MapStep> {
    plan_from(segs, 0, image_len, Seq::empty())
}

/// Where the mapper stands within the plan.
#[derive(Clone, Copy, Debug, PartialEq, Eq, Structural)]
pub enum MapPhase {
    /// Before segment `index`.
    Segment,
    /// Among the pages of segment `index`.
    Pages,
    /// Before the copy of segment `index`.
    Copy,
    /// Before the zero fill of segment `index`.
    Zero,
    /// At the end.
    Finished,
}

/// Hands out the plan for a list of segments step by step.
#[derive(Debug)]
pub struct SegmentMapper {
    pub segments: Vec<RtoskSegment>,
    pub image_len: u64,
    pub index: usize,
    pub phase: MapPhase,
    pub page: u64,
    pub end: u64,
    pub tracker: PageTracker,
}

impl MapPhase {
    /// The order of the phases within a segment, last first.
    pub open spec fn rank(self) -> nat {
        match self {
            MapPhase::Segment => 4,
            MapPhase::Pages => 3,
            MapPhase::Copy => 2,
            MapPhase::Zero => 1,
            MapPhase::Finished => 0,
        }
    }
}

impl View for SegmentMapper {
    type V = Seq<MapStep>;

    /// The steps that are still to come.
    open spec fn view(&self) -> Seq<MapStep> {
        let segs = self.segments@;
        let k = self.index as int;
        let known = self.tracker.pages@;
        match self.phase {
            MapPhase::Segment => plan_from(segs, k, self.image_len, known),
            MapPhase::Pages => page_steps(self.page as int, self.end as int, kind_of(segs[k]), known)
                + copy_steps(
                segs,
                k,
                self.image_len,
                known_after(self.page as int, self.end as int, known),
            ),
            MapPhase::Copy => copy_steps(segs, k, self.image_len, known),
            MapPhase::Zero => zero_steps(segs, k, self.image_len, known),
            MapPhase::Finished => Seq::empty(),
        }
    }
}

impl SegmentMapper {
    /// Validity: the mapper stands at a place of the plan.
    pub open spec fn wf(&self) -> bool {
        &&& self.tracker.wf()
        &&& self.index <= self.segments@.len()
        &&& (self.phase == MapPhase::Pages || self.phase == MapPhase::Copy || self.phase
            == MapPhase::Zero) ==> self.index < self.segments@.len() && !overflows(
            self.segments@[self.index as int],
        )
        &&& self.phase == MapPhase::Pages ==> {
            &&& self.page % 4096 == 0
            &&& self.end % 4096 == 0
            &&& self.page <= self.end
        }
    }

    /// A mapper at the start of the plan for `segments`, which were read
    /// from an image of `image_len` bytes.
    pub fn new(segments: Vec<RtoskSegment>, image_len: u64) -> (m: SegmentMapper)
        ensures
            m.wf(),
            m@ == map_plan(segments@, image_len),
    {
        SegmentMapper {
            segments,
            image_len,
            index: 0,
            phase: MapPhase::Segment,
            page: 0,
            end: 0,
            tracker: PageTracker::new(),
        }
    }

    /// Decides whether the mapper is valid.
    pub fn is_wf(&self) -> (ok: bool)
        ensures
            ok == self.wf(),
    {
        if self.tracker.pages.len() > MAX_TRACKED || self.index > self.segments.len() {
            return false;
        }
        match self.phase {
            MapPhase::Segment => true,
            MapPhase::Finished => true,
            _ => {
                if self.index >= self.segments.len() {
                    return false;
                }
                let seg = self.segments[self.index];
                if seg.memory_size > u64::MAX - 4095 || seg.memory_addr > u64::MAX - 4095
                    - seg.memory_size {
                    return false;
                }
                match self.phase {
                    MapPhase::Pages => self.page % 4096 == 0 && self.end % 4096 == 0 && self.page
                        <= self.end,
                    _ => true,
                }
            },
        }
    }

    /// Gives the next step of the plan. `last_ok` says whether the step
    /// given before could be carried out; pass `true` the first time.
    ///
    /// After a refusal the plan is dropped and the failure is reported. At
    /// the end of the plan the answer is `Done`, again and again.
    pub fn next(&mut self, last_ok: bool) -> (step: MapStep)
        requires
            old(self).wf(),
        ensures
            final(self).wf(),
            !last_ok ==> step == MapStep::Fail(MapError::AllocationRefused) && final(self)@.len() == 0,
            last_ok && old(self)@.len() == 0 ==> step == MapStep::Done && final(self)@.len() == 0,
            last_ok && old(self)@.len() > 0 ==> step == old(self)@[0] && final(self)@ == old(self)@.skip(
                1,
            ),
    {
        if !last_ok {
            self.phase = MapPhase::Finished;
            return MapStep::Fail(MapError::AllocationRefused);
        }
        loop
            invariant
                last_ok,
                self.wf(),
                self@ == old(self)@,
            decreases
                    self.segments@.len() - self.index,
                    self.phase.rank(),
                    (if self.end > self.page {
                        self.end - self.page
                    } else {
                        0
                    }),
        {
            match self.phase {
                MapPhase::Finished => {
                    return MapStep::Done;
                },
                MapPhase::Segment => {
                    if self.index >= self.segments.len() {
                        self.phase = MapPhase::Finished;
                        return MapStep::Done;
                    }
                    let seg = self.segments[self.index];
                    if seg.memory_size == 0 {
                        self.index = self.index + 1;
                    } else if seg.memory_size > u64::MAX - 4095 || seg.memory_addr > u64::MAX - 4095
                        - seg.memory_size {
                        self.phase = MapPhase::Finished;
                        proof {
                            assert(old(self)@ =~= seq![MapStep::Fail(MapError::AddressOverflow)]);
                            assert(old(self)@.skip(1) =~= Seq::<MapStep>::empty());
                        }
                        return MapStep::Fail(MapError::AddressOverflow);
                    } else {
                        self.page = seg.memory_addr - seg.memory_addr % 4096;
                        self.end = (seg.memory_addr + seg.memory_size + 4095) / 4096 * 4096;
                        self.phase = MapPhase::Pages;
                    }
                },
                MapPhase::Pages => {
                    if self.page < self.end {
                        let page = self.page;
                        let seg = self.segments[self.index];
                        self.page = page + 4096;
                        if !self.tracker.seen(page) {
                            self.tracker.track(page);
                            let kind = if seg.is_executable() {
                                MemoryKind::LoaderCode
                            } else {
                                MemoryKind::LoaderData
                            };
                            proof {
                                let first = MapStep::AllocatePage { addr: page, kind };
                                let rest = self@;
                                assert(old(self)@ =~= seq![first] + rest);
                                assert(old(self)@.skip(1) =~= rest);
                            }
                            return MapStep::AllocatePage { addr: page, kind };
                        }
                    } else {
                        self.phase = MapPhase::Copy;
                    }
                },
                MapPhase::Copy => {
                    let seg = self.segments[self.index];
                    self.phase = MapPhase::Zero;
                    if seg.file_size > 0 {
                        if seg.file_size > self.image_len || seg.file_offset > self.image_len
                            - seg.file_size {
                            self.phase = MapPhase::Finished;
                            proof {
                                assert(old(self)@ =~= seq![
                                    MapStep::Fail(MapError::FileRangeOutOfBounds),
                                ]);
                                assert(old(self)@.skip(1) =~= Seq::<MapStep>::empty());
                            }
                            return MapStep::Fail(MapError::FileRangeOutOfBounds);
                        }
                        let step = MapStep::Copy {
                            file_offset: seg.file_offset,
                            dest: seg.memory_addr,
                            len: seg.file_size,
                        };
                        proof {
                            assert(old(self)@ =~= seq![step] + self@);
                            assert(old(self)@.skip(1) =~= self@);
                        }
                        return step;
                    }
                },
                MapPhase::Zero => {
                    let count = self.segments.len();
                    let seg = self.segments[self.index];
                    self.index = self.index + 1;
                    self.phase = MapPhase::Segment;
                    if seg.memory_size > seg.file_size {
                        let step = MapStep::ZeroFill {
                            dest: seg.memory_addr + seg.file_size,
                            len: seg.memory_size - seg.file_size,
                        };
                        proof {
                            assert(old(self)@ =~= seq![step] + self@);
                            assert(old(self)@.skip(1) =~= self@);
                        }
                        return step;
                    }
                },
            }
        }
    }
}

/// The addresses of the pages that a run of steps allocates, in order.
pub open spec fn allocations(steps: Seq<MapStep>) -> Seq<u64>
    decreases steps.len(),
{
    if steps.len() == 0 {
        Seq::empty()
    } else {
        match steps.last() {
            MapStep::AllocatePage { addr, kind } => allocations(steps.drop_last()).push(addr),
            _ => allocations(steps.drop_last()),
        }
    }
}

/// The allocations of two runs of steps, one after the other, are the
/// allocations of the first and then those of the second.
pub proof fn lemma_allocations_add(a: Seq<MapStep>, b: Seq<MapStep>)
    ensures
        allocations(a + b) == allocations(a) + allocations(b),
    decreases b.len(),
{
    if b.len() == 0 {
        assert(a + b =~= a);
        assert(allocations(a) + allocations(b) =~= allocations(a));
    } else {
        assert((a + b).drop_last() =~= a + b.drop_last());
        assert((a + b).last() == b.last());
        lemma_allocations_add(a, b.drop_last());
        match b.last() {
            MapStep::AllocatePage { addr, kind } => {
                assert((allocations(a) + allocations(b.drop_last())).push(addr) =~= allocations(a)
                    + allocations(b.drop_last()).push(addr));
            },
            _ => {},
        }
    }
}

/// A single step allocates its page if it is an allocation, and nothing
/// else.
pub proof fn lemma_allocations_one(step: MapStep)
    ensures
        allocations(seq![step]) == match step {
            MapStep::AllocatePage { addr, kind } => seq![addr],
            _ => Seq::<u64>::empty(),
        },
{
    let one = seq![step];
    assert(one.drop_last() =~= Seq::<MapStep>::empty());
    assert(allocations(one.drop_last()) == Seq::<u64>::empty());
    assert(one.last() == step);
    match step {
        MapStep::AllocatePage { addr, kind } => {
            assert(Seq::<u64>::empty().push(addr) =~= seq![addr]);
        },
        _ => {},
    }
}

/// While the tracker has room, the pages of a segment are allocated once
/// each and never again: what is remembered afterwards is what was
/// remembered before and then the pages allocated, without a page in it
/// twice.
pub proof fn lemma_pages_once(page: int, end: int, kind: MemoryKind, known: Seq<u64>)
    requires
        known.no_duplicates(),
        known.len() + allocations(page_steps(page, end, kind, known)).len() <= MAX_TRACKED,
    ensures
        known_after(page, end, known) == known + allocations(page_steps(page, end, kind, known)),
        (known + allocations(page_steps(page, end, kind, known))).no_duplicates(),
    decreases
            (if end > page {
                end - page
            } else {
                0
            }),
{
    if page >= end {
        assert(known + Seq::<u64>::empty() =~= known);
    } else if known.contains(page as u64) {
        lemma_pages_once(page + 4096, end, kind, known);
    } else {
        let first = MapStep::AllocatePage { addr: page as u64, kind };
        let rest = page_steps(page + 4096, end, kind, known_with(known, page as u64));
        lemma_allocations_add(seq![first], rest);
        lemma_allocations_one(first);
        assert(allocations(seq![first] + rest) == seq![page as u64] + allocations(rest));
        let more = known.push(page as u64);
        assert(more.no_duplicates()) by {
            assert forall|i: int, j: int| 0 <= i < more.len() && 0 <= j < more.len() && i != j implies more[i]
                != more[j] by {
                if i < known.len() && j < known.len() {
                } else if i < known.len() {
                    assert(known.contains(known[i]));
                } else {
                    assert(known.contains(known[j]));
                }
            }
        }
        lemma_pages_once(page + 4096, end, kind, more);
        assert(more + allocations(rest) =~= known + (seq![page as u64] + allocations(rest)));
    }
}

/// While the tracker has room, no page is allocated twice from segment `k`
/// on, nor one that is remembered as allocated.
pub proof fn lemma_plan_allocates_once(
    segs: Seq<RtoskSegment>,
    k: int,
    image_len: u64,
    known: Seq<u64>,
)
    requires
        0 <= k,
        known.no_duplicates(),
        known.len() + allocations(plan_from(segs, k, image_len, known)).len() <= MAX_TRACKED,
    ensures
        (known + allocations(plan_from(segs, k, image_len, known))).no_duplicates(),
    decreases segs.len() - k,
{
    let plan = plan_from(segs, k, image_len, known);
    if k >= segs.len() {
        assert(known + allocations(plan) =~= known);
    } else {
        let seg = segs[k];
        if seg.memory_size == 0 {
            lemma_plan_allocates_once(segs, k + 1, image_len, known);
        } else if overflows(seg) {
            lemma_allocations_one(MapStep::Fail(MapError::AddressOverflow));
            assert(known + allocations(plan) =~= known);
        } else {
            let pages = page_steps(first_page(seg), end_page(seg), kind_of(seg), known);
            let after = known_after(first_page(seg), end_page(seg), known);
            let tail = copy_steps(segs, k, image_len, after);
            let next = plan_from(segs, k + 1, image_len, after);
            lemma_allocations_add(pages, tail);
            assert(allocations(tail) == if file_out_of_bounds(seg, image_len) {
                Seq::<u64>::empty()
            } else {
                allocations(next)
            }) by {
                let copy = MapStep::Copy {
                    file_offset: seg.file_offset,
                    dest: seg.memory_addr,
                    len: seg.file_size,
                };
                let zero = MapStep::ZeroFill {
                    dest: (seg.memory_addr + seg.file_size) as u64,
                    len: (seg.memory_size - seg.file_size) as u64,
                };
                let zeros = zero_steps(segs, k, image_len, after);
                lemma_allocations_one(MapStep::Fail(MapError::FileRangeOutOfBounds));
                lemma_allocations_one(copy);
                lemma_allocations_one(zero);
                lemma_allocations_add(seq![zero], next);
                lemma_allocations_add(seq![copy], zeros);
                assert(Seq::<u64>::empty() + allocations(next) =~= allocations(next));
            }
            lemma_pages_once(first_page(seg), end_page(seg), kind_of(seg), known);
            if file_out_of_bounds(seg, image_len) {
                assert(allocations(pages) + Seq::<u64>::empty() =~= allocations(pages));
            } else {
                lemma_plan_allocates_once(segs, k + 1, image_len, after);
                assert(after + allocations(next) =~= known + (allocations(pages) + allocations(next)));
            }
        }
    }
}

/// A plan that allocates no more pages than the tracker has room for
/// allocates no page twice.
pub proof fn lemma_no_page_twice(segs: Seq<RtoskSegment>, image_len: u64)
    requires
        allocations(map_plan(segs, image_len)).len() <= MAX_TRACKED,
    ensures
        allocations(map_plan(segs, image_len)).no_duplicates(),
{
    lemma_plan_allocates_once(segs, 0, image_len, Seq::empty());
    assert(Seq::<u64>::empty() + allocations(map_plan(segs, image_len)) =~= allocations(
        map_plan(segs, image_len),
    ));
}

/// Whether a run of steps ends in the failure `e`.
pub open spec fn fails_with(steps: Seq<MapStep>, e: MapError) -> bool {
    exists|i: int| 0 <= i < steps.len() && #[trigger] steps[i] == MapStep::Fail(e)
}

/// The steps for the pages of a segment are allocations.
pub proof fn lemma_page_steps_allocate(page: int, end: int, kind: MemoryKind, known: Seq<u64>, i: int)
    requires
        0 <= i < page_steps(page, end, kind, known).len(),
    ensures
        page_steps(page, end, kind, known)[i] is AllocatePage,
    decreases
            (if end > page {
                end - page
            } else {
                0
            }),
{
    if page >= end {
    } else if known.contains(page as u64) {
        lemma_page_steps_allocate(page + 4096, end, kind, known, i);
    } else if i > 0 {
        lemma_page_steps_allocate(page + 4096, end, kind, known_with(known, page as u64), i - 1);
    }
}

/// Where the file bytes of every segment lie inside the image, no step of
/// the plan is a failure for file bytes that do not.
pub proof fn lemma_plan_finds_file_bytes(
    segs: Seq<RtoskSegment>,
    k: int,
    image_len: u64,
    known: Seq<u64>,
    i: int,
)
    requires
        0 <= k,
        forall|j: int| 0 <= j < segs.len() ==> !file_out_of_bounds(#[trigger] segs[j], image_len),
        0 <= i < plan_from(segs, k, image_len, known).len(),
    ensures
        plan_from(segs, k, image_len, known)[i] != MapStep::Fail(MapError::FileRangeOutOfBounds),
    decreases segs.len() - k,
{
    if k < segs.len() {
        let seg = segs[k];
        if seg.memory_size == 0 {
            lemma_plan_finds_file_bytes(segs, k + 1, image_len, known, i);
        } else if overflows(seg) {
        } else {
            let pages = page_steps(first_page(seg), end_page(seg), kind_of(seg), known);
            let after = known_after(first_page(seg), end_page(seg), known);
            if i < pages.len() {
                lemma_page_steps_allocate(first_page(seg), end_page(seg), kind_of(seg), known, i);
            } else {
                let tail = copy_steps(segs, k, image_len, after);
                let zeros = zero_steps(segs, k, image_len, after);
                let next = plan_from(segs, k + 1, image_len, after);
                let t = i - pages.len();
                assert(plan_from(segs, k, image_len, known)[i] == tail[t]);
                let copied: int = if seg.file_size > 0 {
                    1
                } else {
                    0
                };
                let zeroed: int = if seg.memory_size > seg.file_size {
                    1
                } else {
                    0
                };
                if t >= copied + zeroed {
                    lemma_plan_finds_file_bytes(segs, k + 1, image_len, after, t - copied - zeroed);
                    assert(tail[t] == next[t - copied - zeroed]);
                }
            }
        }
    }
}

/// The segments of an image whose file bytes all lie inside it are mapped
/// without a failure for file bytes that do not.
pub proof fn lemma_fitting_segments_map(segs: Seq<RtoskSegment>, image_len: u64)
    requires
        forall|j: int|
            0 <= j < segs.len() ==> (#[trigger] segs[j]).file_offset + segs[j].file_size <= image_len,
    ensures
        !fails_with(map_plan(segs, image_len), MapError::FileRangeOutOfBounds),
{
    assert forall|i: int| 0 <= i < map_plan(segs, image_len).len() implies #[trigger] map_plan(
        segs,
        image_len,
    )[i] != MapStep::Fail(MapError::FileRangeOutOfBounds) by {
        lemma_plan_finds_file_bytes(segs, 0, image_len, Seq::empty(), i);
    }
}

} // verus!
