use rtos_core::format::RtoskSegment;
use rtos_core::map::{MapError, MapStep, MemoryKind, PageTracker, SegmentMapper, MAX_TRACKED};
use std::collections::BTreeMap;

/// A firmware that gives every page once, and memory that is written
/// through the plan's copies and fills.
struct Machine {
    pages: Vec<(u64, MemoryKind)>,
    memory: BTreeMap<u64, u8>,
    refuse: Option<u64>,
}

impl Machine {
    fn new() -> Machine {
        Machine { pages: Vec::new(), memory: BTreeMap::new(), refuse: None }
    }

    fn run(&mut self, segments: Vec<RtoskSegment>, image: &[u8]) -> (MapStep, Vec<MapStep>) {
        let mut mapper = SegmentMapper::new(segments, image.len() as u64);
        let mut log = Vec::new();
        let mut ok = true;
        loop {
            let step = mapper.next(ok);
            match step {
                MapStep::AllocatePage { addr, kind } => {
                    ok = self.refuse != Some(addr) && !self.pages.iter().any(|p| p.0 == addr);
                    if ok {
                        self.pages.push((addr, kind));
                    }
                }
                MapStep::Copy { file_offset, dest, len } => {
                    for i in 0..len {
                        self.memory.insert(dest + i, image[(file_offset + i) as usize]);
                    }
                }
                MapStep::ZeroFill { dest, len } => {
                    for i in 0..len {
                        self.memory.insert(dest + i, 0);
                    }
                }
                MapStep::Done | MapStep::Fail(_) => {
                    assert_eq!(mapper.next(true), MapStep::Done);
                    return (step, log);
                }
            }
            log.push(step);
        }
    }
}

fn image(n: usize) -> Vec<u8> {
    (0..n).map(|i| (i as u8) ^ 0xA5).collect()
}

#[test]
fn overlapping_segments_share_one_page() {
    let img = image(0x200);
    let segs = vec![RtoskSegment::new(0x40, 0x20_0000, 0x100, 0x100, 1), RtoskSegment::new(0x140, 0x20_0048, 0x40, 0x40, 0)];
    let mut m = Machine::new();
    let (end, log) = m.run(segs, &img);
    assert_eq!(end, MapStep::Done);
    assert_eq!(m.pages, vec![(0x20_0000, MemoryKind::LoaderCode)]);
    assert_eq!(
        log,
        vec![
            MapStep::AllocatePage { addr: 0x20_0000, kind: MemoryKind::LoaderCode },
            MapStep::Copy { file_offset: 0x40, dest: 0x20_0000, len: 0x100 },
            MapStep::Copy { file_offset: 0x140, dest: 0x20_0048, len: 0x40 },
        ]
    );
    assert_eq!(m.memory[&0x20_0048], img[0x140]);
    assert_eq!(m.memory[&0x20_0047], img[0x40 + 0x47]);
    assert_eq!(m.memory[&0x20_0088], img[0x40 + 0x88]);
}

#[test]
fn pages_cover_the_memory_range() {
    let img = image(0x10);
    let segs = vec![RtoskSegment::new(0, 0x20_0FF0, 0x1020, 0x10, 0)];
    let mut m = Machine::new();
    let (end, log) = m.run(segs, &img);
    assert_eq!(end, MapStep::Done);
    assert_eq!(
        log,
        vec![
            MapStep::AllocatePage { addr: 0x20_0000, kind: MemoryKind::LoaderData },
            MapStep::AllocatePage { addr: 0x20_1000, kind: MemoryKind::LoaderData },
            MapStep::AllocatePage { addr: 0x20_2000, kind: MemoryKind::LoaderData },
            MapStep::Copy { file_offset: 0, dest: 0x20_0FF0, len: 0x10 },
            MapStep::ZeroFill { dest: 0x20_1000, len: 0x1010 },
        ]
    );
    assert_eq!(m.memory[&0x20_0FF0], img[0]);
    assert_eq!(m.memory[&0x20_1000], 0);
    assert_eq!(m.memory[&0x20_200F], 0);
    assert!(!m.memory.contains_key(&0x20_2010));
}

#[test]
fn page_aligned_segment_takes_exactly_its_pages() {
    let img = image(0x10);
    let mut m = Machine::new();
    let (_, log) = m.run(vec![RtoskSegment::new(0, 0x30_0000, 0x2000, 0, 1)], &img);
    assert_eq!(
        log,
        vec![
            MapStep::AllocatePage { addr: 0x30_0000, kind: MemoryKind::LoaderCode },
            MapStep::AllocatePage { addr: 0x30_1000, kind: MemoryKind::LoaderCode },
            MapStep::ZeroFill { dest: 0x30_0000, len: 0x2000 },
        ]
    );
}

#[test]
fn segments_without_memory_are_passed_over() {
    let img = image(0x10);
    let mut m = Machine::new();
    let (end, log) = m.run(vec![RtoskSegment::new(0, 0x30_0000, 0, 0x10, 1), RtoskSegment::new(0, 0x40_0000, 0, 0, 0)], &img);
    assert_eq!(end, MapStep::Done);
    assert!(log.is_empty());
    let (end, log) = m.run(vec![], &img);
    assert_eq!(end, MapStep::Done);
    assert!(log.is_empty());
}

#[test]
fn file_bytes_outside_the_image_fail_after_allocation() {
    let img = image(0x10);
    let mut m = Machine::new();
    let (end, log) = m.run(vec![RtoskSegment::new(1, 0x30_0000, 0x10, 0x10, 0), RtoskSegment::new(0, 0x40_0000, 0x10, 0x10, 0)], &img);
    assert_eq!(end, MapStep::Fail(MapError::FileRangeOutOfBounds));
    assert_eq!(log, vec![MapStep::AllocatePage { addr: 0x30_0000, kind: MemoryKind::LoaderData }]);
    let mut m = Machine::new();
    let (end, _) = m.run(vec![RtoskSegment::new(u64::MAX, 0x30_0000, 0x10, 2, 0)], &img);
    assert_eq!(end, MapStep::Fail(MapError::FileRangeOutOfBounds));
    let mut m = Machine::new();
    let (end, _) = m.run(vec![RtoskSegment::new(0, 0x30_0000, 0x10, 0x10, 0)], &img);
    assert_eq!(end, MapStep::Done);
}

#[test]
fn a_refused_page_ends_the_plan() {
    let img = image(0x10);
    let mut m = Machine::new();
    m.refuse = Some(0x30_1000);
    let (end, log) = m.run(vec![RtoskSegment::new(0, 0x30_0000, 0x3000, 0x10, 0)], &img);
    assert_eq!(end, MapStep::Fail(MapError::AllocationRefused));
    assert_eq!(
        log,
        vec![
            MapStep::AllocatePage { addr: 0x30_0000, kind: MemoryKind::LoaderData },
            MapStep::AllocatePage { addr: 0x30_1000, kind: MemoryKind::LoaderData },
        ]
    );
    assert!(m.memory.is_empty());
}

#[test]
fn a_range_beyond_the_address_space_fails() {
    let img = image(0x10);
    let mut m = Machine::new();
    let (end, log) = m.run(vec![RtoskSegment::new(0, u64::MAX - 0x10, 0x20, 0, 0)], &img);
    assert_eq!(end, MapStep::Fail(MapError::AddressOverflow));
    assert!(log.is_empty());
    let mut m = Machine::new();
    let (end, _) = m.run(vec![RtoskSegment::new(0, 8, u64::MAX, 0, 0)], &img);
    assert_eq!(end, MapStep::Fail(MapError::AddressOverflow));
    let mut m = Machine::new();
    let (end, log) = m.run(vec![RtoskSegment::new(0, u64::MAX - 0x1FFF, 0x1000, 0, 0)], &img);
    assert_eq!(end, MapStep::Done);
    assert_eq!(
        log,
        vec![
            MapStep::AllocatePage { addr: u64::MAX - 0x1FFF, kind: MemoryKind::LoaderData },
            MapStep::ZeroFill { dest: u64::MAX - 0x1FFF, len: 0x1000 },
        ]
    );
}

#[test]
fn tracker_remembers_up_to_its_room() {
    let mut t = PageTracker::new();
    assert!(!t.seen(0));
    for i in 0..MAX_TRACKED as u64 {
        assert!(t.track(i * 0x1000));
    }
    assert!(t.seen(0));
    assert!(t.seen(4095 * 0x1000));
    assert!(!t.track(4096 * 0x1000));
    assert!(!t.seen(4096 * 0x1000));
    assert_eq!(t.pages.len(), MAX_TRACKED);
}

#[test]
fn a_full_tracker_asks_for_a_page_again() {
    let img = image(0x10);
    let pages = MAX_TRACKED as u64 + 1;
    let segs = vec![RtoskSegment::new(0, 0x100_0000, pages * 0x1000, 0, 0), RtoskSegment::new(0, 0x100_0000 + 4096 * 0x1000, 1, 0, 0)];
    let mut m = Machine::new();
    let (end, log) = m.run(segs, &img);
    assert_eq!(end, MapStep::Fail(MapError::AllocationRefused));
    assert_eq!(m.pages.len() as u64, pages);
    assert_eq!(log.last(), Some(&MapStep::AllocatePage { addr: 0x100_0000 + 4096 * 0x1000, kind: MemoryKind::LoaderData }));
}

#[test]
fn validity_of_a_mapper() {
    let mut mapper = SegmentMapper::new(vec![RtoskSegment::new(0, 0x1000, 0x2000, 0, 0)], 0);
    assert!(mapper.is_wf());
    assert_eq!(mapper.next(true), MapStep::AllocatePage { addr: 0x1000, kind: MemoryKind::LoaderData });
    assert!(mapper.is_wf());
    mapper.page = 0x1001;
    assert!(!mapper.is_wf());
    mapper.page = 0x2000;
    mapper.index = 1;
    assert!(!mapper.is_wf());
    mapper.index = 0;
    assert!(mapper.is_wf());
    assert_eq!(mapper.next(true), MapStep::AllocatePage { addr: 0x2000, kind: MemoryKind::LoaderData });
    assert_eq!(mapper.next(true), MapStep::ZeroFill { dest: 0x1000, len: 0x2000 });
    assert_eq!(mapper.next(true), MapStep::Done);
    assert!(mapper.is_wf());
}
