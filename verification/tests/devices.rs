use rtos_core::block::{AhciController, BlockDevice, BlockError, Fat32, FsError, NvmeController, VirtioBlk, SECTOR_SIZE};
use rtos_core::boot_info::BootInfo;
use rtos_core::fb_check::{check_framebuffer_mapped, mapped_range, probe_failure, validate_framebuffer, FbCheckError};
use rtos_core::validate::FbSoftCheckError;
use rtos_core::format::RtoskSegment;
use rtos_core::framebuffer::Framebuffer;
use rtos_core::framebuffer_info::{FramebufferFormat, FramebufferInfo};
use rtos_core::inspect::{entry_hits, read_header_at, read_segments_at, EntryHit};
use rtos_core::pack::pack;

struct Disk {
    sector: Vec<u8>,
    fail: bool,
}

impl BlockDevice for Disk {
    fn read(&mut self, lba: u64, sector_count: usize, buffer: &mut Vec<u8>) -> Result<(), BlockError> {
        assert_eq!((lba, sector_count, buffer.len()), (0, 1, SECTOR_SIZE));
        if self.fail {
            return Err(BlockError::Io);
        }
        buffer.clear();
        buffer.extend_from_slice(&self.sector);
        Ok(())
    }
}

fn screen(base: u64, width: u32, height: u32, stride: u32) -> Framebuffer {
    let info = FramebufferInfo { base, size: 0, width, height, stride, format: FramebufferFormat::Bgr };
    Framebuffer::from_bootinfo(&BootInfo::from_framebuffer(info)).unwrap()
}

#[test]
fn devices_are_not_brought_up() {
    let mut buf = vec![7u8; 512];
    assert_eq!(AhciController::new_uninitialized().read(0, 1, &mut buf), Err(BlockError::Unsupported));
    assert_eq!(AhciController::new_uninitialized().write(0, 1, &buf), Err(BlockError::Unsupported));
    assert_eq!(NvmeController::new_uninitialized().read(0, 1, &mut buf), Err(BlockError::Unsupported));
    assert_eq!(NvmeController::new_uninitialized().write(0, 1, &buf), Err(BlockError::Unsupported));
    assert_eq!(VirtioBlk::new_uninitialized().read(0, 1, &mut buf), Err(BlockError::Unsupported));
    assert_eq!(VirtioBlk::new_uninitialized().write(0, 1, &buf), Err(BlockError::Unsupported));
    assert_eq!(buf, vec![7u8; 512]);
    assert_eq!(Fat32::mount(&mut AhciController::new_uninitialized()), Err(FsError::Io));
}

#[test]
fn mount_needs_the_boot_signature() {
    let mut sector = vec![0u8; 512];
    assert_eq!(Fat32::mount(&mut Disk { sector: sector.clone(), fail: false }), Err(FsError::BadFs));
    sector[510] = 0x55;
    assert_eq!(Fat32::mount(&mut Disk { sector: sector.clone(), fail: false }), Err(FsError::BadFs));
    sector[511] = 0xAA;
    let fs = Fat32::mount(&mut Disk { sector: sector.clone(), fail: false }).unwrap();
    assert_eq!(fs.open("KERNEL.KIMG").err(), Some(FsError::Unsupported));
    assert_eq!(Fat32::mount(&mut Disk { sector: sector.clone(), fail: true }), Err(FsError::Io));
    assert_eq!(Fat32::mount(&mut Disk { sector: sector[..511].to_vec(), fail: false }), Err(FsError::BadFs));
    assert_eq!(Fat32::check_boot_sector(Err(BlockError::BadParam), &sector), Err(FsError::Io));
    assert_eq!(Fat32::check_boot_sector(Ok(()), &sector), Ok(Fat32));
    let mut disk = Disk { sector, fail: false };
    assert_eq!(disk.write(0, 1, &vec![0u8; 512]), Err(BlockError::Unsupported));
}

#[test]
fn page_table_check() {
    let fb = screen(0x1000, 4, 3, 5);
    assert_eq!(mapped_range(&fb), (0x1000, 0x1000 + 5 * 3 * 4 - 1));
    assert_eq!(mapped_range(&screen(0x1000, 0, 0, 0)), (0x1000, 0x1000));
    assert_eq!(mapped_range(&screen(u64::MAX - 3, 1, 2, 1)), (u64::MAX - 3, u64::MAX));
    assert_eq!(check_framebuffer_mapped(&fb, true, true), Ok(()));
    assert_eq!(check_framebuffer_mapped(&fb, false, true), Err(FbCheckError::UnmappedStart));
    assert_eq!(check_framebuffer_mapped(&fb, true, false), Err(FbCheckError::UnmappedEnd));
    assert_eq!(check_framebuffer_mapped(&fb, false, false), Err(FbCheckError::UnmappedStart));
    let far = screen(0x0000_9000_0000_0000, 4, 3, 5);
    assert_eq!(check_framebuffer_mapped(&far, false, false), Err(FbCheckError::NonCanonicalVa));
    let line = screen(0x1000, 4, 1, 5);
    assert_eq!(check_framebuffer_mapped(&line, true, true), Ok(()));
    assert_eq!(check_framebuffer_mapped(&line, true, false), Err(FbCheckError::UnmappedEnd));
    assert_eq!(check_framebuffer_mapped(&screen(0x1000, 0, 0, 5), true, true), Ok(()));
}

#[test]
fn inspector_reads_what_is_there() {
    let img = pack(&[1u8; 8], None, 4096).unwrap();
    let h = read_header_at(&img, 0).unwrap();
    assert_eq!((h.entry64, h.seg_count, h.header_len), (0x20_0000, 1, 80));
    assert!(read_header_at(&img, 49).is_none());
    assert!(read_header_at(&img, usize::MAX).is_none());
    let at_48 = read_header_at(&img, 48).unwrap();
    assert!(!at_48.is_valid());
    assert_eq!(read_segments_at(&img, 40, 1), vec![RtoskSegment::new(80, 0x20_0000, 8, 8, 1)]);
    assert_eq!(read_segments_at(&img, 40, 5).len(), 1);
    assert_eq!(read_segments_at(&img, 8, 5).len(), 2);
    assert!(read_segments_at(&img, 49, 5).is_empty());
    assert!(read_segments_at(&img, 89, 5).is_empty());
    assert!(read_segments_at(&img, 40, 0).is_empty());
}

#[test]
fn inspector_finds_the_entry() {
    let segs = vec![
        RtoskSegment::new(0x80, 0x20_0000, 0x1000, 0x100, 1),
        RtoskSegment::new(0x180, 0x20_0800, 0x1000, 0x100, 0),
        RtoskSegment::new(u64::MAX - 1, 0x20_0000, 0, 0, 0),
        RtoskSegment::new(u64::MAX - 1, u64::MAX - 0x10, 0x100, 0, 0),
    ];
    assert_eq!(entry_hits(0x20_0000, &segs), vec![EntryHit { segment: 0, delta: 0, file_offset: 0x80 }]);
    assert_eq!(
        entry_hits(0x20_0810, &segs),
        vec![EntryHit { segment: 0, delta: 0x810, file_offset: 0x890 }, EntryHit { segment: 1, delta: 0x10, file_offset: 0x190 }]
    );
    assert_eq!(entry_hits(0x20_1000, &segs), vec![EntryHit { segment: 1, delta: 0x800, file_offset: 0x980 }]);
    assert!(entry_hits(0x20_1800, &segs).is_empty());
    assert!(entry_hits(0x1F_FFFF, &segs).is_empty());
    assert_eq!(entry_hits(u64::MAX - 2, &segs), vec![EntryHit { segment: 3, delta: 0xE, file_offset: u64::MAX }]);
    assert!(entry_hits(u64::MAX, &segs).is_empty());
    assert!(entry_hits(5, &vec![]).is_empty());
}

#[test]
fn faults_of_the_probe_by_their_other_name() {
    assert_eq!(probe_failure(FbSoftCheckError::NonCanonicalVa), Some(FbCheckError::NonCanonicalVa));
    assert_eq!(
        probe_failure(FbSoftCheckError::StrideDeltaMismatch { delta_bytes: 1, expect_bytes: 2 }),
        Some(FbCheckError::StrideDeltaMismatch { delta_bytes: 1, expect_bytes: 2 })
    );
    assert_eq!(
        probe_failure(FbSoftCheckError::ProbeStartMismatch { wrote: 3, read: 4 }),
        Some(FbCheckError::ProbeWriteMismatchStart { wrote: 3, read_back: 4 })
    );
    assert_eq!(
        probe_failure(FbSoftCheckError::ProbeEndMismatch { wrote: 5, read: 6 }),
        Some(FbCheckError::ProbeWriteMismatchEnd { wrote: 5, read_back: 6 })
    );
    assert_eq!(probe_failure(FbSoftCheckError::ZeroDims), None);
    assert_eq!(probe_failure(FbSoftCheckError::MisalignedPtr), None);
}

#[test]
fn a_framebuffer_is_sound_if_mapping_and_probe_are() {
    let fb = screen(0x1000, 4, 3, 5);
    let bad = Err(FbSoftCheckError::ProbeEndMismatch { wrote: 1, read: 2 });
    assert!(validate_framebuffer(&fb, None, Ok(())));
    assert!(validate_framebuffer(&fb, Some((true, true)), Ok(())));
    assert!(!validate_framebuffer(&fb, Some((true, false)), Ok(())));
    assert!(!validate_framebuffer(&fb, Some((false, true)), Ok(())));
    assert!(!validate_framebuffer(&fb, None, bad));
    assert!(!validate_framebuffer(&fb, None, Err(FbSoftCheckError::ProbeStartMismatch { wrote: 1, read: 2 })));
    assert!(!validate_framebuffer(&fb, Some((true, true)), bad));
    assert!(!validate_framebuffer(&fb, None, Err(FbSoftCheckError::ZeroDims)));
    assert!(!validate_framebuffer(&fb, Some((true, true)), Err(FbSoftCheckError::MisalignedPtr)));
    assert!(!validate_framebuffer(&fb, None, Err(FbSoftCheckError::NonCanonicalVa)));
    let line = screen(0x1000, 4, 1, 5);
    assert!(validate_framebuffer(&line, None, Ok(())));
    assert!(validate_framebuffer(&line, Some((true, true)), Ok(())));
}

struct Counting {
    reads: u32,
    written: Vec<u8>,
}

impl BlockDevice for Counting {
    fn read(&mut self, _lba: u64, _sector_count: usize, buffer: &mut Vec<u8>) -> Result<(), BlockError> {
        self.reads += 1;
        buffer[510] = 0x55;
        buffer[511] = 0xAA;
        Ok(())
    }

    fn write(&mut self, _lba: u64, _sector_count: usize, buffer: &Vec<u8>) -> Result<(), BlockError> {
        self.written = buffer.clone();
        Ok(())
    }
}

#[test]
fn mount_reads_the_first_sector_once() {
    let mut dev = Counting { reads: 0, written: Vec::new() };
    assert_eq!(Fat32::mount(&mut dev), Ok(Fat32));
    assert_eq!(dev.reads, 1);
    assert_eq!(dev.write(0, 1, &vec![1, 2, 3]), Ok(()));
    assert_eq!(dev.written, vec![1, 2, 3]);
}
