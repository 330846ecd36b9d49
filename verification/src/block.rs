//! Block devices and the file system on them: the interfaces, and devices
//! that are not brought up yet.

use vstd::prelude::*;

verus! {

/// Bytes in a sector.
pub const SECTOR_SIZE: usize = 512;

/// Why a block operation failed.
#[derive(Clone, Copy, Debug, PartialEq, Eq, Structural)]
pub enum BlockError {
    Io,
    BadParam,
    Unsupported,
}

/// Why a file system operation failed.
#[derive(Clone, Copy, Debug, PartialEq, Eq, Structural)]
pub enum FsError {
    Io,
    NotFound,
    BadFs,
    Unsupported,
}

/// A device that is read and written in sectors.
///
/// What a device does is for the device to say. `may_read` and `may_write`
/// hold of what an operation may answer and leave behind; a device defines
/// them for itself, and its `read` and `write` keep to them. A device that
/// says nothing may answer a read with anything and cannot be written.
pub trait BlockDevice {
    /// Whether the device, as it is, may answer a read of `sector_count`
    /// sectors from sector `lba` on, into a buffer that holds `before`,
    /// with `r`, leaving `after` in the buffer and becoming `next`.
    open spec fn may_read(
        &self,
        lba: u64,
        sector_count: usize,
        before: Seq<u8>,
        next: &Self,
        after: Seq<u8>,
        r: Result<(), BlockError>,
    ) -> bool {
        true
    }

    /// Whether the device, as it is, may answer a write of `sector_count`
    /// sectors with the bytes `data` to sector `lba` on with `r`, becoming
    /// `next`.
    open spec fn may_write(
        &self,
        lba: u64,
        sector_count: usize,
        data: Seq<u8>,
        next: &Self,
        r: Result<(), BlockError>,
    ) -> bool {
        r == Err::<(), BlockError>(BlockError::Unsupported) && next == self
    }

    /// Reads `sector_count` sectors from sector `lba` on into `buffer`.
    fn read(&mut self, lba: u64, sector_count: usize, buffer: &mut Vec<u8>) -> (r: Result<
        (),
        BlockError,
    >)
        ensures
            old(self).may_read(lba, sector_count, old(buffer)@, final(self), final(buffer)@, r),
    ;

    /// Writes `sector_count` sectors from `buffer` to sector `lba` on. A
    /// device that does not say otherwise cannot be written: it answers
    /// `Unsupported` and stays as it is.
    fn write(&mut self, lba: u64, sector_count: usize, buffer: &Vec<u8>) -> (r: Result<
        (),
        BlockError,
    >)
        ensures
            (r == Err::<(), BlockError>(BlockError::Unsupported) && &*final(self) == &*old(self))
                || old(self).may_write(lba, sector_count, buffer@, final(self), r),
    {
        Err(BlockError::Unsupported)
    }
}

/// An AHCI controller that has not been brought up.
#[derive(Clone, Copy, Debug, PartialEq, Eq, Structural)]
pub struct AhciController;

/// An NVMe controller that has not been brought up.
#[derive(Clone, Copy, Debug, PartialEq, Eq, Structural)]
pub struct NvmeController;

/// A virtio block device that has not been brought up.
#[derive(Clone, Copy, Debug, PartialEq, Eq, Structural)]
pub struct VirtioBlk;

impl AhciController {
    pub fn new_uninitialized() -> (c: AhciController) {
        AhciController
    }
}

impl NvmeController {
    pub fn new_uninitialized() -> (c: NvmeController) {
        NvmeController
    }
}

impl VirtioBlk {
    pub fn new_uninitialized() -> (c: VirtioBlk) {
        VirtioBlk
    }
}

impl BlockDevice for AhciController {
    /// The device answers every read with `Unsupported` and changes nothing.
    open spec fn may_read(
        &self,
        lba: u64,
        sector_count: usize,
        before: Seq<u8>,
        next: &Self,
        after: Seq<u8>,
        r: Result<(), BlockError>,
    ) -> bool {
        r == Err::<(), BlockError>(BlockError::Unsupported) && after == before
    }

    fn read(&mut self, lba: u64, sector_count: usize, buffer: &mut Vec<u8>) -> (r: Result<
        (),
        BlockError,
    >)
        ensures
            r == Err::<(), BlockError>(BlockError::Unsupported),
            final(buffer)@ == old(buffer)@,
    {
        Err(BlockError::Unsupported)
    }

    fn write(&mut self, lba: u64, sector_count: usize, buffer: &Vec<u8>) -> (r: Result<(), BlockError>)
        ensures
            r == Err::<(), BlockError>(BlockError::Unsupported),
    {
        Err(BlockError::Unsupported)
    }
}

impl BlockDevice for NvmeController {
    /// The device answers every read with `Unsupported` and changes nothing.
    open spec fn may_read(
        &self,
        lba: u64,
        sector_count: usize,
        before: Seq<u8>,
        next: &Self,
        after: Seq<u8>,
        r: Result<(), BlockError>,
    ) -> bool {
        r == Err::<(), BlockError>(BlockError::Unsupported) && after == before
    }

    fn read(&mut self, lba: u64, sector_count: usize, buffer: &mut Vec<u8>) -> (r: Result<
        (),
        BlockError,
    >)
        ensures
            r == Err::<(), BlockError>(BlockError::Unsupported),
            final(buffer)@ == old(buffer)@,
    {
        Err(BlockError::Unsupported)
    }
}

impl BlockDevice for VirtioBlk {
    /// The device answers every read with `Unsupported` and changes nothing.
    open spec fn may_read(
        &self,
        lba: u64,
        sector_count: usize,
        before: Seq<u8>,
        next: &Self,
        after: Seq<u8>,
        r: Result<(), BlockError>,
    ) -> bool {
        r == Err::<(), BlockError>(BlockError::Unsupported) && after == before
    }

    fn read(&mut self, lba: u64, sector_count: usize, buffer: &mut Vec<u8>) -> (r: Result<
        (),
        BlockError,
    >)
        ensures
            r == Err::<(), BlockError>(BlockError::Unsupported),
            final(buffer)@ == old(buffer)@,
    {
        Err(BlockError::Unsupported)
    }
}

/// A mounted FAT32 volume.
#[derive(Clone, Copy, Debug, PartialEq, Eq, Structural)]
pub struct Fat32;

/// An open file.
#[derive(Clone, Copy, Debug, PartialEq, Eq, Structural)]
pub struct File {
    pub length_bytes: u64,
}

/// The buffer a sector is read into: 512 zero bytes.
pub open spec fn blank_sector() -> Seq<u8> {
    Seq::new(512, |i: int| 0u8)
}

/// Whether `sector` ends, at bytes 510 and 511, with the boot signature
/// `55 AA`.
pub open spec fn has_boot_signature(sector: Seq<u8>) -> bool {
    sector.len() >= 512 && sector[510] == 0x55 && sector[511] == 0xAA
}

/// What mounting makes of the first sector, given how reading it went: a
/// failed read is an I/O error, a sector without the boot signature is no
/// file system.
pub open spec fn mount_verdict(read: Result<(), BlockError>, sector: Seq<u8>) -> Result<Fat32, FsError> {
    if read is Err {
        Err(FsError::Io)
    } else if !has_boot_signature(sector) {
        Err(FsError::BadFs)
    } else {
        Ok(Fat32)
    }
}

impl Fat32 {
    /// Judges the first sector of a device, given how reading it went.
    pub fn check_boot_sector(read: Result<(), BlockError>, sector: &Vec<u8>) -> (r: Result<
        Fat32,
        FsError,
    >)
        ensures
            r == mount_verdict(read, sector@),
    {
        match read {
            Err(_) => {
                return Err(FsError::Io);
            },
            Ok(_) => {},
        }
        if sector.len() < 512 || sector[510] != 0x55 || sector[511] != 0xAA {
            return Err(FsError::BadFs);
        }
        Ok(Fat32)
    }

    /// Mounts the volume on `dev`: asks the device for its first sector,
    /// one sector from sector 0 on into a buffer of 512 zero bytes, and
    /// judges what the device answered and left in the buffer. The device
    /// is left as the read left it.
    pub fn mount<D: BlockDevice>(dev: &mut D) -> (r: Result<Fat32, FsError>)
        ensures
            exists|sector: Seq<u8>, read: Result<(), BlockError>|
                {
                    &&& #[trigger] old(dev).may_read(0, 1, blank_sector(), final(dev), sector, read)
                    &&& r == mount_verdict(read, sector)
                },
    {
        let mut sector: Vec<u8> = Vec::new();
        let mut i: usize = 0;
        while i < SECTOR_SIZE
            invariant
                i <= SECTOR_SIZE,
                sector@.len() == i,
                forall|k: int| 0 <= k < i ==> sector@[k] == 0,
            decreases SECTOR_SIZE - i,
        {
            sector.push(0);
            i = i + 1;
        }
        assert(sector@ =~= blank_sector());
        let read = dev.read(0, 1, &mut sector);
        assert(old(dev).may_read(0, 1, blank_sector(), dev, sector@, read));
        Fat32::check_boot_sector(read, &sector)
    }

    /// Opens a file by its path. No file can be opened yet.
    pub fn open(&self, path: &str) -> (r: Result<File, FsError>)
        ensures
            r == Err::<File, FsError>(FsError::Unsupported),
    {
        Err(FsError::Unsupported)
    }
}

} // verus!
