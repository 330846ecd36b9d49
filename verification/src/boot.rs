//! The loader's order of work.
//!
//! The loader itself only talks to the firmware. What to ask for next, and
//! what to make of each answer, is decided here: `BootFlow` takes the
//! outcome of the last request and gives the next one. A failure anywhere
//! ends the boot with the firmware's status or a load error, after the
//! buffer that holds the kernel file has been given back.

use vstd::prelude::*;
use crate::aspect::AspectRatio;
use crate::boot_info::BootInfo;
use crate::format::{RtoskHeader, RtoskSegment, HeaderView, RTOSK_MAGIC};
use crate::framebuffer_info::FramebufferInfo;
use crate::parse::{RtoskError, find_magic, occurs_at, parse_header_and_segments, parse_image_spec};

verus! {

/// Pages of stack that the kernel is started with.
pub const STACK_PAGES: usize = 8;

/// Pages that hold the boot information.
pub const BOOT_INFO_PAGES: usize = 1;

/// The least page size the loader works with.
pub const MIN_PAGE_SIZE: u64 = 4096;

/// The status a failed boot ends with.
#[derive(Clone, Copy, Debug, PartialEq, Eq, Structural)]
pub enum BootStatus {
    /// The kernel image could not be loaded.
    LoadError,
    /// The kernel file ended before all of it was read.
    EndOfFile,
    /// What the firmware answered, by its code.
    Firmware(usize),
}

/// The requests of the loader, which are also the steps a boot can fail at.
#[derive(Clone, Copy, Debug, PartialEq, Eq, Structural)]
pub enum BootStep {
    OpenLoadedImage,
    OpenSimpleFs,
    OpenRootDir,
    OpenKernel,
    KernelSize,
    AllocateBuffer,
    ReadKernel,
    LocateImage,
    PrepareStack,
    MapSegments,
    CheckEntry,
}

/// What the loader is to do next.
#[derive(Clone, Copy, Debug, PartialEq, Eq, Structural)]
pub enum BootAction {
    /// Open the loaded-image protocol on the loader's own handle.
    OpenLoadedImage,
    /// Open the file system of the device the loader came from.
    OpenSimpleFs,
    /// Open the root directory of that file system.
    OpenRootDir,
    /// Open the kernel file: `\EFI\BOOT\KERNEL.KIMG` where `absolute`,
    /// else `KERNEL.KIMG`.
    OpenKernel { absolute: bool },
    /// Ask for the size of the kernel file; answer with `Value`.
    QueryFileSize,
    /// Allocate `pages` pages anywhere for the file; answer with `Value`,
    /// the address.
    AllocateBuffer { pages: usize },
    /// Read `len` bytes of the file into the buffer.
    ReadKernel { len: usize },
    /// Find and decode the image in the buffer; answer with `Located`.
    LocateImage,
    /// Allocate `pages` pages anywhere for the stack; answer with `Value`.
    AllocateStack { pages: usize },
    /// Allocate `pages` pages anywhere for the boot information; answer
    /// with `Value`.
    AllocateBootInfo { pages: usize },
    /// Fill `bytes` bytes from `addr` on with zeros.
    ZeroBootInfo { addr: u64, bytes: u64 },
    /// Map the segments of the image.
    MapSegments,
    /// Give the buffer of `pages` pages at `addr` back.
    FreeBuffer { addr: u64, pages: usize },
    /// Set a display mode for `aspect` and describe the framebuffer; answer
    /// with `Display`.
    QueryDisplay { aspect: AspectRatio },
    /// Write `info` to the boot information page at `addr`.
    WriteBootInfo { addr: u64, info: BootInfo },
    /// Leave the firmware's boot services.
    ExitBootServices,
    /// Jump to the kernel: `boot_info` as its argument, `stack_top` as its
    /// stack pointer. Nothing comes back.
    Jump { entry: u64, stack_top: u64, boot_info: u64 },
    /// End the boot with `status`; `step` is where it failed.
    Return { step: BootStep, status: BootStatus },
}

/// The outcome of a request.
#[derive(Clone, Copy, Debug, PartialEq, Eq, Structural)]
pub enum BootEvent {
    /// It was done.
    Done,
    /// It was done and gave a number: a size or an address.
    Value(u64),
    /// The image was found in the buffer and decoded.
    Located { entry64: u64, page_size: u32 },
    /// The display was set up.
    Display(FramebufferInfo),
    /// It failed with this status.
    Failed(BootStatus),
}

/// How far the boot has come: each stage is the request whose outcome is
/// awaited.
#[derive(Clone, Copy, Debug, PartialEq, Eq, Structural)]
pub enum BootStage {
    Start,
    OpenLoadedImage,
    OpenSimpleFs,
    OpenRootDir,
    OpenKernelAbsolute,
    OpenKernelRelative,
    QueryFileSize,
    AllocateBuffer,
    ReadKernel,
    LocateImage,
    AllocateStack,
    AllocateBootInfo,
    ZeroBootInfo,
    MapSegments,
    FreeBuffer,
    QueryDisplay,
    WriteBootInfo,
    ExitBootServices,
    /// The buffer is given back before the boot ends in failure.
    Releasing,
    /// The boot has ended: the kernel runs, or the loader has returned.
    Ended,
}

/// The state of a boot.
#[derive(Clone, Copy, Debug, PartialEq, Eq, Structural)]
pub struct BootFlow {
    pub stage: BootStage,
    /// Size of the kernel file in bytes.
    pub kernel_size: u64,
    /// Whether the buffer for the kernel file is allocated.
    pub buffer_live: bool,
    pub buffer_addr: u64,
    pub buffer_pages: usize,
    /// Entry address from the image's header.
    pub entry64: u64,
    /// Page size: that of the header, but at least 4096.
    pub page_size: u64,
    pub stack_top: u64,
    pub boot_info: u64,
    pub framebuffer: FramebufferInfo,
    /// Where and why the boot failed, while the buffer is given back.
    pub failed_step: BootStep,
    pub failed_status: BootStatus,
}

/// The number of pages that hold `size` bytes.
pub open spec fn pages_for(size: u64) -> nat {
    ((size + 4095) / 4096) as nat
}

/// The state and request when `f` fails at `step` with `status`: the buffer
/// is given back first if it is allocated.
pub open spec fn flow_fail(f: BootFlow, step: BootStep, status: BootStatus) -> (BootFlow, BootAction) {
    if f.buffer_live {
        (
            BootFlow { stage: BootStage::Releasing, failed_step: step, failed_status: status, ..f },
            BootAction::FreeBuffer { addr: f.buffer_addr, pages: f.buffer_pages },
        )
    } else {
        (BootFlow { stage: BootStage::Ended, ..f }, BootAction::Return { step, status })
    }
}

/// The status of a failed request: the one the event brings, or a load
/// error where the event is not the one awaited.
pub open spec fn status_of(e: BootEvent) -> BootStatus {
    match e {
        BootEvent::Failed(s) => s,
        _ => BootStatus::LoadError,
    }
}

/// The state and request after a request that only has to succeed.
pub open spec fn flow_then(
    f: BootFlow,
    e: BootEvent,
    step: BootStep,
    stage: BootStage,
    action: BootAction,
) -> (BootFlow, BootAction) {
    match e {
        BootEvent::Failed(s) => flow_fail(f, step, s),
        _ => (BootFlow { stage, ..f }, action),
    }
}

/// The next state and request of a boot, given the outcome of its last
/// request.
pub open spec fn flow_next(f: BootFlow, e: BootEvent) -> (BootFlow, BootAction) {
    match f.stage {
        BootStage::Start => (
            BootFlow { stage: BootStage::OpenLoadedImage, ..f },
            BootAction::OpenLoadedImage,
        ),
        BootStage::OpenLoadedImage => flow_then(
            f,
            e,
            BootStep::OpenLoadedImage,
            BootStage::OpenSimpleFs,
            BootAction::OpenSimpleFs,
        ),
        BootStage::OpenSimpleFs => flow_then(
            f,
            e,
            BootStep::OpenSimpleFs,
            BootStage::OpenRootDir,
            BootAction::OpenRootDir,
        ),
        BootStage::OpenRootDir => flow_then(
            f,
            e,
            BootStep::OpenRootDir,
            BootStage::OpenKernelAbsolute,
            BootAction::OpenKernel { absolute: true },
        ),
        BootStage::OpenKernelAbsolute => match e {
            BootEvent::Failed(_) => (
                BootFlow { stage: BootStage::OpenKernelRelative, ..f },
                BootAction::OpenKernel { absolute: false },
            ),
            _ => (BootFlow { stage: BootStage::QueryFileSize, ..f }, BootAction::QueryFileSize),
        },
        BootStage::OpenKernelRelative => flow_then(
            f,
            e,
            BootStep::OpenKernel,
            BootStage::QueryFileSize,
            BootAction::QueryFileSize,
        ),
        BootStage::QueryFileSize => match e {
            BootEvent::Value(size) if pages_for(size) <= usize::MAX => (
                BootFlow { stage: BootStage::AllocateBuffer, kernel_size: size, ..f },
                BootAction::AllocateBuffer { pages: pages_for(size) as usize },
            ),
            _ => flow_fail(f, BootStep::KernelSize, BootStatus::LoadError),
        },
        BootStage::AllocateBuffer => match e {
            BootEvent::Value(addr) => (
                BootFlow {
                    stage: BootStage::ReadKernel,
                    buffer_live: true,
                    buffer_addr: addr,
                    buffer_pages: pages_for(f.kernel_size) as usize,
                    ..f
                },
                BootAction::ReadKernel { len: f.kernel_size as usize },
            ),
            _ => flow_fail(f, BootStep::AllocateBuffer, status_of(e)),
        },
        BootStage::ReadKernel => flow_then(
            f,
            e,
            BootStep::ReadKernel,
            BootStage::LocateImage,
            BootAction::LocateImage,
        ),
        BootStage::LocateImage => match e {
            BootEvent::Located { entry64, page_size } => (
                BootFlow {
                    stage: BootStage::AllocateStack,
                    entry64,
                    page_size: if page_size < 4096 {
                        4096
                    } else {
                        page_size as u64
                    },
                    ..f
                },
                BootAction::AllocateStack { pages: STACK_PAGES },
            ),
            _ => flow_fail(f, BootStep::LocateImage, BootStatus::LoadError),
        },
        BootStage::AllocateStack => match e {
            BootEvent::Value(base) if base + 8 * f.page_size <= u64::MAX => (
                BootFlow {
                    stage: BootStage::AllocateBootInfo,
                    stack_top: (base + 8 * f.page_size) as u64,
                    ..f
                },
                BootAction::AllocateBootInfo { pages: BOOT_INFO_PAGES },
            ),
            _ => flow_fail(f, BootStep::PrepareStack, status_of(e)),
        },
        BootStage::AllocateBootInfo => match e {
            BootEvent::Value(base) => (
                BootFlow { stage: BootStage::ZeroBootInfo, boot_info: base, ..f },
                BootAction::ZeroBootInfo { addr: base, bytes: f.page_size },
            ),
            _ => flow_fail(f, BootStep::PrepareStack, status_of(e)),
        },
        BootStage::ZeroBootInfo => flow_then(
            f,
            e,
            BootStep::PrepareStack,
            BootStage::MapSegments,
            BootAction::MapSegments,
        ),
        BootStage::MapSegments => match e {
            BootEvent::Failed(s) => flow_fail(f, BootStep::MapSegments, s),
            _ => (
                BootFlow { stage: BootStage::FreeBuffer, buffer_live: false, ..f },
                BootAction::FreeBuffer { addr: f.buffer_addr, pages: f.buffer_pages },
            ),
        },
        BootStage::FreeBuffer => (
            BootFlow { stage: BootStage::QueryDisplay, ..f },
            BootAction::QueryDisplay { aspect: AspectRatio::Ratio16_9 },
        ),
        BootStage::QueryDisplay => {
            let fb = match e {
                BootEvent::Display(info) => info,
                _ => FramebufferInfo::none(),
            };
            if f.entry64 == 0 {
                (
                    BootFlow { stage: BootStage::Ended, framebuffer: fb, ..f },
                    BootAction::Return { step: BootStep::CheckEntry, status: BootStatus::LoadError },
                )
            } else {
                (
                    BootFlow { stage: BootStage::WriteBootInfo, framebuffer: fb, ..f },
                    BootAction::WriteBootInfo { addr: f.boot_info, info: BootInfo { framebuffer: fb } },
                )
            }
        },
        BootStage::WriteBootInfo => (
            BootFlow { stage: BootStage::ExitBootServices, ..f },
            BootAction::ExitBootServices,
        ),
        BootStage::ExitBootServices => (
            BootFlow { stage: BootStage::Ended, ..f },
            BootAction::Jump { entry: f.entry64, stack_top: f.stack_top, boot_info: f.boot_info },
        ),
        BootStage::Releasing => (
            BootFlow { stage: BootStage::Ended, buffer_live: false, ..f },
            BootAction::Return { step: f.failed_step, status: f.failed_status },
        ),
        BootStage::Ended => (
            f,
            BootAction::Return { step: f.failed_step, status: f.failed_status },
        ),
    }
}

/// Computes the number of pages that hold `size` bytes.
pub fn page_count(size: u64) -> (pages: u64)
    ensures
        pages == pages_for(size),
{
    size / 4096 + if size % 4096 != 0 { 1u64 } else { 0u64 }
}

impl BootFlow {
    /// The state of a boot that has not begun.
    pub open spec fn initial() -> BootFlow {
        BootFlow {
            stage: BootStage::Start,
            kernel_size: 0,
            buffer_live: false,
            buffer_addr: 0,
            buffer_pages: 0,
            entry64: 0,
            page_size: 4096,
            stack_top: 0,
            boot_info: 0,
            framebuffer: FramebufferInfo::none(),
            failed_step: BootStep::OpenLoadedImage,
            failed_status: BootStatus::LoadError,
        }
    }

    /// A boot that has not begun. The first `step` gives the first request,
    /// whatever the event.
    pub fn new() -> (f: BootFlow)
        ensures
            f == BootFlow::initial(),
    {
        BootFlow {
            stage: BootStage::Start,
            kernel_size: 0,
            buffer_live: false,
            buffer_addr: 0,
            buffer_pages: 0,
            entry64: 0,
            page_size: 4096,
            stack_top: 0,
            boot_info: 0,
            framebuffer: FramebufferInfo::empty(),
            failed_step: BootStep::OpenLoadedImage,
            failed_status: BootStatus::LoadError,
        }
    }

    /// Ends the boot at `step` with `status`, giving the buffer back first.
    fn fail(&mut self, step: BootStep, status: BootStatus) -> (action: BootAction)
        ensures
            (*final(self), action) == flow_fail(*old(self), step, status),
    {
        if self.buffer_live {
            self.stage = BootStage::Releasing;
            self.failed_step = step;
            self.failed_status = status;
            BootAction::FreeBuffer { addr: self.buffer_addr, pages: self.buffer_pages }
        } else {
            self.stage = BootStage::Ended;
            BootAction::Return { step, status }
        }
    }

    /// Goes on to `stage` with `action`, unless the last request failed.
    fn proceed(&mut self, event: BootEvent, step: BootStep, stage: BootStage, action: BootAction) -> (next:
        BootAction)
        ensures
            (*final(self), next) == flow_then(*old(self), event, step, stage, action),
    {
        match event {
            BootEvent::Failed(s) => self.fail(step, s),
            _ => {
                self.stage = stage;
                action
            },
        }
    }

    /// Takes the outcome of the last request and gives the next one.
    pub fn step(&mut self, event: BootEvent) -> (action: BootAction)
        ensures
            (*final(self), action) == flow_next(*old(self), event),
    {
        let status = match event {
            BootEvent::Failed(s) => s,
            _ => BootStatus::LoadError,
        };
        match self.stage {
            BootStage::Start => {
                self.stage = BootStage::OpenLoadedImage;
                BootAction::OpenLoadedImage
            },
            BootStage::OpenLoadedImage => self.proceed(
                event,
                BootStep::OpenLoadedImage,
                BootStage::OpenSimpleFs,
                BootAction::OpenSimpleFs,
            ),
            BootStage::OpenSimpleFs => self.proceed(
                event,
                BootStep::OpenSimpleFs,
                BootStage::OpenRootDir,
                BootAction::OpenRootDir,
            ),
            BootStage::OpenRootDir => self.proceed(
                event,
                BootStep::OpenRootDir,
                BootStage::OpenKernelAbsolute,
                BootAction::OpenKernel { absolute: true },
            ),
            BootStage::OpenKernelAbsolute => match event {
                BootEvent::Failed(_) => {
                    self.stage = BootStage::OpenKernelRelative;
                    BootAction::OpenKernel { absolute: false }
                },
                _ => {
                    self.stage = BootStage::QueryFileSize;
                    BootAction::QueryFileSize
                },
            },
            BootStage::OpenKernelRelative => self.proceed(
                event,
                BootStep::OpenKernel,
                BootStage::QueryFileSize,
                BootAction::QueryFileSize,
            ),
            BootStage::QueryFileSize => match event {
                BootEvent::Value(size) => {
                    let pages = page_count(size);
                    if pages <= usize::MAX as u64 {
                        self.stage = BootStage::AllocateBuffer;
                        self.kernel_size = size;
                        BootAction::AllocateBuffer { pages: pages as usize }
                    } else {
                        self.fail(BootStep::KernelSize, BootStatus::LoadError)
                    }
                },
                _ => self.fail(BootStep::KernelSize, BootStatus::LoadError),
            },
            BootStage::AllocateBuffer => match event {
                BootEvent::Value(addr) => {
                    self.stage = BootStage::ReadKernel;
                    self.buffer_live = true;
                    self.buffer_addr = addr;
                    self.buffer_pages = page_count(self.kernel_size) as usize;
                    BootAction::ReadKernel { len: self.kernel_size as usize }
                },
                _ => self.fail(BootStep::AllocateBuffer, status),
            },
            BootStage::ReadKernel => self.proceed(
                event,
                BootStep::ReadKernel,
                BootStage::LocateImage,
                BootAction::LocateImage,
            ),
            BootStage::LocateImage => match event {
                BootEvent::Located { entry64, page_size } => {
                    self.stage = BootStage::AllocateStack;
                    self.entry64 = entry64;
                    self.page_size = if page_size < 4096 { 4096 } else { page_size as u64 };
                    BootAction::AllocateStack { pages: STACK_PAGES }
                },
                _ => self.fail(BootStep::LocateImage, BootStatus::LoadError),
            },
            BootStage::AllocateStack => match event {
                BootEvent::Value(base) => {
                    if self.page_size <= u64::MAX / 8 && base <= u64::MAX - 8 * self.page_size {
                        self.stage = BootStage::AllocateBootInfo;
                        self.stack_top = base + 8 * self.page_size;
                        BootAction::AllocateBootInfo { pages: BOOT_INFO_PAGES }
                    } else {
                        self.fail(BootStep::PrepareStack, status)
                    }
                },
                _ => self.fail(BootStep::PrepareStack, status),
            },
            BootStage::AllocateBootInfo => match event {
                BootEvent::Value(base) => {
                    self.stage = BootStage::ZeroBootInfo;
                    self.boot_info = base;
                    BootAction::ZeroBootInfo { addr: base, bytes: self.page_size }
                },
                _ => self.fail(BootStep::PrepareStack, status),
            },
            BootStage::ZeroBootInfo => self.proceed(
                event,
                BootStep::PrepareStack,
                BootStage::MapSegments,
                BootAction::MapSegments,
            ),
            BootStage::MapSegments => match event {
                BootEvent::Failed(s) => self.fail(BootStep::MapSegments, s),
                _ => {
                    self.stage = BootStage::FreeBuffer;
                    self.buffer_live = false;
                    BootAction::FreeBuffer { addr: self.buffer_addr, pages: self.buffer_pages }
                },
            },
            BootStage::FreeBuffer => {
                self.stage = BootStage::QueryDisplay;
                BootAction::QueryDisplay { aspect: AspectRatio::Ratio16_9 }
            },
            BootStage::QueryDisplay => {
                let fb = match event {
                    BootEvent::Display(info) => info,
                    _ => FramebufferInfo::empty(),
                };
                self.framebuffer = fb;
                if self.entry64 == 0 {
                    self.stage = BootStage::Ended;
                    BootAction::Return { step: BootStep::CheckEntry, status: BootStatus::LoadError }
                } else {
                    self.stage = BootStage::WriteBootInfo;
                    BootAction::WriteBootInfo {
                        addr: self.boot_info,
                        info: BootInfo::from_framebuffer(fb),
                    }
                }
            },
            BootStage::WriteBootInfo => {
                self.stage = BootStage::ExitBootServices;
                BootAction::ExitBootServices
            },
            BootStage::ExitBootServices => {
                self.stage = BootStage::Ended;
                BootAction::Jump {
                    entry: self.entry64,
                    stack_top: self.stack_top,
                    boot_info: self.boot_info,
                }
            },
            BootStage::Releasing => {
                self.stage = BootStage::Ended;
                self.buffer_live = false;
                BootAction::Return { step: self.failed_step, status: self.failed_status }
            },
            BootStage::Ended => BootAction::Return {
                step: self.failed_step,
                status: self.failed_status,
            },
        }
    }
}

/// What keeps a boot safe: while the boot goes on towards the kernel, the
/// buffer is allocated exactly from the read to the end of the mapping;
/// and from the moment the boot information is written, the entry address
/// is not zero.
pub open spec fn flow_safe(f: BootFlow) -> bool {
    match f.stage {
        BootStage::ReadKernel | BootStage::LocateImage | BootStage::AllocateStack
        | BootStage::AllocateBootInfo | BootStage::ZeroBootInfo | BootStage::MapSegments
        | BootStage::Releasing => f.buffer_live,
        BootStage::WriteBootInfo | BootStage::ExitBootServices => !f.buffer_live && f.entry64 != 0,
        _ => !f.buffer_live,
    }
}

/// A boot stays safe, whatever the firmware answers. The loader returns
/// only when the buffer has been given back. It leaves the boot services
/// only with a non-zero entry address and without the buffer, and it jumps
/// only right after it has left them, to that entry address.
pub proof fn lemma_flow_stays_safe(f: BootFlow, e: BootEvent)
    requires
        flow_safe(f),
    ensures
        flow_safe(flow_next(f, e).0),
        flow_next(f, e).1 is Return ==> !flow_next(f, e).0.buffer_live,
        flow_next(f, e).1 is ExitBootServices ==> f.entry64 != 0 && !f.buffer_live,
        flow_next(f, e).1 is Jump ==> f.stage == BootStage::ExitBootServices && flow_next(
            f,
            e,
        ).1->entry == f.entry64 && f.entry64 != 0,
        flow_next(f, e).1 is FreeBuffer ==> f.buffer_live && flow_next(f, e).1->FreeBuffer_addr
            == f.buffer_addr,
{
}

/// A boot that has not begun is safe.
pub proof fn lemma_initial_flow_safe()
    ensures
        flow_safe(BootFlow::initial()),
{
}

/// An image found in a buffer.
#[derive(Debug)]
pub struct LocatedImage {
    /// Where the image starts in the buffer.
    pub offset: usize,
    /// The image's header.
    pub header: RtoskHeader,
    /// The image's segments.
    pub segments: Vec<RtoskSegment>,
    /// Bytes from the start of the image to the end of the buffer.
    pub image_len: usize,
}

/// Whether `i` is the first place where the magic stands in `blob`.
pub open spec fn first_magic_at(blob: Seq<u8>, i: int) -> bool {
    occurs_at(blob, RTOSK_MAGIC@, i) && forall|j: int| 0 <= j < i ==> !occurs_at(blob, RTOSK_MAGIC@, j)
}

/// What the loader makes of the image that starts at the first byte of
/// `image`: its header and segments, if the header and the segment table
/// decode and the header's length is that of the header and the table.
pub open spec fn load_spec(image: Seq<u8>) -> Result<(HeaderView, Seq<RtoskSegment>), RtoskError> {
    match parse_image_spec(image) {
        Err(e) => Err(e),
        Ok(parsed) => if parsed.0.header_len != 40 + 40 * parsed.0.seg_count {
            Err(RtoskError::BadHeaderLen)
        } else {
            Ok((parsed.0, parsed.1))
        },
    }
}

/// Finds the image in `blob`, which may begin with padding, and decodes its
/// header and segment table. The image starts at the first occurrence of
/// the magic; without one the answer is `BadMagic`.
pub fn locate_image(blob: &[u8]) -> (r: Result<LocatedImage, RtoskError>)
    ensures
        match r {
            Ok(found) => {
                &&& first_magic_at(blob@, found.offset as int)
                &&& found.image_len == blob@.len() - found.offset
                &&& load_spec(blob@.subrange(found.offset as int, blob@.len() as int)) == Ok::<
                    (HeaderView, Seq<RtoskSegment>),
                    RtoskError,
                >((found.header@, found.segments@))
            },
            Err(e) => {
                ||| e == RtoskError::BadMagic && forall|j: int| !occurs_at(blob@, RTOSK_MAGIC@, j)
                ||| exists|i: int|
                    first_magic_at(blob@, i) && #[trigger] load_spec(
                        blob@.subrange(i, blob@.len() as int),
                    ) == Err::<(HeaderView, Seq<RtoskSegment>), RtoskError>(e)
            },
        },
{
    let magic = RTOSK_MAGIC;
    let offset = match find_magic(blob, &magic) {
        Some(i) => i,
        None => {
            return Err(RtoskError::BadMagic);
        },
    };
    let image = vstd::slice::slice_subrange(blob, offset, blob.len());
    let ghost sub = blob@.subrange(offset as int, blob@.len() as int);
    match parse_header_and_segments(image) {
        Ok((header, segments, header_len, table_len)) => {
            if header.header_len as u64 != 40 + 40 * (header.seg_count as u64) {
                assert(load_spec(sub) == Err::<(HeaderView, Seq<RtoskSegment>), RtoskError>(
                    RtoskError::BadHeaderLen,
                ));
                return Err(RtoskError::BadHeaderLen);
            }
            assert(load_spec(sub) == Ok::<(HeaderView, Seq<RtoskSegment>), RtoskError>(
                (header@, segments@),
            ));
            Ok(LocatedImage { offset, header, segments, image_len: blob.len() - offset })
        },
        Err(e) => {
            assert(load_spec(sub) == Err::<(HeaderView, Seq<RtoskSegment>), RtoskError>(e));
            Err(e)
        },
    }
}

/// What a read of the kernel file is to do next.
#[derive(Clone, Copy, Debug, PartialEq, Eq, Structural)]
pub enum ReadStep {
    /// Read up to `len` bytes into the buffer from `offset` on, and say how
    /// many came.
    Read { offset: usize, len: usize },
    /// All bytes are read.
    Complete,
    /// The file ended early.
    EndOfFile,
}

/// Reading a file of known length in as many parts as the firmware gives.
#[derive(Clone, Copy, Debug, PartialEq, Eq, Structural)]
pub struct ReadLoop {
    /// Bytes to read in all.
    pub len: usize,
    /// Bytes read so far.
    pub done: usize,
}

/// What a read that has `done` of `len` bytes is to do next.
pub open spec fn read_step(len: usize, done: usize) -> ReadStep {
    if done < len {
        ReadStep::Read { offset: done, len: (len - done) as usize }
    } else {
        ReadStep::Complete
    }
}

impl ReadLoop {
    /// Starts a read of `len` bytes.
    pub fn begin(len: usize) -> (started: (ReadLoop, ReadStep))
        ensures
            started.0 == (ReadLoop { len, done: 0 }),
            started.1 == read_step(len, 0),
    {
        let step = if len > 0 { ReadStep::Read { offset: 0, len } } else { ReadStep::Complete };
        (ReadLoop { len, done: 0 }, step)
    }

    /// Takes the number of bytes the last read gave. No bytes, or more than
    /// were asked for, end the read as a file that ended early.
    pub fn advance(&mut self, got: usize) -> (step: ReadStep)
        requires
            old(self).done <= old(self).len,
        ensures
            final(self).len == old(self).len,
            final(self).done <= final(self).len,
            got == 0 || got > old(self).len - old(self).done ==> step == ReadStep::EndOfFile
                && final(self).done == old(self).done,
            0 < got <= old(self).len - old(self).done ==> final(self).done == old(self).done + got
                && step == read_step(final(self).len, final(self).done),
    {
        let left = self.len - self.done;
        if got == 0 || got > left {
            return ReadStep::EndOfFile;
        }
        self.done = self.done + got;
        if self.done < self.len {
            ReadStep::Read { offset: self.done, len: self.len - self.done }
        } else {
            ReadStep::Complete
        }
    }
}

/// The stack pointer the kernel starts with: `stack_top` rounded down to a
/// multiple of 16, as the calling conventions ask at a function's entry.
pub fn align_stack_pointer(stack_top: u64) -> (sp: u64)
    ensures
        sp == stack_top - stack_top % 16,
        sp % 16 == 0,
        sp <= stack_top < sp + 16,
{
    stack_top - stack_top % 16
}

} // verus!
