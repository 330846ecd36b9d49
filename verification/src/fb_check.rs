//! Checking a framebuffer against the page tables.
//!
//! Whether an address is mapped is for the page tables to say. What is
//! decided here is which addresses to ask about and what to make of the
//! answers.

use vstd::prelude::*;
use crate::framebuffer::Framebuffer;
use crate::validate::{FbSoftCheckError, canonical, is_canonical_u64, row_delta};

verus! {

/// Why a framebuffer failed the check against the page tables.
#[derive(Clone, Copy, Debug, PartialEq, Eq, Structural)]
pub enum FbCheckError {
    /// The base address is not a canonical virtual address.
    NonCanonicalVa,
    /// The first byte of the framebuffer is not mapped.
    UnmappedStart,
    /// The last byte of the framebuffer is not mapped.
    UnmappedEnd,
    /// The second row does not start one stride behind the first. The check
    /// against the page tables never finds this, since it computes the
    /// rows' addresses from the stride itself.
    StrideDeltaMismatch { delta_bytes: usize, expect_bytes: usize },
    /// The first pixel did not read back as written.
    ProbeWriteMismatchStart { wrote: u32, read_back: u32 },
    /// The last visible pixel of the first row did not read back as written.
    ProbeWriteMismatchEnd { wrote: u32, read_back: u32 },
}

/// The number of bytes the pixels take: four for each pixel of each row,
/// held at the largest 64-bit number where that is exceeded.
pub open spec fn byte_len(fb: &Framebuffer) -> u64 {
    if fb.stride * fb.height * 4 > u64::MAX {
        u64::MAX
    } else {
        (fb.stride * fb.height * 4) as u64
    }
}

/// The address of the last byte of the framebuffer, held at the largest
/// 64-bit address where that is exceeded.
pub open spec fn last_byte(fb: &Framebuffer) -> u64 {
    let span = if byte_len(fb) == 0 {
        0
    } else {
        byte_len(fb) - 1
    };
    if fb.base + span > u64::MAX {
        u64::MAX
    } else {
        (fb.base + span) as u64
    }
}

/// What the page tables' answers say of the framebuffer: `start_mapped` and
/// `end_mapped` tell whether its first and its last byte are mapped.
pub open spec fn mapping_verdict(fb: &Framebuffer, start_mapped: bool, end_mapped: bool) -> Result<
    (),
    FbCheckError,
> {
    if !canonical(fb.base) {
        Err(FbCheckError::NonCanonicalVa)
    } else if !start_mapped {
        Err(FbCheckError::UnmappedStart)
    } else if !end_mapped {
        Err(FbCheckError::UnmappedEnd)
    } else {
        Ok(())
    }
}

/// The addresses to ask the page tables about: the first and the last byte
/// of the framebuffer.
pub fn mapped_range(fb: &Framebuffer) -> (range: (u64, u64))
    ensures
        range.0 == fb.base,
        range.1 == last_byte(fb),
{
    proof {
        assert(0 <= fb.stride as int * fb.height as int <= 0xFFFF_FFFE_0000_0001) by (nonlinear_arith)
            requires
                0 <= fb.stride as int <= 0xFFFF_FFFF,
                0 <= fb.height as int <= 0xFFFF_FFFF,
        ;
    }
    let pixels: u64 = (fb.stride as u64) * (fb.height as u64);
    let bytes: u64 = if pixels > u64::MAX / 4 { u64::MAX } else { pixels * 4 };
    let span: u64 = if bytes == 0 { 0 } else { bytes - 1 };
    let end: u64 = if fb.base > u64::MAX - span { u64::MAX } else { fb.base + span };
    (fb.base, end)
}

/// Judges the framebuffer by what the page tables say of its first and its
/// last byte.
pub fn check_framebuffer_mapped(fb: &Framebuffer, start_mapped: bool, end_mapped: bool) -> (r: Result<
    (),
    FbCheckError,
>)
    ensures
        r == mapping_verdict(fb, start_mapped, end_mapped),
{
    if !is_canonical_u64(fb.base) {
        return Err(FbCheckError::NonCanonicalVa);
    }
    if !start_mapped {
        return Err(FbCheckError::UnmappedStart);
    }
    if !end_mapped {
        return Err(FbCheckError::UnmappedEnd);
    }
    let delta = row_delta(fb);
    let expect: u64 = (fb.stride as u64) * 4;
    if delta != expect {
        return Err(
            FbCheckError::StrideDeltaMismatch {
                delta_bytes: delta as usize,
                expect_bytes: expect as usize,
            },
        );
    }
    Ok(())
}

/// The fault of the check against the page tables that stands for a fault
/// of the soft check: a pixel that did not read back, a non-canonical base,
/// or a second row out of place. A zero dimension and a misaligned base
/// are no faults of this check.
pub open spec fn probe_fault(e: FbSoftCheckError) -> Option<FbCheckError> {
    match e {
        FbSoftCheckError::NonCanonicalVa => Some(FbCheckError::NonCanonicalVa),
        FbSoftCheckError::StrideDeltaMismatch { delta_bytes, expect_bytes } => Some(
            FbCheckError::StrideDeltaMismatch { delta_bytes, expect_bytes },
        ),
        FbSoftCheckError::ProbeStartMismatch { wrote, read } => Some(
            FbCheckError::ProbeWriteMismatchStart { wrote, read_back: read },
        ),
        FbSoftCheckError::ProbeEndMismatch { wrote, read } => Some(
            FbCheckError::ProbeWriteMismatchEnd { wrote, read_back: read },
        ),
        FbSoftCheckError::ZeroDims => None,
        FbSoftCheckError::MisalignedPtr => None,
    }
}

/// Names a fault of the soft check as a fault of this check.
pub fn probe_failure(e: FbSoftCheckError) -> (fault: Option<FbCheckError>)
    ensures
        fault == probe_fault(e),
{
    match e {
        FbSoftCheckError::NonCanonicalVa => Some(FbCheckError::NonCanonicalVa),
        FbSoftCheckError::StrideDeltaMismatch { delta_bytes, expect_bytes } => Some(
            FbCheckError::StrideDeltaMismatch { delta_bytes, expect_bytes },
        ),
        FbSoftCheckError::ProbeStartMismatch { wrote, read } => Some(
            FbCheckError::ProbeWriteMismatchStart { wrote, read_back: read },
        ),
        FbSoftCheckError::ProbeEndMismatch { wrote, read } => Some(
            FbCheckError::ProbeWriteMismatchEnd { wrote, read_back: read },
        ),
        FbSoftCheckError::ZeroDims => None,
        FbSoftCheckError::MisalignedPtr => None,
    }
}

/// Decides whether the framebuffer can be used. `mapping` holds the page
/// tables' answers for the first and the last byte, or `None` where there
/// are no page tables to ask; `probe` is the outcome of the soft check
/// with its read-back probe. The framebuffer is sound if the mapping,
/// where it was asked for, is sound, and the soft check found no fault.
pub fn validate_framebuffer(
    fb: &Framebuffer,
    mapping: Option<(bool, bool)>,
    probe: Result<(), FbSoftCheckError>,
) -> (ok: bool)
    ensures
        ok == ((match mapping {
            Some(m) => mapping_verdict(fb, m.0, m.1) is Ok,
            None => true,
        }) && probe is Ok),
{
    match mapping {
        Some(m) => {
            match check_framebuffer_mapped(fb, m.0, m.1) {
                Ok(_) => {},
                Err(_) => {
                    return false;
                },
            }
        },
        None => {},
    }
    match probe {
        Ok(_) => true,
        Err(_) => false,
    }
}

} // verus!
