//! Checking a framebuffer before the first pixel is drawn.
//!
//! The check has two parts. The geometry is judged from the descriptor
//! alone. The memory is judged by a probe: the first and the last visible
//! pixel of the first row are each changed, read back, and restored. The
//! probe is a small machine that says which load or store comes next, so
//! that it can be run against the screen's real memory as well as against
//! the pixels a `Framebuffer` holds.

use vstd::prelude::*;
use crate::framebuffer::Framebuffer;

verus! {

/// What is flipped in the first pixel of the first row to probe it.
pub const PROBE_PATTERN_START: u32 = 0x0055_AA55;

/// What is flipped in the last visible pixel of the first row to probe it.
pub const PROBE_PATTERN_END: u32 = 0x00AA_55AA;

/// Why a framebuffer failed the check.
#[derive(Clone, Copy, Debug, PartialEq, Eq, Structural)]
pub enum FbSoftCheckError {
    /// The base address is not a canonical virtual address.
    NonCanonicalVa,
    /// The width or the height is zero.
    ZeroDims,
    /// The base address is not a multiple of four.
    MisalignedPtr,
    /// The second row does not start one stride behind the first. The check
    /// of the geometry never finds this, since it computes the rows'
    /// addresses from the stride itself.
    StrideDeltaMismatch { delta_bytes: usize, expect_bytes: usize },
    /// The first pixel did not read back as written.
    ProbeStartMismatch { wrote: u32, read: u32 },
    /// The last visible pixel of the first row did not read back as written.
    ProbeEndMismatch { wrote: u32, read: u32 },
}

/// Whether `va` is canonical under four-level paging: bits 63 to 48 repeat
/// bit 47, so the address lies in the lowest or the highest 2^47 bytes.
pub open spec fn canonical(va: u64) -> bool {
    va < 0x0000_8000_0000_0000 || va >= 0xFFFF_8000_0000_0000
}

/// Decides whether `va` is a canonical virtual address.
pub fn is_canonical_u64(va: u64) -> (ok: bool)
    ensures
        ok == canonical(va),
{
    let sign: u64 = (va >> 47) & 1;
    let hi: u64 = va >> 48;
    assert(((sign == 0 && hi == 0) || (sign == 1 && hi == 0xFFFF)) == (va < 0x0000_8000_0000_0000
        || va >= 0xFFFF_8000_0000_0000)) by (bit_vector)
        requires
            sign == (va >> 47) & 1,
            hi == va >> 48,
    ;
    (sign == 0 && hi == 0) || (sign == 1 && hi == 0xFFFF)
}

/// Makes a virtual address of `addr` with `x86_64::VirtAddr::try_new` and
/// gives its bits back. That function accepts exactly the canonical
/// addresses and keeps their bits, which is what the contract says.
#[verifier::external_body]
pub(crate) fn canonical_address(addr: u64) -> (va: Option<u64>)
    ensures
        va == if canonical(addr) {
            Some(addr)
        } else {
            None::<u64>
        },
{
    match x86_64::VirtAddr::try_new(addr) {
        Ok(v) => Some(v.as_u64()),
        Err(_) => None,
    }
}

/// What the descriptor alone says of the framebuffer: the first of the
/// geometry faults that it shows, in the order of the error's variants.
///
/// The rows are one stride apart by the way their addresses are computed,
/// so a canonical, aligned base and non-zero dimensions are all that is
/// asked, whatever the height.
pub open spec fn geometry_verdict(fb: &Framebuffer) -> Result<(), FbSoftCheckError> {
    if !canonical(fb.base) {
        Err(FbSoftCheckError::NonCanonicalVa)
    } else if fb.width == 0 || fb.height == 0 {
        Err(FbSoftCheckError::ZeroDims)
    } else if fb.base % 4 != 0 {
        Err(FbSoftCheckError::MisalignedPtr)
    } else {
        Ok(())
    }
}

/// Judges the geometry of the framebuffer. The distance from the first row
/// to the second is compared with the stride all the same; it never
/// differs.
pub fn check_geometry(fb: &Framebuffer) -> (r: Result<(), FbSoftCheckError>)
    ensures
        r == geometry_verdict(fb),
{
    let va = match canonical_address(fb.base) {
        Some(v) => v,
        None => {
            return Err(FbSoftCheckError::NonCanonicalVa);
        },
    };
    if fb.width == 0 || fb.height == 0 {
        return Err(FbSoftCheckError::ZeroDims);
    }
    if va % 4 != 0 {
        return Err(FbSoftCheckError::MisalignedPtr);
    }
    let delta = row_delta(fb);
    let expect: u64 = (fb.stride as u64) * 4;
    if delta != expect {
        return Err(
            FbSoftCheckError::StrideDeltaMismatch {
                delta_bytes: delta as usize,
                expect_bytes: expect as usize,
            },
        );
    }
    Ok(())
}

/// The distance in bytes from the first row to the second, in 64-bit
/// arithmetic that wraps: always four times the stride.
pub fn row_delta(fb: &Framebuffer) -> (delta: u64)
    ensures
        delta == fb.stride * 4,
{
    let row0 = fb.row_ptr(0);
    let row1 = fb.row_ptr(1);
    proof {
        assert(1int * fb.stride as int * 4 == fb.stride * 4) by (nonlinear_arith);
        assert(0int * fb.stride as int * 4 == 0) by (nonlinear_arith);
    }
    if row1 >= row0 {
        row1 - row0
    } else {
        (0xFFFF_FFFF_FFFF_FFFF - row0) + row1 + 1
    }
}

/// What the probe asks for next.
#[derive(Clone, Copy, Debug, PartialEq, Eq)]
pub enum ProbeAction {
    /// Read the pixel at `index` of the first row and hand it to `step`.
    Load { index: usize },
    /// Write `value` to the pixel at `index` of the first row, and let no
    /// later access pass before it.
    Store { index: usize, value: u32 },
    /// The probe has ended with this result.
    Finish(Result<(), FbSoftCheckError>),
}

/// How far the probe has come: each stage is named after the access that
/// was asked for last.
#[derive(Clone, Copy, Debug, PartialEq, Eq, Structural)]
pub enum ProbeStage {
    LoadStart,
    LoadEnd,
    StoreStart,
    ReadStart,
    RestoreStart,
    StoreEnd,
    ReadEnd,
    RestoreEnd,
    Done,
}

/// The read-back probe of a framebuffer.
#[derive(Clone, Copy, Debug, PartialEq, Eq)]
pub struct SoftProbe {
    /// The access that was asked for last.
    pub stage: ProbeStage,
    /// Index of the last visible pixel of the first row.
    pub last: usize,
    /// What the first pixel held before the probe.
    pub old_start: u32,
    /// What the last pixel held before the probe.
    pub old_end: u32,
    /// What was read back last.
    pub read: u32,
    /// The result, once the probe is done.
    pub outcome: Result<(), FbSoftCheckError>,
}

impl ProbeStage {
    /// How many accesses are still to come at most.
    pub open spec fn remaining(self) -> nat {
        match self {
            ProbeStage::LoadStart => 8,
            ProbeStage::LoadEnd => 7,
            ProbeStage::StoreStart => 6,
            ProbeStage::ReadStart => 5,
            ProbeStage::RestoreStart => 4,
            ProbeStage::StoreEnd => 3,
            ProbeStage::ReadEnd => 2,
            ProbeStage::RestoreEnd => 1,
            ProbeStage::Done => 0,
        }
    }
}

/// A probe that has ended with `outcome`.
pub open spec fn probe_done(p: SoftProbe, outcome: Result<(), FbSoftCheckError>) -> SoftProbe {
    SoftProbe { stage: ProbeStage::Done, outcome, ..p }
}

/// The probe's first state and request for a framebuffer: where the
/// geometry is at fault the probe ends at once with that fault, else it
/// asks for the first pixel.
pub open spec fn probe_begin(fb: &Framebuffer) -> (SoftProbe, ProbeAction) {
    let fresh = SoftProbe {
        stage: ProbeStage::LoadStart,
        last: if fb.width < fb.stride {
            (fb.width - 1) as usize
        } else {
            (fb.stride - 1) as usize
        },
        old_start: 0,
        old_end: 0,
        read: 0,
        outcome: Ok(()),
    };
    match geometry_verdict(fb) {
        Err(e) => (
            SoftProbe { last: 0, ..probe_done(fresh, Err(e)) },
            ProbeAction::Finish(Err(e)),
        ),
        Ok(_) => if fb.width == 0 || fb.stride == 0 {
            (SoftProbe { last: 0, ..probe_done(fresh, Ok(())) }, ProbeAction::Finish(Ok(())))
        } else {
            (fresh, ProbeAction::Load { index: 0 })
        },
    }
}

/// The probe's next state and request, given its state and, where the last
/// request was a load, the value that was read.
pub open spec fn probe_next(p: SoftProbe, value: u32) -> (SoftProbe, ProbeAction) {
    match p.stage {
        ProbeStage::LoadStart => (
            SoftProbe { stage: ProbeStage::LoadEnd, old_start: value, ..p },
            ProbeAction::Load { index: p.last },
        ),
        ProbeStage::LoadEnd => (
            SoftProbe { stage: ProbeStage::StoreStart, old_end: value, ..p },
            ProbeAction::Store { index: 0, value: p.old_start ^ PROBE_PATTERN_START },
        ),
        ProbeStage::StoreStart => (
            SoftProbe { stage: ProbeStage::ReadStart, ..p },
            ProbeAction::Load { index: 0 },
        ),
        ProbeStage::ReadStart => (
            SoftProbe { stage: ProbeStage::RestoreStart, read: value, ..p },
            ProbeAction::Store { index: 0, value: p.old_start },
        ),
        ProbeStage::RestoreStart => if p.read != p.old_start ^ PROBE_PATTERN_START {
            let e = FbSoftCheckError::ProbeStartMismatch {
                wrote: p.old_start ^ PROBE_PATTERN_START,
                read: p.read,
            };
            (probe_done(p, Err(e)), ProbeAction::Finish(Err(e)))
        } else {
            (
                SoftProbe { stage: ProbeStage::StoreEnd, ..p },
                ProbeAction::Store { index: p.last, value: p.old_end ^ PROBE_PATTERN_END },
            )
        },
        ProbeStage::StoreEnd => (
            SoftProbe { stage: ProbeStage::ReadEnd, ..p },
            ProbeAction::Load { index: p.last },
        ),
        ProbeStage::ReadEnd => (
            SoftProbe { stage: ProbeStage::RestoreEnd, read: value, ..p },
            ProbeAction::Store { index: p.last, value: p.old_end },
        ),
        ProbeStage::RestoreEnd => if p.read != p.old_end ^ PROBE_PATTERN_END {
            let e = FbSoftCheckError::ProbeEndMismatch {
                wrote: p.old_end ^ PROBE_PATTERN_END,
                read: p.read,
            };
            (probe_done(p, Err(e)), ProbeAction::Finish(Err(e)))
        } else {
            (probe_done(p, Ok(())), ProbeAction::Finish(Ok(())))
        },
        ProbeStage::Done => (p, ProbeAction::Finish(p.outcome)),
    }
}

impl SoftProbe {
    /// Judges the geometry of `fb` and, where it is sound, starts the probe.
    pub fn begin(fb: &Framebuffer) -> (started: (SoftProbe, ProbeAction))
        ensures
            started == probe_begin(fb),
    {
        let mut probe = SoftProbe {
            stage: ProbeStage::LoadStart,
            last: 0,
            old_start: 0,
            old_end: 0,
            read: 0,
            outcome: Ok(()),
        };
        match check_geometry(fb) {
            Err(e) => {
                probe.stage = ProbeStage::Done;
                probe.outcome = Err(e);
                (probe, ProbeAction::Finish(Err(e)))
            },
            Ok(_) => {
                let draw_w: u32 = if fb.width < fb.stride { fb.width } else { fb.stride };
                if draw_w == 0 {
                    probe.stage = ProbeStage::Done;
                    (probe, ProbeAction::Finish(Ok(())))
                } else {
                    probe.last = (draw_w - 1) as usize;
                    (probe, ProbeAction::Load { index: 0 })
                }
            },
        }
    }

    /// Takes the value of the last load, if the last request was one, and
    /// says what to do next.
    pub fn step(&mut self, value: u32) -> (action: ProbeAction)
        ensures
            (*final(self), action) == probe_next(*old(self), value),
            !(action is Finish) ==> final(self).stage.remaining() < old(self).stage.remaining(),
            action is Finish ==> final(self).stage == ProbeStage::Done,
    {
        match self.stage {
            ProbeStage::LoadStart => {
                self.stage = ProbeStage::LoadEnd;
                self.old_start = value;
                ProbeAction::Load { index: self.last }
            },
            ProbeStage::LoadEnd => {
                self.stage = ProbeStage::StoreStart;
                self.old_end = value;
                ProbeAction::Store { index: 0, value: self.old_start ^ PROBE_PATTERN_START }
            },
            ProbeStage::StoreStart => {
                self.stage = ProbeStage::ReadStart;
                ProbeAction::Load { index: 0 }
            },
            ProbeStage::ReadStart => {
                self.stage = ProbeStage::RestoreStart;
                self.read = value;
                ProbeAction::Store { index: 0, value: self.old_start }
            },
            ProbeStage::RestoreStart => {
                let wrote = self.old_start ^ PROBE_PATTERN_START;
                if self.read != wrote {
                    let e = FbSoftCheckError::ProbeStartMismatch { wrote, read: self.read };
                    self.stage = ProbeStage::Done;
                    self.outcome = Err(e);
                    ProbeAction::Finish(Err(e))
                } else {
                    self.stage = ProbeStage::StoreEnd;
                    ProbeAction::Store { index: self.last, value: self.old_end ^ PROBE_PATTERN_END }
                }
            },
            ProbeStage::StoreEnd => {
                self.stage = ProbeStage::ReadEnd;
                ProbeAction::Load { index: self.last }
            },
            ProbeStage::ReadEnd => {
                self.stage = ProbeStage::RestoreEnd;
                self.read = value;
                ProbeAction::Store { index: self.last, value: self.old_end }
            },
            ProbeStage::RestoreEnd => {
                let wrote = self.old_end ^ PROBE_PATTERN_END;
                self.stage = ProbeStage::Done;
                if self.read != wrote {
                    let e = FbSoftCheckError::ProbeEndMismatch { wrote, read: self.read };
                    self.outcome = Err(e);
                    ProbeAction::Finish(Err(e))
                } else {
                    self.outcome = Ok(());
                    ProbeAction::Finish(Ok(()))
                }
            },
            ProbeStage::Done => ProbeAction::Finish(self.outcome),
        }
    }
}

/// What holds between the probe and the pixels while the probe runs
/// against memory that keeps what is stored in it: `now` are the pixels as
/// they are, `orig` as they were before the probe, and `action` is the
/// request that is to be served next.
pub open spec fn probe_on_track(p: SoftProbe, action: ProbeAction, now: Seq<u32>, orig: Seq<u32>) -> bool {
    let first = orig[0];
    let end = orig[p.last as int];
    let flipped_first = orig.update(0, first ^ PROBE_PATTERN_START);
    let flipped_end = orig.update(p.last as int, end ^ PROBE_PATTERN_END);
    &&& now.len() == orig.len()
    &&& p.last < orig.len()
    &&& match p.stage {
        ProbeStage::LoadStart => now == orig && action == (ProbeAction::Load { index: 0 }),
        ProbeStage::LoadEnd => now == orig && p.old_start == first && action == (ProbeAction::Load {
            index: p.last,
        }),
        ProbeStage::StoreStart => now == orig && p.old_start == first && p.old_end == end && action == (
        ProbeAction::Store { index: 0, value: first ^ PROBE_PATTERN_START }),
        ProbeStage::ReadStart => now == flipped_first && p.old_start == first && p.old_end == end
            && action == (ProbeAction::Load { index: 0 }),
        ProbeStage::RestoreStart => now == flipped_first && p.old_start == first && p.old_end == end
            && p.read == first ^ PROBE_PATTERN_START && action == (ProbeAction::Store {
            index: 0,
            value: first,
        }),
        ProbeStage::StoreEnd => now == orig && p.old_end == end && action == (ProbeAction::Store {
            index: p.last,
            value: end ^ PROBE_PATTERN_END,
        }),
        ProbeStage::ReadEnd => now == flipped_end && p.old_end == end && action == (ProbeAction::Load {
            index: p.last,
        }),
        ProbeStage::RestoreEnd => now == flipped_end && p.old_end == end && p.read == end
            ^ PROBE_PATTERN_END && action == (ProbeAction::Store { index: p.last, value: end }),
        ProbeStage::Done => now == orig && action == ProbeAction::Finish(Ok(())),
    }
}

/// Checks the framebuffer: judges its geometry and, where that is sound,
/// runs the read-back probe on its pixels. The pixels keep what is stored
/// in them, so the probe finds no fault and leaves every pixel as it was.
pub fn validate_framebuffer_soft(fb: &mut Framebuffer) -> (r: Result<(), FbSoftCheckError>)
    requires
        old(fb).wf(),
    ensures
        r == geometry_verdict(old(fb)),
        final(fb).wf(),
        final(fb).same_shape(old(fb)),
        final(fb).pixels@ == old(fb).pixels@,
{
    let (mut probe, mut action) = SoftProbe::begin(fb);
    match action {
        ProbeAction::Finish(r) => {
            return r;
        },
        _ => {},
    }
    proof {
        assert(fb.height >= 1 && fb.stride >= 1 && fb.width >= 1);
        assert(fb.stride as int * fb.height as int >= fb.stride as int) by (nonlinear_arith)
            requires
                fb.height >= 1,
                fb.stride >= 1,
        ;
    }
    loop
        invariant
            fb.wf(),
            fb.same_shape(old(fb)),
            geometry_verdict(old(fb)) == Ok::<(), FbSoftCheckError>(()),
            probe_on_track(probe, action, fb.pixels@, old(fb).pixels@),
        decreases probe.stage.remaining(),
    {
        match action {
            ProbeAction::Load { index } => {
                let value = fb.pixels[index];
                action = probe.step(value);
            },
            ProbeAction::Store { index, value } => {
                fb.pixels[index] = value;
                action = probe.step(0);
                proof {
                    let orig = old(fb).pixels@;
                    let last = probe.last as int;
                    assert(orig.update(0, orig[0] ^ PROBE_PATTERN_START).update(0, orig[0]) =~= orig);
                    assert(orig.update(last, orig[last] ^ PROBE_PATTERN_END).update(last, orig[last])
                        =~= orig);
                }
            },
            ProbeAction::Finish(r) => {
                return r;
            },
        }
    }
}

} // verus!
