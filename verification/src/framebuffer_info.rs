//! The framebuffer descriptor that the loader hands to the kernel.

use vstd::prelude::*;

verus! {

/// How the three colour channels lie in a 32-bit pixel.
#[derive(Clone, Copy, Debug, PartialEq, Eq, Structural)]
pub enum FramebufferFormat {
    /// Blue in the lowest byte, then green, then red. Encoded as 0.
    Bgr,
    /// Red in the lowest byte, then green, then blue. Encoded as 1.
    Rgb,
    /// No linear pixel memory: only block transfers reach the screen.
    /// Encoded as 2.
    BltOnly,
}

impl FramebufferFormat {
    /// The number that encodes the format in the boot information block.
    pub open spec fn code(self) -> u32 {
        match self {
            FramebufferFormat::Bgr => 0,
            FramebufferFormat::Rgb => 1,
            FramebufferFormat::BltOnly => 2,
        }
    }

    /// Whether pixels can be written to memory directly.
    pub fn is_memory_accessible(&self) -> (ok: bool)
        ensures
            ok == (*self != FramebufferFormat::BltOnly),
    {
        match self {
            FramebufferFormat::Bgr => true,
            FramebufferFormat::Rgb => true,
            FramebufferFormat::BltOnly => false,
        }
    }

    /// The format that `value` encodes; every number above 1 is taken for
    /// block-transfer only.
    pub open spec fn decoded(value: u32) -> FramebufferFormat {
        if value == 0 {
            FramebufferFormat::Bgr
        } else if value == 1 {
            FramebufferFormat::Rgb
        } else {
            FramebufferFormat::BltOnly
        }
    }

    /// The format that `value` encodes.
    pub fn from_u32(value: u32) -> (f: FramebufferFormat)
        ensures
            f == FramebufferFormat::decoded(value),
    {
        if value == 0 {
            FramebufferFormat::Bgr
        } else if value == 1 {
            FramebufferFormat::Rgb
        } else {
            FramebufferFormat::BltOnly
        }
    }

    /// The number that encodes the format.
    pub fn as_u32(&self) -> (value: u32)
        ensures
            value == self.code(),
    {
        match self {
            FramebufferFormat::Bgr => 0,
            FramebufferFormat::Rgb => 1,
            FramebufferFormat::BltOnly => 2,
        }
    }

    /// A short name for log lines.
    pub fn as_str(&self) -> (name: &'static str)
        ensures
            *self == FramebufferFormat::Bgr ==> name@ == "BGR"@,
            *self == FramebufferFormat::Rgb ==> name@ == "RGB"@,
            *self == FramebufferFormat::BltOnly ==> name@ == "BLT-only"@,
    {
        match self {
            FramebufferFormat::Bgr => "BGR",
            FramebufferFormat::Rgb => "RGB",
            FramebufferFormat::BltOnly => "BLT-only",
        }
    }
}

impl Default for FramebufferFormat {
    /// Block-transfer only: the format that permits no drawing.
    fn default() -> (f: FramebufferFormat)
        ensures
            f == FramebufferFormat::BltOnly,
    {
        FramebufferFormat::BltOnly
    }
}

/// Decoding the number of a format gives the format back.
pub proof fn lemma_format_code_round_trip(f: FramebufferFormat)
    ensures
        FramebufferFormat::decoded(f.code()) == f,
        f.code() <= 2,
{
}

/// A linear framebuffer: where it lies, how large it is, and how pixels are
/// laid out in it.
#[derive(Clone, Copy, Debug, PartialEq, Eq, Structural)]
pub struct FramebufferInfo {
    /// Address of the first pixel.
    pub base: u64,
    /// Size of the pixel memory in bytes.
    pub size: usize,
    /// Visible pixels per row.
    pub width: u32,
    /// Rows.
    pub height: u32,
    /// Pixels from the start of one row to the start of the next; at least
    /// `width` on real hardware.
    pub stride: u32,
    /// Channel order.
    pub format: FramebufferFormat,
}

impl FramebufferInfo {
    /// The descriptor of no framebuffer: all zero, block-transfer only.
    pub open spec fn none() -> FramebufferInfo {
        FramebufferInfo {
            base: 0,
            size: 0,
            width: 0,
            height: 0,
            stride: 0,
            format: FramebufferFormat::BltOnly,
        }
    }

    /// The descriptor of no framebuffer.
    pub fn empty() -> (info: FramebufferInfo)
        ensures
            info == FramebufferInfo::none(),
    {
        FramebufferInfo {
            base: 0,
            size: 0,
            width: 0,
            height: 0,
            stride: 0,
            format: FramebufferFormat::BltOnly,
        }
    }
}

impl Default for FramebufferInfo {
    fn default() -> (info: FramebufferInfo)
        ensures
            info == FramebufferInfo::none(),
    {
        FramebufferInfo::empty()
    }
}

} // verus!
