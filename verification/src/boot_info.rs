//! The block of information that the loader passes to the kernel's entry.

use vstd::prelude::*;
use crate::framebuffer_info::FramebufferInfo;

verus! {

/// What the kernel is told at entry. The framebuffer descriptor comes first;
/// the rest of the page is zero.
#[derive(Clone, Copy, Debug, PartialEq, Eq, Structural)]
pub struct BootInfo {
    pub framebuffer: FramebufferInfo,
}

impl BootInfo {
    /// Boot information without a framebuffer.
    pub fn empty() -> (bi: BootInfo)
        ensures
            bi.framebuffer == FramebufferInfo::none(),
    {
        BootInfo { framebuffer: FramebufferInfo::empty() }
    }

    /// Boot information that describes the framebuffer `info`.
    pub fn from_framebuffer(info: FramebufferInfo) -> (bi: BootInfo)
        ensures
            bi.framebuffer == info,
    {
        BootInfo { framebuffer: info }
    }

    /// Whether a framebuffer is described: a non-zero base and size.
    pub fn has_framebuffer(&self) -> (ok: bool)
        ensures
            ok == (self.framebuffer.base != 0 && self.framebuffer.size > 0),
    {
        self.framebuffer.base != 0 && self.framebuffer.size > 0
    }

    /// The framebuffer descriptor.
    pub fn framebuffer(&self) -> (info: &FramebufferInfo)
        ensures
            *info == self.framebuffer,
    {
        &self.framebuffer
    }
}

impl Default for BootInfo {
    fn default() -> (bi: BootInfo)
        ensures
            bi.framebuffer == FramebufferInfo::none(),
    {
        BootInfo::empty()
    }
}

} // verus!
