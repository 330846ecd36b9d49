//! The kernel's first steps: the screen is taken over, cleared and
//! greeted, and the framebuffer is checked.

use vstd::prelude::*;
use crate::boot_info::BootInfo;
use crate::console::{Console, cleared, cleared_pixel, typed};
use crate::framebuffer::{Framebuffer, FbView, lemma_painted};
use crate::framebuffer_info::{FramebufferFormat, FramebufferInfo};
use crate::pixel::packed;
use crate::validate::{FbSoftCheckError, geometry_verdict, validate_framebuffer_soft};

verus! {

/// What the kernel holds once it is up.
#[derive(Debug)]
pub struct KernelState {
    pub fb: Framebuffer,
}

/// The pixel of the background the screen is cleared to.
pub open spec fn backdrop(format: FramebufferFormat) -> u32 {
    packed(format, 0x00, 0x2D, 0x61)
}

/// The console that log lines are shown with: white on black, at the top
/// left of the screen.
pub open spec fn log_console(format: FramebufferFormat) -> Console {
    Console {
        origin_x: 0,
        origin_y: 0,
        cursor_x: 0,
        cursor_y: 0,
        fg: packed(format, 255, 255, 255),
        bg: Some(packed(format, 0, 0, 0)),
    }
}

/// The screen after bring-up, given the screen as it was taken over: cleared
/// to the backdrop, with the greeting on its first line.
pub open spec fn greeted(v: FbView) -> FbView {
    typed(log_console(v.format), cleared(v, Some(backdrop(v.format))), "Kernel setup complete.\n"@).1
}

/// The screen as it is taken over: the geometry of the boot information,
/// every pixel zero.
pub open spec fn blank(info: FramebufferInfo) -> FbView {
    FbView {
        base: info.base,
        width: info.width,
        height: info.height,
        stride: info.stride,
        format: info.format,
        pixels: Seq::new((info.stride as int * info.height as int) as nat, |i: int| 0u32),
    }
}

/// Whether the boot information describes a framebuffer's geometry: the
/// row holds its visible part, and the pixels can be addressed.
pub open spec fn has_geometry(info: FramebufferInfo) -> bool {
    info.width <= info.stride && info.stride as int * info.height as int <= usize::MAX
}

/// What a kernel that is up holds, and what the check of its framebuffer
/// gave.
#[derive(Debug)]
pub struct KernelUp {
    pub state: KernelState,
    pub check: Result<(), FbSoftCheckError>,
}

impl KernelState {
    /// Takes the screen over from the boot information, clears it and
    /// shows the greeting. `None` where the boot information does not
    /// describe a framebuffer's geometry.
    pub fn new(bi: &BootInfo) -> (made: Option<KernelState>)
        ensures
            made is Some <==> has_geometry(bi.framebuffer),
            made is Some ==> made->0.fb.wf() && made->0.fb@ == greeted(blank(bi.framebuffer)),
    {
        let mut fb = match Framebuffer::from_bootinfo(bi) {
            Some(fb) => fb,
            None => {
                return None;
            },
        };
        let ghost taken = fb@;
        assert(taken.pixels =~= blank(bi.framebuffer).pixels);
        fb.clear(0x00, 0x2D, 0x61);
        proof {
            let bg = Some(backdrop(taken.format));
            assert forall|x: int, y: int| taken.holds(x, y) implies #[trigger] fb@.pixel(x, y)
                == cleared_pixel(taken, bg, x, y) by {
                assert(fb.pixel(x, y) == fb@.pixel(x, y));
            }
            lemma_painted(taken, fb@, |x: int, y: int| cleared_pixel(taken, bg, x, y));
        }
        let mut state = KernelState { fb };
        let mut console = state.console();
        console.write_str(&mut state.fb, "Kernel setup complete.\n");
        Some(state)
    }

    /// A console for log lines on the kernel's screen.
    pub fn console(&self) -> (con: Console)
        ensures
            con == log_console(self.fb.format),
            con.wf(),
    {
        Console::new(&self.fb, (255, 255, 255), Some((0, 0, 0)))
    }
}

/// Brings the kernel up: takes the screen over, greets, and checks the
/// framebuffer. A framebuffer that fails the check is kept all the same;
/// the result of the check comes back with the state.
pub fn kernel_init(bi: &BootInfo) -> (up: Option<KernelUp>)
    ensures
        up is Some <==> has_geometry(bi.framebuffer),
        up is Some ==> {
            &&& up->0.state.fb.wf()
            &&& up->0.state.fb@ == greeted(blank(bi.framebuffer))
            &&& up->0.check == geometry_verdict(&up->0.state.fb)
        },
{
    let mut state = match KernelState::new(bi) {
        Some(s) => s,
        None => {
            return None;
        },
    };
    let check = validate_framebuffer_soft(&mut state.fb);
    Some(KernelUp { state, check })
}

} // verus!
