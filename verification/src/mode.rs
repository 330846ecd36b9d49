//! Choosing a display mode for an aspect ratio.
//!
//! The firmware offers a list of modes. A mode whose pixels cannot be
//! written to memory is never chosen. Among the others the best one for a
//! ratio `tn:td` is the one with the least `|width * td - height * tn|`;
//! of two equally close modes the one with more pixels wins, and of two
//! equal ones the earlier in the list.

use vstd::prelude::*;
use crate::aspect::{AspectRatio, lemma_fallback_shortens};
use crate::framebuffer_info::{FramebufferFormat, FramebufferInfo};

verus! {

/// The pixel formats that the firmware's graphics protocol reports.
#[derive(Clone, Copy, Debug, PartialEq, Eq, Structural)]
pub enum PixelFormat {
    Rgb,
    Bgr,
    /// Channels described by bit masks.
    Bitmask,
    /// No linear pixel memory.
    BltOnly,
}

/// One display mode of the firmware.
#[derive(Clone, Copy, Debug, PartialEq, Eq, Structural)]
pub struct VideoMode {
    pub width: u32,
    pub height: u32,
    /// Pixels per scan line.
    pub stride: u32,
    pub format: PixelFormat,
}

/// The modes that were looked at and the one that was chosen.
#[derive(Debug)]
pub struct ModeChoice {
    /// Index of the chosen mode in the list, with its distance from the
    /// ratio; `None` where the current mode is to be kept.
    pub chosen: Option<(usize, u64)>,
    /// The ratios for which the list was searched, in order.
    pub tried: Vec<AspectRatio>,
}

/// How far a `w` by `h` mode is from the ratio `target.0 : target.1`.
pub open spec fn diff_of(w: u32, h: u32, target: (u32, u32)) -> nat {
    let a = w as int * target.1 as int;
    let b = h as int * target.0 as int;
    if a >= b {
        (a - b) as nat
    } else {
        (b - a) as nat
    }
}

impl VideoMode {
    /// Whether the mode can be chosen: its pixels lie in memory.
    pub open spec fn usable(self) -> bool {
        self.format != PixelFormat::BltOnly
    }

    /// The number of pixels of the mode.
    pub open spec fn area(self) -> nat {
        (self.width as int * self.height as int) as nat
    }

    /// How far the mode is from the ratio `target`.
    pub open spec fn diff(self, target: (u32, u32)) -> nat {
        diff_of(self.width, self.height, target)
    }

    /// Whether this mode is to be preferred to `other` for `target`: it is
    /// closer, or as close and larger.
    pub open spec fn beats(self, other: VideoMode, target: (u32, u32)) -> bool {
        self.diff(target) < other.diff(target) || (self.diff(target) == other.diff(target)
            && self.area() > other.area())
    }
}

/// Whether some mode of the list can be chosen.
pub open spec fn any_usable(modes: Seq<VideoMode>) -> bool {
    exists|j: int| 0 <= j < modes.len() && (#[trigger] modes[j]).usable()
}

/// Whether mode `i` is the one to choose for `target`: it is usable, no
/// usable mode beats it, and it beats every usable mode before it.
pub open spec fn is_best(modes: Seq<VideoMode>, target: (u32, u32), i: int) -> bool {
    &&& 0 <= i < modes.len()
    &&& modes[i].usable()
    &&& forall|j: int|
        0 <= j < modes.len() && (#[trigger] modes[j]).usable() ==> !modes[j].beats(modes[i], target)
    &&& forall|j: int|
        0 <= j < i && (#[trigger] modes[j]).usable() ==> modes[i].beats(modes[j], target)
}

/// Whether `picked` names the mode to choose for `aspect` and its distance
/// from that ratio.
pub open spec fn picks_best(
    modes: Seq<VideoMode>,
    aspect: AspectRatio,
    picked: Option<(usize, u64)>,
) -> bool {
    match (aspect.ratio(), picked) {
        (Some(target), Some((i, d))) => is_best(modes, target, i as int) && d == modes[i as int].diff(
            target,
        ),
        _ => false,
    }
}

/// At most one mode of a list is the one to choose.
pub proof fn lemma_best_is_unique(modes: Seq<VideoMode>, target: (u32, u32), a: int, b: int)
    requires
        is_best(modes, target, a),
        is_best(modes, target, b),
    ensures
        a == b,
{
    if a < b {
        assert(modes[a].usable());
        assert(modes[b].beats(modes[a], target));
    } else if b < a {
        assert(modes[b].usable());
        assert(modes[a].beats(modes[b], target));
    }
}

/// The framebuffer format that stands for a firmware pixel format: only the
/// two plain channel orders can be drawn to.
pub open spec fn format_of(f: PixelFormat) -> FramebufferFormat {
    match f {
        PixelFormat::Bgr => FramebufferFormat::Bgr,
        PixelFormat::Rgb => FramebufferFormat::Rgb,
        PixelFormat::Bitmask => FramebufferFormat::BltOnly,
        PixelFormat::BltOnly => FramebufferFormat::BltOnly,
    }
}

/// Translates a firmware pixel format.
pub fn translate_format(f: PixelFormat) -> (out: FramebufferFormat)
    ensures
        out == format_of(f),
{
    match f {
        PixelFormat::Bgr => FramebufferFormat::Bgr,
        PixelFormat::Rgb => FramebufferFormat::Rgb,
        PixelFormat::Bitmask => FramebufferFormat::BltOnly,
        PixelFormat::BltOnly => FramebufferFormat::BltOnly,
    }
}

/// Describes the framebuffer of the mode that is set: `base` and `size` are
/// what the firmware reports of the pixel memory.
pub fn make_info(base: u64, size: usize, mode: VideoMode) -> (info: FramebufferInfo)
    ensures
        info == (FramebufferInfo {
            base,
            size,
            width: mode.width,
            height: mode.height,
            stride: mode.stride,
            format: format_of(mode.format),
        }),
{
    FramebufferInfo {
        base,
        size,
        width: mode.width,
        height: mode.height,
        stride: mode.stride,
        format: translate_format(mode.format),
    }
}

/// A product of two 32-bit numbers fits 64 bits.
proof fn lemma_product_fits(a: u32, b: u32)
    ensures
        0 <= a as int * b as int <= 0xFFFF_FFFE_0000_0001,
{
    assert(0 <= a as int * b as int <= 0xFFFF_FFFE_0000_0001) by (nonlinear_arith)
        requires
            0 <= a as int <= 0xFFFF_FFFF,
            0 <= b as int <= 0xFFFF_FFFF,
    ;
}

/// Computes how far a `w` by `h` mode is from the ratio `target`.
pub fn ratio_diff(w: u32, h: u32, target: (u32, u32)) -> (d: u64)
    ensures
        d == diff_of(w, h, target),
{
    proof {
        lemma_product_fits(w, target.1);
        lemma_product_fits(h, target.0);
    }
    let a: u64 = (w as u64) * (target.1 as u64);
    let b: u64 = (h as u64) * (target.0 as u64);
    if a >= b {
        a - b
    } else {
        b - a
    }
}

/// Computes the number of pixels of a mode.
fn area_of(mode: &VideoMode) -> (a: u64)
    ensures
        a == mode.area(),
{
    proof {
        lemma_product_fits(mode.width, mode.height);
    }
    (mode.width as u64) * (mode.height as u64)
}

/// The first usable mode of a list is the one to choose among the modes up
/// to it.
proof fn lemma_first_usable(modes: Seq<VideoMode>, target: (u32, u32), j: int)
    requires
        0 <= j < modes.len(),
        modes[j].usable(),
        forall|k: int| 0 <= k < j ==> !(#[trigger] modes[k]).usable(),
    ensures
        is_best(modes.subrange(0, j + 1), target, j),
{
    let upto = modes.subrange(0, j + 1);
    assert forall|k: int| 0 <= k < upto.len() implies upto[k] == modes[k] by {}
}

/// A mode that beats the one to choose among the modes before it is the one
/// to choose among the modes up to it.
proof fn lemma_better_found(modes: Seq<VideoMode>, target: (u32, u32), i: int, j: int)
    requires
        0 <= j < modes.len(),
        is_best(modes.subrange(0, j), target, i),
        modes[j].usable(),
        modes[j].beats(modes[i], target),
    ensures
        is_best(modes.subrange(0, j + 1), target, j),
{
    let before = modes.subrange(0, j);
    let upto = modes.subrange(0, j + 1);
    assert forall|k: int| 0 <= k < upto.len() implies upto[k] == modes[k] by {}
    assert forall|k: int| 0 <= k < j && (#[trigger] upto[k]).usable() implies !upto[k].beats(
        upto[j],
        target,
    ) && upto[j].beats(upto[k], target) by {
        assert(before[k].usable());
        assert(!before[k].beats(before[i], target));
    }
}

/// A mode that is not usable, or does not beat the one to choose among the
/// modes before it, leaves that one the one to choose.
proof fn lemma_best_kept(modes: Seq<VideoMode>, target: (u32, u32), i: int, j: int)
    requires
        0 <= j < modes.len(),
        is_best(modes.subrange(0, j), target, i),
        !modes[j].usable() || !modes[j].beats(modes[i], target),
    ensures
        is_best(modes.subrange(0, j + 1), target, i),
{
    let before = modes.subrange(0, j);
    let upto = modes.subrange(0, j + 1);
    assert forall|k: int| 0 <= k < upto.len() implies upto[k] == modes[k] by {}
    assert forall|k: int| 0 <= k < upto.len() && (#[trigger] upto[k]).usable() implies !upto[k].beats(
        upto[i],
        target,
    ) by {
        if k < j {
            assert(before[k].usable());
        }
    }
    assert forall|k: int| 0 <= k < i && (#[trigger] upto[k]).usable() implies upto[i].beats(
        upto[k],
        target,
    ) by {
        assert(before[k].usable());
    }
}

/// Finds the mode to choose for `target`, with its distance from it; `None`
/// exactly if no mode of the list is usable.
pub fn best_for_target(modes: &[VideoMode], target: (u32, u32)) -> (best: Option<(usize, u64)>)
    ensures
        match best {
            Some((i, d)) => is_best(modes@, target, i as int) && d == modes@[i as int].diff(target),
            None => !any_usable(modes@),
        },
{
    let mut best: Option<(usize, u64, u64)> = None;
    let mut j: usize = 0;
    while j < modes.len()
        invariant
            j <= modes.len(),
            match best {
                Some((i, d, a)) => {
                    &&& i < j
                    &&& is_best(modes@.subrange(0, j as int), target, i as int)
                    &&& d == modes@[i as int].diff(target)
                    &&& a == modes@[i as int].area()
                },
                None => forall|k: int| 0 <= k < j ==> !(#[trigger] modes@[k]).usable(),
            },
        decreases modes.len() - j,
    {
        let mode = modes[j];
        if mode.format != PixelFormat::BltOnly {
            let d = ratio_diff(mode.width, mode.height, target);
            let a = area_of(&mode);
            match best {
                None => {
                    proof {
                        lemma_first_usable(modes@, target, j as int);
                    }
                    best = Some((j, d, a));
                },
                Some((i, best_d, best_a)) => {
                    if d < best_d || (d == best_d && a > best_a) {
                        proof {
                            lemma_better_found(modes@, target, i as int, j as int);
                        }
                        best = Some((j, d, a));
                    } else {
                        proof {
                            lemma_best_kept(modes@, target, i as int, j as int);
                        }
                    }
                },
            }
        } else {
            proof {
                match best {
                    Some((i, best_d, best_a)) => {
                        lemma_best_kept(modes@, target, i as int, j as int);
                    },
                    None => {},
                }
            }
        }
        j = j + 1;
    }
    assert(modes@.subrange(0, j as int) =~= modes@);
    match best {
        Some((i, d, a)) => Some((i, d)),
        None => None,
    }
}

/// Searches the list for `aspect` and, while nothing can be chosen, for each
/// ratio that stands in for it, once each and in order.
///
/// Where a mode is usable, the first search finds the best mode for `aspect`
/// itself. Where none is, every ratio of the chain is tried and the current
/// mode is kept. For `Unspecified` nothing is searched.
pub fn select_mode(modes: &[VideoMode], aspect: AspectRatio) -> (choice: ModeChoice)
    ensures
        aspect == AspectRatio::Unspecified ==> choice.chosen is None && choice.tried@.len() == 0,
        aspect != AspectRatio::Unspecified && any_usable(modes@) ==> {
            &&& choice.tried@ == seq![aspect]
            &&& picks_best(modes@, aspect, choice.chosen)
        },
        !any_usable(modes@) ==> choice.chosen is None && choice.tried@ == aspect.chain(),
{
    let mut tried: Vec<AspectRatio> = Vec::new();
    let mut current = aspect;
    loop
        invariant
            tried@ + current.chain() == aspect.chain(),
            tried@.len() > 0 ==> !any_usable(modes@),
            tried@.len() == 0 ==> current == aspect,
        decreases current.chain_len(),
    {
        proof {
            lemma_fallback_shortens(current);
        }
        let target = match current.as_tuple() {
            Some(t) => t,
            None => {
                assert(tried@ =~= tried@ + current.chain());
                return ModeChoice { chosen: None, tried };
            },
        };
        let ghost before = tried@;
        tried.push(current);
        proof {
            assert(tried@ + current.fallback().chain() =~= before + current.chain());
        }
        match best_for_target(modes, target) {
            Some(found) => {
                assert(before.len() == 0);
                assert(tried@ =~= seq![aspect]);
                return ModeChoice { chosen: Some(found), tried };
            },
            None => {},
        }
        current.get_fallback();
    }
}

/// Picks the largest mode that matches or comes closest to `aspect`: the
/// index of the mode in the list and its distance from the ratio. `None`
/// where no ratio is asked for or no mode is usable; the current mode is
/// then kept.
pub fn pick_highest_for_ratio(modes: &[VideoMode], aspect: AspectRatio) -> (picked: Option<
    (usize, u64),
>)
    ensures
        picked is Some <==> aspect != AspectRatio::Unspecified && any_usable(modes@),
        picked is Some ==> picks_best(modes@, aspect, picked),
{
    select_mode(modes, aspect).chosen
}

/// The mode at `index` of the list, if there is one.
pub fn pick_mode(modes: &[VideoMode], index: usize) -> (mode: Option<VideoMode>)
    ensures
        mode == if index < modes@.len() {
            Some(modes@[index as int])
        } else {
            None
        },
{
    if index < modes.len() {
        Some(modes[index])
    } else {
        None
    }
}

} // verus!
