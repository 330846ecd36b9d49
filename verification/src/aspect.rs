//! Display aspect ratios and the order in which one stands in for another.

use vstd::prelude::*;

verus! {

/// An aspect ratio that a display mode can be asked for.
#[derive(Clone, Copy, Debug, PartialEq, Eq, Structural)]
pub enum AspectRatio {
    Ratio16_9,
    Ratio21_9,
    Ratio32_9,
    Ratio16_10,
    Ratio4_3,
    Ratio5_4,
    Ratio3_2,
    Ratio18_9,
    Ratio19_9,
    Ratio20_9,
    Ratio17_9,
    Ratio2_1,
    /// No ratio is asked for, and no ratio follows.
    Unspecified,
}

impl AspectRatio {
    /// The ratio as (numerator, denominator); `None` for `Unspecified`.
    pub open spec fn ratio(self) -> Option<(u32, u32)> {
        match self {
            AspectRatio::Ratio16_9 => Some((16u32, 9u32)),
            AspectRatio::Ratio21_9 => Some((21u32, 9u32)),
            AspectRatio::Ratio32_9 => Some((32u32, 9u32)),
            AspectRatio::Ratio16_10 => Some((16u32, 10u32)),
            AspectRatio::Ratio4_3 => Some((4u32, 3u32)),
            AspectRatio::Ratio5_4 => Some((5u32, 4u32)),
            AspectRatio::Ratio3_2 => Some((3u32, 2u32)),
            AspectRatio::Ratio18_9 => Some((18u32, 9u32)),
            AspectRatio::Ratio19_9 => Some((19u32, 9u32)),
            AspectRatio::Ratio20_9 => Some((20u32, 9u32)),
            AspectRatio::Ratio17_9 => Some((17u32, 9u32)),
            AspectRatio::Ratio2_1 => Some((2u32, 1u32)),
            AspectRatio::Unspecified => None,
        }
    }

    /// The ratio that is tried when no mode can be had for this one.
    pub open spec fn fallback(self) -> AspectRatio {
        match self {
            AspectRatio::Ratio32_9 => AspectRatio::Ratio21_9,
            AspectRatio::Ratio21_9 => AspectRatio::Ratio16_9,
            AspectRatio::Ratio16_10 => AspectRatio::Ratio16_9,
            AspectRatio::Ratio2_1 => AspectRatio::Ratio16_9,
            AspectRatio::Ratio17_9 => AspectRatio::Ratio16_9,
            AspectRatio::Ratio5_4 => AspectRatio::Ratio4_3,
            AspectRatio::Ratio3_2 => AspectRatio::Ratio4_3,
            AspectRatio::Ratio20_9 => AspectRatio::Ratio19_9,
            AspectRatio::Ratio19_9 => AspectRatio::Ratio18_9,
            AspectRatio::Ratio18_9 => AspectRatio::Ratio16_9,
            AspectRatio::Ratio16_9 => AspectRatio::Unspecified,
            AspectRatio::Ratio4_3 => AspectRatio::Unspecified,
            AspectRatio::Unspecified => AspectRatio::Unspecified,
        }
    }

    /// How many ratios are tried from this one on, itself included, before
    /// none is left.
    pub open spec fn chain_len(self) -> nat {
        match self {
            AspectRatio::Unspecified => 0,
            AspectRatio::Ratio16_9 => 1,
            AspectRatio::Ratio4_3 => 1,
            AspectRatio::Ratio21_9 => 2,
            AspectRatio::Ratio16_10 => 2,
            AspectRatio::Ratio2_1 => 2,
            AspectRatio::Ratio17_9 => 2,
            AspectRatio::Ratio5_4 => 2,
            AspectRatio::Ratio3_2 => 2,
            AspectRatio::Ratio18_9 => 2,
            AspectRatio::Ratio32_9 => 3,
            AspectRatio::Ratio19_9 => 3,
            AspectRatio::Ratio20_9 => 4,
        }
    }

    /// The ratios tried from this one on, in order.
    pub open spec fn chain(self) -> Seq<AspectRatio>
        decreases self.chain_len(),
    {
        if self == AspectRatio::Unspecified {
            Seq::empty()
        } else {
            seq![self] + self.fallback().chain()
        }
    }

    /// The ratio as (numerator, denominator); `None` for `Unspecified`.
    pub fn as_tuple(&self) -> (t: Option<(u32, u32)>)
        ensures
            t == self.ratio(),
    {
        match self {
            AspectRatio::Ratio16_9 => Some((16, 9)),
            AspectRatio::Ratio21_9 => Some((21, 9)),
            AspectRatio::Ratio32_9 => Some((32, 9)),
            AspectRatio::Ratio16_10 => Some((16, 10)),
            AspectRatio::Ratio4_3 => Some((4, 3)),
            AspectRatio::Ratio5_4 => Some((5, 4)),
            AspectRatio::Ratio3_2 => Some((3, 2)),
            AspectRatio::Ratio18_9 => Some((18, 9)),
            AspectRatio::Ratio19_9 => Some((19, 9)),
            AspectRatio::Ratio20_9 => Some((20, 9)),
            AspectRatio::Ratio17_9 => Some((17, 9)),
            AspectRatio::Ratio2_1 => Some((2, 1)),
            AspectRatio::Unspecified => None,
        }
    }

    /// Replaces the ratio by its fallback and gives the new ratio's tuple;
    /// `None` when the chain has ended.
    pub fn get_fallback(&mut self) -> (t: Option<(u32, u32)>)
        ensures
            *final(self) == old(self).fallback(),
            t == old(self).fallback().ratio(),
    {
        let next = match *self {
            AspectRatio::Ratio32_9 => AspectRatio::Ratio21_9,
            AspectRatio::Ratio21_9 => AspectRatio::Ratio16_9,
            AspectRatio::Ratio16_10 => AspectRatio::Ratio16_9,
            AspectRatio::Ratio2_1 => AspectRatio::Ratio16_9,
            AspectRatio::Ratio17_9 => AspectRatio::Ratio16_9,
            AspectRatio::Ratio5_4 => AspectRatio::Ratio4_3,
            AspectRatio::Ratio3_2 => AspectRatio::Ratio4_3,
            AspectRatio::Ratio20_9 => AspectRatio::Ratio19_9,
            AspectRatio::Ratio19_9 => AspectRatio::Ratio18_9,
            AspectRatio::Ratio18_9 => AspectRatio::Ratio16_9,
            AspectRatio::Ratio16_9 => AspectRatio::Unspecified,
            AspectRatio::Ratio4_3 => AspectRatio::Unspecified,
            AspectRatio::Unspecified => AspectRatio::Unspecified,
        };
        *self = next;
        next.as_tuple()
    }
}

/// Each step along the chain brings the end one step nearer, and only
/// `Unspecified` has no ratio.
pub proof fn lemma_fallback_shortens(a: AspectRatio)
    ensures
        a != AspectRatio::Unspecified ==> a.fallback().chain_len() < a.chain_len(),
        a.ratio() is None <==> a == AspectRatio::Unspecified,
        a.chain().len() == a.chain_len(),
    decreases a.chain_len(),
{
    if a != AspectRatio::Unspecified {
        lemma_fallback_shortens(a.fallback());
    }
}

/// The ratio at place `i` of a chain has `i` fewer ratios still to come
/// than the chain's first.
pub proof fn lemma_chain_counts_down(a: AspectRatio, i: int)
    requires
        0 <= i < a.chain().len(),
    ensures
        a.chain()[i].chain_len() == a.chain_len() - i,
        a.chain()[i] != AspectRatio::Unspecified,
    decreases a.chain_len(),
{
    lemma_fallback_shortens(a);
    if i > 0 {
        lemma_fallback_shortens(a.fallback());
        lemma_chain_counts_down(a.fallback(), i - 1);
    }
}

/// No ratio stands twice in a chain: a search that follows the chain tries
/// each ratio once.
pub proof fn lemma_chain_has_no_repeats(a: AspectRatio)
    ensures
        a.chain().no_duplicates(),
{
    assert forall|i: int, j: int|
        0 <= i < a.chain().len() && 0 <= j < a.chain().len() && i != j implies a.chain()[i]
        != a.chain()[j] by {
        lemma_chain_counts_down(a, i);
        lemma_chain_counts_down(a, j);
    }
}

} // verus!
