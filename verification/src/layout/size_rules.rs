//! Size requirements of a widget along one axis, and how they combine

use crate::geom::{clamp_i32, to_i32};
use vstd::prelude::*;

verus! {

/// Policy for the use of space beyond the ideal size
///
/// The variants are ordered: a later policy makes more of extra space than
/// an earlier one. When rules are combined, the greater policy is kept, and
/// when space is divided among siblings, only those with the greatest
/// policy grow.
#[derive(Clone, Copy, Debug, PartialEq, Eq, PartialOrd, Ord, Hash, Structural)]
pub enum StretchPolicy {
    /// Extra space is of no use
    Fixed,
    /// Extra space is of little use
    Minimal,
    /// Extra space is useful
    HighUtility,
    /// Take as much space as is on offer
    Maximal,
}

impl StretchPolicy {
    /// Position of the policy in the order of policies.
    pub open spec fn rank(self) -> nat {
        match self {
            StretchPolicy::Fixed => 0,
            StretchPolicy::Minimal => 1,
            StretchPolicy::HighUtility => 2,
            StretchPolicy::Maximal => 3,
        }
    }

    /// The greater of two policies.
    pub open spec fn join(self, other: StretchPolicy) -> StretchPolicy {
        if self.rank() >= other.rank() {
            self
        } else {
            other
        }
    }

    /// Position of the policy in the order of policies
    pub fn level(self) -> (r: u8)
        ensures
            r == self.rank(),
    {
        match self {
            StretchPolicy::Fixed => 0,
            StretchPolicy::Minimal => 1,
            StretchPolicy::HighUtility => 2,
            StretchPolicy::Maximal => 3,
        }
    }

    /// The greater of two policies
    pub fn max(self, other: StretchPolicy) -> (r: StretchPolicy)
        ensures
            r == self.join(other),
    {
        if self.level() >= other.level() {
            self
        } else {
            other
        }
    }
}

/// Margins before and after a widget along one axis
#[derive(Clone, Copy, Debug, PartialEq, Eq, Default, Structural)]
pub struct Margins(pub i16, pub i16);

/// The greater of two margins.
pub open spec fn wider(a: i16, b: i16) -> i16 {
    if a >= b {
        a
    } else {
        b
    }
}

/// The greater of two sizes.
pub open spec fn larger(a: i32, b: i32) -> i32 {
    if a >= b {
        a
    } else {
        b
    }
}

/// Side by side, the margins of two rules merge: on each side the wider wins.
pub open spec fn merged_margins(a: Margins, b: Margins) -> Margins {
    Margins(wider(a.0, b.0), wider(a.1, b.1))
}

fn wider_of(a: i16, b: i16) -> (r: i16)
    ensures
        r == wider(a, b),
{
    if a >= b {
        a
    } else {
        b
    }
}

fn larger_of(a: i32, b: i32) -> (r: i32)
    ensures
        r == larger(a, b),
{
    if a >= b {
        a
    } else {
        b
    }
}

/// Widget sizing information along one axis
///
/// A widget states the least size at which it is usable (`min`), the size at
/// which it is comfortable (`ideal`), the margins it wants between itself
/// and its neighbours before and after it, and what it makes of space
/// beyond the ideal.
///
/// Rules are well formed when `min <= ideal`. All operations keep well
/// formed rules well formed. Sizes saturate instead of overflowing.
#[derive(Clone, Copy, Debug, PartialEq, Eq, Structural)]
pub struct SizeRules {
    /// Minimum size
    pub min: i32,
    /// Ideal size
    pub ideal: i32,
    /// Margins before and after
    pub margins: Margins,
    /// Use of extra space
    pub stretch: StretchPolicy,
}

impl SizeRules {
    /// Well formed rules ask for no more at the least than ideally.
    pub open spec fn wf(self) -> bool {
        self.min <= self.ideal
    }

    /// The rules of nothing: no size, no margins, no use for space.
    pub open spec fn empty_rules() -> SizeRules {
        SizeRules { min: 0, ideal: 0, margins: Margins(0, 0), stretch: StretchPolicy::Fixed }
    }

    /// The rules of two widgets in sequence.
    pub open spec fn summed(self, rhs: SizeRules) -> SizeRules {
        SizeRules {
            min: clamp_i32(self.min + rhs.min),
            ideal: clamp_i32(self.ideal + rhs.ideal),
            margins: merged_margins(self.margins, rhs.margins),
            stretch: self.stretch.join(rhs.stretch),
        }
    }

    /// The rules of two widgets that take the same place.
    pub open spec fn stacked(self, rhs: SizeRules) -> SizeRules {
        SizeRules {
            min: larger(self.min, rhs.min),
            ideal: larger(self.ideal, rhs.ideal),
            margins: merged_margins(self.margins, rhs.margins),
            stretch: self.stretch.join(rhs.stretch),
        }
    }

    /// The rules of `content` within the frame that these rules describe.
    pub open spec fn framed(self, content: SizeRules) -> SizeRules {
        SizeRules {
            min: clamp_i32(content.min + self.ideal),
            ideal: clamp_i32(content.ideal + self.ideal),
            margins: self.margins,
            stretch: content.stretch,
        }
    }

    /// The rules of `min_factor` to `ideal_factor` copies in sequence, each
    /// separated from the next by the wider of the two margins.
    pub open spec fn repeated(self, min_factor: i32, ideal_factor: i32) -> SizeRules {
        let gap = wider(self.margins.0, self.margins.1) as int;
        let min = clamp_i32(min_factor * self.min + (min_factor - 1) * gap);
        let ideal = clamp_i32(ideal_factor * self.ideal + (ideal_factor - 1) * gap);
        SizeRules { min, ideal: larger(min, ideal), margins: self.margins, stretch: self.stretch }
    }

    /// Empty (zero size, no margins, no stretch)
    ///
    /// This is what a container without children asks for.
    pub fn empty() -> (r: SizeRules)
        ensures
            r == SizeRules::empty_rules(),
    {
        SizeRules { min: 0, ideal: 0, margins: Margins(0, 0), stretch: StretchPolicy::Fixed }
    }

    /// Construct from a minimum size, an ideal size, margins and a stretch
    /// policy
    ///
    /// The caller sees to it that `min <= ideal`.
    pub fn new(min: i32, ideal: i32, margins: Margins, stretch: StretchPolicy) -> (r: SizeRules)
        requires
            min <= ideal,
        ensures
            r == (SizeRules { min, ideal, margins, stretch }),
            r.wf(),
    {
        SizeRules { min, ideal, margins, stretch }
    }

    /// A fixed size with the given margins
    pub fn fixed(size: i32, margins: Margins) -> (r: SizeRules)
        ensures
            r == (SizeRules { min: size, ideal: size, margins, stretch: StretchPolicy::Fixed }),
            r.wf(),
    {
        SizeRules { min: size, ideal: size, margins, stretch: StretchPolicy::Fixed }
    }

    /// Get the minimum size
    pub fn min_size(self) -> (r: i32)
        ensures
            r == self.min,
    {
        self.min
    }

    /// Get the ideal size
    pub fn ideal_size(self) -> (r: i32)
        ensures
            r == self.ideal,
    {
        self.ideal
    }

    /// Get the margins before and after
    pub fn margins(self) -> (r: Margins)
        ensures
            r == self.margins,
    {
        self.margins
    }

    /// Get the margins before and after, widened
    pub fn margins_i32(self) -> (r: (i32, i32))
        ensures
            r.0 == self.margins.0,
            r.1 == self.margins.1,
    {
        (self.margins.0 as i32, self.margins.1 as i32)
    }

    /// Get the stretch policy
    pub fn stretch(self) -> (r: StretchPolicy)
        ensures
            r == self.stretch,
    {
        self.stretch
    }

    /// Set the stretch policy
    pub fn set_stretch(&mut self, stretch: StretchPolicy)
        ensures
            *final(self) == (SizeRules { stretch, ..*old(self) }),
    {
        self.stretch = stretch;
    }

    /// The rules of two widgets laid out in sequence
    ///
    /// Minimum sizes add up and ideal sizes add up. Of the margins the
    /// wider is kept on each side, and the greater stretch policy is kept.
    pub fn sum(self, rhs: SizeRules) -> (r: SizeRules)
        ensures
            r == self.summed(rhs),
            self.wf() && rhs.wf() ==> r.wf(),
    {
        SizeRules {
            min: to_i32(self.min as i64 + rhs.min as i64),
            ideal: to_i32(self.ideal as i64 + rhs.ideal as i64),
            margins: Margins(
                wider_of(self.margins.0, rhs.margins.0),
                wider_of(self.margins.1, rhs.margins.1),
            ),
            stretch: self.stretch.max(rhs.stretch),
        }
    }

    /// The rules of two widgets that share one place
    ///
    /// The result has the greater minimum, the greater ideal, the wider
    /// margin on each side and the greater stretch policy.
    pub fn max(self, rhs: SizeRules) -> (r: SizeRules)
        ensures
            r == self.stacked(rhs),
            self.wf() && rhs.wf() ==> r.wf(),
    {
        SizeRules {
            min: larger_of(self.min, rhs.min),
            ideal: larger_of(self.ideal, rhs.ideal),
            margins: Margins(
                wider_of(self.margins.0, rhs.margins.0),
                wider_of(self.margins.1, rhs.margins.1),
            ),
            stretch: self.stretch.max(rhs.stretch),
        }
    }

    /// The rules of a frame around content
    ///
    /// Here `self` describes the frame: `min` is its thickness before the
    /// content, `ideal` its thickness before and after taken together, and
    /// `margins` are the margins outside the frame. The thickness is added
    /// to the minimum and to the ideal size of the content; the margins of
    /// the content are not seen outside the frame.
    ///
    /// Returns the rules of the whole, the offset of the content from the
    /// start of the frame, and the amount by which the content is smaller
    /// than the whole.
    pub fn surround(self, content: SizeRules) -> (r: (SizeRules, i32, i32))
        ensures
            r.0 == self.framed(content),
            r.1 == self.min,
            r.2 == self.ideal,
            content.wf() ==> r.0.wf(),
    {
        let rules = SizeRules {
            min: to_i32(content.min as i64 + self.ideal as i64),
            ideal: to_i32(content.ideal as i64 + self.ideal as i64),
            margins: self.margins,
            stretch: content.stretch,
        };
        (rules, self.min, self.ideal)
    }

    /// Multiply the sizes, adding the margin between consecutive copies
    ///
    /// The minimum becomes that of `min_factor` copies and the ideal that of
    /// `ideal_factor` copies, but never less than the new minimum.
    pub fn multiply_with_margin(&mut self, min_factor: i32, ideal_factor: i32)
        ensures
            *final(self) == old(self).repeated(min_factor, ideal_factor),
            final(self).wf(),
    {
        let gap: i64 = wider_of(self.margins.0, self.margins.1) as i64;
        let min_factor = min_factor as i64;
        let ideal_factor = ideal_factor as i64;
        assert(-0x8000_0000 * 0x8000_0000 <= min_factor * self.min <= 0x8000_0000 * 0x8000_0000)
            by (nonlinear_arith)
            requires
                -0x8000_0000 <= min_factor <= 0x8000_0000,
                -0x8000_0000 <= self.min <= 0x8000_0000,
        ;
        assert(-0x8000_0001 * 0x8000 <= (min_factor - 1) * gap <= 0x8000_0001 * 0x8000)
            by (nonlinear_arith)
            requires
                -0x8000_0000 <= min_factor <= 0x8000_0000,
                -0x8000 <= gap <= 0x8000,
        ;
        assert(-0x8000_0000 * 0x8000_0000 <= ideal_factor * self.ideal <= 0x8000_0000
            * 0x8000_0000) by (nonlinear_arith)
            requires
                -0x8000_0000 <= ideal_factor <= 0x8000_0000,
                -0x8000_0000 <= self.ideal <= 0x8000_0000,
        ;
        assert(-0x8000_0001 * 0x8000 <= (ideal_factor - 1) * gap <= 0x8000_0001 * 0x8000)
            by (nonlinear_arith)
            requires
                -0x8000_0000 <= ideal_factor <= 0x8000_0000,
                -0x8000 <= gap <= 0x8000,
        ;
        let min = to_i32(min_factor * self.min as i64 + (min_factor - 1) * gap);
        let ideal = to_i32(ideal_factor * self.ideal as i64 + (ideal_factor - 1) * gap);
        self.min = min;
        self.ideal = larger_of(min, ideal);
    }
}

/// In sequence, minimum sizes add up and ideal sizes add up, as long as the
/// sums can be represented.
pub proof fn lemma_sum_adds_sizes(a: SizeRules, b: SizeRules)
    requires
        i32::MIN <= a.min + b.min <= i32::MAX,
        i32::MIN <= a.ideal + b.ideal <= i32::MAX,
    ensures
        a.summed(b).min == a.min + b.min,
        a.summed(b).ideal == a.ideal + b.ideal,
{
}

/// Sharing one place, the minimum is the greater of the two minimum sizes
/// and the ideal the greater of the two ideal sizes.
pub proof fn lemma_max_takes_larger(a: SizeRules, b: SizeRules)
    ensures
        a.stacked(b).min == larger(a.min, b.min),
        a.stacked(b).min >= a.min,
        a.stacked(b).min >= b.min,
        a.stacked(b).min == a.min || a.stacked(b).min == b.min,
        a.stacked(b).ideal == larger(a.ideal, b.ideal),
{
}

/// Neither the sum nor the maximum depends on the order of its operands.
pub proof fn lemma_sum_and_max_commute(a: SizeRules, b: SizeRules)
    ensures
        a.summed(b) == b.summed(a),
        a.stacked(b) == b.stacked(a),
{
    lemma_policy_join(a.stretch, b.stretch, b.stretch);
}

/// The maximum is associative and idempotent.
pub proof fn lemma_max_associative(a: SizeRules, b: SizeRules, c: SizeRules)
    ensures
        a.stacked(b).stacked(c) == a.stacked(b.stacked(c)),
        a.stacked(a) == a,
{
    lemma_policy_join(a.stretch, b.stretch, c.stretch);
}

/// The sum is associative as long as no partial sum saturates.
pub proof fn lemma_sum_associative(a: SizeRules, b: SizeRules, c: SizeRules)
    requires
        i32::MIN <= a.min + b.min <= i32::MAX,
        i32::MIN <= b.min + c.min <= i32::MAX,
        i32::MIN <= a.ideal + b.ideal <= i32::MAX,
        i32::MIN <= b.ideal + c.ideal <= i32::MAX,
    ensures
        a.summed(b).summed(c) == a.summed(b.summed(c)),
{
    lemma_policy_join(a.stretch, b.stretch, c.stretch);
}

/// The empty rules are the identity of the sum and of the maximum, for
/// rules without negative sizes or margins.
pub proof fn lemma_empty_is_identity(a: SizeRules)
    requires
        a.min >= 0,
        a.ideal >= 0,
        a.margins.0 >= 0,
        a.margins.1 >= 0,
    ensures
        a.summed(SizeRules::empty_rules()) == a,
        SizeRules::empty_rules().summed(a) == a,
        a.stacked(SizeRules::empty_rules()) == a,
        SizeRules::empty_rules().stacked(a) == a,
{
    lemma_policy_join(a.stretch, StretchPolicy::Fixed, StretchPolicy::Fixed);
}

/// Joining stretch policies is commutative, associative and idempotent, and
/// `StretchPolicy::Fixed` is its identity.
pub proof fn lemma_policy_join(a: StretchPolicy, b: StretchPolicy, c: StretchPolicy)
    ensures
        a.join(b) == b.join(a),
        a.join(b).join(c) == a.join(b.join(c)),
        a.join(a) == a,
        a.join(StretchPolicy::Fixed) == a,
        StretchPolicy::Fixed.join(a) == a,
{
}

} // verus!
