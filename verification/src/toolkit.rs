//! Actions that a widget or the event manager asks of the toolkit

use vstd::prelude::*;

verus! {

/// Action required of the toolkit after an event was handled
///
/// The variants are ordered by the amount of work they imply, least first.
/// An action implies all lesser actions, so a toolkit that does more than
/// asked is always correct.
#[derive(Clone, Copy, Debug, PartialEq, Eq, PartialOrd, Ord, Hash, Structural)]
pub enum TkAction {
    /// No action needed
    Empty,
    /// Whole window requires redrawing
    Redraw,
    /// Some widgets within a region moved; the widget under the pointer may
    /// have changed
    RegionMoved,
    /// A widget was scrolled or resized within its parent; call `set_rect`
    /// again without solving sizes
    SetSize,
    /// Window size requirements have changed; solve sizes and call `set_rect`
    Resize,
    /// Widgets were added or removed; assign identifiers anew, then resize
    Reconfigure,
    /// Window should be closed
    Close,
}

impl TkAction {
    /// Position of the action in the order of actions.
    pub open spec fn rank(self) -> nat {
        match self {
            TkAction::Empty => 0,
            TkAction::Redraw => 1,
            TkAction::RegionMoved => 2,
            TkAction::SetSize => 3,
            TkAction::Resize => 4,
            TkAction::Reconfigure => 5,
            TkAction::Close => 6,
        }
    }

    /// The greater of two actions.
    pub open spec fn join(self, other: TkAction) -> TkAction {
        if self.rank() >= other.rank() {
            self
        } else {
            other
        }
    }

    /// Position of the action in the order of actions
    pub fn level(self) -> (r: u8)
        ensures
            r == self.rank(),
    {
        match self {
            TkAction::Empty => 0,
            TkAction::Redraw => 1,
            TkAction::RegionMoved => 2,
            TkAction::SetSize => 3,
            TkAction::Resize => 4,
            TkAction::Reconfigure => 5,
            TkAction::Close => 6,
        }
    }

    /// Combine two actions: the one that implies more work wins
    pub fn max(self, other: TkAction) -> (r: TkAction)
        ensures
            r == self.join(other),
    {
        if self.level() >= other.level() {
            self
        } else {
            other
        }
    }

    /// True if no action is required
    pub fn is_empty(self) -> (r: bool)
        ensures
            r == (self == TkAction::Empty),
    {
        self.level() == 0
    }
}

/// Two actions of the same rank are the same action.
pub proof fn lemma_rank_injective(a: TkAction, b: TkAction)
    requires
        a.rank() == b.rank(),
    ensures
        a == b,
{
}

/// Combining actions is commutative, associative and idempotent, has
/// `TkAction::Empty` as its identity, and its result is the least action that
/// implies both.
pub proof fn lemma_join_is_least_upper_bound(a: TkAction, b: TkAction, c: TkAction)
    ensures
        a.join(b) == b.join(a),
        a.join(b).join(c) == a.join(b.join(c)),
        a.join(a) == a,
        a.join(TkAction::Empty) == a,
        a.join(b).rank() >= a.rank(),
        a.join(b).rank() >= b.rank(),
        a.join(b) == a || a.join(b) == b,
        c.rank() >= a.rank() && c.rank() >= b.rank() ==> c.rank() >= a.join(b).rank(),
{
    if a.rank() == b.rank() {
        lemma_rank_injective(a, b);
    }
}

} // verus!
