//! Visibility levels: an ordered ladder of event importance.

use std::cmp::Ordering;
use vstd::prelude::*;

verus! {

/// How important an event is. The ladder is totally ordered:
/// `Debug < Info < Warn < Error`.
#[derive(Clone, Copy, Debug, PartialEq, Eq, Structural)]
pub enum VisibilityLevel {
    Debug,
    Info,
    Warn,
    Error,
}

impl VisibilityLevel {
    /// The position of the level on the ladder, counted from the bottom.
    pub open spec fn rank_spec(self) -> nat {
        match self {
            VisibilityLevel::Debug => 0,
            VisibilityLevel::Info => 1,
            VisibilityLevel::Warn => 2,
            VisibilityLevel::Error => 3,
        }
    }

    /// A floor of `self` admits an event of `level` exactly when the event
    /// is at least as important as the floor.
    pub open spec fn admits_spec(self, level: VisibilityLevel) -> bool {
        level.rank_spec() >= self.rank_spec()
    }

    /// The position of the level on the ladder, counted from the bottom.
    pub fn rank(self) -> (r: u8)
        ensures
            r == self.rank_spec(),
    {
        match self {
            VisibilityLevel::Debug => 0,
            VisibilityLevel::Info => 1,
            VisibilityLevel::Warn => 2,
            VisibilityLevel::Error => 3,
        }
    }

    /// Whether a sink whose floor is `self` renders an event of `level`.
    #[verifier::when_used_as_spec(admits_spec)]
    pub fn admits(self, level: VisibilityLevel) -> (r: bool)
        ensures
            r == self.admits_spec(level),
    {
        level.rank() >= self.rank()
    }
}

impl PartialOrd for VisibilityLevel {
    fn partial_cmp(&self, other: &Self) -> (r: Option<Ordering>) {
        let a: u8 = self.rank();
        let b: u8 = other.rank();
        if a < b {
            Some(Ordering::Less)
        } else if a == b {
            Some(Ordering::Equal)
        } else {
            Some(Ordering::Greater)
        }
    }
}

impl vstd::std_specs::cmp::PartialOrdSpecImpl for VisibilityLevel {
    open spec fn obeys_partial_cmp_spec() -> bool {
        true
    }

    open spec fn partial_cmp_spec(&self, other: &Self) -> Option<Ordering> {
        if self.rank_spec() < other.rank_spec() {
            Some(Ordering::Less)
        } else if self.rank_spec() == other.rank_spec() {
            Some(Ordering::Equal)
        } else {
            Some(Ordering::Greater)
        }
    }
}

/// The ladder is a total order: two levels are equal exactly when their
/// ranks are, any two levels are comparable, and admission is transitive.
pub proof fn lemma_levels_totally_ordered(
    a: VisibilityLevel,
    b: VisibilityLevel,
    c: VisibilityLevel,
)
    ensures
        a.rank_spec() == b.rank_spec() <==> a == b,
        a.admits_spec(b) || b.admits_spec(a),
        a.admits_spec(b) && b.admits_spec(a) ==> a == b,
        a.admits_spec(b) && b.admits_spec(c) ==> a.admits_spec(c),
        a.admits_spec(a),
{
}

} // verus!
