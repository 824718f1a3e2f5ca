//! The order of squares.
use crate::piece::position::Position;
use std::cmp::Ordering;
use vstd::prelude::*;
use vstd::std_specs::cmp::PartialOrdSpecImpl;

verus! {

/// How two squares compare: by file first, then by rank.
pub open spec fn position_order(a: Position, b: Position) -> Ordering {
    if a.x < b.x {
        Ordering::Less
    } else if a.x > b.x {
        Ordering::Greater
    } else if a.y < b.y {
        Ordering::Less
    } else if a.y > b.y {
        Ordering::Greater
    } else {
        Ordering::Equal
    }
}

impl PartialOrd for Position {
    fn partial_cmp(&self, other: &Position) -> (r: Option<Ordering>) {
        if self.x < other.x {
            Some(Ordering::Less)
        } else if self.x > other.x {
            Some(Ordering::Greater)
        } else if self.y < other.y {
            Some(Ordering::Less)
        } else if self.y > other.y {
            Some(Ordering::Greater)
        } else {
            Some(Ordering::Equal)
        }
    }
}

impl PartialOrdSpecImpl for Position {
    open spec fn obeys_partial_cmp_spec() -> bool {
        true
    }

    open spec fn partial_cmp_spec(&self, other: &Position) -> Option<Ordering> {
        Some(position_order(*self, *other))
    }
}

/// The order of squares is total: two squares compare as equal only
/// where they are the same square, swapping them turns the order
/// round, and the order passes along a chain.
pub proof fn lemma_position_order_total(a: Position, b: Position, c: Position)
    ensures
        position_order(a, b) == Ordering::Equal <==> a == b,
        position_order(a, b) == Ordering::Less <==> position_order(b, a) == Ordering::Greater,
        position_order(a, b) == Ordering::Less && position_order(b, c) == Ordering::Less
            ==> position_order(a, c) == Ordering::Less,
{
}

} // verus!
