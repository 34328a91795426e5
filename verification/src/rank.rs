//! The order of comparison outcomes and of hits: by score, the better
//! first. An outcome without atoms has no score and stands in no order
//! to any other.

use crate::compare::{mean_score, Atom, Similarities};
use crate::search::Hit;
use std::cmp::Ordering;
use vstd::prelude::*;
use vstd::std_specs::cmp::PartialOrdSpecImpl;

verus! {

/// How two scores stand to each other.
pub open spec fn order_of(a: nat, b: nat) -> Ordering {
    if a < b {
        Ordering::Less
    } else if a == b {
        Ordering::Equal
    } else {
        Ordering::Greater
    }
}

/// How two outcomes stand to each other: as their scores do, where both
/// have one.
pub open spec fn order_of_outcomes(a: Seq<Atom>, b: Seq<Atom>) -> Option<Ordering> {
    if a.len() == 0 || b.len() == 0 {
        None
    } else {
        Some(order_of(mean_score(a), mean_score(b)))
    }
}

impl PartialOrd for Similarities {
    fn partial_cmp(&self, other: &Self) -> (r: Option<Ordering>) {
        if self.0.len() == 0 || other.0.len() == 0 {
            return None;
        }
        let mine = self.score();
        let theirs = other.score();
        if mine < theirs {
            Some(Ordering::Less)
        } else if mine == theirs {
            Some(Ordering::Equal)
        } else {
            Some(Ordering::Greater)
        }
    }
}

impl PartialOrdSpecImpl for Similarities {
    open spec fn obeys_partial_cmp_spec() -> bool {
        true
    }

    open spec fn partial_cmp_spec(&self, other: &Self) -> Option<Ordering> {
        order_of_outcomes(self@, other@)
    }
}

impl PartialOrd for Hit {
    fn partial_cmp(&self, other: &Self) -> (r: Option<Ordering>) {
        self.similarities.partial_cmp(&other.similarities)
    }
}

impl PartialOrdSpecImpl for Hit {
    open spec fn obeys_partial_cmp_spec() -> bool {
        true
    }

    open spec fn partial_cmp_spec(&self, other: &Self) -> Option<Ordering> {
        order_of_outcomes(self.similarities@, other.similarities@)
    }
}

} // verus!
