//! Finding the first position at which something holds.

use vstd::prelude::*;

verus! {

/// The least position in `from..to` at which `p` holds.
pub open spec fn first_index(p: spec_fn(int) -> bool, from: int, to: int) -> Option<int>
    decreases to - from,
{
    if from >= to {
        None
    } else if p(from) {
        Some(from)
    } else {
        first_index(p, from + 1, to)
    }
}

/// What `first_index` finds is the least such position, and it finds one if there is one.
pub proof fn lemma_first_index(p: spec_fn(int) -> bool, from: int, to: int)
    ensures
        match first_index(p, from, to) {
            Some(i) => from <= i < to && p(i) && forall|j: int| from <= j < i ==> !#[trigger] p(j),
            None => forall|j: int| from <= j < to ==> !#[trigger] p(j),
        },
    decreases to - from,
{
    if from < to && !p(from) {
        lemma_first_index(p, from + 1, to);
    }
}

/// A position that code found, as a number.
pub open spec fn index(r: Option<usize>) -> Option<int> {
    match r {
        Some(i) => Some(i as int),
        None => None,
    }
}

/// The greatest position in `from..to` at which `p` holds.
pub open spec fn last_index(p: spec_fn(int) -> bool, from: int, to: int) -> Option<int>
    decreases to - from,
{
    if from >= to {
        None
    } else if p(to - 1) {
        Some(to - 1)
    } else {
        last_index(p, from, to - 1)
    }
}

} // verus!
