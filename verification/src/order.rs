//! The order in which link reference definitions are taken up.
use std::cmp::Ordering;
use vstd::prelude::*;
use itertools::Itertools;
use crate::parser::{raw_views, RawDefinition, RawDefinitionView};

verus! {

/// Whether each definition begins at or behind the ones that follow it.
pub open spec fn starts_descend(definitions: Seq<RawDefinitionView>) -> bool {
    forall|i: int, j: int|
        0 <= i <= j < definitions.len() ==> definitions[i].start >= definitions[j].start
}

/// Orders two definitions by where they begin, the later one first.
pub fn later_first(a: &RawDefinition, b: &RawDefinition) -> (r: Ordering)
    ensures
        (r is Less) == (a.start > b.start),
        (r is Equal) == (a.start == b.start),
        (r is Greater) == (a.start < b.start),
{
    if a.start > b.start {
        Ordering::Less
    } else if a.start == b.start {
        Ordering::Equal
    } else {
        Ordering::Greater
    }
}

/// `Itertools::sorted_by` with `later_first`: the same definitions, the one
/// that begins last in the source first.
#[verifier::external_body]
pub(crate) fn sort_later_first(definitions: Vec<RawDefinition>) -> (r: Vec<RawDefinition>)
    ensures
        raw_views(r@).to_multiset() == raw_views(definitions@).to_multiset(),
        starts_descend(raw_views(r@)),
{
    definitions.into_iter().sorted_by(|a, b| later_first(a, b)).collect()
}

} // verus!
