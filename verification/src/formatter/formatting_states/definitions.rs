//! The order of the link reference definitions in a run: the one that
//! begins first in the source stands last, so that it is taken up first.
use vstd::prelude::*;
use vstd::seq_lib::to_multiset_insert;
use crate::events::{definition_views, ReferenceLinkDefinition, ReferenceLinkDefinitionView};
use crate::formatter::formatting_states::laws::spec_definitions_descend;

verus! {

/// The first index at or behind `i` whose definition begins at or before
/// `start`; the number of definitions where there is none.
pub open spec fn spec_insert_position(
    sorted: Seq<ReferenceLinkDefinitionView>,
    start: usize,
    i: int,
) -> int
    decreases sorted.len() - i,
{
    if i < 0 || i >= sorted.len() {
        sorted.len() as int
    } else if sorted[i].start <= start {
        i
    } else {
        spec_insert_position(sorted, start, i + 1)
    }
}

/// The definitions `sorted` with the first `n` of `definitions` put in,
/// the last of them first, each in front of the first that begins at or
/// before it.
pub open spec fn spec_put_in(
    definitions: Seq<ReferenceLinkDefinitionView>,
    n: int,
    sorted: Seq<ReferenceLinkDefinitionView>,
) -> Seq<ReferenceLinkDefinitionView>
    decreases n,
{
    if n <= 0 || n > definitions.len() {
        sorted
    } else {
        spec_put_in(
            definitions,
            n - 1,
            sorted.insert(
                spec_insert_position(sorted, definitions[n - 1].start, 0),
                definitions[n - 1],
            ),
        )
    }
}

/// The definitions ordered by where they begin, the later one first;
/// those that begin at the same place stay in their order.
pub open spec fn spec_ordered(definitions: Seq<ReferenceLinkDefinitionView>) -> Seq<
    ReferenceLinkDefinitionView,
> {
    spec_put_in(definitions, definitions.len() as int, Seq::empty())
}

proof fn lemma_insert_position_bounds(
    sorted: Seq<ReferenceLinkDefinitionView>,
    start: usize,
    i: int,
)
    requires
        0 <= i <= sorted.len(),
    ensures
        i <= spec_insert_position(sorted, start, i) <= sorted.len(),
        forall|k: int|
            i <= k < spec_insert_position(sorted, start, i) ==> (#[trigger] sorted[k]).start
                > start,
        spec_insert_position(sorted, start, i) < sorted.len() ==> sorted[spec_insert_position(
            sorted,
            start,
            i,
        )].start <= start,
    decreases sorted.len() - i,
{
    if i < sorted.len() && sorted[i].start > start {
        lemma_insert_position_bounds(sorted, start, i + 1);
    }
}

/// Putting definitions in keeps the order and loses none: what comes out
/// holds the definitions that were there and those that were put in, each as
/// often as it occurs, with each one at or behind the ones that follow it.
pub proof fn lemma_put_in_orders(
    definitions: Seq<ReferenceLinkDefinitionView>,
    n: int,
    sorted: Seq<ReferenceLinkDefinitionView>,
)
    requires
        0 <= n <= definitions.len(),
        spec_definitions_descend(sorted),
    ensures
        spec_definitions_descend(spec_put_in(definitions, n, sorted)),
        spec_put_in(definitions, n, sorted).to_multiset() == sorted.to_multiset().add(
            definitions.take(n).to_multiset(),
        ),
    decreases n,
{
    broadcast use {to_multiset_insert, vstd::seq_lib::to_multiset_build};

    if n == 0 {
        assert(definitions.take(0) =~= Seq::empty());
        assert(sorted.to_multiset().add(definitions.take(0).to_multiset()) =~= sorted.to_multiset())
            by {
            Seq::<ReferenceLinkDefinitionView>::empty().to_multiset_ensures();
        }
    } else {
        let d = definitions[n - 1];
        let at = spec_insert_position(sorted, d.start, 0);
        lemma_insert_position_bounds(sorted, d.start, 0);
        let next = sorted.insert(at, d);
        sorted.insert_ensures(at, d);
        assert forall|i: int, j: int| 0 <= i <= j < next.len() implies next[i].start
            >= next[j].start by {
            if j < at {
            } else if i > at {
                assert(next[i] == sorted[i - 1]);
                assert(next[j] == sorted[j - 1]);
            } else if i == at {
                if j > at {
                    assert(next[j] == sorted[j - 1]);
                    assert(sorted[at].start >= sorted[j - 1].start);
                }
            } else {
                // i < at <= j
                if j > at {
                    assert(next[j] == sorted[j - 1]);
                    assert(sorted[i].start >= sorted[j - 1].start);
                }
            }
        }
        lemma_put_in_orders(definitions, n - 1, next);
        assert(definitions.take(n) =~= definitions.take(n - 1).push(d));
        assert(next.to_multiset().add(definitions.take(n - 1).to_multiset()) =~= sorted.to_multiset().add(
            definitions.take(n).to_multiset(),
        ));
    }
}

/// Ordering the definitions loses none and puts each at or behind the
/// ones that follow it.
pub proof fn lemma_ordered_orders(definitions: Seq<ReferenceLinkDefinitionView>)
    ensures
        spec_definitions_descend(spec_ordered(definitions)),
        spec_ordered(definitions).to_multiset() == definitions.to_multiset(),
{
    lemma_put_in_orders(definitions, definitions.len() as int, Seq::empty());
    assert(definitions.take(definitions.len() as int) =~= definitions);
    assert(Seq::<ReferenceLinkDefinitionView>::empty().to_multiset().add(
        definitions.to_multiset(),
    ) =~= definitions.to_multiset()) by {
        Seq::<ReferenceLinkDefinitionView>::empty().to_multiset_ensures();
    }
}

/// Orders the definitions by where they begin, the later one first.
pub fn order_definitions(definitions: Vec<ReferenceLinkDefinition>) -> (r: Vec<ReferenceLinkDefinition>)
    ensures
        definition_views(r@) == spec_ordered(definition_views(definitions@)),
{
    let mut pending = definitions;
    let ghost all = definition_views(definitions@);
    let mut sorted: Vec<ReferenceLinkDefinition> = Vec::new();
    assert(definition_views(sorted@) =~= Seq::empty());
    while pending.len() > 0
        invariant
            pending@.len() <= all.len(),
            definition_views(pending@) == all.take(pending@.len() as int),
            spec_ordered(all) == spec_put_in(
                all,
                pending@.len() as int,
                definition_views(sorted@),
            ),
        decreases pending@.len(),
    {
        let ghost before = pending@;
        let ghost placed = sorted@;
        let next = pending.pop().unwrap();
        assert(next@ == all[before.len() - 1]) by {
            assert(definition_views(before)[before.len() - 1] == all.take(
                before.len() as int,
            )[before.len() - 1]);
        }
        assert(definition_views(pending@) =~= all.take(pending@.len() as int)) by {
            assert forall|k: int| 0 <= k < pending@.len() implies definition_views(pending@)[k]
                == all.take(pending@.len() as int)[k] by {
                assert(definition_views(before)[k] == all.take(before.len() as int)[k]);
            }
        }
        let mut at: usize = 0;
        while at < sorted.len() && sorted[at].start > next.start
            invariant
                at <= sorted@.len(),
                sorted@ == placed,
                spec_insert_position(definition_views(placed), next.start, 0)
                    == spec_insert_position(definition_views(placed), next.start, at as int),
            decreases sorted@.len() - at,
        {
            at += 1;
        }
        sorted.insert(at, next);
        assert(definition_views(sorted@) =~= definition_views(placed).insert(at as int, next@));
    }
    sorted
}

} // verus!
