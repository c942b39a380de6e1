//! From positions counted in bytes to positions counted in characters.
use std::collections::VecDeque;
use vstd::prelude::*;
use crate::events::{event_views, SourceEvent, SourceEventView};
use crate::parser::{raw_views, RawDefinition, RawDefinitionView};
use crate::text::{lemma_byte_len_grows, spec_byte_len, utf8_len};

verus! {

/// Whether `i` characters of `input` take exactly `byte` bytes.
pub open spec fn spec_is_char_index(input: Seq<char>, byte: usize, i: int) -> bool {
    0 <= i <= input.len() && spec_byte_len(input, i) == byte
}

/// The number of characters that stand before the byte `byte` of `input`
/// in UTF-8; `None` where that byte begins no character and is not the end,
/// or where `input` takes more bytes than a `usize` can count.
pub open spec fn spec_char_index(input: Seq<char>, byte: usize) -> Option<usize> {
    if spec_byte_len(input, input.len() as int) <= usize::MAX && exists|i: int|
        spec_is_char_index(input, byte, i) {
        Some((choose|i: int| spec_is_char_index(input, byte, i)) as usize)
    } else {
        None
    }
}

/// More characters take more bytes.
pub proof fn lemma_byte_len_strict(s: Seq<char>, n: int, m: int)
    requires
        0 <= n < m <= s.len(),
    ensures
        spec_byte_len(s, n) < spec_byte_len(s, m),
    decreases m,
{
    if n < m - 1 {
        lemma_byte_len_strict(s, n, m - 1);
    }
}

/// Counting in characters keeps the order of positions: of two bytes that
/// begin a character, the later one has the later character.
pub proof fn lemma_char_index_keeps_order(input: Seq<char>, a: usize, b: usize)
    requires
        a <= b,
        spec_char_index(input, a) is Some,
        spec_char_index(input, b) is Some,
    ensures
        spec_char_index(input, a)->0 <= spec_char_index(input, b)->0,
{
    let i = choose|i: int| spec_is_char_index(input, a, i);
    let j = choose|j: int| spec_is_char_index(input, b, j);
    if j < i {
        lemma_byte_len_strict(input, j, i);
    }
    lemma_byte_len_at_least(input, i);
    lemma_byte_len_at_least(input, j);
}

/// Each character takes a byte or more.
pub proof fn lemma_byte_len_at_least(s: Seq<char>, n: int)
    requires
        0 <= n <= s.len(),
    ensures
        n <= spec_byte_len(s, n),
    decreases n,
{
    if n > 0 {
        lemma_byte_len_at_least(s, n - 1);
    }
}

/// The byte at which each character of `input` begins, and at the end the
/// number of bytes of all of it; `None` where a `usize` cannot count them.
pub fn byte_offsets(input: &[char]) -> (r: Option<Vec<usize>>)
    ensures
        r is Some <==> spec_byte_len(input@, input@.len() as int) <= usize::MAX,
        r is Some ==> r->0@.len() == input@.len() + 1 && forall|i: int|
            0 <= i <= input@.len() ==> r->0@[i] == spec_byte_len(input@, i),
{
    let mut offsets: Vec<usize> = Vec::new();
    offsets.push(0);
    let mut total: usize = 0;
    let mut i: usize = 0;
    while i < input.len()
        invariant
            i <= input@.len(),
            total == spec_byte_len(input@, i as int),
            offsets@.len() == i + 1,
            forall|k: int| 0 <= k <= i ==> offsets@[k] == spec_byte_len(input@, k),
        decreases input@.len() - i,
    {
        let w = utf8_len(input[i]);
        if total > usize::MAX - w {
            proof {
                lemma_byte_len_grows(input@, i + 1, input@.len() as int);
            }
            return None;
        }
        total += w;
        offsets.push(total);
        i += 1;
    }
    Some(offsets)
}

/// The index of `byte` in the table `offsets` of `input`.
fn char_index(offsets: &Vec<usize>, byte: usize, Ghost(input): Ghost<Seq<char>>) -> (r: Option<
    usize,
>)
    requires
        offsets@.len() == input.len() + 1,
        forall|i: int| 0 <= i <= input.len() ==> offsets@[i] == spec_byte_len(input, i),
    ensures
        r == spec_char_index(input, byte),
        r is Some ==> r->0 <= input.len(),
{
    let mut lo: usize = 0;
    let mut hi: usize = offsets.len();
    while lo < hi
        invariant
            lo <= hi <= offsets@.len() == input.len() + 1,
            forall|i: int| 0 <= i <= input.len() ==> offsets@[i] == spec_byte_len(input, i),
            forall|i: int| 0 <= i < lo ==> spec_byte_len(input, i) < byte,
            forall|i: int| hi <= i <= input.len() ==> spec_byte_len(input, i) > byte,
        decreases hi - lo,
    {
        let mid = lo + (hi - lo) / 2;
        let at = offsets[mid];
        if at == byte {
            proof {
                assert(spec_is_char_index(input, byte, mid as int));
                let chosen = choose|i: int| spec_is_char_index(input, byte, i);
                if chosen < mid {
                    lemma_byte_len_strict(input, chosen, mid as int);
                }
                if chosen > mid {
                    lemma_byte_len_strict(input, mid as int, chosen);
                }
            }
            return Some(mid);
        } else if at < byte {
            proof {
                assert forall|i: int| 0 <= i < mid + 1 implies spec_byte_len(input, i) < byte by {
                    if i < mid {
                        lemma_byte_len_strict(input, i, mid as int);
                    }
                }
            }
            lo = mid + 1;
        } else {
            proof {
                assert forall|i: int| mid <= i <= input.len() implies spec_byte_len(input, i)
                    > byte by {
                    if i > mid {
                        lemma_byte_len_strict(input, mid as int, i);
                    }
                }
            }
            hi = mid;
        }
    }
    None
}

/// The event with the part of the source it was read from counted in
/// characters; `None` where the part does not begin and end between
/// characters.
pub open spec fn spec_locate_event(input: Seq<char>, event: SourceEventView) -> Option<
    SourceEventView,
> {
    match (spec_char_index(input, event.start), spec_char_index(input, event.end)) {
        (Some(start), Some(end)) => Some(SourceEventView { event: event.event, start, end }),
        _ => None,
    }
}

/// The events with their parts of the source counted in characters; `None`
/// where one of them cannot be counted so.
pub open spec fn spec_locate_events(input: Seq<char>, events: Seq<SourceEventView>) -> Option<
    Seq<SourceEventView>,
> {
    if forall|i: int| 0 <= i < events.len() ==> spec_locate_event(input, #[trigger] events[i]) is Some {
        Some(Seq::new(events.len(), |i: int| spec_locate_event(input, events[i])->0))
    } else {
        None
    }
}

/// The definition with the part of the source it stands at counted in
/// characters.
pub open spec fn spec_locate_definition(input: Seq<char>, definition: RawDefinitionView) -> Option<
    RawDefinitionView,
> {
    match (spec_char_index(input, definition.start), spec_char_index(input, definition.end)) {
        (Some(start), Some(end)) => Some(RawDefinitionView { start, end, ..definition }),
        _ => None,
    }
}

pub open spec fn spec_locate_definitions(
    input: Seq<char>,
    definitions: Seq<RawDefinitionView>,
) -> Option<Seq<RawDefinitionView>> {
    if forall|i: int|
        0 <= i < definitions.len() ==> spec_locate_definition(input, #[trigger] definitions[i]) is Some {
        Some(
            Seq::new(definitions.len(), |i: int| spec_locate_definition(input, definitions[i])->0),
        )
    } else {
        None
    }
}

/// The events of `events`, in their order, as a queue.
pub fn into_queue(events: Vec<SourceEvent>) -> (r: VecDeque<SourceEvent>)
    ensures
        r@ == events@,
{
    let mut pending: VecDeque<SourceEvent> = VecDeque::new();
    let mut events = events;
    let ghost all = events@;
    let mut reversed: Vec<SourceEvent> = Vec::new();
    while events.len() > 0
        invariant
            reversed@.len() + events@.len() == all.len(),
            events@ == all.take(events@.len() as int),
            forall|k: int| 0 <= k < reversed@.len() ==> reversed@[k] == all[all.len() - 1 - k],
        decreases events@.len(),
    {
        let last = events.pop().unwrap();
        reversed.push(last);
    }
    while reversed.len() > 0
        invariant
            reversed@.len() + pending@.len() == all.len(),
            forall|k: int| 0 <= k < reversed@.len() ==> reversed@[k] == all[all.len() - 1 - k],
            pending@ == all.take(pending@.len() as int),
        decreases reversed@.len(),
    {
        let next = reversed.pop().unwrap();
        pending.push_back(next);
        assert(pending@ =~= all.take(pending@.len() as int));
    }
    assert(pending@ =~= all);
    pending
}

/// Counts the parts of the source that the events speak of in characters.
pub fn locate_events(input: &[char], events: VecDeque<SourceEvent>) -> (r: Option<
    VecDeque<SourceEvent>,
>)
    ensures
        match r {
            Some(located) => Some(event_views(located@)),
            None => None,
        } == spec_locate_events(input@, event_views(events@)),
{
    let offsets = match byte_offsets(input) {
        Some(offsets) => offsets,
        None => {
            assert(events@.len() > 0 ==> spec_locate_event(input@, event_views(events@)[0])
                is None);
            if events.len() == 0 {
                assert(event_views(events@) =~= Seq::empty());
                assert(Seq::new(0, |i: int| spec_locate_event(input@, event_views(events@)[i])->0)
                    =~= event_views(events@));
                return Some(events);
            }
            return None;
        },
    };
    let mut pending = events;
    let ghost all = event_views(events@);
    let n = pending.len();
    let mut located: VecDeque<SourceEvent> = VecDeque::new();
    let mut i: usize = 0;
    while i < n
        invariant
            i <= n == all.len(),
            all == event_views(events@),
            pending@.len() == n - i,
            event_views(pending@) == all.skip(i as int),
            offsets@.len() == input@.len() + 1,
            forall|k: int| 0 <= k <= input@.len() ==> offsets@[k] == spec_byte_len(input@, k),
            located@.len() == i,
            forall|k: int| 0 <= k < i ==> spec_locate_event(input@, #[trigger] all[k]) is Some,
            forall|k: int|
                0 <= k < i ==> (#[trigger] located@[k])@ == spec_locate_event(input@, all[k])->0,
        decreases n - i,
    {
        let ghost before = pending@;
        let next = pending.pop_front().unwrap();
        assert(next@ == all[i as int]) by {
            assert(event_views(before)[0] == all.skip(i as int)[0]);
        }
        assert(event_views(pending@) =~= all.skip(i + 1)) by {
            assert forall|k: int| 0 <= k < pending@.len() implies event_views(pending@)[k]
                == all.skip(i + 1)[k] by {
                assert(event_views(before)[k + 1] == all.skip(i as int)[k + 1]);
            }
        }
        let start = char_index(&offsets, next.start, Ghost(input@));
        let end = char_index(&offsets, next.end, Ghost(input@));
        match (start, end) {
            (Some(start), Some(end)) => {
                located.push_back(SourceEvent { event: next.event, start, end });
            },
            _ => {
                assert(spec_locate_event(input@, all[i as int]) is None);
                return None;
            },
        }
        i += 1;
    }
    assert(event_views(located@) =~= Seq::new(
        all.len(),
        |i: int| spec_locate_event(input@, all[i])->0,
    ));
    Some(located)
}

/// Counts the parts of the source that the definitions stand at in
/// characters.
pub fn locate_definitions(input: &[char], definitions: Vec<RawDefinition>) -> (r: Option<
    Vec<RawDefinition>,
>)
    ensures
        match r {
            Some(located) => Some(raw_views(located@)),
            None => None,
        } == spec_locate_definitions(input@, raw_views(definitions@)),
{
    let offsets = match byte_offsets(input) {
        Some(offsets) => offsets,
        None => {
            assert(definitions@.len() > 0 ==> spec_locate_definition(
                input@,
                raw_views(definitions@)[0],
            ) is None);
            if definitions.len() == 0 {
                assert(raw_views(definitions@) =~= Seq::empty());
                assert(Seq::new(
                    0,
                    |i: int| spec_locate_definition(input@, raw_views(definitions@)[i])->0,
                ) =~= raw_views(definitions@));
                return Some(definitions);
            }
            return None;
        },
    };
    let mut pending = definitions;
    let ghost all = raw_views(definitions@);
    let n = pending.len();
    // the definitions are taken from the end, so they come out reversed
    let mut reversed: Vec<RawDefinition> = Vec::new();
    let mut i: usize = 0;
    while i < n
        invariant
            i <= n == all.len(),
            all == raw_views(definitions@),
            pending@.len() == n - i,
            raw_views(pending@) == all.take(n - i),
            offsets@.len() == input@.len() + 1,
            forall|k: int| 0 <= k <= input@.len() ==> offsets@[k] == spec_byte_len(input@, k),
            reversed@.len() == i,
            forall|k: int|
                n - i <= k < n ==> spec_locate_definition(input@, #[trigger] all[k]) is Some,
            forall|k: int|
                0 <= k < i ==> (#[trigger] reversed@[k])@ == spec_locate_definition(
                    input@,
                    all[n - 1 - k],
                )->0,
        decreases n - i,
    {
        let ghost before = pending@;
        let next = pending.pop().unwrap();
        assert(next@ == all[n - i - 1]) by {
            assert(raw_views(before)[n - i - 1] == all.take(n - i)[n - i - 1]);
        }
        assert(raw_views(pending@) =~= all.take(n - i - 1)) by {
            assert forall|k: int| 0 <= k < pending@.len() implies raw_views(pending@)[k]
                == all.take(n - i - 1)[k] by {
                assert(raw_views(before)[k] == all.take(n - i)[k]);
            }
        }
        let start = char_index(&offsets, next.start, Ghost(input@));
        let end = char_index(&offsets, next.end, Ghost(input@));
        match (start, end) {
            (Some(start), Some(end)) => {
                reversed.push(
                    RawDefinition {
                        label: next.label,
                        dest: next.dest,
                        title: next.title,
                        start,
                        end,
                    },
                );
            },
            _ => {
                assert(spec_locate_definition(input@, all[n - i - 1]) is None);
                return None;
            },
        }
        i += 1;
    }
    let mut located: Vec<RawDefinition> = Vec::new();
    let mut j: usize = 0;
    while j < n
        invariant
            j <= n == all.len(),
            all == raw_views(definitions@),
            reversed@.len() == n - j,
            located@.len() == j,
            forall|k: int|
                0 <= k < n - j ==> (#[trigger] reversed@[k])@ == spec_locate_definition(
                    input@,
                    all[n - 1 - k],
                )->0,
            forall|k: int|
                0 <= k < j ==> (#[trigger] located@[k])@ == spec_locate_definition(
                    input@,
                    all[k],
                )->0,
        decreases n - j,
    {
        let next = reversed.pop().unwrap();
        located.push(next);
        j += 1;
    }
    assert(raw_views(located@) =~= Seq::new(
        all.len(),
        |i: int| spec_locate_definition(input@, all[i])->0,
    ));
    Some(located)
}

} // verus!
