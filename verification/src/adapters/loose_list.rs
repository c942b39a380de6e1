//! Loose lists are loose in every item: where blank lines part the items of
//! a list, the text that an item begins with stands in a paragraph, in each
//! item of that list.
use std::collections::VecDeque;
use vstd::prelude::*;
use crate::events::{
    event_views, put_back, take_front, EventKind, MdEvent, MdEventView, MdTag, MdTagView,
    SourceEvent, SourceEventView, TagKind,
};
use crate::formatter::formatting_states::format::{last_visible, spec_last_visible};
use crate::formatter::formatting_states::FormatError;
use crate::text::{count_newlines, span, spec_count_newlines, spec_span};

verus! {

/// Whether an event of this kind is part of the text of a line.
pub open spec fn spec_is_inline(kind: EventKind) -> bool {
    match kind {
        EventKind::Text => true,
        EventKind::Code => true,
        EventKind::InlineHtml => true,
        EventKind::InlineMath => true,
        EventKind::DisplayMath => true,
        EventKind::SoftBreak => true,
        EventKind::HardBreak => true,
        EventKind::FootnoteReference => true,
        EventKind::TaskListMarker => true,
        EventKind::Start { tag, .. } => tag == TagKind::Emphasis || tag == TagKind::Strong || tag
            == TagKind::Strikethrough || tag == TagKind::Link || tag == TagKind::Image,
        _ => false,
    }
}

pub fn is_inline(kind: EventKind) -> (r: bool)
    ensures
        r == spec_is_inline(kind),
{
    match kind {
        EventKind::Text => true,
        EventKind::Code => true,
        EventKind::InlineHtml => true,
        EventKind::InlineMath => true,
        EventKind::DisplayMath => true,
        EventKind::SoftBreak => true,
        EventKind::HardBreak => true,
        EventKind::FootnoteReference => true,
        EventKind::TaskListMarker => true,
        EventKind::Start { tag, .. } => tag == TagKind::Emphasis || tag == TagKind::Strong || tag
            == TagKind::Strikethrough || tag == TagKind::Link || tag == TagKind::Image,
        _ => false,
    }
}

/// Whether a blank line parts an item that ends at `item_end` from what
/// begins at `next_start`: two line feeds or more stand between the last
/// character of the item that is no white space and `next_start`.
pub open spec fn spec_blank_line_gap(input: Seq<char>, item_end: usize, next_start: usize) -> bool {
    spec_count_newlines(
        spec_span(input, spec_last_visible(input, item_end) as int, next_start as int),
    ) >= 2
}

pub fn blank_line_gap(input: &[char], item_end: usize, next_start: usize) -> (r: bool)
    ensures
        r == spec_blank_line_gap(input@, item_end, next_start),
{
    count_newlines(span(input, last_visible(input, item_end), next_start)) >= 2
}

/// Whether the list is loose whose events, behind the one that opens it,
/// are `rest` from index `k` on: a blank line parts two of its items.
/// `depth` counts the lists that are open inside it, and `loose` is what
/// was found before `k`. `None` where the list never ends.
pub open spec fn spec_is_loose(
    input: Seq<char>,
    rest: Seq<SourceEventView>,
    k: int,
    depth: nat,
    loose: bool,
) -> Option<bool>
    decreases rest.len() - k,
{
    if k < 0 || k >= rest.len() {
        None
    } else {
        match rest[k].event.spec_kind() {
            EventKind::Start { tag: TagKind::List(_), .. } => spec_is_loose(
                input,
                rest,
                k + 1,
                depth + 1,
                loose,
            ),
            EventKind::End(TagKind::List(_)) => if depth == 0 {
                Some(loose)
            } else {
                spec_is_loose(input, rest, k + 1, (depth - 1) as nat, loose)
            },
            EventKind::End(TagKind::Item) => spec_is_loose(
                input,
                rest,
                k + 1,
                depth,
                loose || (depth == 0 && k + 1 < rest.len() && rest[k + 1].event.spec_kind()
                    == (EventKind::Start { tag: TagKind::Item, indented: false })
                    && spec_blank_line_gap(input, rest[k].end, rest[k + 1].start)),
            ),
            _ => spec_is_loose(input, rest, k + 1, depth, loose),
        }
    }
}

/// What is open while the events are gone through.
#[derive(Clone, Copy, Debug, PartialEq, Eq, Structural)]
pub enum Frame {
    /// A list, loose or tight.
    List { loose: bool },
    /// A list item; `wrapped_from` is where the paragraph begins that was
    /// opened for its text and is still open.
    Item { wrapped_from: Option<usize> },
    /// Any other element.
    Other,
}

/// The event that opens a paragraph from `start` to `end`.
pub open spec fn spec_paragraph_start(start: usize, end: usize) -> SourceEventView {
    SourceEventView { event: MdEventView::Start(MdTagView::Paragraph), start, end }
}

/// The event that closes a paragraph from `start` to `end`.
pub open spec fn spec_paragraph_end(start: usize, end: usize) -> SourceEventView {
    SourceEventView { event: MdEventView::End(TagKind::Paragraph), start, end }
}

/// Where the paragraph begins that is open for the text of the innermost
/// item, where there is one.
pub open spec fn spec_wrapped_from(stack: Seq<Frame>) -> Option<usize> {
    if stack.len() > 0 {
        match stack.last() {
            Frame::Item { wrapped_from } => wrapped_from,
            _ => None,
        }
    } else {
        None
    }
}

/// The stack with the note taken off the innermost item that a paragraph
/// is open for its text.
pub open spec fn spec_unwrap(stack: Seq<Frame>) -> Seq<Frame> {
    if spec_wrapped_from(stack) is Some {
        stack.update(stack.len() - 1, Frame::Item { wrapped_from: None })
    } else {
        stack
    }
}

/// The events `out` with the paragraph closed that is open for the text
/// of the innermost item, where there is one.
pub open spec fn spec_close_wrapping(
    stack: Seq<Frame>,
    last_end: usize,
    out: Seq<SourceEventView>,
) -> Seq<SourceEventView> {
    match spec_wrapped_from(stack) {
        Some(from) => out.push(spec_paragraph_end(from, last_end)),
        None => out,
    }
}

/// The stack without its innermost frame.
pub open spec fn spec_pop(stack: Seq<Frame>) -> Seq<Frame> {
    if stack.len() > 0 {
        stack.drop_last()
    } else {
        stack
    }
}

/// The events `pending`, behind `out`, with the lists made loose in every
/// item that are loose in one: the text that an item of such a list begins
/// with is put in a paragraph, unless it stands in one. `stack` holds what
/// is open, and `last_end` is where the event before ended.
/// `MissingEndTag` where a list never ends.
pub open spec fn spec_loose_lists(
    input: Seq<char>,
    pending: Seq<SourceEventView>,
    stack: Seq<Frame>,
    last_end: usize,
    out: Seq<SourceEventView>,
) -> Result<Seq<SourceEventView>, FormatError>
    decreases pending.len(),
{
    if pending.len() == 0 {
        Ok(out)
    } else {
        let event = pending[0];
        let rest = pending.skip(1);
        let kind = event.event.spec_kind();
        match kind {
            EventKind::Start { tag: TagKind::List(_), .. } => match spec_is_loose(
                input,
                rest,
                0,
                0,
                false,
            ) {
                None => Err(FormatError::MissingEndTag),
                Some(loose) => spec_loose_lists(
                    input,
                    rest,
                    spec_unwrap(stack).push(Frame::List { loose }),
                    event.end,
                    spec_close_wrapping(stack, last_end, out).push(event),
                ),
            },
            EventKind::Start { tag: TagKind::Item, .. } => {
                let wrap = stack.len() > 0 && stack.last() == (Frame::List { loose: true })
                    && rest.len() > 0 && spec_is_inline(rest[0].event.spec_kind());
                if wrap {
                    spec_loose_lists(
                        input,
                        rest,
                        stack.push(Frame::Item { wrapped_from: Some(rest[0].start) }),
                        event.end,
                        out.push(event).push(spec_paragraph_start(rest[0].start, event.end)),
                    )
                } else {
                    spec_loose_lists(
                        input,
                        rest,
                        stack.push(Frame::Item { wrapped_from: None }),
                        event.end,
                        out.push(event),
                    )
                }
            },
            EventKind::Start { .. } => if spec_is_inline(kind) {
                spec_loose_lists(input, rest, stack.push(Frame::Other), event.end, out.push(event))
            } else {
                spec_loose_lists(
                    input,
                    rest,
                    spec_unwrap(stack).push(Frame::Other),
                    event.end,
                    spec_close_wrapping(stack, last_end, out).push(event),
                )
            },
            EventKind::End(_) => spec_loose_lists(
                input,
                rest,
                spec_pop(stack),
                event.end,
                spec_close_wrapping(stack, last_end, out).push(event),
            ),
            _ => if spec_is_inline(kind) {
                spec_loose_lists(input, rest, stack, event.end, out.push(event))
            } else {
                spec_loose_lists(
                    input,
                    rest,
                    spec_unwrap(stack),
                    event.end,
                    spec_close_wrapping(stack, last_end, out).push(event),
                )
            },
        }
    }
}

/// The events with the lists made loose in every item that are loose in
/// one.
pub open spec fn spec_all_loose_lists(input: Seq<char>, events: Seq<SourceEventView>) -> Result<
    Seq<SourceEventView>,
    FormatError,
> {
    spec_loose_lists(input, events, Seq::empty(), 0, Seq::empty())
}

/// Whether an event of this kind opens a list.
pub open spec fn spec_opens_list(kind: EventKind) -> bool {
    match kind {
        EventKind::Start { tag: TagKind::List(_), .. } => true,
        _ => false,
    }
}

/// Whether every list among `events` ends and is tight: no blank line
/// parts two of its items.
pub open spec fn spec_all_tight(input: Seq<char>, events: Seq<SourceEventView>) -> bool {
    forall|i: int|
        0 <= i < events.len() && spec_opens_list((#[trigger] events[i]).event.spec_kind())
            ==> spec_is_loose(input, events.skip(i + 1), 0, 0, false) == Some(false)
}

/// Whether nothing on the stack asks for a paragraph: no list on it is
/// loose, and no paragraph is open for the text of an item.
pub open spec fn spec_plain(stack: Seq<Frame>) -> bool {
    forall|i: int|
        0 <= i < stack.len() ==> #[trigger] stack[i] != (Frame::List { loose: true }) && !(
        stack[i] matches Frame::Item { wrapped_from: Some(_) })
}

/// Events whose lists are all tight go through as they are.
pub proof fn lemma_tight_lists_stay(
    input: Seq<char>,
    pending: Seq<SourceEventView>,
    stack: Seq<Frame>,
    last_end: usize,
    out: Seq<SourceEventView>,
)
    requires
        spec_all_tight(input, pending),
        spec_plain(stack),
    ensures
        spec_loose_lists(input, pending, stack, last_end, out) == Ok::<
            Seq<SourceEventView>,
            FormatError,
        >(out + pending),
    decreases pending.len(),
{
    if pending.len() == 0 {
        assert(out + pending =~= out);
    } else {
        let event = pending[0];
        let rest = pending.skip(1);
        let kind = event.event.spec_kind();
        assert(spec_wrapped_from(stack) is None);
        assert(spec_unwrap(stack) == stack);
        assert(spec_close_wrapping(stack, last_end, out) == out);
        assert forall|i: int|
            0 <= i < rest.len() && spec_opens_list(
                (#[trigger] rest[i]).event.spec_kind(),
            ) implies spec_is_loose(input, rest.skip(i + 1), 0, 0, false) == Some(false) by {
            assert(rest[i] == pending[i + 1]);
            assert(rest.skip(i + 1) =~= pending.skip(i + 2));
        }
        let next_stack = match kind {
            EventKind::Start { tag: TagKind::List(_), .. } => {
                assert(pending.skip(0int + 1) == rest);
                assert(spec_is_loose(input, rest, 0, 0, false) == Some(false));
                stack.push(Frame::List { loose: false })
            },
            EventKind::Start { tag: TagKind::Item, .. } => stack.push(
                Frame::Item { wrapped_from: None },
            ),
            EventKind::Start { .. } => stack.push(Frame::Other),
            EventKind::End(_) => spec_pop(stack),
            _ => stack,
        };
        assert(spec_plain(next_stack));
        lemma_tight_lists_stay(input, rest, next_stack, event.end, out.push(event));
        assert(out.push(event) + rest =~= out + pending);
    }
}

/// The adapter leaves events alone whose lists are all tight.
pub proof fn lemma_all_loose_lists_keeps(input: Seq<char>, events: Seq<SourceEventView>)
    requires
        spec_all_tight(input, events),
    ensures
        spec_all_loose_lists(input, events) == Ok::<Seq<SourceEventView>, FormatError>(events),
{
    lemma_tight_lists_stay(input, events, Seq::empty(), 0, Seq::empty());
    assert(Seq::<SourceEventView>::empty() + events =~= events);
}

fn is_loose(input: &[char], rest: &VecDeque<SourceEvent>) -> (r: Option<bool>)
    ensures
        r == spec_is_loose(input@, event_views(rest@), 0, 0, false),
{
    let mut k: usize = 0;
    let mut depth: usize = 0;
    let mut loose = false;
    while k < rest.len()
        invariant
            k <= rest@.len(),
            depth <= k,
            spec_is_loose(input@, event_views(rest@), 0, 0, false) == spec_is_loose(
                input@,
                event_views(rest@),
                k as int,
                depth as nat,
                loose,
            ),
        decreases rest@.len() - k,
    {
        let event: &SourceEvent = &rest[k];
        match event.event.kind() {
            EventKind::Start { tag: TagKind::List(_), .. } => {
                depth += 1;
            },
            EventKind::End(TagKind::List(_)) => {
                if depth == 0 {
                    return Some(loose);
                }
                depth -= 1;
            },
            EventKind::End(TagKind::Item) => {
                if depth == 0 && k + 1 < rest.len() {
                    let next: &SourceEvent = &rest[k + 1];
                    if next.event.kind() == (EventKind::Start { tag: TagKind::Item, indented: false })
                        && blank_line_gap(input, event.end, next.start) {
                        loose = true;
                    }
                }
            },
            _ => {},
        }
        k += 1;
    }
    None
}

fn close_wrapping(stack: &mut Vec<Frame>, last_end: usize, out: &mut VecDeque<SourceEvent>)
    ensures
        final(stack)@ == spec_unwrap(old(stack)@),
        event_views(final(out)@) == spec_close_wrapping(
            old(stack)@,
            last_end,
            event_views(old(out)@),
        ),
{
    let n = stack.len();
    if n > 0 {
        match stack[n - 1] {
            Frame::Item { wrapped_from: Some(from) } => {
                put_back(
                    out,
                    SourceEvent { event: MdEvent::End(TagKind::Paragraph), start: from, end: last_end },
                );
                stack.pop();
                stack.push(Frame::Item { wrapped_from: None });
                assert(stack@ =~= spec_unwrap(old(stack)@));
            },
            _ => {},
        }
    }
}

/// Makes the lists loose in every item that are loose in one.
pub fn all_loose_lists(input: &[char], events: VecDeque<SourceEvent>) -> (r: Result<
    VecDeque<SourceEvent>,
    FormatError,
>)
    ensures
        match r {
            Ok(loose) => Ok(event_views(loose@)),
            Err(e) => Err(e),
        } == spec_all_loose_lists(input@, event_views(events@)),
{
    let mut pending = events;
    let mut stack: Vec<Frame> = Vec::new();
    let mut last_end: usize = 0;
    let mut out: VecDeque<SourceEvent> = VecDeque::new();
    assert(event_views(out@) =~= Seq::empty());
    while pending.len() > 0
        invariant
            spec_all_loose_lists(input@, event_views(events@)) == spec_loose_lists(
                input@,
                event_views(pending@),
                stack@,
                last_end,
                event_views(out@),
            ),
        decreases pending@.len(),
    {
        let event = take_front(&mut pending);
        let kind = event.event.kind();
        let end = event.end;
        match kind {
            EventKind::Start { tag: TagKind::List(_), .. } => {
                match is_loose(input, &pending) {
                    None => {
                        return Err(FormatError::MissingEndTag);
                    },
                    Some(loose) => {
                        close_wrapping(&mut stack, last_end, &mut out);
                        put_back(&mut out, event);
                        stack.push(Frame::List { loose });
                    },
                }
            },
            EventKind::Start { tag: TagKind::Item, .. } => {
                let n = stack.len();
                let in_loose_list = n > 0 && stack[n - 1] == (Frame::List { loose: true });
                let wrap = if in_loose_list && pending.len() > 0 {
                    let next: &SourceEvent = &pending[0];
                    if is_inline(next.event.kind()) {
                        Some(next.start)
                    } else {
                        None
                    }
                } else {
                    None
                };
                put_back(&mut out, event);
                match wrap {
                    Some(from) => {
                        put_back(
                            &mut out,
                            SourceEvent { event: MdEvent::Start(MdTag::Paragraph), start: from, end },
                        );
                    },
                    None => {},
                }
                stack.push(Frame::Item { wrapped_from: wrap });
            },
            EventKind::Start { .. } => {
                if !is_inline(kind) {
                    close_wrapping(&mut stack, last_end, &mut out);
                }
                put_back(&mut out, event);
                stack.push(Frame::Other);
            },
            EventKind::End(_) => {
                let ghost before = stack@;
                close_wrapping(&mut stack, last_end, &mut out);
                put_back(&mut out, event);
                if stack.len() > 0 {
                    stack.pop();
                }
                assert(stack@ =~= spec_pop(before));
            },
            _ => {
                if !is_inline(kind) {
                    close_wrapping(&mut stack, last_end, &mut out);
                }
                put_back(&mut out, event);
            },
        }
        last_end = end;
    }
    Ok(out)
}

} // verus!
