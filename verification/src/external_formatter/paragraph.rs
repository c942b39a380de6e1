//! The formatter of paragraphs: it keeps their text, or wraps it where a
//! width is set.
use vstd::prelude::*;
use crate::external_formatter::{
    BufferType, BufferTypeView, ExternalFormatter, FormattingContext, WriteError,
};
use crate::text::{
    chars_of, find, longer_than, push_all, scan, spec_byte_len, spec_find, spec_scan,
    spec_starts_with, spec_trim, spec_trim_start_matches, starts_with, string_of, texts, to_vec,
    trim, trim_start_matches, CharSet,
};

verus! {

/// What `textwrap::fill` makes of `text` for lines of `width` columns, with
/// words parted at ASCII spaces only and put on lines one after the other as
/// they fit. A word may be split behind a hyphen; a word that is longer than
/// a line is not broken.
pub uninterp spec fn wrapped(text: Seq<char>, width: usize) -> Seq<char>;

/// `textwrap::fill`, with options for the width `width`, no breaking of
/// words that are longer than a line, ASCII spaces as the only word
/// separators, the splitter at hyphens that is its default and the first-fit
/// algorithm: the text with line feeds where it is wrapped.
#[verifier::external_body]
fn fill(text: &str, width: usize) -> (r: String)
    ensures
        r@ == wrapped(text@, width),
{
    let options = textwrap::Options::new(width).break_words(false).word_separator(
        textwrap::WordSeparator::AsciiSpace,
    ).wrap_algorithm(textwrap::WrapAlgorithm::FirstFit);
    textwrap::fill(text, options)
}

/// A hard break as Markdown writes it: two spaces and a line feed.
pub open spec fn spec_hard_break() -> Seq<char> {
    seq![' ', ' ', '\n']
}

/// Whether `s` is a hard break: two spaces or more, and then a line feed.
pub open spec fn spec_is_hard_break(s: Seq<char>) -> bool {
    spec_starts_with(s, seq![' ', ' ']) && spec_trim_start_matches(s.skip(2), CharSet::Just(' '))
        == seq!['\n']
}

/// What a `Paragraph` holds.
pub struct ParagraphState {
    pub max_width: Option<usize>,
    pub text: Seq<char>,
}

/// Whether each line of `text` from `pos` on takes at most `width` bytes.
/// A line ends at a line feed; a carriage return in front of the line feed
/// is no part of the line.
pub open spec fn spec_lines_fit(text: Seq<char>, pos: int, width: usize) -> bool
    decreases text.len() - pos,
{
    if pos < 0 || pos >= text.len() {
        true
    } else {
        let feed = spec_scan(text, CharSet::Just('\n'), true, pos);
        let stop = if pos < feed && feed < text.len() && text[feed - 1] == '\r' {
            feed - 1
        } else {
            feed
        };
        let line = text.subrange(pos, stop);
        if feed < pos || feed >= text.len() {
            spec_byte_len(line, line.len() as int) <= width
        } else {
            spec_byte_len(line, line.len() as int) <= width && spec_lines_fit(
                text,
                feed + 1,
                width,
            )
        }
    }
}

/// The parts of `text` from `pos` on that hard breaks part, behind
/// `parts`. A text without a hard break is one part, and a hard break at the
/// end has an empty part behind it.
pub open spec fn spec_split_hard_breaks(text: Seq<char>, pos: int, parts: Seq<Seq<char>>) -> Seq<
    Seq<char>,
>
    decreases text.len() - pos,
{
    let at = spec_find(text, spec_hard_break(), pos);
    if pos < 0 || pos > at || at + 3 > text.len() {
        parts.push(text.skip(pos))
    } else {
        spec_split_hard_breaks(text, at + 3, parts.push(text.subrange(pos, at)))
    }
}

/// The first `n` of `parts`, with a hard break between each two.
pub open spec fn spec_join_hard_breaks(parts: Seq<Seq<char>>, n: int) -> Seq<char>
    decreases n,
{
    if n <= 0 || n > parts.len() {
        Seq::empty()
    } else if n == 1 {
        parts[0]
    } else {
        spec_join_hard_breaks(parts, n - 1) + spec_hard_break() + parts[n - 1]
    }
}

/// Each of `parts`, wrapped to `width`.
pub open spec fn spec_wrap_each(parts: Seq<Seq<char>>, width: usize) -> Seq<Seq<char>> {
    Seq::new(parts.len(), |i: int| wrapped(parts[i], width))
}

/// The text wrapped to `width`: its parts between hard breaks, each
/// wrapped, with the hard breaks between them.
pub open spec fn spec_wrap_parts(text: Seq<char>, width: usize) -> Seq<char> {
    let parts = spec_wrap_each(spec_split_hard_breaks(text, 0, Seq::empty()), width);
    spec_join_hard_breaks(parts, parts.len() as int)
}

/// Parts a text at its hard breaks.
pub fn split_hard_breaks(text: &[char]) -> (r: Vec<Vec<char>>)
    ensures
        texts(r@) == spec_split_hard_breaks(text@, 0, Seq::empty()),
{
    let hard_break = vec![' ', ' ', '\n'];
    assert(hard_break@ =~= spec_hard_break());
    let mut parts: Vec<Vec<char>> = Vec::new();
    assert(texts(parts@) =~= Seq::empty());
    let mut pos: usize = 0;
    loop
        invariant_except_break
            spec_split_hard_breaks(text@, 0, Seq::empty()) == spec_split_hard_breaks(
                text@,
                pos as int,
                texts(parts@),
            ),
        invariant
            pos <= text@.len(),
            hard_break@ == spec_hard_break(),
        ensures
            texts(parts@) == spec_split_hard_breaks(text@, 0, Seq::empty()),
        decreases text@.len() - pos,
    {
        let ghost before = parts@;
        let at = find(text, hard_break.as_slice(), pos);
        if at >= text.len() {
            let part = to_vec(vstd::slice::slice_subrange(text, pos, text.len()));
            assert(part@ =~= text@.skip(pos as int));
            parts.push(part);
            assert(texts(parts@) =~= texts(before).push(part@));
            break ;
        }
        let part = to_vec(vstd::slice::slice_subrange(text, pos, at));
        parts.push(part);
        assert(texts(parts@) =~= texts(before).push(part@));
        pos = at + 3;
    }
    parts
}

/// Puts the wrapped parts of a paragraph together, with a hard break
/// between each two.
pub fn join_hard_breaks(parts: &Vec<Vec<char>>) -> (r: Vec<char>)
    ensures
        r@ == spec_join_hard_breaks(texts(parts@), parts@.len() as int),
{
    let mut out: Vec<char> = Vec::new();
    let mut i: usize = 0;
    while i < parts.len()
        invariant
            i <= parts@.len(),
            out@ == spec_join_hard_breaks(texts(parts@), i as int),
        decreases parts@.len() - i,
    {
        let ghost before = out@;
        if i > 0 {
            out.push(' ');
            out.push(' ');
            out.push('\n');
        }
        push_all(&mut out, parts[i].as_slice());
        assert(i > 0 ==> out@ =~= before + spec_hard_break() + parts@[i as int]@);
        assert(i == 0 ==> out@ =~= parts@[0]@);
        i += 1;
    }
    out
}

/// Without a width a paragraph comes out as it was written: the formatted
/// text of a new one is empty, and each write adds its text at the end.
pub proof fn lemma_paragraph_without_width_is_kept(
    buffer_type: BufferTypeView,
    state: ParagraphState,
    text: Seq<char>,
)
    requires
        state.max_width is None,
    ensures
        Paragraph::spec_into_buffer(Paragraph::spec_new(buffer_type, None)) == Seq::<char>::empty(),
        !Paragraph::spec_rejects(state, text),
        Paragraph::spec_into_buffer(Paragraph::spec_write(state, text))
            == Paragraph::spec_into_buffer(state) + text,
{
}

/// A buffer where we write text
pub struct Paragraph {
    buffer: Vec<char>,
    max_width: Option<usize>,
}

fn lines_fit(text: &[char], width: usize) -> (r: bool)
    ensures
        r == spec_lines_fit(text@, 0, width),
{
    let mut pos: usize = 0;
    while pos < text.len()
        invariant
            pos <= text@.len(),
            spec_lines_fit(text@, 0, width) == spec_lines_fit(text@, pos as int, width),
        decreases text@.len() - pos,
    {
        let feed = scan(text, CharSet::Just('\n'), true, pos);
        let stop = if pos < feed && feed < text.len() && text[feed - 1] == '\r' {
            feed - 1
        } else {
            feed
        };
        let line = vstd::slice::slice_subrange(text, pos, stop);
        if longer_than(line, width) {
            return false;
        }
        if feed >= text.len() {
            return true;
        }
        pos = feed + 1;
    }
    true
}

impl ExternalFormatter for Paragraph {
    type State = ParagraphState;

    closed spec fn state(&self) -> ParagraphState {
        ParagraphState { max_width: self.max_width, text: self.buffer@ }
    }

    open spec fn spec_new(buffer_type: BufferTypeView, max_width: Option<usize>) -> ParagraphState {
        ParagraphState { max_width, text: Seq::empty() }
    }

    open spec fn spec_rejects(state: ParagraphState, text: Seq<char>) -> bool {
        false
    }

    /// Without a width the text is kept as it is. With a width, a hard
    /// break is kept as two spaces and a line feed, and other white space
    /// becomes one space, so that the text can be wrapped anew.
    open spec fn spec_write(state: ParagraphState, text: Seq<char>) -> ParagraphState {
        if state.max_width is Some && spec_is_hard_break(text) {
            ParagraphState { text: state.text + spec_hard_break(), ..state }
        } else if state.max_width is Some && spec_trim(text).len() == 0 {
            ParagraphState { text: state.text.push(' '), ..state }
        } else {
            ParagraphState { text: state.text + text, ..state }
        }
    }

    open spec fn spec_is_empty(state: ParagraphState) -> bool {
        state.text.len() == 0
    }

    open spec fn spec_context(state: ParagraphState) -> FormattingContext {
        FormattingContext::Paragraph
    }

    /// The text as it is, where no width is set or every line fits the
    /// width; else each part between hard breaks wrapped to the width.
    open spec fn spec_into_buffer(state: ParagraphState) -> Seq<char> {
        match state.max_width {
            None => state.text,
            Some(max_width) => if spec_lines_fit(state.text, 0, max_width) {
                state.text
            } else {
                spec_wrap_parts(state.text, max_width)
            },
        }
    }

    fn new(_buffer_type: BufferType, max_width: Option<usize>, capacity: usize) -> (r: Self) {
        Self { max_width, buffer: Vec::new() }
    }

    fn is_empty(&self) -> (r: bool) {
        self.buffer.len() == 0
    }

    fn context(&self) -> (r: FormattingContext) {
        FormattingContext::Paragraph
    }

    fn write_str(&mut self, text: &str) -> (r: Result<(), WriteError>) {
        let s = chars_of(text);
        let two_spaces = vec![' ', ' '];
        assert(two_spaces@ =~= seq![' ', ' ']);
        // Hard breaks can have any amount of leading whitespace followed by a newline
        let is_hard_break = starts_with(s.as_slice(), two_spaces.as_slice()) && {
            let rest = trim_start_matches(
                vstd::slice::slice_subrange(s.as_slice(), 2, s.len()),
                CharSet::Just(' '),
            );
            assert(rest@ =~= seq!['\n'] <==> rest@.len() == 1 && rest@[0] == '\n');
            rest.len() == 1 && rest[0] == '\n'
        };
        if self.max_width.is_some() && is_hard_break {
            self.buffer.push(' ');
            self.buffer.push(' ');
            self.buffer.push('\n');
            assert(self.buffer@ =~= old(self).buffer@ + spec_hard_break());
            return Ok(());
        }
        if self.max_width.is_some() && trim(s.as_slice()).len() == 0 {
            // If the user configured the max_width then push a space so we can reflow text
            self.buffer.push(' ');
        } else {
            push_all(&mut self.buffer, s.as_slice());
        }
        Ok(())
    }

    fn into_buffer(self) -> (r: String) {
        let max_width = match self.max_width {
            None => {
                // We didn't configure a max_width, so just return the buffer
                return string_of(self.buffer.as_slice());
            },
            Some(max_width) => max_width,
        };
        if lines_fit(self.buffer.as_slice(), max_width) {
            // Don't need to wrap any lines
            return string_of(self.buffer.as_slice());
        }
        let parts = split_hard_breaks(self.buffer.as_slice());
        let mut wrapped_parts: Vec<Vec<char>> = Vec::new();
        assert(texts(wrapped_parts@) =~= spec_wrap_each(texts(parts@), max_width).take(0));
        let mut i: usize = 0;
        while i < parts.len()
            invariant
                i <= parts@.len(),
                wrapped_parts@.len() == i,
                texts(wrapped_parts@) == spec_wrap_each(texts(parts@), max_width).take(i as int),
            decreases parts@.len() - i,
        {
            let ghost before = wrapped_parts@;
            let part = string_of(parts[i].as_slice());
            let wrapped_text = fill(part.as_str(), max_width);
            wrapped_parts.push(chars_of(wrapped_text.as_str()));
            assert(texts(wrapped_parts@) =~= spec_wrap_each(texts(parts@), max_width).take(i + 1));
            i += 1;
        }
        assert(spec_wrap_each(texts(parts@), max_width).take(i as int) =~= spec_wrap_each(
            texts(parts@),
            max_width,
        ));
        let output_buffer = join_hard_breaks(&wrapped_parts);
        string_of(output_buffer.as_slice())
    }
}

} // verus!
