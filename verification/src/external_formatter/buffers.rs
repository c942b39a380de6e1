//! Formatters that keep what they are handed, as it is or nearly so.
use vstd::prelude::*;
use crate::external_formatter::{
    BufferType, BufferTypeView, ExternalFormatter, FormattingContext, WriteError,
};
use crate::text::{chars_of, line_end, push_all, scan, spec_line_end, spec_scan, string_of, CharSet};
use crate::formatter::formatting_states::helpers::spec_at_line_start;

verus! {

/// What a formatter holds that keeps a text and the context it was made
/// for.
pub struct BufferState {
    pub context: FormattingContext,
    pub text: Seq<char>,
}

/// A buffer where we write code blocks. Preserves everything as is.
pub struct PreservingBuffer {
    buffer: String,
    context: FormattingContext,
}

impl ExternalFormatter for PreservingBuffer {
    type State = BufferState;

    closed spec fn state(&self) -> BufferState {
        BufferState { context: self.context, text: self.buffer@ }
    }

    open spec fn spec_new(buffer_type: BufferTypeView, max_width: Option<usize>) -> BufferState {
        BufferState { context: buffer_type.to_formatting_context(), text: Seq::empty() }
    }

    open spec fn spec_rejects(state: BufferState, text: Seq<char>) -> bool {
        false
    }

    open spec fn spec_write(state: BufferState, text: Seq<char>) -> BufferState {
        BufferState { text: state.text + text, ..state }
    }

    open spec fn spec_is_empty(state: BufferState) -> bool {
        state.text.len() == 0
    }

    open spec fn spec_context(state: BufferState) -> FormattingContext {
        state.context
    }

    open spec fn spec_into_buffer(state: BufferState) -> Seq<char> {
        state.text
    }

    fn new(buffer_type: BufferType, _max_width: Option<usize>, capacity: usize) -> (r: Self) {
        Self { buffer: String::new(), context: buffer_type.to_formatting_context() }
    }

    fn is_empty(&self) -> (r: bool) {
        self.buffer.as_str().is_empty()
    }

    fn context(&self) -> (r: FormattingContext) {
        self.context
    }

    fn write_str(&mut self, text: &str) -> (r: Result<(), WriteError>) {
        self.buffer.append(text);
        Ok(())
    }

    fn into_buffer(self) -> (r: String) {
        self.buffer
    }
}

/// What is written to a `PreservingBuffer` comes out untouched: the
/// formatted text of a new buffer is empty, and each write adds its text at
/// the end.
pub proof fn lemma_preserving_buffer_passes_through(
    buffer_type: BufferTypeView,
    max_width: Option<usize>,
    state: BufferState,
    text: Seq<char>,
)
    ensures
        PreservingBuffer::spec_into_buffer(PreservingBuffer::spec_new(buffer_type, max_width))
            == Seq::<char>::empty(),
        !PreservingBuffer::spec_rejects(state, text),
        PreservingBuffer::spec_into_buffer(PreservingBuffer::spec_write(state, text))
            == PreservingBuffer::spec_into_buffer(state) + text,
{
}

/// A buffer where we write HTML blocks. Preserves everything as is.
pub struct PreservingHtmlBlock {
    buffer: String,
}

impl ExternalFormatter for PreservingHtmlBlock {
    type State = Seq<char>;

    closed spec fn state(&self) -> Seq<char> {
        self.buffer@
    }

    open spec fn spec_new(buffer_type: BufferTypeView, max_width: Option<usize>) -> Seq<char> {
        Seq::empty()
    }

    open spec fn spec_rejects(state: Seq<char>, text: Seq<char>) -> bool {
        false
    }

    open spec fn spec_write(state: Seq<char>, text: Seq<char>) -> Seq<char> {
        state + text
    }

    open spec fn spec_is_empty(state: Seq<char>) -> bool {
        state.len() == 0
    }

    open spec fn spec_context(state: Seq<char>) -> FormattingContext {
        FormattingContext::HtmlBlock
    }

    open spec fn spec_into_buffer(state: Seq<char>) -> Seq<char> {
        state
    }

    fn new(_buffer_type: BufferType, _max_width: Option<usize>, capacity: usize) -> (r: Self) {
        Self { buffer: String::new() }
    }

    fn is_empty(&self) -> (r: bool) {
        self.buffer.as_str().is_empty()
    }

    fn context(&self) -> (r: FormattingContext) {
        FormattingContext::HtmlBlock
    }

    fn write_str(&mut self, text: &str) -> (r: Result<(), WriteError>) {
        self.buffer.append(text);
        Ok(())
    }

    fn into_buffer(self) -> (r: String) {
        self.buffer
    }
}

/// How many of the spaces that `line` begins with are left over when they
/// are counted off by four.
pub open spec fn spec_insignificant_spaces(line: Seq<char>) -> int {
    spec_scan(line, CharSet::Just(' '), false, 0) % 4
}

/// The buffer after the lines of `text` from `pos` on were added: a line
/// that begins a line of the buffer loses the spaces in front of it that are
/// left over when they are counted off by four.
pub open spec fn spec_trim_lines(buffer: Seq<char>, text: Seq<char>, pos: int) -> Seq<char>
    decreases text.len() - pos,
{
    if pos < 0 || pos >= text.len() {
        buffer
    } else {
        let end = spec_line_end(text, pos);
        let line = text.subrange(pos, end);
        let kept = if spec_at_line_start(buffer) {
            line.skip(spec_insignificant_spaces(line))
        } else {
            line
        };
        spec_trim_lines(buffer + kept, text, end)
    }
}

/// A buffer that trims each line's leading spaces down to a multiple of 4.
pub struct TrimTo4Indent {
    buffer: Vec<char>,
    context: FormattingContext,
}

impl ExternalFormatter for TrimTo4Indent {
    type State = BufferState;

    closed spec fn state(&self) -> BufferState {
        BufferState { context: self.context, text: self.buffer@ }
    }

    open spec fn spec_new(buffer_type: BufferTypeView, max_width: Option<usize>) -> BufferState {
        BufferState { context: buffer_type.to_formatting_context(), text: Seq::empty() }
    }

    open spec fn spec_rejects(state: BufferState, text: Seq<char>) -> bool {
        false
    }

    open spec fn spec_write(state: BufferState, text: Seq<char>) -> BufferState {
        BufferState { text: spec_trim_lines(state.text, text, 0), ..state }
    }

    open spec fn spec_is_empty(state: BufferState) -> bool {
        state.text.len() == 0
    }

    open spec fn spec_context(state: BufferState) -> FormattingContext {
        state.context
    }

    open spec fn spec_into_buffer(state: BufferState) -> Seq<char> {
        state.text
    }

    fn new(buffer_type: BufferType, _max_width: Option<usize>, capacity: usize) -> (r: Self) {
        Self { buffer: Vec::new(), context: buffer_type.to_formatting_context() }
    }

    fn is_empty(&self) -> (r: bool) {
        self.buffer.len() == 0
    }

    fn context(&self) -> (r: FormattingContext) {
        self.context
    }

    fn write_str(&mut self, text: &str) -> (r: Result<(), WriteError>) {
        let s = chars_of(text);
        let ghost before = self.buffer@;
        let mut pos: usize = 0;
        while pos < s.len()
            invariant
                pos <= s@.len(),
                self.context == old(self).context,
                spec_trim_lines(before, s@, 0) == spec_trim_lines(self.buffer@, s@, pos as int),
            decreases s@.len() - pos,
        {
            let end = line_end(s.as_slice(), pos);
            let line = vstd::slice::slice_subrange(s.as_slice(), pos, end);
            let n = self.buffer.len();
            let skipped = if n == 0 || self.buffer[n - 1] == '\n' {
                scan(line, CharSet::Just(' '), false, 0) % 4
            } else {
                0
            };
            let kept = vstd::slice::slice_subrange(line, skipped, line.len());
            assert(skipped == 0 ==> kept@ =~= line@);
            push_all(&mut self.buffer, kept);
            pos = end;
        }
        Ok(())
    }

    fn into_buffer(self) -> (r: String) {
        string_of(self.buffer.as_slice())
    }
}

} // verus!
