//! A formatter made of one function.
use vstd::prelude::*;
use crate::external_formatter::{
    BufferType, BufferTypeView, ExternalFormatter, FormattingContext, WriteError,
};

verus! {

/// A formatting function `F` that takes the buffer type, optional maximum width,
/// and the string to format, and returns the formatted string.
pub trait FormatterFn: Default {
    /// The formatted text, as a function of what is handed in.
    closed spec fn spec_format(
        buffer_type: BufferTypeView,
        max_width: Option<usize>,
        input: Seq<char>,
    ) -> Seq<char> {
        arbitrary()
    }

    /// Format the input string based on the configuration.
    fn format(&mut self, buffer_type: BufferType, max_width: Option<usize>, input: String) -> (r:
        String)
        ensures
            r@ == Self::spec_format(buffer_type@, max_width, input@),
    ;
}

/// What an `FnFormatter` holds.
pub struct FnFormatterState {
    pub buffer_type: BufferTypeView,
    pub max_width: Option<usize>,
    pub text: Seq<char>,
}

/// A convenience function-based formatter.
/// Implement a single function [`FormatterFn::format`] and
/// set it as the generic parameter `F` to create a [`ExternalFormatter`].
pub struct FnFormatter<F: FormatterFn> {
    buffer: String,
    buffer_type: BufferType,
    max_width: Option<usize>,
    formatter_fn: F,
}

impl<F: FormatterFn> ExternalFormatter for FnFormatter<F> {
    type State = FnFormatterState;

    closed spec fn state(&self) -> FnFormatterState {
        FnFormatterState {
            buffer_type: self.buffer_type@,
            max_width: self.max_width,
            text: self.buffer@,
        }
    }

    open spec fn spec_new(buffer_type: BufferTypeView, max_width: Option<usize>) -> FnFormatterState {
        FnFormatterState { buffer_type, max_width, text: Seq::empty() }
    }

    open spec fn spec_rejects(state: FnFormatterState, text: Seq<char>) -> bool {
        false
    }

    open spec fn spec_write(state: FnFormatterState, text: Seq<char>) -> FnFormatterState {
        FnFormatterState { text: state.text + text, ..state }
    }

    open spec fn spec_is_empty(state: FnFormatterState) -> bool {
        state.text.len() == 0
    }

    open spec fn spec_context(state: FnFormatterState) -> FormattingContext {
        state.buffer_type.to_formatting_context()
    }

    /// What the function makes of all that was written.
    open spec fn spec_into_buffer(state: FnFormatterState) -> Seq<char> {
        F::spec_format(state.buffer_type, state.max_width, state.text)
    }

    fn new(buffer_type: BufferType, max_width: Option<usize>, capacity: usize) -> (r: Self) {
        Self { buffer: String::new(), buffer_type, max_width, formatter_fn: F::default() }
    }

    fn is_empty(&self) -> (r: bool) {
        self.buffer.as_str().is_empty()
    }

    fn context(&self) -> (r: FormattingContext) {
        self.buffer_type.to_formatting_context()
    }

    fn write_str(&mut self, text: &str) -> (r: Result<(), WriteError>) {
        self.buffer.append(text);
        Ok(())
    }

    fn into_buffer(self) -> (r: String) {
        let mut formatter_fn = self.formatter_fn;
        formatter_fn.format(self.buffer_type, self.max_width, self.buffer)
    }
}

} // verus!
