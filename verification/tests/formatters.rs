use fmtm_ytmimi_markdown_fmt::external_formatter::paragraph::{join_hard_breaks, split_hard_breaks};
use fmtm_ytmimi_markdown_fmt::table::TableState;
use fmtm_ytmimi_markdown_fmt::{
    BufferType, ColumnAlignment, Config, ExternalFormatter, FnFormatter, FormatError,
    FormatterCombination, FormatterFn, FormattingContext, MarkdownFormatter, Paragraph,
    PreservingBuffer, PreservingHtmlBlock, TrimTo4Indent, WriteError,
};

fn chars(s: &str) -> Vec<char> {
    s.chars().collect()
}

fn text(v: Vec<char>) -> String {
    v.into_iter().collect()
}

#[test]
fn buffer_type_has_its_context() {
    assert_eq!(
        BufferType::CodeBlock { info: Some("rust".to_string()) }.to_formatting_context(),
        FormattingContext::CodeBlock
    );
    assert_eq!(BufferType::DisplayMath.to_formatting_context(), FormattingContext::DisplayMath);
    assert_eq!(BufferType::HtmlBlock.to_formatting_context(), FormattingContext::HtmlBlock);
    assert_eq!(BufferType::Paragraph.to_formatting_context(), FormattingContext::Paragraph);
}

#[test]
fn preserving_buffer_keeps_everything() {
    let mut buffer = PreservingBuffer::new(BufferType::CodeBlock { info: None }, Some(4), 0);
    assert!(buffer.is_empty());
    assert_eq!(buffer.context(), FormattingContext::CodeBlock);
    assert_eq!(buffer.write_str("  a very long line  \n"), Ok(()));
    assert_eq!(buffer.write_str("\n   b"), Ok(()));
    assert!(!buffer.is_empty());
    assert_eq!(buffer.into_buffer(), "  a very long line  \n\n   b");
}

#[test]
fn preserving_html_block_keeps_everything() {
    let mut buffer = PreservingHtmlBlock::new(BufferType::HtmlBlock, None, 0);
    assert!(buffer.is_empty());
    assert_eq!(buffer.context(), FormattingContext::HtmlBlock);
    assert_eq!(buffer.write_str("<p>\n   x"), Ok(()));
    assert_eq!(buffer.into_buffer(), "<p>\n   x");
}

#[test]
fn trim_to_4_indent_trims_line_starts() {
    let mut buffer = TrimTo4Indent::new(BufferType::HtmlBlock, None, 0);
    assert!(buffer.is_empty());
    assert_eq!(buffer.context(), FormattingContext::HtmlBlock);
    assert_eq!(buffer.write_str("  <div>\n      <p>\n        x"), Ok(()));
    // the buffer does not stand at the start of a line: nothing is trimmed
    assert_eq!(buffer.write_str("   y\n"), Ok(()));
    assert_eq!(buffer.write_str("     z\n"), Ok(()));
    assert_eq!(buffer.into_buffer(), "<div>\n    <p>\n        x   y\n    z\n");
}

#[test]
fn paragraph_without_width_keeps_its_text() {
    let mut buffer = Paragraph::new(BufferType::Paragraph, None, 0);
    assert!(buffer.is_empty());
    assert_eq!(buffer.context(), FormattingContext::Paragraph);
    assert_eq!(buffer.write_str("some  text"), Ok(()));
    assert_eq!(buffer.write_str("   \n"), Ok(()));
    assert_eq!(buffer.write_str("more"), Ok(()));
    assert_eq!(buffer.into_buffer(), "some  text   \nmore");
}

#[test]
fn paragraph_with_width_wraps() {
    let mut buffer = Paragraph::new(BufferType::Paragraph, Some(10), 0);
    assert_eq!(buffer.write_str("aaaa bbbb"), Ok(()));
    assert_eq!(buffer.write_str("\n"), Ok(()));
    assert_eq!(buffer.write_str("cccc dddd eeee"), Ok(()));
    assert_eq!(buffer.into_buffer(), "aaaa bbbb\ncccc dddd\neeee");
}

#[test]
fn paragraph_with_width_keeps_hard_breaks() {
    let mut buffer = Paragraph::new(BufferType::Paragraph, Some(10), 0);
    assert_eq!(buffer.write_str("aaaa bbbb cccc"), Ok(()));
    assert_eq!(buffer.write_str("    \n"), Ok(()));
    assert_eq!(buffer.write_str("dd"), Ok(()));
    assert_eq!(buffer.into_buffer(), "aaaa bbbb\ncccc  \ndd");
}

#[test]
fn paragraph_that_fits_is_not_wrapped() {
    let mut buffer = Paragraph::new(BufferType::Paragraph, Some(10), 0);
    assert_eq!(buffer.write_str("aa  bb"), Ok(()));
    assert_eq!(buffer.into_buffer(), "aa  bb");
}

#[test]
fn text_is_parted_at_hard_breaks() {
    assert_eq!(split_hard_breaks(&chars("a b")), vec![chars("a b")]);
    assert_eq!(split_hard_breaks(&chars("")), vec![chars("")]);
    assert_eq!(split_hard_breaks(&chars("a  \nb  \nc")), vec![chars("a"), chars("b"), chars("c")]);
    assert_eq!(split_hard_breaks(&chars("a  \n")), vec![chars("a"), chars("")]);
    assert_eq!(split_hard_breaks(&chars("  \n  \n")), vec![chars(""), chars(""), chars("")]);
    // three spaces: the break begins at the second
    assert_eq!(split_hard_breaks(&chars("a   \nb")), vec![chars("a "), chars("b")]);
    assert_eq!(split_hard_breaks(&chars("a \nb")), vec![chars("a \nb")]);
}

#[test]
fn wrapped_parts_are_joined_with_hard_breaks() {
    assert_eq!(text(join_hard_breaks(&vec![])), "");
    assert_eq!(text(join_hard_breaks(&vec![chars("a\nb")])), "a\nb");
    assert_eq!(text(join_hard_breaks(&vec![chars("a"), chars("b"), chars("")])), "a  \nb  \n");
    assert_eq!(text(join_hard_breaks(&vec![chars(""), chars("x")])), "  \nx");
}

#[derive(Default)]
struct Shout;

impl FormatterFn for Shout {
    fn format(&mut self, buffer_type: BufferType, max_width: Option<usize>, input: String) -> String {
        format!("{:?}|{:?}|{}", buffer_type.to_formatting_context(), max_width, input.to_uppercase())
    }
}

#[test]
fn fn_formatter_hands_everything_to_the_function() {
    let mut buffer =
        FnFormatter::<Shout>::new(BufferType::CodeBlock { info: Some("x".to_string()) }, Some(7), 0);
    assert!(buffer.is_empty());
    assert_eq!(buffer.context(), FormattingContext::CodeBlock);
    assert_eq!(buffer.write_str("ab"), Ok(()));
    assert_eq!(buffer.write_str("cd"), Ok(()));
    assert!(!buffer.is_empty());
    assert_eq!(buffer.into_buffer(), "CodeBlock|Some(7)|ABCD");
}

type Combination = FormatterCombination<PreservingBuffer, TrimTo4Indent, PreservingHtmlBlock, Paragraph>;

#[test]
fn combination_picks_the_formatter_of_the_content() {
    let mut code = Combination::new(BufferType::CodeBlock { info: None }, Some(3), 0);
    assert_eq!(code.context(), FormattingContext::CodeBlock);
    assert_eq!(code.write_str("  a b c d"), Ok(()));
    assert_eq!(code.into_buffer(), "  a b c d");
    let mut math = Combination::new(BufferType::DisplayMath, Some(3), 0);
    assert_eq!(math.context(), FormattingContext::DisplayMath);
    assert_eq!(math.write_str("  a"), Ok(()));
    assert_eq!(math.into_buffer(), "a");
    let mut html = Combination::new(BufferType::HtmlBlock, Some(3), 0);
    assert_eq!(html.context(), FormattingContext::HtmlBlock);
    assert!(html.is_empty());
    assert_eq!(html.write_str("  a"), Ok(()));
    assert_eq!(html.into_buffer(), "  a");
    let mut paragraph = Combination::new(BufferType::Paragraph, Some(3), 0);
    assert_eq!(paragraph.context(), FormattingContext::Paragraph);
    assert_eq!(paragraph.write_str("aa bb"), Ok(()));
    assert_eq!(paragraph.into_buffer(), "aa\nbb");
}

#[derive(Default)]
struct CodeBlockFormatter;

impl FormatterFn for CodeBlockFormatter {
    fn format(&mut self, buffer_type: BufferType, _max_width: Option<usize>, input: String) -> String {
        let BufferType::CodeBlock { info } = buffer_type else {
            unreachable!();
        };
        match info {
            Some(info) if info == "markdown" => {
                MarkdownFormatter::default().format(&input).unwrap_or(input)
            }
            _ => input,
        }
    }
}

#[test]
fn using_the_builder() {
    let input = r##" # Using the Builder
+ markdown code block nested in a list
  ```markdown
  A nested markdown snippet!

   * unordered lists
   are also pretty easy!
   - `-` or `+` can also be used as unordered list markers.
   ```
"##;
    let expected = r##"# Using the Builder
- markdown code block nested in a list
    ```markdown
    A nested markdown snippet!

    * unordered lists
      are also pretty easy!
    - `-` or `+` can also be used as unordered list markers.
    ```
"##;
    type MyFormatter = MarkdownFormatter<
        FormatterCombination<FnFormatter<CodeBlockFormatter>, TrimTo4Indent, TrimTo4Indent, Paragraph>,
    >;
    let output = MyFormatter::with_config_and_external_formatter(Config::sichanghe_opinion())
        .format(input)
        .unwrap();
    assert_eq!(output, expected);
}

/// A formatter that refuses every text.
struct Refusing;

impl ExternalFormatter for Refusing {
    type State = ();

    fn new(_buffer_type: BufferType, _max_width: Option<usize>, _capacity: usize) -> Self {
        Refusing
    }

    fn is_empty(&self) -> bool {
        true
    }

    fn context(&self) -> FormattingContext {
        FormattingContext::Paragraph
    }

    fn write_str(&mut self, _text: &str) -> Result<(), WriteError> {
        Err(WriteError)
    }

    fn into_buffer(self) -> String {
        String::new()
    }
}

#[test]
fn refused_write_fails_the_run() {
    let formatter = MarkdownFormatter::<Refusing>::with_config_and_external_formatter(Config::default());
    assert_eq!(formatter.format("some text\n"), Err(FormatError::WriteFailure));
}

#[test]
fn table_is_laid_out() {
    let mut table = TableState::new(vec![ColumnAlignment::Left, ColumnAlignment::Right]);
    assert!(table.is_empty());
    table.write_str(&chars("name"));
    table.increment_col_index();
    table.write_str(&chars("n"));
    table.increment_col_index();
    table.push_row();
    table.write_str(&chars("al"));
    table.write_str(&chars("pha "));
    table.increment_col_index();
    table.write_str(&chars("12345"));
    table.increment_col_index();
    table.push_row();
    table.write_str(&chars("b"));
    assert!(!table.is_empty());
    assert_eq!(
        text(table.format()),
        " name  |     n |\n :---- | ----: |\n alpha | 12345 |\n b     |       |\n"
    );
}

#[test]
fn table_markers_are_three_wide_at_the_least() {
    let mut table = TableState::new(vec![
        ColumnAlignment::Unset,
        ColumnAlignment::Left,
        ColumnAlignment::Right,
        ColumnAlignment::Center,
    ]);
    for cell in ["a", "b", "c", "d"] {
        table.write_str(&chars(cell));
        table.increment_col_index();
    }
    assert_eq!(text(table.format()), " a   | b   |   c |  d  |\n --- | :-- | --: | :-: |\n");
}

#[test]
fn table_centers_with_the_odd_space_behind() {
    let mut table = TableState::new(vec![ColumnAlignment::Center, ColumnAlignment::Unset]);
    table.write_str(&chars("ab"));
    table.increment_col_index();
    table.write_str(&chars(""));
    table.increment_col_index();
    table.push_row();
    table.write_str(&chars("abcde"));
    assert_eq!(text(table.format()), "  ab   |     |\n :---: | --- |\n abcde |     |\n");
}
