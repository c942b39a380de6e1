//! Recovers the destination, title and label of a link from the source
//! text, where what was escaped is still escaped.
use vstd::prelude::*;
use crate::text::{
    contains, ends_with, find, push_all, span, spec_contains, spec_ends_with, spec_find,
    spec_span, spec_starts_with, spec_trim, starts_with, to_vec, trim, CharSet,
};

verus! {

/// A link destination and, where there is one, the title with the character
/// that closes it.
#[derive(Clone, Debug, PartialEq, Eq)]
pub struct LinkParts {
    pub url: Vec<char>,
    pub title: Option<(Vec<char>, char)>,
}

/// A `LinkParts` as a mathematical value.
pub struct LinkPartsView {
    pub url: Seq<char>,
    pub title: Option<(Seq<char>, char)>,
}

/// A title as a mathematical value.
pub open spec fn title_view(title: Option<(Vec<char>, char)>) -> Option<(Seq<char>, char)> {
    match title {
        Some((text, quote)) => Some((text@, quote)),
        None => None,
    }
}

impl View for LinkParts {
    type V = LinkPartsView;

    open spec fn view(&self) -> LinkPartsView {
        LinkPartsView { url: self.url@, title: title_view(self.title) }
    }
}

pub open spec fn parts_view(parts: Option<LinkParts>) -> Option<LinkPartsView> {
    match parts {
        Some(p) => Some(p@),
        None => None,
    }
}

/// Where a scan for balanced parentheses stands.
pub struct ParenScan {
    /// How many `(` are open.
    pub depth: nat,
    /// Whether the character before was a backslash.
    pub escaped: bool,
    /// Whether a `)` came that closes nothing.
    pub failed: bool,
}

pub open spec fn spec_paren_step(p: ParenScan, c: char) -> ParenScan {
    if p.failed {
        p
    } else if !p.escaped && c == '(' {
        ParenScan { depth: p.depth + 1, ..p }
    } else if !p.escaped && c == ')' {
        if p.depth > 0 {
            ParenScan { depth: (p.depth - 1) as nat, escaped: false, failed: false }
        } else {
            ParenScan { failed: true, ..p }
        }
    } else {
        ParenScan { escaped: c == '\\', ..p }
    }
}

/// The scan after the first `n` characters of `s`.
pub open spec fn spec_paren_scan(s: Seq<char>, n: int) -> ParenScan
    decreases n,
{
    if n <= 0 || n > s.len() {
        ParenScan { depth: 0, escaped: false, failed: false }
    } else {
        spec_paren_step(spec_paren_scan(s, n - 1), s[n - 1])
    }
}

/// Whether every `(` of `url` that is not escaped has its `)`, and every
/// such `)` its `(`.
pub open spec fn spec_balanced_parens(url: Seq<char>) -> bool {
    let p = spec_paren_scan(url, url.len() as int);
    !p.failed && p.depth == 0
}

proof fn lemma_paren_scan_failed(s: Seq<char>, n: int, m: int)
    requires
        0 <= n <= m <= s.len(),
        spec_paren_scan(s, n).failed,
    ensures
        spec_paren_scan(s, m).failed,
    decreases m,
{
    if n < m {
        lemma_paren_scan_failed(s, n, m - 1);
    }
}

/// Check if the parens are balanced
pub fn balanced_parens(url: &[char]) -> (r: bool)
    ensures
        r == spec_balanced_parens(url@),
{
    let mut depth: usize = 0;
    let mut was_last_escape = false;
    let mut i: usize = 0;
    while i < url.len()
        invariant
            i <= url@.len(),
            depth <= i,
            spec_paren_scan(url@, i as int) == (ParenScan {
                depth: depth as nat,
                escaped: was_last_escape,
                failed: false,
            }),
        decreases url@.len() - i,
    {
        let b = url[i];
        if !was_last_escape && b == '(' {
            depth += 1;
        } else if !was_last_escape && b == ')' {
            if depth > 0 {
                depth -= 1;
                was_last_escape = false;
            } else {
                proof {
                    lemma_paren_scan_failed(url@, i + 1, url@.len() as int);
                }
                return false;
            }
        } else {
            was_last_escape = b == '\\';
        }
        i += 1;
    }
    depth == 0
}

/// A link destination as it is written: between `<` and `>` where it is
/// empty and `wrap_empty_urls` is set, where it holds a space and is not yet
/// so wrapped, or where its parentheses are not balanced; else as it is.
pub open spec fn spec_format_link_url(url: Seq<char>, wrap_empty_urls: bool) -> Seq<char> {
    if wrap_empty_urls && url.len() == 0 {
        seq!['<', '>']
    } else if (!spec_starts_with(url, seq!['<']) && !spec_ends_with(url, seq!['>'])
        && spec_contains(url, CharSet::Just(' '))) || !spec_balanced_parens(url) {
        seq!['<'] + url + seq!['>']
    } else {
        url
    }
}

pub fn format_link_url(url: &[char], wrap_empty_urls: bool) -> (r: Vec<char>)
    ensures
        r@ == spec_format_link_url(url@, wrap_empty_urls),
{
    let open = vec!['<'];
    let close = vec!['>'];
    assert(open@ =~= seq!['<']);
    assert(close@ =~= seq!['>']);
    if wrap_empty_urls && url.len() == 0 {
        let r = vec!['<', '>'];
        assert(r@ =~= seq!['<', '>']);
        r
    } else if (!starts_with(url, open.as_slice()) && !ends_with(url, close.as_slice())
        && contains(url, CharSet::Just(' '))) || !balanced_parens(url) {
        let mut r: Vec<char> = Vec::new();
        r.push('<');
        push_all(&mut r, url);
        r.push('>');
        assert(r@ =~= seq!['<'] + url@ + seq!['>']);
        r
    } else {
        to_vec(url)
    }
}

/// Where a scan for balanced brackets stands.
pub struct BracketScan {
    /// The indices of the openers that are still open.
    pub stack: Seq<usize>,
    /// Whether the character before was a backslash.
    pub escaped: bool,
    /// The index of the opener of the pair that closed last; 0 before any.
    pub start: usize,
    /// The index of the closer of that pair; the length of the text before
    /// any.
    pub end: usize,
    /// Whether the scan has ended early.
    pub halted: bool,
}

pub open spec fn spec_bracket_step(
    p: BracketScan,
    s: Seq<char>,
    i: int,
    opener: char,
    closer: char,
    halt: Option<char>,
) -> BracketScan {
    let c = s[i];
    let stack = if !p.escaped && c == opener {
        p.stack.push(i as usize)
    } else {
        p.stack
    };
    if !p.escaped && c == closer {
        let closed = stack.len() > 0;
        let rest = if closed {
            stack.drop_last()
        } else {
            stack
        };
        BracketScan {
            stack: rest,
            escaped: c == '\\',
            start: if closed {
                stack.last()
            } else {
                p.start
            },
            end: if closed {
                i as usize
            } else {
                p.end
            },
            halted: rest.len() == 0 && halt is Some && i + 1 < s.len() && s[i + 1] == halt->0,
        }
    } else {
        BracketScan { stack, escaped: c == '\\', ..p }
    }
}

/// The scan after the first `n` characters of `s`, or after fewer where it
/// ended early.
pub open spec fn spec_bracket_scan(
    s: Seq<char>,
    opener: char,
    closer: char,
    halt: Option<char>,
    n: int,
) -> BracketScan
    decreases n,
{
    if n <= 0 || n > s.len() {
        BracketScan {
            stack: Seq::empty(),
            escaped: false,
            start: 0,
            end: s.len() as usize,
            halted: false,
        }
    } else {
        let p = spec_bracket_scan(s, opener, closer, halt, n - 1);
        if p.halted {
            p
        } else {
            spec_bracket_step(p, s, n - 1, opener, closer, halt)
        }
    }
}

/// The pair of balanced brackets that closes last in `label`: the index of
/// its opener and the index right behind its closer; 0 and one more than the
/// length of `label` where no pair closes. Brackets behind a backslash do
/// not count. Where `halt` is given, the scan ends at the first closer that
/// leaves no bracket open and has that character right behind it.
pub open spec fn spec_last_balanced_bracket(
    label: Seq<char>,
    opener: char,
    closer: char,
    halt: Option<char>,
) -> (usize, usize) {
    let p = spec_bracket_scan(label, opener, closer, halt, label.len() as int);
    (p.start, spec_add(p.end, 1))
}

proof fn lemma_bracket_scan_halted(
    s: Seq<char>,
    opener: char,
    closer: char,
    halt: Option<char>,
    n: int,
    m: int,
)
    requires
        0 <= n <= m <= s.len(),
        spec_bracket_scan(s, opener, closer, halt, n).halted,
    ensures
        spec_bracket_scan(s, opener, closer, halt, m) == spec_bracket_scan(
            s,
            opener,
            closer,
            halt,
            n,
        ),
    decreases m,
{
    if n < m {
        lemma_bracket_scan_halted(s, opener, closer, halt, n, m - 1);
    }
}

/// Search for enclosing balanced brackets
pub fn find_text_within_last_set_of_balance_bracket(
    label: &[char],
    opener: char,
    closer: char,
    halt_condition: Option<char>,
) -> (r: (usize, usize))
    ensures
        r == spec_last_balanced_bracket(label@, opener, closer, halt_condition),
        r.0 <= label@.len(),
        1 <= r.1 <= label@.len() + 1,
{
    let mut stack: Vec<usize> = Vec::new();
    let mut was_last_escape = false;
    let mut start: usize = 0;
    let mut end: usize = label.len();
    let mut i: usize = 0;
    while i < label.len()
        invariant
            i <= label@.len(),
            start <= label@.len(),
            end <= label@.len(),
            forall|k: int| 0 <= k < stack@.len() ==> stack@[k] <= label@.len(),
            spec_bracket_scan(label@, opener, closer, halt_condition, i as int) == (BracketScan {
                stack: stack@,
                escaped: was_last_escape,
                start,
                end,
                halted: false,
            }),
        decreases label@.len() - i,
    {
        let c = label[i];
        if !was_last_escape && c == opener {
            stack.push(i);
        }
        if !was_last_escape && c == closer {
            if let Some(start_index) = stack.pop() {
                start = start_index;
                end = i;
            }
            if stack.len() == 0 {
                if let Some(halt) = halt_condition {
                    if i + 1 < label.len() && label[i + 1] == halt {
                        proof {
                            assert(spec_bracket_scan(
                                label@,
                                opener,
                                closer,
                                halt_condition,
                                i + 1,
                            ).halted);
                            lemma_bracket_scan_halted(
                                label@,
                                opener,
                                closer,
                                halt_condition,
                                i + 1,
                                label@.len() as int,
                            );
                        }
                        return (start, self::add(end, 1));
                    }
                }
            }
        }
        was_last_escape = c == '\\';
        i += 1;
    }
    (start, self::add(end, 1))
}

pub open spec fn spec_add(a: usize, b: usize) -> usize {
    if a + b <= usize::MAX {
        (a + b) as usize
    } else {
        usize::MAX
    }
}

pub fn add(a: usize, b: usize) -> (r: usize)
    ensures
        r == spec_add(a, b),
{
    if a <= usize::MAX - b {
        a + b
    } else {
        usize::MAX
    }
}

/// The label of a reference link: what stands in the last pair of balanced
/// square brackets, without white space at either end.
///
/// `[foo][bar]` gives `bar`; `[link \[bar][ref]` gives `ref`.
pub open spec fn spec_find_reference_link_label(input: Seq<char>) -> Seq<char> {
    let (start, end) = spec_last_balanced_bracket(input, '[', ']', None);
    // one past the opener, and up to the closer
    spec_trim(spec_span(input, spec_add(start, 1) as int, end - 1))
}

pub fn find_reference_link_label<'a>(input: &'a [char]) -> (r: &'a [char])
    ensures
        r@ == spec_find_reference_link_label(input@),
{
    let (start, end) = find_text_within_last_set_of_balance_bracket(input, '[', ']', None);
    // +1 to move past '['
    // -1 to move before ']'
    trim(span(input, self::add(start, 1), end - 1))
}

/// Going back from `i`: the index of the last `opener` before `i` that has
/// no backslash in front of it; 0 where there is none.
pub open spec fn spec_title_opener(link: Seq<char>, opener: char, i: int) -> int
    decreases i,
{
    if i <= 0 || i > link.len() {
        0
    } else if link[i - 1] == opener && !(i >= 2 && link[i - 2] == '\\') {
        i - 1
    } else {
        spec_title_opener(link, opener, i - 1)
    }
}

/// Where the title of a link begins, for a `link` that ends with the
/// character that closes its title: at the last character before the end
/// that opens such a title and is not escaped; 0 where there is none.
pub open spec fn spec_link_title_start(link: Seq<char>) -> int {
    if link.len() == 0 {
        0
    } else {
        let opener = if link.last() == ')' {
            '('
        } else {
            link.last()
        };
        spec_title_opener(link, opener, link.len() - 1)
    }
}

pub fn link_title_start(link: &[char]) -> (r: usize)
    ensures
        r == spec_link_title_start(link@),
        r <= link@.len(),
{
    if link.len() == 0 {
        return 0;
    }
    let last = link[link.len() - 1];
    let opener = if last == ')' {
        '('
    } else {
        last
    };
    let mut i: usize = link.len() - 1;
    assert(spec_link_title_start(link@) == spec_title_opener(link@, opener, link@.len() - 1));
    while i > 0
        invariant
            i < link@.len(),
            spec_link_title_start(link@) == spec_title_opener(link@, opener, link@.len() - 1),
            spec_title_opener(link@, opener, link@.len() - 1) == spec_title_opener(
                link@,
                opener,
                i as int,
            ),
        decreases i,
    {
        if link[i - 1] == opener && !(i >= 2 && link[i - 2] == '\\') {
            assert(spec_title_opener(link@, opener, i as int) == i - 1);
            return i - 1;
        }
        i -= 1;
    }
    0
}

/// A destination without the `<` and `>` around it, where it has both, and
/// without white space at either end.
pub open spec fn spec_trim_angle_brackets(url: Seq<char>) -> Seq<char> {
    if spec_starts_with(url, seq!['<']) && spec_ends_with(url, seq!['>']) {
        spec_trim(spec_span(url, 1, url.len() - 1))
    } else {
        spec_trim(url)
    }
}

pub fn trim_angle_brackes<'a>(url: &'a [char]) -> (r: &'a [char])
    ensures
        r@ == spec_trim_angle_brackets(url@),
{
    let open = vec!['<'];
    let close = vec!['>'];
    assert(open@ =~= seq!['<']);
    assert(close@ =~= seq!['>']);
    if starts_with(url, open.as_slice()) && ends_with(url, close.as_slice()) {
        trim(span(url, 1, url.len() - 1))
    } else {
        trim(url)
    }
}

/// The character that closes a title: the last of the text, or `"` where
/// the text is empty.
pub open spec fn spec_quote_of(title_with_quotes: Seq<char>) -> char {
    if title_with_quotes.len() > 0 {
        title_with_quotes.last()
    } else {
        '"'
    }
}

/// The destination and the title of a link, from what stands behind its
/// label or between its parentheses.
///
/// With no title to look for, or no white space in front of one, or no
/// character that opens one, all of `input` is the destination. Else the
/// title begins where `spec_link_title_start` says, and is what stands
/// between its first and its last character.
pub open spec fn spec_split_inline_url_from_title(input: Seq<char>, has_title: bool) -> LinkPartsView {
    let has_space = spec_contains(input, CharSet::Whitespace);
    let only_link = !has_space && has_title;
    let link_start = spec_link_title_start(input);
    if only_link || !has_title || link_start == 0 {
        LinkPartsView { url: spec_trim_angle_brackets(input), title: None }
    } else {
        let url = spec_trim(input.take(link_start));
        let title_with_quotes = spec_trim(input.skip(link_start));
        LinkPartsView {
            url: spec_trim_angle_brackets(url),
            title: Some(
                (
                    spec_span(title_with_quotes, 1, title_with_quotes.len() - 1),
                    spec_quote_of(title_with_quotes),
                ),
            ),
        }
    }
}

pub fn split_inline_url_from_title(input: &[char], has_title: bool) -> (r: LinkParts)
    ensures
        r@ == spec_split_inline_url_from_title(input@, has_title),
{
    // If both link destination and link title are present, they must be separated by spaces,
    // tabs, and up to one line ending.
    let has_space = contains(input, CharSet::Whitespace);
    let only_link = !has_space && has_title;
    let link_start = link_title_start(input);
    if only_link || !has_title || link_start == 0 {
        return LinkParts { url: to_vec(trim_angle_brackes(input)), title: None };
    }
    let url = trim(vstd::slice::slice_subrange(input, 0, link_start));
    let title_with_quotes = trim(vstd::slice::slice_subrange(input, link_start, input.len()));
    // Remove the wrapping quotes from the title
    let quote = if title_with_quotes.len() > 0 {
        title_with_quotes[title_with_quotes.len() - 1]
    } else {
        '"'
    };
    let title = span(
        title_with_quotes,
        1,
        if title_with_quotes.len() > 0 {
            title_with_quotes.len() - 1
        } else {
            0
        },
    );
    LinkParts { url: to_vec(trim_angle_brackes(url)), title: Some((to_vec(title), quote)) }
}

/// The destination and the title of an inline link, from its source text
/// `[text](destination "title")`.
///
/// The text ends at the first `]` that leaves no bracket open and has `(`
/// behind it; what stands behind that `(`, up to the last character of the
/// source, is split in destination and title. `None` where the source has
/// no room for the parentheses behind that `]`.
pub open spec fn spec_find_inline_url_and_title(input: Seq<char>) -> Option<LinkPartsView> {
    let (_start, end) = spec_last_balanced_bracket(input, '[', ']', Some('('));
    if input.len() < 1 || spec_add(end, 1) > input.len() - 1 {
        None
    } else {
        // from one past the `(` up to the `)` that ends the source
        let inline_url = spec_trim(spec_span(input, spec_add(end, 1) as int, input.len() - 1));
        if inline_url.len() == 0 {
            Some(LinkPartsView { url: Seq::empty(), title: None })
        } else {
            Some(
                spec_split_inline_url_from_title(
                    inline_url,
                    inline_url.last() == '"' || inline_url.last() == '\'' || inline_url.last()
                        == ')',
                ),
            )
        }
    }
}

/// Inline links are expected to be well formed:
/// `[link](/uri)` gives `/uri`, `[link](</my uri>)` gives `/my uri`.
pub fn find_inline_url_and_title(input: &[char]) -> (r: Option<LinkParts>)
    ensures
        parts_view(r) == spec_find_inline_url_and_title(input@),
{
    let (_, end) = find_text_within_last_set_of_balance_bracket(input, '[', ']', Some('('));
    // +1 to move past '('
    // -1 to move before ')'
    if input.len() < 1 || self::add(end, 1) > input.len() - 1 {
        return None;
    }
    let inline_url = trim(span(input, self::add(end, 1), input.len() - 1));
    if inline_url.len() == 0 {
        let url: Vec<char> = Vec::new();
        assert(url@ =~= Seq::<char>::empty());
        return Some(LinkParts { url, title: None });
    }
    let last = inline_url[inline_url.len() - 1];
    Some(split_inline_url_from_title(inline_url, last == '"' || last == '\'' || last == ')'))
}

/// What stands behind the label in a link reference definition: the
/// definition from one character behind the first place where the label
/// stands, or, where it stands nowhere, as if it stood at the very start.
pub open spec fn spec_reference_definition_without_label(
    complete_link: Seq<char>,
    link_label: Seq<char>,
) -> Seq<char> {
    let found = spec_find(complete_link, link_label, 0);
    let index = if found < complete_link.len() || (complete_link.len() == 0 && link_label.len()
        == 0) {
        found
    } else {
        0
    };
    spec_span(
        complete_link,
        spec_add(spec_add(index as usize, 1), link_label.len() as usize) as int,
        complete_link.len() as int,
    )
}

/// To avoid hitting `:` within the link label.
pub fn reference_definition_without_label<'a>(complete_link: &'a [char], link_label: &[char]) -> (r:
    &'a [char])
    ensures
        r@ == spec_reference_definition_without_label(complete_link@, link_label@),
{
    // If the link label is escaped, we may not find it.
    // Then, we simply assume the link starts with the label.
    let found = find(complete_link, link_label, 0);
    let index = if found < complete_link.len() {
        found
    } else {
        0
    };
    span(complete_link, self::add(self::add(index, 1), link_label.len()), complete_link.len())
}

/// The destination and the title of a link reference definition, from its
/// source text: what stands behind the first `:` behind the label, split in
/// destination and title. `None` where no `:` stands there.
pub open spec fn spec_recover_escaped_link_destination_and_title(
    complete_link: Seq<char>,
    link_label: Seq<char>,
    has_title: bool,
) -> Option<LinkPartsView> {
    let rest = spec_reference_definition_without_label(complete_link, link_label);
    let colon = crate::text::spec_scan(rest, CharSet::Just(':'), true, 0);
    if colon >= rest.len() {
        None
    } else {
        Some(spec_split_inline_url_from_title(spec_trim(rest.skip(colon + 1)), has_title))
    }
}

/// Grab the link destination from the source text
///
/// The parser hands out destinations and titles with their escapes
/// resolved, so the source is where the escaped form can be had.
pub fn recover_escaped_link_destination_and_title(
    complete_link: &[char],
    link_label: &[char],
    has_title: bool,
) -> (r: Option<LinkParts>)
    ensures
        parts_view(r) == spec_recover_escaped_link_destination_and_title(
            complete_link@,
            link_label@,
            has_title,
        ),
{
    let rest = reference_definition_without_label(complete_link, link_label);
    let colon = crate::text::scan(rest, CharSet::Just(':'), true, 0);
    if colon >= rest.len() {
        return None;
    }
    let behind = trim(vstd::slice::slice_subrange(rest, colon + 1, rest.len()));
    Some(split_inline_url_from_title(behind, has_title))
}

/// A title as it is written behind a destination: between the character
/// that closes it and the one that opens it.
pub open spec fn spec_quoted_title(title: Seq<char>, quote: char) -> Seq<char> {
    if quote == ')' {
        seq!['('] + title + seq![')']
    } else {
        seq![quote] + title + seq![quote]
    }
}

pub fn push_quoted_title(out: &mut Vec<char>, title: &[char], quote: char)
    ensures
        final(out)@ == old(out)@ + spec_quoted_title(title@, quote),
{
    if quote == ')' {
        out.push('(');
    } else {
        out.push(quote);
    }
    push_all(out, title);
    out.push(quote);
    assert(out@ =~= old(out)@ + spec_quoted_title(title@, quote));
}

/// What closes an inline link behind its text: `](destination)` or
/// `](destination "title")`.
pub open spec fn spec_inline_link(url: Seq<char>, title: Option<(Seq<char>, char)>) -> Seq<char> {
    match title {
        Some((text, quote)) => seq![']', '('] + spec_format_link_url(url, false) + seq![' ']
            + spec_quoted_title(text, quote) + seq![')'],
        None => seq![']', '('] + spec_format_link_url(url, false) + seq![')'],
    }
}

pub fn inline_link(url: &[char], title: &Option<(Vec<char>, char)>) -> (r: Vec<char>)
    ensures
        r@ == spec_inline_link(url@, title_view(*title)),
{
    let mut out: Vec<char> = Vec::new();
    out.push(']');
    out.push('(');
    let shown = format_link_url(url, false);
    push_all(&mut out, shown.as_slice());
    match title {
        Some((text, quote)) => {
            out.push(' ');
            push_quoted_title(&mut out, text.as_slice(), *quote);
        },
        None => {},
    }
    out.push(')');
    assert(out@ =~= spec_inline_link(url@, title_view(*title)));
    out
}

/// A link reference definition as it is written on its line:
/// `[label]: destination` or `[label]: destination "title"`, the label
/// without white space at either end and an empty destination as `<>`.
pub open spec fn spec_reference_definition(
    label: Seq<char>,
    dest: Seq<char>,
    title: Option<(Seq<char>, char)>,
) -> Seq<char> {
    let head = seq!['['] + spec_trim(label) + seq![']', ':', ' '] + spec_format_link_url(
        dest,
        true,
    );
    match title {
        Some((text, quote)) => head + seq![' '] + spec_quoted_title(text, quote),
        None => head,
    }
}

pub fn reference_definition(label: &[char], dest: &[char], title: &Option<(Vec<char>, char)>) -> (r:
    Vec<char>)
    ensures
        r@ == spec_reference_definition(label@, dest@, title_view(*title)),
{
    let mut out: Vec<char> = Vec::new();
    out.push('[');
    push_all(&mut out, trim(label));
    out.push(']');
    out.push(':');
    out.push(' ');
    let shown = format_link_url(dest, true);
    push_all(&mut out, shown.as_slice());
    match title {
        Some((text, quote)) => {
            out.push(' ');
            push_quoted_title(&mut out, text.as_slice(), *quote);
        },
        None => {},
    }
    assert(out@ =~= spec_reference_definition(label@, dest@, title_view(*title)));
    out
}

} // verus!
