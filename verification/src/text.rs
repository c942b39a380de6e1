//! Operations on text held as `char` sequences, each with a mathematical
//! description over `Seq<char>`.
use vstd::prelude::*;
use vstd::slice::slice_subrange;

verus! {

/// The text of each entry of a list of texts.
pub open spec fn texts(list: Seq<Vec<char>>) -> Seq<Seq<char>> {
    Seq::new(list.len(), |i: int| list[i]@)
}

/// Unicode `White_Space`.
pub open spec fn spec_is_whitespace(c: char) -> bool {
    let u = c as u32;
    u == 0x20 || (0x09 <= u && u <= 0x0d) || u == 0x85 || u == 0xa0 || u == 0x1680 || (0x2000 <= u
        && u <= 0x200a) || u == 0x2028 || u == 0x2029 || u == 0x202f || u == 0x205f || u == 0x3000
}

pub fn is_whitespace(c: char) -> (r: bool)
    ensures
        r == spec_is_whitespace(c),
{
    let u: u32 = c as u32;
    u == 0x20 || (0x09 <= u && u <= 0x0d) || u == 0x85 || u == 0xa0 || u == 0x1680 || (0x2000 <= u
        && u <= 0x200a) || u == 0x2028 || u == 0x2029 || u == 0x202f || u == 0x205f || u == 0x3000
}

/// A set of characters that a scan can stop at or run over.
#[derive(Clone, Copy, Debug)]
pub enum CharSet {
    /// Unicode white space.
    Whitespace,
    /// One given character.
    Just(char),
    /// One of two given characters.
    Either(char, char),
    /// White space, `#` or a backslash: what may follow the text of a heading.
    HeadingTail,
    /// An ASCII digit.
    Digit,
}

impl CharSet {
    pub open spec fn has(self, c: char) -> bool {
        match self {
            CharSet::Whitespace => spec_is_whitespace(c),
            CharSet::Just(a) => c == a,
            CharSet::Either(a, b) => c == a || c == b,
            CharSet::HeadingTail => spec_is_whitespace(c) || c == '#' || c == '\\',
            CharSet::Digit => '0' <= c && c <= '9',
        }
    }

    pub fn test(self, c: char) -> (r: bool)
        ensures
            r == self.has(c),
    {
        match self {
            CharSet::Whitespace => is_whitespace(c),
            CharSet::Just(a) => c == a,
            CharSet::Either(a, b) => c == a || c == b,
            CharSet::HeadingTail => is_whitespace(c) || c == '#' || c == '\\',
            CharSet::Digit => '0' <= c && c <= '9',
        }
    }
}

/// The first index at or after `i` whose character is in `set` exactly when
/// `want` holds; the length of `s` where there is none.
pub open spec fn spec_scan(s: Seq<char>, set: CharSet, want: bool, i: int) -> int
    decreases s.len() - i,
{
    if i < 0 || i >= s.len() {
        s.len() as int
    } else if set.has(s[i]) == want {
        i
    } else {
        spec_scan(s, set, want, i + 1)
    }
}

pub fn scan(s: &[char], set: CharSet, want: bool, i: usize) -> (r: usize)
    ensures
        r == spec_scan(s@, set, want, i as int),
        r <= s@.len(),
        i <= s@.len() ==> i <= r,
{
    if i > s.len() {
        return s.len();
    }
    let mut j: usize = i;
    while j < s.len() && set.test(s[j]) != want
        invariant
            i <= j <= s@.len(),
            spec_scan(s@, set, want, i as int) == spec_scan(s@, set, want, j as int),
        decreases s@.len() - j,
    {
        j += 1;
    }
    j
}

/// Going back from `i`: the index just behind the last character before `i`
/// that is in `set` exactly when `want` holds; 0 where there is none.
pub open spec fn spec_scan_back(s: Seq<char>, set: CharSet, want: bool, i: int) -> int
    decreases i,
{
    if i <= 0 || i > s.len() {
        0
    } else if set.has(s[i - 1]) == want {
        i
    } else {
        spec_scan_back(s, set, want, i - 1)
    }
}

pub fn scan_back(s: &[char], set: CharSet, want: bool, i: usize) -> (r: usize)
    ensures
        r == spec_scan_back(s@, set, want, i as int),
        r <= i,
        r <= s@.len(),
{
    if i > s.len() {
        return 0;
    }
    let mut j: usize = i;
    while j > 0 && set.test(s[j - 1]) != want
        invariant
            j <= i <= s@.len(),
            spec_scan_back(s@, set, want, i as int) == spec_scan_back(s@, set, want, j as int),
        decreases j,
    {
        j -= 1;
    }
    j
}

/// A scan from `a` stops at `b`, where no character from `a` up to `b` is
/// one that it stops at, and the character at `b` is one or `b` is the end.
pub proof fn lemma_scan_stops(s: Seq<char>, set: CharSet, want: bool, a: int, b: int)
    requires
        0 <= a <= b <= s.len(),
        forall|i: int| a <= i < b ==> set.has(#[trigger] s[i]) != want,
        b < s.len() ==> set.has(s[b]) == want,
    ensures
        spec_scan(s, set, want, a) == b,
    decreases b - a,
{
    if a < b {
        assert(set.has(s[a]) != want);
        lemma_scan_stops(s, set, want, a + 1, b);
    }
}

/// A scan back from `b` stops at `a`, where no character from `a` up to
/// `b` is one that it stops at, and the character before `a` is one or `a` is
/// the start.
pub proof fn lemma_scan_back_stops(s: Seq<char>, set: CharSet, want: bool, a: int, b: int)
    requires
        0 <= a <= b <= s.len(),
        forall|i: int| a <= i < b ==> set.has(#[trigger] s[i]) != want,
        a > 0 ==> set.has(s[a - 1]) == want,
    ensures
        spec_scan_back(s, set, want, b) == a,
    decreases b - a,
{
    if a < b {
        assert(set.has(s[b - 1]) != want);
        lemma_scan_back_stops(s, set, want, a, b - 1);
    }
}

/// A scan back stops behind a character that it stops at, or at the start.
pub proof fn lemma_scan_back_ends(s: Seq<char>, set: CharSet, want: bool, i: int)
    requires
        0 <= i <= s.len(),
    ensures
        0 <= spec_scan_back(s, set, want, i) <= i,
        spec_scan_back(s, set, want, i) > 0 ==> set.has(s[spec_scan_back(s, set, want, i) - 1])
            == want,
    decreases i,
{
    if i > 0 && set.has(s[i - 1]) != want {
        lemma_scan_back_ends(s, set, want, i - 1);
    }
}

/// What is left when the characters of `set` are taken off the end of a
/// text does not end with one of them.
pub proof fn lemma_trim_end_matches_ends(s: Seq<char>, set: CharSet)
    ensures
        spec_trim_end_matches(s, set).len() <= s.len(),
        spec_trim_end_matches(s, set).len() > 0 ==> !set.has(spec_trim_end_matches(s, set).last()),
{
    lemma_scan_back_ends(s, set, false, s.len() as int);
}

/// A text that neither begins nor ends with white space is left as it is
/// when white space is taken off its ends.
pub proof fn lemma_trim_keeps(s: Seq<char>)
    requires
        s.len() > 0 ==> !spec_is_whitespace(s[0]) && !spec_is_whitespace(s.last()),
    ensures
        spec_trim(s) == s,
{
    if s.len() > 0 {
        lemma_scan_stops(s, CharSet::Whitespace, false, 0, 0);
        assert(s.skip(0) =~= s);
        lemma_scan_back_stops(s, CharSet::Whitespace, false, s.len() as int, s.len() as int);
        assert(s.take(s.len() as int) =~= s);
    } else {
        assert(s.skip(0) =~= s);
        assert(s.take(0) =~= s);
    }
}

/// `s` without its longest prefix of characters in `set`.
pub open spec fn spec_trim_start_matches(s: Seq<char>, set: CharSet) -> Seq<char> {
    s.skip(spec_scan(s, set, false, 0))
}

/// `s` without its longest suffix of characters in `set`.
pub open spec fn spec_trim_end_matches(s: Seq<char>, set: CharSet) -> Seq<char> {
    s.take(spec_scan_back(s, set, false, s.len() as int))
}

pub open spec fn spec_trim_start(s: Seq<char>) -> Seq<char> {
    spec_trim_start_matches(s, CharSet::Whitespace)
}

pub open spec fn spec_trim_end(s: Seq<char>) -> Seq<char> {
    spec_trim_end_matches(s, CharSet::Whitespace)
}

/// `s` without white space at either end.
pub open spec fn spec_trim(s: Seq<char>) -> Seq<char> {
    spec_trim_end(spec_trim_start(s))
}

pub fn trim_start_matches<'a>(s: &'a [char], set: CharSet) -> (r: &'a [char])
    ensures
        r@ == spec_trim_start_matches(s@, set),
{
    let i = scan(s, set, false, 0);
    slice_subrange(s, i, s.len())
}

pub fn trim_end_matches<'a>(s: &'a [char], set: CharSet) -> (r: &'a [char])
    ensures
        r@ == spec_trim_end_matches(s@, set),
{
    let j = scan_back(s, set, false, s.len());
    slice_subrange(s, 0, j)
}

pub fn trim_start<'a>(s: &'a [char]) -> (r: &'a [char])
    ensures
        r@ == spec_trim_start(s@),
{
    trim_start_matches(s, CharSet::Whitespace)
}

pub fn trim_end<'a>(s: &'a [char]) -> (r: &'a [char])
    ensures
        r@ == spec_trim_end(s@),
{
    trim_end_matches(s, CharSet::Whitespace)
}

pub fn trim<'a>(s: &'a [char]) -> (r: &'a [char])
    ensures
        r@ == spec_trim(s@),
{
    trim_end(trim_start(s))
}

/// Whether `s` holds a character of `set`.
pub open spec fn spec_contains(s: Seq<char>, set: CharSet) -> bool {
    spec_scan(s, set, true, 0) < s.len()
}

pub fn contains(s: &[char], set: CharSet) -> (r: bool)
    ensures
        r == spec_contains(s@, set),
{
    scan(s, set, true, 0) < s.len()
}

/// Whether every character of `s` is in `set` (true of the empty text).
pub open spec fn spec_all(s: Seq<char>, set: CharSet) -> bool {
    spec_scan(s, set, false, 0) >= s.len()
}

pub fn all(s: &[char], set: CharSet) -> (r: bool)
    ensures
        r == spec_all(s@, set),
{
    scan(s, set, false, 0) >= s.len()
}

/// How many characters of `s` are in `set`.
pub open spec fn spec_count(s: Seq<char>, set: CharSet) -> nat
    decreases s.len(),
{
    if s.len() == 0 {
        0
    } else {
        spec_count(s.drop_last(), set) + if set.has(s.last()) {
            1nat
        } else {
            0nat
        }
    }
}

pub fn count(s: &[char], set: CharSet) -> (r: usize)
    ensures
        r == spec_count(s@, set),
{
    let mut n: usize = 0;
    let mut i: usize = 0;
    while i < s.len()
        invariant
            i <= s@.len(),
            n == spec_count(s@.take(i as int), set),
            n <= i,
        decreases s@.len() - i,
    {
        assert(s@.take(i + 1).drop_last() =~= s@.take(i as int));
        if set.test(s[i]) {
            n += 1;
        }
        i += 1;
    }
    assert(s@.take(i as int) =~= s@);
    n
}

/// How many line feeds `s` holds.
pub open spec fn spec_count_newlines(s: Seq<char>) -> nat {
    spec_count(s, CharSet::Just('\n'))
}

/// Count the number of `\n` in a snippet.
pub fn count_newlines(snippet: &[char]) -> (r: usize)
    ensures
        r == spec_count_newlines(snippet@),
{
    count(snippet, CharSet::Just('\n'))
}

pub open spec fn spec_starts_with(s: Seq<char>, prefix: Seq<char>) -> bool {
    prefix.len() <= s.len() && s.take(prefix.len() as int) == prefix
}

pub open spec fn spec_ends_with(s: Seq<char>, suffix: Seq<char>) -> bool {
    suffix.len() <= s.len() && s.skip(s.len() - suffix.len()) == suffix
}

/// Whether `pat` stands in `s` at index `at`.
pub open spec fn spec_matches_at(s: Seq<char>, pat: Seq<char>, at: int) -> bool {
    0 <= at && at + pat.len() <= s.len() && s.subrange(at, at + pat.len()) == pat
}

pub fn matches_at(s: &[char], pat: &[char], at: usize) -> (r: bool)
    ensures
        r == spec_matches_at(s@, pat@, at as int),
{
    if at > s.len() || pat.len() > s.len() - at {
        return false;
    }
    let mut k: usize = 0;
    while k < pat.len()
        invariant
            at + pat@.len() <= s@.len() <= usize::MAX,
            k <= pat@.len(),
            forall|m: int| 0 <= m < k ==> s@[at + m] == pat@[m],
        decreases pat@.len() - k,
    {
        if s[at + k] != pat[k] {
            assert(s@.subrange(at as int, at + pat@.len())[k as int] != pat@[k as int]);
            return false;
        }
        k += 1;
    }
    assert(s@.subrange(at as int, at + pat@.len()) =~= pat@);
    true
}

/// Whether the two texts are the same.
pub fn equals(a: &[char], b: &[char]) -> (r: bool)
    ensures
        r == (a@ == b@),
{
    if a.len() != b.len() {
        return false;
    }
    let r = matches_at(a, b, 0);
    assert(a@.subrange(0, 0 + b@.len() as int) =~= a@);
    r
}

pub fn starts_with(s: &[char], prefix: &[char]) -> (r: bool)
    ensures
        r == spec_starts_with(s@, prefix@),
{
    let r = matches_at(s, prefix, 0);
    assert(prefix@.len() <= s@.len() ==> s@.take(prefix@.len() as int) =~= s@.subrange(
        0,
        0 + prefix@.len() as int,
    ));
    r
}

pub fn ends_with(s: &[char], suffix: &[char]) -> (r: bool)
    ensures
        r == spec_ends_with(s@, suffix@),
{
    if suffix.len() > s.len() {
        return false;
    }
    let at = s.len() - suffix.len();
    let r = matches_at(s, suffix, at);
    assert(s@.skip(at as int) =~= s@.subrange(at as int, at + suffix@.len()));
    r
}

/// The first index at or after `i` where `pat` stands in `s`; the length of
/// `s` where there is none.
pub open spec fn spec_find(s: Seq<char>, pat: Seq<char>, i: int) -> int
    decreases s.len() - i,
{
    if i < 0 || i >= s.len() {
        s.len() as int
    } else if spec_matches_at(s, pat, i) {
        i
    } else {
        spec_find(s, pat, i + 1)
    }
}

pub fn find(s: &[char], pat: &[char], i: usize) -> (r: usize)
    ensures
        r == spec_find(s@, pat@, i as int),
        r <= s@.len(),
        i <= s@.len() ==> i <= r,
        r < s@.len() ==> r + pat@.len() <= s@.len(),
{
    if i > s.len() {
        return s.len();
    }
    let mut j: usize = i;
    while j < s.len()
        invariant
            i <= j <= s@.len(),
            spec_find(s@, pat@, i as int) == spec_find(s@, pat@, j as int),
        decreases s@.len() - j,
    {
        if matches_at(s, pat, j) {
            return j;
        }
        j += 1;
    }
    j
}

/// The part of `s` from `a` up to `b`, both brought into `0..=s.len()` and
/// `b` to no less than `a`.
pub open spec fn spec_span(s: Seq<char>, a: int, b: int) -> Seq<char> {
    let lo = if a < 0 {
        0
    } else if a > s.len() {
        s.len() as int
    } else {
        a
    };
    let hi = if b < lo {
        lo
    } else if b > s.len() {
        s.len() as int
    } else {
        b
    };
    s.subrange(lo, hi)
}

pub fn span<'a>(s: &'a [char], a: usize, b: usize) -> (r: &'a [char])
    ensures
        r@ == spec_span(s@, a as int, b as int),
{
    let lo = if a > s.len() {
        s.len()
    } else {
        a
    };
    let hi = if b < lo {
        lo
    } else if b > s.len() {
        s.len()
    } else {
        b
    };
    slice_subrange(s, lo, hi)
}

/// Appends `t` to `out`.
pub fn push_all(out: &mut Vec<char>, t: &[char])
    ensures
        final(out)@ == old(out)@ + t@,
{
    let mut i: usize = 0;
    while i < t.len()
        invariant
            i <= t@.len(),
            out@ == old(out)@ + t@.take(i as int),
        decreases t@.len() - i,
    {
        out.push(t[i]);
        assert(t@.take(i + 1) =~= t@.take(i as int).push(t@[i as int]));
        assert(out@ =~= old(out)@ + t@.take(i + 1));
        i += 1;
    }
    assert(t@.take(i as int) =~= t@);
}

/// A copy of `t` that owns its characters.
pub fn to_vec(t: &[char]) -> (r: Vec<char>)
    ensures
        r@ == t@,
{
    let mut out: Vec<char> = Vec::new();
    push_all(&mut out, t);
    assert(out@ =~= t@);
    out
}

/// The characters of `s`.
pub fn chars_of(s: &str) -> (r: Vec<char>)
    ensures
        r@ == s@,
{
    let mut out: Vec<char> = Vec::new();
    for c in it: s.chars()
        invariant
            out@ == it.seq().take(it.index() as int),
            it.seq() == s@,
    {
        out.push(c);
    }
    out
}

/// `String::push` appends the one character to the string.
pub assume_specification[ String::push ](s: &mut String, ch: char)
    ensures
        final(s)@ == old(s)@.push(ch),
;

/// The string that holds the characters of `t`.
pub fn string_of(t: &[char]) -> (r: String)
    ensures
        r@ == t@,
{
    let mut out = String::new();
    let mut i: usize = 0;
    while i < t.len()
        invariant
            i <= t@.len(),
            out@ == t@.take(i as int),
        decreases t@.len() - i,
    {
        out.push(t[i]);
        assert(t@.take(i + 1) =~= t@.take(i as int).push(t@[i as int]));
        i += 1;
    }
    assert(t@.take(i as int) =~= t@);
    out
}

/// `n` times the character `c`.
pub open spec fn spec_repeat(c: char, n: nat) -> Seq<char> {
    Seq::new(n, |i: int| c)
}

pub fn push_repeat(out: &mut Vec<char>, c: char, n: usize)
    ensures
        final(out)@ == old(out)@ + spec_repeat(c, n as nat),
{
    let mut i: usize = 0;
    while i < n
        invariant
            i <= n,
            out@ == old(out)@ + spec_repeat(c, i as nat),
        decreases n - i,
    {
        out.push(c);
        assert(out@ =~= old(out)@ + spec_repeat(c, (i + 1) as nat));
        i += 1;
    }
}

/// Where the line that begins at `pos` ends: behind its line feed, or at
/// the end of `text` where no line feed follows.
pub open spec fn spec_line_end(text: Seq<char>, pos: int) -> int {
    let e = spec_scan(text, CharSet::Just('\n'), true, pos);
    if pos <= e && e < text.len() {
        e + 1
    } else {
        text.len() as int
    }
}

pub fn line_end(text: &[char], pos: usize) -> (r: usize)
    ensures
        r == spec_line_end(text@, pos as int),
        r <= text@.len(),
        pos <= text@.len() ==> pos <= r,
        pos < text@.len() ==> pos < r,
{
    let e = scan(text, CharSet::Just('\n'), true, pos);
    if e < text.len() {
        e + 1
    } else {
        text.len()
    }
}

/// How many bytes the character takes in UTF-8.
pub open spec fn spec_utf8_len(c: char) -> nat {
    let u = c as u32;
    if u < 0x80 {
        1
    } else if u < 0x800 {
        2
    } else if u < 0x10000 {
        3
    } else {
        4
    }
}

pub fn utf8_len(c: char) -> (r: usize)
    ensures
        r == spec_utf8_len(c),
{
    let u: u32 = c as u32;
    if u < 0x80 {
        1
    } else if u < 0x800 {
        2
    } else if u < 0x10000 {
        3
    } else {
        4
    }
}

/// How many bytes the first `n` characters of `s` take in UTF-8.
pub open spec fn spec_byte_len(s: Seq<char>, n: int) -> nat
    decreases n,
{
    if n <= 0 || n > s.len() {
        0
    } else {
        spec_byte_len(s, n - 1) + spec_utf8_len(s[n - 1])
    }
}

/// Whether `s` takes more than `limit` bytes in UTF-8.
pub fn longer_than(s: &[char], limit: usize) -> (r: bool)
    ensures
        r == (spec_byte_len(s@, s@.len() as int) > limit),
{
    let mut total: usize = 0;
    let mut i: usize = 0;
    while i < s.len()
        invariant
            i <= s@.len(),
            total == spec_byte_len(s@, i as int),
            total <= limit,
        decreases s@.len() - i,
    {
        let w = utf8_len(s[i]);
        if limit < w || total > limit - w {
            proof {
                lemma_byte_len_grows(s@, i + 1, s@.len() as int);
            }
            return true;
        }
        total += w;
        i += 1;
    }
    false
}

pub proof fn lemma_byte_len_grows(s: Seq<char>, n: int, m: int)
    requires
        0 <= n <= m <= s.len(),
    ensures
        spec_byte_len(s, n) <= spec_byte_len(s, m),
    decreases m,
{
    if n < m {
        lemma_byte_len_grows(s, n, m - 1);
    }
}

/// The character of a decimal digit.
pub open spec fn spec_digit_char(d: nat) -> char {
    if d == 0 {
        '0'
    } else if d == 1 {
        '1'
    } else if d == 2 {
        '2'
    } else if d == 3 {
        '3'
    } else if d == 4 {
        '4'
    } else if d == 5 {
        '5'
    } else if d == 6 {
        '6'
    } else if d == 7 {
        '7'
    } else if d == 8 {
        '8'
    } else {
        '9'
    }
}

/// `n` written in decimal, without a sign or leading zeros.
pub open spec fn spec_decimal(n: nat) -> Seq<char>
    decreases n,
{
    if n < 10 {
        seq![spec_digit_char(n)]
    } else {
        spec_decimal(n / 10).push(spec_digit_char(n % 10))
    }
}

fn digit_char(d: usize) -> (r: char)
    requires
        d < 10,
    ensures
        r == spec_digit_char(d as nat),
{
    if d == 0 {
        '0'
    } else if d == 1 {
        '1'
    } else if d == 2 {
        '2'
    } else if d == 3 {
        '3'
    } else if d == 4 {
        '4'
    } else if d == 5 {
        '5'
    } else if d == 6 {
        '6'
    } else if d == 7 {
        '7'
    } else if d == 8 {
        '8'
    } else {
        '9'
    }
}

/// Appends `n` in decimal to `out`.
pub fn push_decimal(out: &mut Vec<char>, n: usize)
    ensures
        final(out)@ == old(out)@ + spec_decimal(n as nat),
    decreases n,
{
    if n >= 10 {
        push_decimal(out, n / 10);
    }
    out.push(digit_char(n % 10));
    assert(out@ =~= old(out)@ + spec_decimal(n as nat));
}

/// The value of a decimal digit; 0 for any other character.
pub open spec fn spec_digit_value(c: char) -> nat {
    if '0' <= c && c <= '9' {
        (c as u32 - '0' as u32) as nat
    } else {
        0
    }
}

/// The number that the digits of `s` spell in decimal.
pub open spec fn spec_decimal_value(s: Seq<char>) -> nat
    decreases s.len(),
{
    if s.len() == 0 {
        0
    } else {
        spec_decimal_value(s.drop_last()) * 10 + spec_digit_value(s.last())
    }
}

/// A longer numeral is worth no less than any of its prefixes.
pub proof fn lemma_decimal_value_prefix(s: Seq<char>, i: int)
    requires
        0 <= i <= s.len(),
    ensures
        spec_decimal_value(s.take(i)) <= spec_decimal_value(s),
    decreases s.len(),
{
    if i == s.len() {
        assert(s.take(i) =~= s);
    } else {
        lemma_decimal_value_prefix(s.drop_last(), i);
        assert(s.drop_last().take(i) =~= s.take(i));
    }
}

/// The value of the decimal numeral `s`, where it fits in a `usize`.
pub fn decimal_value(s: &[char]) -> (r: Option<usize>)
    ensures
        r == if spec_decimal_value(s@) <= usize::MAX {
            Some(spec_decimal_value(s@) as usize)
        } else {
            None
        },
{
    let mut n: usize = 0;
    let mut i: usize = 0;
    while i < s.len()
        invariant
            i <= s@.len(),
            n == spec_decimal_value(s@.take(i as int)),
        decreases s@.len() - i,
    {
        let c = s[i];
        let d: usize = if '0' <= c && c <= '9' {
            (c as u32 - '0' as u32) as usize
        } else {
            0
        };
        assert(s@.take(i + 1).drop_last() =~= s@.take(i as int));
        assert(d == spec_digit_value(s@.take(i + 1).last()));
        if n > (usize::MAX - d) / 10 {
            proof {
                lemma_decimal_value_prefix(s@, i + 1);
            }
            return None;
        }
        n = n * 10 + d;
        i += 1;
    }
    assert(s@.take(i as int) =~= s@);
    Some(n)
}

} // verus!
