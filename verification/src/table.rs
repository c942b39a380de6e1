//! The layout of one table: cells are collected as they are read, and the
//! table is written when it ends, each column as wide as its widest cell.
use vstd::prelude::*;
use crate::events::ColumnAlignment;
use crate::text::{push_all, push_repeat, spec_repeat, spec_trim, string_of, trim};
use crate::utils::{grapheme_count, unicode_str_width};

verus! {

/// The text of each cell of a row.
pub open spec fn row_view(row: Seq<Vec<char>>) -> Seq<Seq<char>> {
    Seq::new(row.len(), |i: int| row[i]@)
}

/// The rows of a table body, each as the text of its cells.
pub open spec fn body_view(body: Seq<Vec<Vec<char>>>) -> Seq<Seq<Seq<char>>> {
    Seq::new(body.len(), |i: int| row_view(body[i]@))
}

/// A table as a mathematical value.
pub struct TableView {
    /// The alignment of each column; its length is the number of columns.
    pub alignment: Seq<ColumnAlignment>,
    /// The cells of the header row.
    pub headers: Seq<Seq<char>>,
    /// The cells of each body row.
    pub body: Seq<Seq<Seq<char>>>,
    /// The column that is written to.
    pub col_index: nat,
}

/// The text of a row's cell in column `c`, without white space at either
/// end; empty where the row has no such cell.
pub open spec fn spec_cell(row: Seq<Seq<char>>, c: int) -> Seq<char> {
    if 0 <= c < row.len() {
        spec_trim(row[c])
    } else {
        Seq::empty()
    }
}

pub open spec fn spec_cell_width(row: Seq<Seq<char>>, c: int) -> nat {
    grapheme_count(spec_cell(row, c))
}

/// The width of the narrowest marker in the alignment row, whatever the
/// alignment: `---`, `:--`, `:-:` or `--:`.
pub open spec fn spec_min_width(alignment: ColumnAlignment) -> nat {
    3
}

pub open spec fn spec_max(a: nat, b: nat) -> nat {
    if a >= b {
        a
    } else {
        b
    }
}

/// The width of the widest cell of column `c` in the first `n` rows.
pub open spec fn spec_body_width(body: Seq<Seq<Seq<char>>>, c: int, n: int) -> nat
    decreases n,
{
    if n <= 0 || n > body.len() {
        0
    } else {
        spec_max(spec_body_width(body, c, n - 1), spec_cell_width(body[n - 1], c))
    }
}

/// The marker of column `c` in the alignment row, `width` characters wide.
pub open spec fn spec_alignment_marker(alignment: ColumnAlignment, width: nat) -> Seq<char> {
    match alignment {
        ColumnAlignment::Unset => spec_repeat('-', width),
        ColumnAlignment::Left => seq![':'] + spec_repeat('-', (width - 1) as nat),
        ColumnAlignment::Right => spec_repeat('-', (width - 1) as nat) + seq![':'],
        ColumnAlignment::Center => seq![':'] + spec_repeat('-', (width - 2) as nat) + seq![':'],
    }
}

/// How many of the `padding` spaces of a cell stand in front of its text.
pub open spec fn spec_left_padding(alignment: ColumnAlignment, padding: nat) -> nat {
    match alignment {
        ColumnAlignment::Unset => 0,
        ColumnAlignment::Left => 0,
        ColumnAlignment::Right => padding,
        ColumnAlignment::Center => padding / 2,
    }
}

/// The text `cell`, shown `shown` wide, filled up with spaces to `width`.
pub open spec fn spec_padded(cell: Seq<char>, shown: nat, width: nat, alignment: ColumnAlignment) -> Seq<
    char,
> {
    let padding = if width >= shown {
        (width - shown) as nat
    } else {
        0
    };
    let left = spec_left_padding(alignment, padding);
    spec_repeat(' ', left) + cell + spec_repeat(' ', (padding - left) as nat)
}

impl TableView {
    pub open spec fn column_count(self) -> nat {
        self.alignment.len()
    }

    /// The width of column `c`: that of its widest cell, the header's
    /// included, and no less than that of the narrowest alignment marker.
    pub open spec fn column_width(self, c: int) -> nat {
        spec_max(
            spec_max(spec_min_width(self.alignment[c]), spec_cell_width(self.headers, c)),
            spec_body_width(self.body, c, self.body.len() as int),
        )
    }

    /// A cell as it is written: a space, the padded text, a space and `|`.
    pub open spec fn render_cell(self, row: Seq<Seq<char>>, c: int) -> Seq<char> {
        seq![' '] + spec_padded(
            spec_cell(row, c),
            spec_cell_width(row, c),
            self.column_width(c),
            self.alignment[c],
        ) + seq![' ', '|']
    }

    /// The first `n` cells of a row as they are written.
    pub open spec fn render_cells(self, row: Seq<Seq<char>>, n: int) -> Seq<char>
        decreases n,
    {
        if n <= 0 {
            Seq::empty()
        } else {
            self.render_cells(row, n - 1) + self.render_cell(row, n - 1)
        }
    }

    /// A row as it is written, behind the `|` that opens the line.
    pub open spec fn render_row(self, row: Seq<Seq<char>>) -> Seq<char> {
        self.render_cells(row, self.column_count() as int) + seq!['\n']
    }

    pub open spec fn render_marker(self, c: int) -> Seq<char> {
        seq![' '] + spec_alignment_marker(self.alignment[c], self.column_width(c)) + seq![
            ' ',
            '|',
        ]
    }

    pub open spec fn render_markers(self, n: int) -> Seq<char>
        decreases n,
    {
        if n <= 0 {
            Seq::empty()
        } else {
            self.render_markers(n - 1) + self.render_marker(n - 1)
        }
    }

    /// The alignment row as it is written.
    pub open spec fn render_alignment(self) -> Seq<char> {
        self.render_markers(self.column_count() as int) + seq!['\n']
    }

    /// The first `n` body rows as they are written.
    pub open spec fn render_body(self, n: int) -> Seq<char>
        decreases n,
    {
        if n <= 0 || n > self.body.len() {
            Seq::empty()
        } else {
            self.render_body(n - 1) + self.render_row(self.body[n - 1])
        }
    }

    /// The table as it is written: the header row, the alignment row and
    /// the body rows, each without the `|` that opens its line and each
    /// closed by a line feed.
    pub open spec fn render(self) -> Seq<char> {
        self.render_row(self.headers) + self.render_alignment() + self.render_body(
            self.body.len() as int,
        )
    }

    /// The row that is written to: the last body row, or the header row
    /// while there is no body row.
    pub open spec fn current_row(self) -> Seq<Seq<char>> {
        if self.body.len() > 0 {
            self.body.last()
        } else {
            self.headers
        }
    }

    pub open spec fn with_current_row(self, row: Seq<Seq<char>>) -> TableView {
        if self.body.len() > 0 {
            TableView { body: self.body.update(self.body.len() - 1, row), ..self }
        } else {
            TableView { headers: row, ..self }
        }
    }

    /// The table after `text` was written: it is added to the cell at the
    /// current column, or becomes a new cell at the end of the row where
    /// the row has no cell there.
    pub open spec fn write(self, text: Seq<char>) -> TableView {
        let row = self.current_row();
        if self.col_index < row.len() {
            self.with_current_row(
                row.update(self.col_index as int, row[self.col_index as int] + text),
            )
        } else {
            self.with_current_row(row.push(text))
        }
    }

    pub open spec fn push_row(self) -> TableView {
        TableView { body: self.body.push(Seq::empty()), col_index: 0, ..self }
    }

    pub open spec fn increment_col_index(self) -> TableView {
        TableView {
            col_index: if self.col_index < usize::MAX {
                self.col_index + 1
            } else {
                self.col_index
            },
            ..self
        }
    }

    pub open spec fn is_empty(self) -> bool {
        self.headers.len() == 0 && self.body.len() == 0
    }
}

/// Whether `marker` has the shape that the alignment asks for: hyphens,
/// with a colon in front for left and centered columns and a colon at the end
/// for right and centered ones.
pub open spec fn spec_marker_shape(alignment: ColumnAlignment, marker: Seq<char>) -> bool {
    let left = alignment == ColumnAlignment::Left || alignment == ColumnAlignment::Center;
    let right = alignment == ColumnAlignment::Right || alignment == ColumnAlignment::Center;
    &&& marker.len() >= 3
    &&& marker[0] == if left {
        ':'
    } else {
        '-'
    }
    &&& marker.last() == if right {
        ':'
    } else {
        '-'
    }
    &&& forall|i: int| 0 < i < marker.len() - 1 ==> marker[i] == '-'
}

/// Every cell is at most as wide as its column.
pub proof fn lemma_body_width_covers(body: Seq<Seq<Seq<char>>>, c: int, n: int, r: int)
    requires
        0 <= r < n <= body.len(),
    ensures
        spec_cell_width(body[r], c) <= spec_body_width(body, c, n),
    decreases n,
{
    if r < n - 1 {
        lemma_body_width_covers(body, c, n - 1, r);
    }
}

/// The width of the widest cell among the first `n` rows is the width of
/// one of them, or 0 where none has any width.
pub proof fn lemma_body_width_attained(body: Seq<Seq<Seq<char>>>, c: int, n: int)
    requires
        0 <= n <= body.len(),
    ensures
        spec_body_width(body, c, n) == 0 || exists|r: int|
            0 <= r < n && #[trigger] spec_cell_width(body[r], c) == spec_body_width(body, c, n),
    decreases n,
{
    if n > 0 {
        lemma_body_width_attained(body, c, n - 1);
        if spec_body_width(body, c, n) == spec_cell_width(body[n - 1], c) {
            assert(spec_cell_width(body[n - 1], c) == spec_body_width(body, c, n));
        } else {
            assert(spec_body_width(body, c, n) == spec_body_width(body, c, n - 1));
            if spec_body_width(body, c, n) != 0 {
                let r = choose|r: int|
                    0 <= r < n - 1 && #[trigger] spec_cell_width(body[r], c) == spec_body_width(
                        body,
                        c,
                        n - 1,
                    );
                assert(spec_cell_width(body[r], c) == spec_body_width(body, c, n));
            }
        }
    }
}

/// The padding of a column is set by its widest cell: the column is as wide
/// as the widest of its cells, the header's included, or as the narrowest
/// alignment marker where that is wider; no cell is wider than its column;
/// each cell is filled up with exactly the spaces it lacks; and the marker of
/// the alignment row is as wide as the column.
pub proof fn lemma_column_alignment(t: TableView, c: int)
    requires
        0 <= c < t.column_count(),
    ensures
        spec_cell_width(t.headers, c) <= t.column_width(c),
        forall|r: int|
            0 <= r < t.body.len() ==> #[trigger] spec_cell_width(t.body[r], c) <= t.column_width(
                c,
            ),
        t.column_width(c) == spec_min_width(t.alignment[c]) || t.column_width(c)
            == spec_cell_width(t.headers, c) || exists|r: int|
            0 <= r < t.body.len() && #[trigger] spec_cell_width(t.body[r], c) == t.column_width(c),
        spec_alignment_marker(t.alignment[c], t.column_width(c)).len() == t.column_width(c),
        spec_marker_shape(
            t.alignment[c],
            spec_alignment_marker(t.alignment[c], t.column_width(c)),
        ),
        forall|r: int|
            0 <= r < t.body.len() ==> (#[trigger] spec_padded(
                spec_cell(t.body[r], c),
                spec_cell_width(t.body[r], c),
                t.column_width(c),
                t.alignment[c],
            )).len() == spec_cell(t.body[r], c).len() + (t.column_width(c) - spec_cell_width(
                t.body[r],
                c,
            )),
        spec_padded(
            spec_cell(t.headers, c),
            spec_cell_width(t.headers, c),
            t.column_width(c),
            t.alignment[c],
        ).len() == spec_cell(t.headers, c).len() + (t.column_width(c) - spec_cell_width(
            t.headers,
            c,
        )),
{
    assert forall|r: int| 0 <= r < t.body.len() implies #[trigger] spec_cell_width(t.body[r], c)
        <= t.column_width(c) by {
        lemma_body_width_covers(t.body, c, t.body.len() as int, r);
    }
    lemma_body_width_attained(t.body, c, t.body.len() as int);
}

pub struct TableState {
    alignment: Vec<ColumnAlignment>,
    headers: Vec<Vec<char>>,
    body: Vec<Vec<Vec<char>>>,
    col_index: usize,
}

impl View for TableState {
    type V = TableView;

    closed spec fn view(&self) -> TableView {
        TableView {
            alignment: self.alignment@,
            headers: row_view(self.headers@),
            body: body_view(self.body@),
            col_index: self.col_index as nat,
        }
    }
}

fn write_cell(row: &mut Vec<Vec<char>>, col_index: usize, text: &[char])
    ensures
        row_view(final(row)@) == if col_index < old(row)@.len() {
            row_view(old(row)@).update(
                col_index as int,
                row_view(old(row)@)[col_index as int] + text@,
            )
        } else {
            row_view(old(row)@).push(text@)
        },
{
    if col_index < row.len() {
        let mut cell: Vec<char> = Vec::new();
        let ghost before = row@;
        push_all(&mut cell, row[col_index].as_slice());
        push_all(&mut cell, text);
        row.push(cell);
        row.swap_remove(col_index);
        assert(row_view(row@) =~= row_view(before).update(
            col_index as int,
            row_view(before)[col_index as int] + text@,
        ));
    } else {
        let ghost before = row@;
        let mut cell: Vec<char> = Vec::new();
        push_all(&mut cell, text);
        row.push(cell);
        assert(row_view(row@) =~= row_view(before).push(text@));
    }
}

fn cell_width(row: &Vec<Vec<char>>, c: usize) -> (r: usize)
    ensures
        r == spec_cell_width(row_view(row@), c as int),
{
    if c < row.len() {
        let cell = trim(row[c].as_slice());
        let shown = string_of(cell);
        unicode_str_width(shown.as_str())
    } else {
        let shown = String::new();
        assert(shown@ =~= Seq::<char>::empty());
        unicode_str_width(shown.as_str())
    }
}

fn push_padded(out: &mut Vec<char>, cell: &[char], shown: usize, width: usize, alignment: ColumnAlignment)
    ensures
        final(out)@ == old(out)@ + spec_padded(cell@, shown as nat, width as nat, alignment),
{
    let padding = if width >= shown {
        width - shown
    } else {
        0
    };
    let left = match alignment {
        ColumnAlignment::Unset => 0,
        ColumnAlignment::Left => 0,
        ColumnAlignment::Right => padding,
        ColumnAlignment::Center => padding / 2,
    };
    push_repeat(out, ' ', left);
    push_all(out, cell);
    push_repeat(out, ' ', padding - left);
    assert(out@ =~= old(out)@ + spec_padded(cell@, shown as nat, width as nat, alignment));
}

fn push_marker(out: &mut Vec<char>, alignment: ColumnAlignment, width: usize)
    requires
        width >= 2,
    ensures
        final(out)@ == old(out)@ + spec_alignment_marker(alignment, width as nat),
{
    match alignment {
        ColumnAlignment::Unset => {
            push_repeat(out, '-', width);
        },
        ColumnAlignment::Left => {
            out.push(':');
            push_repeat(out, '-', width - 1);
        },
        ColumnAlignment::Right => {
            push_repeat(out, '-', width - 1);
            out.push(':');
        },
        ColumnAlignment::Center => {
            out.push(':');
            push_repeat(out, '-', width - 2);
            out.push(':');
        },
    }
    assert(out@ =~= old(out)@ + spec_alignment_marker(alignment, width as nat));
}

impl TableState {
    /// A table with the given column alignments and no cell yet.
    pub fn new(alignment: Vec<ColumnAlignment>) -> (r: Self)
        ensures
            r@ == (TableView {
                alignment: alignment@,
                headers: Seq::empty(),
                body: Seq::empty(),
                col_index: 0,
            }),
    {
        let r = TableState { alignment, headers: Vec::new(), body: Vec::new(), col_index: 0 };
        assert(r@.headers =~= Seq::empty());
        assert(r@.body =~= Seq::empty());
        r
    }

    /// Writes `text` to the cell at the current column of the current row.
    pub fn write_str(&mut self, text: &[char])
        ensures
            final(self)@ == old(self)@.write(text@),
    {
        let col_index = self.col_index;
        let n = self.body.len();
        if n > 0 {
            let ghost before = self.body@;
            let mut row = self.body.pop().unwrap();
            write_cell(&mut row, col_index, text);
            self.body.push(row);
            assert(body_view(self.body@) =~~= body_view(before).update(
                before.len() - 1,
                row_view(row@),
            ));
        } else {
            assert(body_view(self.body@) =~= Seq::empty());
            write_cell(&mut self.headers, col_index, text);
        }
    }

    /// Begins a new body row.
    pub fn push_row(&mut self)
        ensures
            final(self)@ == old(self)@.push_row(),
    {
        let ghost before = self.body@;
        let row: Vec<Vec<char>> = Vec::new();
        self.body.push(row);
        self.col_index = 0;
        assert(body_view(self.body@) =~~= body_view(before).push(Seq::empty()));
    }

    /// Moves on to the next column.
    pub fn increment_col_index(&mut self)
        ensures
            final(self)@ == old(self)@.increment_col_index(),
    {
        if self.col_index < usize::MAX {
            self.col_index += 1;
        }
    }

    pub fn is_empty(&self) -> (r: bool)
        ensures
            r == self@.is_empty(),
    {
        self.headers.len() == 0 && self.body.len() == 0
    }

    fn column_width(&self, c: usize) -> (r: usize)
        requires
            c < self@.column_count(),
        ensures
            r == self@.column_width(c as int),
            r >= 3,
    {
        let mut width: usize = 3;
        let header = cell_width(&self.headers, c);
        if header > width {
            width = header;
        }
        let mut i: usize = 0;
        while i < self.body.len()
            invariant
                i <= self.body@.len(),
                c < self@.column_count(),
                width >= 3,
                width == spec_max(
                    spec_max(
                        spec_min_width(self@.alignment[c as int]),
                        spec_cell_width(self@.headers, c as int),
                    ),
                    spec_body_width(self@.body, c as int, i as int),
                ),
            decreases self.body@.len() - i,
        {
            let w = cell_width(&self.body[i], c);
            if w > width {
                width = w;
            }
            i += 1;
        }
        width
    }

    fn push_row_text(&self, out: &mut Vec<char>, row: &Vec<Vec<char>>, widths: &Vec<usize>)
        requires
            widths@.len() == self@.column_count(),
            forall|c: int| 0 <= c < widths@.len() ==> widths@[c] == self@.column_width(c),
        ensures
            final(out)@ == old(out)@ + self@.render_row(row_view(row@)),
    {
        let mut c: usize = 0;
        while c < self.alignment.len()
            invariant
                c <= self@.column_count(),
                widths@.len() == self@.column_count(),
                forall|c: int| 0 <= c < widths@.len() ==> widths@[c] == self@.column_width(c),
                out@ == old(out)@ + self@.render_cells(row_view(row@), c as int),
            decreases self@.column_count() - c,
        {
            let ghost before = out@;
            out.push(' ');
            let shown = cell_width(row, c);
            if c < row.len() {
                push_padded(out, trim(row[c].as_slice()), shown, widths[c], self.alignment[c]);
            } else {
                let empty: Vec<char> = Vec::new();
                push_padded(out, empty.as_slice(), shown, widths[c], self.alignment[c]);
            }
            out.push(' ');
            out.push('|');
            assert(out@ =~= before + self@.render_cell(row_view(row@), c as int));
            assert(out@ =~= old(out)@ + self@.render_cells(row_view(row@), c + 1));
            c += 1;
        }
        out.push('\n');
        assert(out@ =~= old(out)@ + self@.render_row(row_view(row@)));
    }

    /// The table as it is written.
    pub fn format(self) -> (r: Vec<char>)
        ensures
            r@ == self@.render(),
    {
        let mut widths: Vec<usize> = Vec::new();
        let mut c: usize = 0;
        while c < self.alignment.len()
            invariant
                c <= self@.column_count(),
                widths@.len() == c,
                forall|k: int| 0 <= k < c ==> widths@[k] == self@.column_width(k) && widths@[k] >= 3,
            decreases self@.column_count() - c,
        {
            let w = self.column_width(c);
            widths.push(w);
            c += 1;
        }
        let mut out: Vec<char> = Vec::new();
        self.push_row_text(&mut out, &self.headers, &widths);
        let ghost header = out@;
        let mut c: usize = 0;
        while c < self.alignment.len()
            invariant
                c <= self@.column_count(),
                widths@.len() == self@.column_count(),
                forall|k: int|
                    0 <= k < widths@.len() ==> widths@[k] == self@.column_width(k) && widths@[k]
                        >= 3,
                out@ == header + self@.render_markers(c as int),
            decreases self@.column_count() - c,
        {
            let ghost before = out@;
            out.push(' ');
            push_marker(&mut out, self.alignment[c], widths[c]);
            out.push(' ');
            out.push('|');
            assert(out@ =~= before + self@.render_marker(c as int));
            assert(out@ =~= header + self@.render_markers(c + 1));
            c += 1;
        }
        out.push('\n');
        let ghost top = out@;
        assert(top =~= self@.render_row(self@.headers) + self@.render_alignment());
        let mut i: usize = 0;
        while i < self.body.len()
            invariant
                i <= self.body@.len(),
                widths@.len() == self@.column_count(),
                forall|k: int| 0 <= k < widths@.len() ==> widths@[k] == self@.column_width(k),
                out@ == top + self@.render_body(i as int),
            decreases self.body@.len() - i,
        {
            self.push_row_text(&mut out, &self.body[i], &widths);
            assert(out@ =~= top + self@.render_body(i + 1));
            i += 1;
        }
        out
    }
}

} // verus!
