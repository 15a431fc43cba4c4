//! Tabular material: reading a column specification, splitting a table body at its
//! cell, row and rule markers, and laying the rows out in padded columns.
//!
//! A cell's contents are ordinary document material and are rendered by the same rules
//! as everything else; the alignment constructs render as
//! [`CellSep`](crate::flow::FlowItem::CellSep), [`RowSep`](crate::flow::FlowItem::RowSep)
//! and [`RuleMark`](crate::flow::FlowItem::RuleMark) markers that the table then splits
//! at. Those markers are the one part of the flow that never reaches the layout engine:
//! a table consumes its own.
//!
//! Cells are not width-budgeted: a `p{3cm}` column is as wide as its widest line,
//! because plain text has no notion of a centimetre.

use vstd::prelude::*;

use crate::def::{
    add_env_family, add_macro_family, env_family, macro_family, template_macro, ArgView, Category, CategoryView, EnvDefView,
    MacroDef, MacroDefView, RuleShape, SpecialsDefView, TextRule,
};
use crate::symbols::EnvBodyKind;
use crate::template::Template;
use crate::flow::{clone_item, display_width, str_width, BlockKind, Flow, FlowItem, ItemView, BlockView};
use crate::layout::{back_end, lemma_trim_back_at, render_inline, render_inline_spec, trim_back};
use crate::text::{chars_of, char_is_whitespace, is_white_space, push_char, string_of};

verus! {

// ------------------------------------------------------------- column specifications

/// How one column's cells are padded.
#[derive(Clone, Copy, Debug, PartialEq, Eq, Structural, Hash)]
pub enum Align {
    /// `l`, and everything that cannot be honoured exactly (`p{…}`, `X`).
    Left,
    /// `c`, padded on both sides and biased left when the padding is odd.
    Center,
    /// `r`.
    Right,
}

/// The position just past the `}` that closes a group whose opening brace, and
/// `depth - 1` more, are already consumed; the end of the text if it never closes.
pub open spec fn balanced_end(s: Seq<char>, pos: int, depth: nat) -> int
    decreases s.len() - pos,
{
    if pos < 0 || pos >= s.len() {
        s.len() as int
    } else if s[pos] == '{' {
        balanced_end(s, pos + 1, depth + 1)
    } else if s[pos] == '}' {
        if depth <= 1 {
            pos + 1
        } else {
            balanced_end(s, pos + 1, (depth - 1) as nat)
        }
    } else {
        balanced_end(s, pos + 1, depth)
    }
}

/// The position after whitespace from `pos`.
pub open spec fn skip_space(s: Seq<char>, pos: int) -> int
    decreases s.len() - pos,
{
    if 0 <= pos < s.len() && is_white_space(s[pos]) {
        skip_space(s, pos + 1)
    } else {
        pos
    }
}

/// The position after the `{…}` that follows a column letter, if one does.
pub open spec fn group_end(s: Seq<char>, pos: int) -> int {
    let p = skip_space(s, pos);
    if 0 <= p < s.len() && s[p] == '{' {
        balanced_end(s, p + 1, 1)
    } else {
        p
    }
}

/// The alignments a column specification describes, reading from `pos`.
pub open spec fn alignments_from(s: Seq<char>, pos: int) -> Seq<Align>
    decreases s.len() - pos,
{
    if pos < 0 || pos >= s.len() {
        Seq::empty()
    } else {
        let c = s[pos];
        let next = if c == 'p' || c == 'm' || c == 'b' || c == '@' || c == '!' || c == '>' || c
            == '<' {
            group_end(s, pos + 1)
        } else if c == '{' {
            balanced_end(s, pos + 1, 1)
        } else {
            pos + 1
        };
        let lead: Seq<Align> = if c == 'l' || c == 'X' || c == 'p' || c == 'm' || c == 'b' {
            seq![Align::Left]
        } else if c == 'c' {
            seq![Align::Center]
        } else if c == 'r' {
            seq![Align::Right]
        } else {
            Seq::empty()
        };
        if pos < next <= s.len() {
            lead + alignments_from(s, next)
        } else {
            lead
        }
    }
}

// ------------------------------------------------------------------ column laws

/// The column letters: `l`, `c`, `r`, the paragraph columns `p`, `m`, `b`, and
/// `tabularx`'s `X`.
pub open spec fn is_column_letter(c: char) -> bool {
    c == 'l' || c == 'c' || c == 'r' || c == 'p' || c == 'm' || c == 'b' || c == 'X'
}

/// How a column letter's cells are padded: centred for `c`, flush right for `r`, and
/// flush left for every other column letter — `l`, and the paragraph and `X` columns,
/// whose widths plain text cannot honour.
pub open spec fn letter_alignment(c: char) -> Align {
    if c == 'c' {
        Align::Center
    } else if c == 'r' {
        Align::Right
    } else {
        Align::Left
    }
}

/// The columns a specification of letters and rules describes: one per letter, none
/// per `|`.
pub open spec fn letter_columns(s: Seq<char>) -> Seq<Align>
    decreases s.len(),
{
    if s.len() == 0 {
        Seq::empty()
    } else {
        (if s[0] == '|' { Seq::<Align>::empty() } else { seq![letter_alignment(s[0])] })
            + letter_columns(s.drop_first())
    }
}

proof fn lemma_letters_from(s: Seq<char>, pos: int)
    requires
        0 <= pos <= s.len(),
        forall|i: int| 0 <= i < s.len() ==> is_column_letter(#[trigger] s[i]) || s[i] == '|',
    ensures
        alignments_from(s, pos) == letter_columns(s.skip(pos)),
    decreases s.len() - pos,
{
    if pos == s.len() {
        assert(s.skip(pos) =~= Seq::<char>::empty());
    } else {
        lemma_letters_from(s, pos + 1);
        assert(s.skip(pos).drop_first() =~= s.skip(pos + 1));
        assert(s.skip(pos)[0] == s[pos]);
        let c = s[pos];
        if c == 'p' || c == 'm' || c == 'b' {
            if pos + 1 < s.len() {
                assert(is_column_letter(s[pos + 1]) || s[pos + 1] == '|');
            }
            assert(skip_space(s, pos + 1) == pos + 1);
            assert(group_end(s, pos + 1) == pos + 1);
        }
    }
}

/// A column specification written with column letters and rules reads as one column
/// per letter, in order: `c` centred, `r` flush right, and every other letter — `l`,
/// `p`, `m`, `b`, `X` — flush left; a `|` takes no column.
pub proof fn lemma_column_letters(s: Seq<char>)
    requires
        forall|i: int| 0 <= i < s.len() ==> is_column_letter(#[trigger] s[i]) || s[i] == '|',
    ensures
        alignments_from(s, 0) == letter_columns(s),
{
    lemma_letters_from(s, 0);
    assert(s.skip(0) =~= s);
}

/// `balanced_end` over text holding no brace up to the closing one.
proof fn lemma_group_without_braces(s: Seq<char>, from: int, close: int)
    requires
        0 <= from <= close < s.len(),
        s[close] == '}',
        forall|i: int| from <= i < close ==> #[trigger] s[i] != '{' && s[i] != '}',
    ensures
        balanced_end(s, from, 1) == close + 1,
    decreases close - from,
{
    if from < close {
        lemma_group_without_braces(s, from + 1, close);
    }
}

/// A paragraph column's width is read past and takes no column of its own: `p`, `m` or
/// `b` followed by `{width}` is one flush-left column, and reading goes on after the
/// group — so `m{3cm}r` is a left column and a right one.
pub proof fn lemma_paragraph_column_width(s: Seq<char>, pos: int, close: int)
    requires
        0 <= pos,
        pos + 1 < close < s.len(),
        s[pos] == 'p' || s[pos] == 'm' || s[pos] == 'b',
        s[pos + 1] == '{',
        forall|i: int| pos + 2 <= i < close ==> #[trigger] s[i] != '{' && s[i] != '}',
        s[close] == '}',
    ensures
        alignments_from(s, pos) == seq![Align::Left] + alignments_from(s, close + 1),
{
    lemma_group_without_braces(s, pos + 2, close);
    assert(!is_white_space(s[pos + 1]));
    assert(skip_space(s, pos + 1) == pos + 1);
}

/// Consume through the `}` matching an opening brace that has already been consumed.
pub fn skip_balanced(chars: &[char], pos: usize) -> (end: usize)
    requires
        pos <= chars@.len(),
    ensures
        end == balanced_end(chars@, pos as int, 1),
        pos <= end <= chars@.len(),
{
    // Counted wider than a position, so that no nesting can overflow it.
    let mut depth: u128 = 1;
    let mut i = pos;
    while i < chars.len()
        invariant
            pos <= i <= chars@.len(),
            1 <= depth <= i - pos + 1,
            balanced_end(chars@, pos as int, 1) == balanced_end(chars@, i as int, depth as nat),
        decreases chars@.len() - i,
    {
        let c = chars[i];
        if c == '{' {
            depth = depth + 1;
        } else if c == '}' {
            if depth == 1 {
                return i + 1;
            }
            depth = depth - 1;
        }
        i = i + 1;
    }
    i
}

/// Skip the `{…}` that follows a column letter, if one does.
pub fn skip_group(chars: &[char], pos: usize) -> (end: usize)
    requires
        pos <= chars@.len(),
    ensures
        end == group_end(chars@, pos as int),
        pos <= end <= chars@.len(),
{
    let mut i = pos;
    while i < chars.len() && char_is_whitespace(chars[i])
        invariant
            pos <= i <= chars@.len(),
            skip_space(chars@, pos as int) == skip_space(chars@, i as int),
        decreases chars@.len() - i,
    {
        i = i + 1;
    }
    if i < chars.len() && chars[i] == '{' {
        skip_balanced(chars, i + 1)
    } else {
        i
    }
}

/// Read the alignment letters of a column specification.
///
/// Everything that does not describe a column of text is skipped: rules (`|`), inserted
/// material (`@{…}`, `!{…}`) and cell decorations (`>{…}`, `<{…}`) take no column of
/// their own, and the paragraph columns (`p`, `m`, `b`) and `tabularx`'s `X` take one but
/// have a width that cannot be honoured, so they read as left-aligned. A group no letter
/// claimed — the repetition count of `*{3}{c}`, say — is skipped as a unit.
pub fn parse_alignments(spec: &str) -> (alignments: Vec<Align>)
    ensures
        alignments@ == alignments_from(spec@, 0),
{
    let chars = chars_of(spec);
    let s = chars.as_slice();
    let mut alignments: Vec<Align> = Vec::new();
    let mut i: usize = 0;
    while i < s.len()
        invariant
            s@ == spec@,
            i <= s@.len(),
            alignments_from(s@, 0) == alignments@ + alignments_from(s@, i as int),
        decreases s@.len() - i,
    {
        let c = s[i];
        let next = if c == 'p' || c == 'm' || c == 'b' || c == '@' || c == '!' || c == '>' || c == '<' {
            skip_group(s, i + 1)
        } else if c == '{' {
            skip_balanced(s, i + 1)
        } else {
            i + 1
        };
        let ghost before = alignments@;
        if c == 'l' || c == 'X' || c == 'p' || c == 'm' || c == 'b' {
            alignments.push(Align::Left);
        } else if c == 'c' {
            alignments.push(Align::Center);
        } else if c == 'r' {
            alignments.push(Align::Right);
        }
        proof {
            assert(alignments_from(s@, i as int) =~= (alignments@.subrange(before.len() as int, alignments@.len() as int)) + alignments_from(s@, next as int));
            assert(alignments@ =~= before + alignments@.subrange(before.len() as int, alignments@.len() as int));
        }
        i = next;
    }
    proof {
        assert(alignments@ + alignments_from(s@, i as int) =~= alignments@);
    }
    alignments
}

// -------------------------------------------------------------------- the table body

/// One line of a table: a row of rendered cells, or a rule.
#[derive(Debug, PartialEq, Eq)]
pub enum Row {
    /// The cells of one row, already flattened to single lines.
    Cells(Vec<String>),
    /// A horizontal rule (`\hline`, `\cline`, a `booktabs` rule).
    Rule,
}

/// A table line, as a mathematical value.
pub enum RowView {
    Cells(Seq<Seq<char>>),
    Rule,
}

/// The text of each string, in order.
pub open spec fn strings_view(strings: Seq<String>) -> Seq<Seq<char>> {
    strings.map_values(|s: String| s@)
}

impl View for Row {
    type V = RowView;

    open spec fn view(&self) -> RowView {
        match self {
            Row::Cells(cells) => RowView::Cells(strings_view(cells@)),
            Row::Rule => RowView::Rule,
        }
    }
}

/// The values of a run of rows.
pub open spec fn rows_view(rows: Seq<Row>) -> Seq<RowView> {
    rows.map_values(|row: Row| row@)
}

/// The rows after the row being accumulated is closed: a row of at most one cell, all
/// empty, is what a `\\` at the end of the last row leaves behind, and is dropped.
pub open spec fn close_row(rows: Seq<RowView>, cells: Seq<Seq<char>>) -> Seq<RowView> {
    if cells.len() <= 1 && (forall|i: int| 0 <= i < cells.len() ==> (#[trigger] cells[i]).len() == 0) {
        rows
    } else {
        rows.push(RowView::Cells(cells))
    }
}

/// Scanning a table body: the rows closed so far, the cells of the row being
/// accumulated, and the items of the cell being accumulated.
pub open spec fn split_scan(items: Seq<ItemView>) -> (Seq<RowView>, Seq<Seq<char>>, Seq<ItemView>)
    decreases items.len(),
{
    if items.len() == 0 {
        (Seq::empty(), Seq::empty(), Seq::empty())
    } else {
        let (rows, cells, cell) = split_scan(items.drop_last());
        let cells1 = cells.push(render_inline_spec(cell));
        match items.last() {
            ItemView::CellSep => (rows, cells1, Seq::empty()),
            ItemView::RowSep => (close_row(rows, cells1), Seq::empty(), Seq::empty()),
            ItemView::RuleMark => (close_row(rows, cells1).push(RowView::Rule), Seq::empty(), Seq::empty()),
            other => (rows, cells, cell.push(other)),
        }
    }
}

/// The rows a table body splits into.
pub open spec fn split_rows_spec(items: Seq<ItemView>) -> Seq<RowView> {
    let (rows, cells, cell) = split_scan(items);
    close_row(rows, cells.push(render_inline_spec(cell)))
}

/// Close the row being accumulated, unless there is nothing in it.
pub fn flush_row(rows: &mut Vec<Row>, cells: &mut Vec<String>)
    ensures
        rows_view(final(rows)@) == close_row(rows_view(old(rows)@), strings_view(old(cells)@)),
        final(cells)@.len() == 0,
{
    let mut row: Vec<String> = Vec::new();
    core::mem::swap(cells, &mut row);
    let mut blank = row.len() <= 1;
    if blank && row.len() == 1 {
        blank = row[0].as_str().is_empty();
    }
    proof {
        let cv = strings_view(row@);
        if row@.len() == 1 {
            assert(cv[0] == row@[0]@);
        }
        if blank {
            assert forall|i: int| 0 <= i < cv.len() implies (#[trigger] cv[i]).len() == 0 by {
                assert(cv[i] == row@[i]@);
            }
        } else if row@.len() <= 1 {
            assert(cv[0].len() != 0);
        }
    }
    if blank {
        return;
    }
    let ghost rv = rows@;
    rows.push(Row::Cells(row));
    proof {
        assert(rows_view(rows@) =~= rows_view(rv).push(RowView::Cells(strings_view(row@))));
    }
}

/// Split a folded table body at its cell, row and rule markers.
///
/// Each cell is flattened to one line as it is closed: a cell is a *cell*, and a
/// paragraph break or a nested block inside one has nowhere to go in a column of a text
/// table.
pub fn split_rows(body: &Flow) -> (rows: Vec<Row>)
    ensures
        rows_view(rows@) == split_rows_spec(body@),
{
    let items = body.items();
    let ghost all = body@;
    let mut rows: Vec<Row> = Vec::new();
    let mut cells: Vec<String> = Vec::new();
    let mut cell = Flow::new();
    let mut i: usize = 0;
    proof {
        assert(all.take(0) =~= Seq::<ItemView>::empty());
        assert(rows_view(rows@) =~= Seq::<RowView>::empty());
        assert(strings_view(cells@) =~= Seq::<Seq<char>>::empty());
    }
    while i < items.len()
        invariant
            i <= items@.len(),
            all == body@,
            crate::flow::items_view(items@) == all,
            split_scan(all.take(i as int)) == (rows_view(rows@), strings_view(cells@), cell@),
        decreases items@.len() - i,
    {
        proof {
            assert(all.take(i + 1).drop_last() =~= all.take(i as int));
            assert(all.take(i + 1).last() == all[i as int]);
            assert(all[i as int] == items@[i as int]@);
        }
        let ghost cv = strings_view(cells@);
        match &items[i] {
            FlowItem::CellSep => {
                let mut taken = Flow::new();
                core::mem::swap(&mut cell, &mut taken);
                cells.push(render_inline(&taken));
                proof {
                    assert(strings_view(cells@) =~= cv.push(render_inline_spec(taken@)));
                }
            },
            FlowItem::RowSep => {
                let mut taken = Flow::new();
                core::mem::swap(&mut cell, &mut taken);
                cells.push(render_inline(&taken));
                proof {
                    assert(strings_view(cells@) =~= cv.push(render_inline_spec(taken@)));
                }
                flush_row(&mut rows, &mut cells);
                proof {
                    assert(strings_view(cells@) =~= Seq::<Seq<char>>::empty());
                }
            },
            FlowItem::RuleMark => {
                let mut taken = Flow::new();
                core::mem::swap(&mut cell, &mut taken);
                cells.push(render_inline(&taken));
                proof {
                    assert(strings_view(cells@) =~= cv.push(render_inline_spec(taken@)));
                }
                flush_row(&mut rows, &mut cells);
                let ghost before = rows_view(rows@);
                rows.push(Row::Rule);
                proof {
                    assert(rows_view(rows@) =~= before.push(RowView::Rule));
                    assert(strings_view(cells@) =~= Seq::<Seq<char>>::empty());
                }
            },
            other => {
                cell.push(clone_item(other));
            },
        }
        i = i + 1;
    }
    proof {
        assert(all.take(all.len() as int) =~= all);
    }
    let ghost cv = strings_view(cells@);
    cells.push(render_inline(&cell));
    proof {
        assert(strings_view(cells@) =~= cv.push(render_inline_spec(cell@)));
    }
    flush_row(&mut rows, &mut cells);
    rows
}

// -------------------------------------------------------------------- laying rows out

/// `n` copies of `c`.
pub open spec fn repeat(c: char, n: nat) -> Seq<char> {
    Seq::new(n, |i: int| c)
}

/// `a + b`, clamped at `usize::MAX`.
pub open spec fn sat_add(a: usize, b: usize) -> usize {
    if a + b > usize::MAX { usize::MAX } else { (a + b) as usize }
}

/// `a * b`, clamped at `usize::MAX`.
pub open spec fn sat_mul(a: usize, b: usize) -> usize {
    if a * b > usize::MAX { usize::MAX } else { (a * b) as usize }
}

/// `a - b`, clamped at zero.
pub open spec fn sat_sub(a: usize, b: usize) -> usize {
    if a >= b { (a - b) as usize } else { 0 }
}

/// A cell padded to `width` columns: left-aligned pads after, right-aligned before, and
/// centred splits the padding with the extra space on the right.
pub open spec fn padded(cell: Seq<char>, width: usize, align: Align) -> Seq<char> {
    let padding = sat_sub(width, str_width(cell));
    let (before, after): (nat, nat) = match align {
        Align::Left => (0, padding as nat),
        Align::Right => (padding as nat, 0),
        Align::Center => ((padding / 2) as nat, (padding - padding / 2) as nat),
    };
    repeat(' ', before) + cell + repeat(' ', after)
}

/// Append `cell`, padded to `width` according to `align`.
pub fn pad_into(line: &mut String, cell: &str, width: usize, align: Align)
    ensures
        final(line)@ == old(line)@ + padded(cell@, width, align),
{
    let w = display_width(cell);
    let padding = if width >= w { width - w } else { 0 };
    let (before, after) = match align {
        Align::Left => (0, padding),
        Align::Right => (padding, 0),
        // Left-biased on an odd count: the extra space goes on the right, so a column
        // of centred cells still starts where the eye expects it to.
        Align::Center => (padding / 2, padding - padding / 2),
    };
    let ghost start = line@;
    push_spaces(line, before);
    line.append(cell);
    push_spaces(line, after);
    assert(line@ =~= start + padded(cell@, width, align));
}

/// Append `n` spaces.
fn push_spaces(line: &mut String, n: usize)
    ensures
        final(line)@ == old(line)@ + repeat(' ', n as nat),
{
    push_repeated(line, ' ', n);
}

/// Append `n` copies of `c`.
fn push_repeated(line: &mut String, c: char, n: usize)
    ensures
        final(line)@ == old(line)@ + repeat(c, n as nat),
{
    let ghost start = line@;
    let mut i: usize = 0;
    while i < n
        invariant
            i <= n,
            line@ == start + repeat(c, i as nat),
        decreases n - i,
    {
        push_char(line, c);
        i = i + 1;
        assert(line@ =~= start + repeat(c, i as nat));
    }
}

/// The gap between two columns.
pub open spec fn column_gap() -> Seq<char> {
    seq![' ', ' ']
}

/// The first `k` columns of a row of cells, padded to the column widths and joined by
/// the gap; a missing cell is empty and a column the specification did not describe is
/// left-aligned.
pub open spec fn row_prefix(cells: Seq<Seq<char>>, widths: Seq<usize>, alignments: Seq<Align>, k: nat) -> Seq<char>
    decreases k,
{
    if k == 0 {
        Seq::empty()
    } else {
        let i = k - 1;
        let gap = if i > 0 { column_gap() } else { Seq::empty() };
        let cell = if i < cells.len() { cells[i] } else { Seq::empty() };
        let align = if i < alignments.len() { alignments[i] } else { Align::Left };
        row_prefix(cells, widths, alignments, (k - 1) as nat) + gap + padded(cell, widths[i], align)
    }
}

/// One row of cells, padded to the column widths and joined.
pub open spec fn row_text(cells: Seq<Seq<char>>, widths: Seq<usize>, alignments: Seq<Align>) -> Seq<char> {
    row_prefix(cells, widths, alignments, widths.len())
}

/// One row of cells, padded to the column widths and joined.
pub fn render_row(cells: &[String], widths: &[usize], alignments: &[Align]) -> (line: String)
    ensures
        line@ == row_text(strings_view(cells@), widths@, alignments@),
{
    let mut line = String::new();
    let mut index: usize = 0;
    assert(line@ =~= row_prefix(strings_view(cells@), widths@, alignments@, 0));
    while index < widths.len()
        invariant
            index <= widths@.len(),
            line@ == row_prefix(strings_view(cells@), widths@, alignments@, index as nat),
        decreases widths@.len() - index,
    {
        let ghost before = line@;
        if index > 0 {
            push_char(&mut line, ' ');
            push_char(&mut line, ' ');
        }
        let empty = String::new();
        let cell = if index < cells.len() { &cells[index] } else { &empty };
        // A column the specification did not describe — or described with something
        // that cannot be honoured — is left-aligned.
        let align = if index < alignments.len() { alignments[index] } else { Align::Left };
        pad_into(&mut line, cell.as_str(), widths[index], align);
        proof {
            let gap = if index > 0 { column_gap() } else { Seq::empty() };
            let cv = if index < cells@.len() { strings_view(cells@)[index as int] } else { Seq::empty() };
            assert(cell@ == cv);
            assert(line@ =~= before + gap + padded(cv, widths@[index as int], align));
        }
        index = index + 1;
    }
    line
}

/// How many cells the row has; a rule has none.
pub open spec fn row_columns(row: RowView) -> nat {
    match row {
        RowView::Cells(cells) => cells.len(),
        RowView::Rule => 0,
    }
}

/// The most cells any row has.
pub open spec fn column_count(rows: Seq<RowView>) -> nat
    decreases rows.len(),
{
    if rows.len() == 0 {
        0
    } else {
        let rest = column_count(rows.drop_last());
        let here = row_columns(rows.last());
        if here > rest { here } else { rest }
    }
}

/// The display width of a row's cell in column `i`; nothing there is zero wide.
pub open spec fn cell_width(row: RowView, i: int) -> usize {
    match row {
        RowView::Cells(cells) => if 0 <= i < cells.len() {
            str_width(cells[i])
        } else {
            0
        },
        RowView::Rule => 0,
    }
}

/// The widest cell of column `i`.
pub open spec fn column_width(rows: Seq<RowView>, i: int) -> usize
    decreases rows.len(),
{
    if rows.len() == 0 {
        0
    } else {
        let rest = column_width(rows.drop_last(), i);
        let here = cell_width(rows.last(), i);
        if here > rest { here } else { rest }
    }
}

/// Each column's width: its widest cell.
pub open spec fn table_widths(rows: Seq<RowView>) -> Seq<usize> {
    Seq::new(column_count(rows), |i: int| column_width(rows, i))
}

/// The widths added up, clamped at `usize::MAX`.
pub open spec fn width_sum(widths: Seq<usize>) -> usize
    decreases widths.len(),
{
    if widths.len() == 0 {
        0
    } else {
        sat_add(width_sum(widths.drop_last()), widths.last())
    }
}

/// The full width of the table, gaps included: what a rule spans.
pub open spec fn table_total(widths: Seq<usize>) -> usize {
    sat_add(width_sum(widths), sat_mul(str_width(column_gap()), sat_sub(widths.len() as usize, 1)))
}

/// The line a row is laid out as, trailing padding trimmed: no line of output ends in
/// whitespace.
pub open spec fn row_line(row: RowView, widths: Seq<usize>, alignments: Seq<Align>) -> Seq<char> {
    trim_back(
        match row {
            RowView::Rule => repeat('-', table_total(widths) as nat),
            RowView::Cells(cells) => row_text(cells, widths, alignments),
        },
    )
}

/// The lines of the first `k` rows, each its own text item, separated by hard breaks.
pub open spec fn row_items(rows: Seq<RowView>, widths: Seq<usize>, alignments: Seq<Align>, k: nat) -> Seq<ItemView>
    decreases k,
{
    if k == 0 {
        Seq::empty()
    } else {
        let i = k - 1;
        let lead = if i > 0 { seq![ItemView::HardBreak] } else { Seq::empty() };
        row_items(rows, widths, alignments, (k - 1) as nat) + lead + seq![ItemView::Text(row_line(rows[i], widths, alignments))]
    }
}

/// A table as flow: nothing at all when no row has a cell; otherwise a block of its own
/// — so that it starts on a line of its own, with no indentation — holding one line per
/// row.
pub open spec fn table_items(rows: Seq<RowView>, alignments: Seq<Align>) -> Seq<ItemView> {
    let widths = table_widths(rows);
    if column_count(rows) == 0 {
        Seq::empty()
    } else {
        seq![ItemView::BlockStart(BlockView::Indent { first: Seq::empty(), cont: Seq::empty() })]
            + row_items(rows, widths, alignments, rows.len()) + seq![ItemView::BlockEnd]
    }
}

/// Trailing whitespace removed (`str::trim_end`, into a new string).
fn trimmed_end(text: &str) -> (out: String)
    ensures
        out@ == trim_back(text@),
{
    let chars = chars_of(text);
    let end = back_end(chars.as_slice(), 0);
    proof {
        lemma_trim_back_at(text@, end as int);
        assert(text@.take(end as int) =~= chars@.subrange(0, end as int));
    }
    string_of(chars.as_slice(), 0, end)
}

/// Lay the rows out: columns padded to their widest cell, rules across the whole table.
pub fn render_rows(rows: &[Row], alignments: &[Align]) -> (flow: Flow)
    ensures
        flow@ == table_items(rows_view(rows@), alignments@),
{
    let ghost rv = rows_view(rows@);
    // How many columns: the most cells any row has.
    let mut columns: usize = 0;
    let mut r: usize = 0;
    while r < rows.len()
        invariant
            r <= rows@.len(),
            rv == rows_view(rows@),
            columns == column_count(rv.take(r as int)),
        decreases rows@.len() - r,
    {
        proof {
            assert(rv.take(r + 1).drop_last() =~= rv.take(r as int));
            assert(rv.take(r + 1).last() == rows@[r as int]@);
        }
        if let Row::Cells(cells) = &rows[r] {
            if cells.len() > columns {
                columns = cells.len();
            }
        }
        r = r + 1;
    }
    proof {
        assert(rv.take(rows@.len() as int) =~= rv);
    }
    if columns == 0 {
        return Flow::new();
    }

    // Each column's width: its widest cell.
    let mut widths: Vec<usize> = Vec::new();
    let mut c: usize = 0;
    while c < columns
        invariant
            c <= columns,
            columns == column_count(rv),
            rv == rows_view(rows@),
            widths@.len() == c,
            forall|j: int| 0 <= j < c ==> #[trigger] widths@[j] == column_width(rv, j),
        decreases columns - c,
    {
        let mut width: usize = 0;
        let mut r: usize = 0;
        while r < rows.len()
            invariant
                r <= rows@.len(),
                rv == rows_view(rows@),
                width == column_width(rv.take(r as int), c as int),
            decreases rows@.len() - r,
        {
            proof {
                assert(rv.take(r + 1).drop_last() =~= rv.take(r as int));
                assert(rv.take(r + 1).last() == rows@[r as int]@);
            }
            if let Row::Cells(cells) = &rows[r] {
                if c < cells.len() {
                    let w = display_width(cells[c].as_str());
                    proof {
                        assert(strings_view(cells@)[c as int] == cells@[c as int]@);
                    }
                    if w > width {
                        width = w;
                    }
                }
            }
            r = r + 1;
        }
        proof {
            assert(rv.take(rows@.len() as int) =~= rv);
        }
        widths.push(width);
        c = c + 1;
    }
    let ghost ws = table_widths(rv);
    proof {
        assert(widths@ =~= ws);
    }

    // The full width, for rules: the widths and the gaps between them.
    let mut sum: usize = 0;
    let mut k: usize = 0;
    while k < widths.len()
        invariant
            k <= widths@.len(),
            sum == width_sum(widths@.take(k as int)),
        decreases widths@.len() - k,
    {
        proof {
            assert(widths@.take(k + 1).drop_last() =~= widths@.take(k as int));
        }
        sum = sum.saturating_add(widths[k]);
        k = k + 1;
    }
    proof {
        assert(widths@.take(widths@.len() as int) =~= widths@);
    }
    let mut gap = String::new();
    push_char(&mut gap, ' ');
    push_char(&mut gap, ' ');
    assert(gap@ =~= column_gap());
    let gaps = match display_width(gap.as_str()).checked_mul(widths.len() - 1) {
        Some(product) => product,
        None => usize::MAX,
    };
    let total = sum.saturating_add(gaps);

    let mut flow = Flow::new();
    // The table is a block of its own so that it starts on a line of its own, whatever
    // it was written next to; it adds no indentation, because a table's own columns are
    // the alignment the reader is meant to see.
    flow.push(FlowItem::BlockStart(BlockKind::Indent { first: String::new(), cont: String::new() }));
    let ghost lead = flow@;
    let mut index: usize = 0;
    assert(flow@ =~= lead + row_items(rv, ws, alignments@, 0));
    while index < rows.len()
        invariant
            index <= rows@.len(),
            rv == rows_view(rows@),
            widths@ == ws,
            total == table_total(ws),
            flow@ == lead + row_items(rv, ws, alignments@, index as nat),
        decreases rows@.len() - index,
    {
        let ghost before = flow@;
        if index > 0 {
            flow.push(FlowItem::HardBreak);
        }
        let line = match &rows[index] {
            Row::Rule => {
                let mut rule = String::new();
                push_repeated(&mut rule, '-', total);
                assert(rule@ =~= repeat('-', total as nat));
                rule
            },
            Row::Cells(cells) => render_row(cells.as_slice(), widths.as_slice(), alignments),
        };
        // One text item: the padding *is* the content here, and a line break inside a
        // row would put a column somewhere it does not belong.
        let trimmed = trimmed_end(line.as_str());
        proof {
            assert(rv[index as int] == rows@[index as int]@);
        }
        let ghost text = trimmed@;
        flow.push(FlowItem::Text(trimmed));
        proof {
            let hb = if index > 0 { seq![ItemView::HardBreak] } else { Seq::empty() };
            assert(text == row_line(rv[index as int], ws, alignments@));
            assert(flow@ =~= before + hb + seq![ItemView::Text(text)]);
        }
        index = index + 1;
    }
    flow.push(FlowItem::BlockEnd);
    proof {
        assert(flow@ =~= table_items(rv, alignments@));
    }
    flow
}

// ------------------------------------------------------------------ the category

/// The table environments: the arguments before the column specification — a width, a
/// placement — mean nothing in plain text, so they are parsed and dropped, and one
/// handler serves them all.
pub open spec fn tables_environments() -> Seq<EnvDefView> {
    env_family(seq!["tabular"], seq![("m", "colspec")], EnvBodyKind::Normal, RuleShape::Handler("tabular"))
        + env_family(seq!["tabular*"], seq![("m", "width"), ("m", "colspec")], EnvBodyKind::Normal, RuleShape::Handler("tabular"))
        + env_family(seq!["longtable"], seq![("o", "position"), ("m", "colspec")], EnvBodyKind::Normal, RuleShape::Handler("tabular"))
        + env_family(
        seq!["tabularx"],
        seq![("m", "width"), ("o", "position"), ("m", "colspec")],
        EnvBodyKind::Normal,
        RuleShape::Handler("tabular"),
    )
}

/// The arguments of a spanning cell: the span, the cell's alignment or width, and its
/// contents.
pub open spec fn span_args(span: Seq<char>, shape: Seq<char>) -> Seq<ArgView> {
    seq![
        ArgView { code: Some("m"@), name: span },
        ArgView { code: Some("m"@), name: shape },
        ArgView { code: Some("m"@), name: "content"@ },
    ]
}

/// The table macros: `longtable`'s head and foot markers, dropped; a spanning cell as its
/// contents in the one cell it starts in; `\cline` as a full rule rather than no
/// separation; and booktabs' three rules.
pub open spec fn tables_macros() -> Seq<MacroDefView> {
    macro_family(seq!["endhead", "endfirsthead", "endfoot", "endlastfoot"], Seq::empty(), RuleShape::Skip) + seq![
        template_macro("multicolumn"@, span_args("columns"@, "colspec"@), "{content}"@),
        template_macro("multirow"@, span_args("rows"@, "width"@), "{content}"@),
    ] + macro_family(seq!["cline"], seq![("m", "range")], RuleShape::Handler("horizontal rule")) + macro_family(
        seq!["toprule", "midrule", "bottomrule"],
        Seq::empty(),
        RuleShape::Handler("horizontal rule"),
    )
}

/// What a `tabular`-shaped environment renders as, given its column specification as
/// written and its rendered body: the body split into rows and cells at its row and cell
/// separators, laid out in aligned columns.
pub fn tabular(colspec: &str, body: &Flow) -> (flow: Flow)
    ensures
        flow@ == table_items(split_rows_spec(body@), alignments_from(colspec@, 0)),
{
    let alignments = parse_alignments(colspec);
    let rows = split_rows(body);
    render_rows(rows.as_slice(), alignments.as_slice())
}

/// The category [`category`] builds.
pub open spec fn category_view() -> CategoryView {
    CategoryView {
        name: "tables"@,
        macros: tables_macros(),
        environments: tables_environments(),
        specials: Seq::<SpecialsDefView>::empty(),
    }
}

/// The tables category.
pub fn category() -> (c: Category)
    ensures
        c@ == category_view(),
{
    let mut category = Category::new("tables");
    let ghost start = category@;
    let tabular: [&'static str; 1] = ["tabular"];
    let tabular_args: [(&'static str, &'static str); 1] = [("m", "colspec")];
    assert(tabular@ =~= seq!["tabular"]);
    assert(tabular_args@ =~= seq![("m", "colspec")]);
    add_env_family(&mut category, &tabular, &tabular_args, EnvBodyKind::Normal, RuleShape::Handler("tabular"));
    let ghost e1 = category@.environments;
    let starred: [&'static str; 1] = ["tabular*"];
    let starred_args: [(&'static str, &'static str); 2] = [("m", "width"), ("m", "colspec")];
    assert(starred@ =~= seq!["tabular*"]);
    assert(starred_args@ =~= seq![("m", "width"), ("m", "colspec")]);
    add_env_family(&mut category, &starred, &starred_args, EnvBodyKind::Normal, RuleShape::Handler("tabular"));
    let ghost e2 = category@.environments;
    let longtable: [&'static str; 1] = ["longtable"];
    let longtable_args: [(&'static str, &'static str); 2] = [("o", "position"), ("m", "colspec")];
    assert(longtable@ =~= seq!["longtable"]);
    assert(longtable_args@ =~= seq![("o", "position"), ("m", "colspec")]);
    add_env_family(&mut category, &longtable, &longtable_args, EnvBodyKind::Normal, RuleShape::Handler("tabular"));
    let ghost e3 = category@.environments;
    let markers: [&'static str; 4] = ["endhead", "endfirsthead", "endfoot", "endlastfoot"];
    let none: [(&'static str, &'static str); 0] = [];
    assert(markers@ =~= seq!["endhead", "endfirsthead", "endfoot", "endlastfoot"]);
    assert(none@ =~= Seq::<(&'static str, &'static str)>::empty());
    add_macro_family(&mut category, &markers, &none, RuleShape::Skip);
    let ghost m1 = category@.macros;
    let tabularx: [&'static str; 1] = ["tabularx"];
    let tabularx_args: [(&'static str, &'static str); 3] = [("m", "width"), ("o", "position"), ("m", "colspec")];
    assert(tabularx@ =~= seq!["tabularx"]);
    assert(tabularx_args@ =~= seq![("m", "width"), ("o", "position"), ("m", "colspec")]);
    add_env_family(&mut category, &tabularx, &tabularx_args, EnvBodyKind::Normal, RuleShape::Handler("tabular"));
    let multicolumn = MacroDef::new("multicolumn").arg("m", "columns").arg("m", "colspec").arg("m", "content").rule(
        TextRule::Template(Template::new("{content}")),
    );
    assert(multicolumn@.args =~= span_args("columns"@, "colspec"@));
    category.add_macro(multicolumn);
    let multirow = MacroDef::new("multirow").arg("m", "rows").arg("m", "width").arg("m", "content").rule(
        TextRule::Template(Template::new("{content}")),
    );
    assert(multirow@.args =~= span_args("rows"@, "width"@));
    category.add_macro(multirow);
    let ghost m2 = category@.macros;
    let cline: [&'static str; 1] = ["cline"];
    let range: [(&'static str, &'static str); 1] = [("m", "range")];
    assert(cline@ =~= seq!["cline"]);
    assert(range@ =~= seq![("m", "range")]);
    add_macro_family(&mut category, &cline, &range, RuleShape::Handler("horizontal rule"));
    let ghost m3 = category@.macros;
    let rules: [&'static str; 3] = ["toprule", "midrule", "bottomrule"];
    assert(rules@ =~= seq!["toprule", "midrule", "bottomrule"]);
    add_macro_family(&mut category, &rules, &none, RuleShape::Handler("horizontal rule"));
    proof {
        assert(start.macros =~= Seq::<MacroDefView>::empty());
        assert(start.environments =~= Seq::<EnvDefView>::empty());
        assert(m2 =~= m1 + seq![
            template_macro("multicolumn"@, span_args("columns"@, "colspec"@), "{content}"@),
            template_macro("multirow"@, span_args("rows"@, "width"@), "{content}"@),
        ]);
        assert(category@.environments =~= tables_environments());
        assert(category@.macros =~= tables_macros());
    }
    category
}

} // verus!
