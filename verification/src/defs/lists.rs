//! List markers and counters.
//!
//! Two nesting depths decide what a list looks like: the depth among lists of the
//! **same kind** picks the marker, cycling through the arrays in the list style — an
//! `enumerate` directly inside an `itemize` numbers from `1.` — and the total depth
//! decides the indentation.
//!
//! An item is a hanging-indent block that the next item at the same depth closes, so a
//! list has to know how many blocks its body leaves open before it closes its own:
//! [`open_blocks`] answers that with the layout engine's own frame rule.

use vstd::prelude::*;

use crate::def::{add_env_family, add_macro_family, env_family, macro_family, Category, CategoryView, EnvDefView, RuleShape, SpecialsDefView};
use crate::symbols::EnvBodyKind;
use crate::convert::{CounterStyle, CounterWrap, EnumFormat, ListStyle, ListStyleView};
use crate::flow::{BlockKind, BlockView, Flow, FlowItem, ItemView};
use crate::layout::{
    flush_word, frame_of, initial, pop_frame, request_sep, run, step, verbatim, EngineView, FrameView,
};
use crate::text::{ascii_uppercase, decimal_text, push_char, push_decimal, push_uppercase};
use crate::flow::{display_width, str_width};
use vstd::string::StrSliceExecFns;

verus! {

/// Which kind of list an environment is, and so what its items are marked with.
#[derive(Clone, Copy, Debug, PartialEq, Eq, Structural, Hash)]
pub enum ListKind {
    /// Bullets: `itemize`, `trivlist`, `list`.
    Itemize,
    /// Numbers: `enumerate`.
    Enumerate,
    /// Labels: `description`.
    Description,
}

/// Where a list sits: its kind, its depth among enclosing lists of the same kind
/// (counting itself, from 1), and its total list depth (counting itself, from 1).
#[derive(Clone, Copy, Debug, PartialEq, Eq, Structural, Hash)]
pub struct ListCtx {
    /// What this list's items are marked with.
    pub kind: ListKind,
    /// `1 +` the number of enclosing lists of this kind: what picks the marker.
    pub same_kind_depth: usize,
    /// `1 +` the number of enclosing lists of any kind: what decides the indentation.
    pub depth: usize,
}

// ------------------------------------------------------------------ counters

/// The position a list nested `depth` deep uses in an array of `len` entries; the
/// arrays cycle, and a depth of zero is treated as one.
pub open spec fn cycle_index(depth: usize, len: nat) -> int {
    (if depth == 0 { 0int } else { depth - 1 }) % (len as int)
}

/// The entry of `values` that a list nested `depth` deep (counting from 1) uses.
///
/// The arrays cycle, so no nesting depth is ever without a marker. An array a caller
/// emptied has nothing to answer with, and the caller substitutes a default.
pub fn cycle<T>(values: &[T], depth: usize) -> (found: Option<&T>)
    ensures
        match found {
            None => values@.len() == 0,
            Some(value) => values@.len() > 0 && *value == values@[cycle_index(depth, values@.len())],
        },
{
    if values.len() == 0 {
        return None;
    }
    let steps = if depth == 0 { 0 } else { depth - 1 };
    Some(&values[steps % values.len()])
}

/// The `k`-th lower-case letter, from `a`.
pub open spec fn letter(k: nat) -> char {
    ((97 + k) as u8) as char
}

/// Spreadsheet-style letters: 1 → `a`, 26 → `z`, 27 → `aa`; zero has none.
pub open spec fn alphabetic_text(n: nat) -> Seq<char>
    decreases n,
{
    if n == 0 {
        Seq::empty()
    } else {
        alphabetic_text(((n - 1) / 26) as nat).push(letter(((n - 1) % 26) as nat))
    }
}

fn push_alphabetic(out: &mut String, n: u32)
    ensures
        final(out)@ == old(out)@ + alphabetic_text(n as nat),
    decreases n,
{
    if n == 0 {
        assert(old(out)@ + alphabetic_text(0) =~= old(out)@);
        return;
    }
    push_alphabetic(out, (n - 1) / 26);
    let index = ((n - 1) % 26) as u8;
    push_char(out, (97u8 + index) as char);
    assert(old(out)@ + alphabetic_text(n as nat) =~= old(out)@ + alphabetic_text(((n - 1) / 26) as nat) + seq![letter(((n - 1) % 26) as nat)]);
}

/// Spreadsheet-style letters: 1 → `a`, 26 → `z`, 27 → `aa`.
pub fn alphabetic(counter: u32) -> (text: String)
    ensures
        text@ == alphabetic_text(counter as nat),
{
    let mut text = String::new();
    push_alphabetic(&mut text, counter);
    assert(text@ =~= alphabetic_text(counter as nat));
    text
}

/// The values of the roman numerals, largest first, subtractive pairs included.
pub open spec fn numeral_value(k: nat) -> nat {
    if k == 0 { 1000 }
    else if k == 1 { 900 }
    else if k == 2 { 500 }
    else if k == 3 { 400 }
    else if k == 4 { 100 }
    else if k == 5 { 90 }
    else if k == 6 { 50 }
    else if k == 7 { 40 }
    else if k == 8 { 10 }
    else if k == 9 { 9 }
    else if k == 10 { 5 }
    else if k == 11 { 4 }
    else { 1 }
}

/// How the roman numeral of [`numeral_value`] `k` is written, in lower case.
pub open spec fn numeral_text(k: nat) -> Seq<char> {
    if k == 0 { seq!['m'] }
    else if k == 1 { seq!['c', 'm'] }
    else if k == 2 { seq!['d'] }
    else if k == 3 { seq!['c', 'd'] }
    else if k == 4 { seq!['c'] }
    else if k == 5 { seq!['x', 'c'] }
    else if k == 6 { seq!['l'] }
    else if k == 7 { seq!['x', 'l'] }
    else if k == 8 { seq!['x'] }
    else if k == 9 { seq!['i', 'x'] }
    else if k == 10 { seq!['v'] }
    else if k == 11 { seq!['i', 'v'] }
    else { seq!['i'] }
}

/// The greedy roman spelling of `n`, using numerals from the `k`-th on.
pub open spec fn roman_from(n: nat, k: nat) -> Seq<char>
    decreases 13 - k, n,
{
    if k >= 13 {
        Seq::empty()
    } else if n >= numeral_value(k) {
        numeral_text(k) + roman_from((n - numeral_value(k)) as nat, k)
    } else {
        roman_from(n, k + 1)
    }
}

/// Roman numerals, lowercase: 1 → `i`, 4 → `iv`, 1990 → `mcmxc`; zero has none.
pub open spec fn roman_text(n: nat) -> Seq<char> {
    roman_from(n, 0)
}

// ------------------------------------------------------------------ reading a numeral back

/// What one roman digit is worth: `i` 1, `v` 5, `x` 10, `l` 50, `c` 100, `d` 500,
/// `m` 1000; anything else nothing.
pub open spec fn roman_digit_value(c: char) -> int {
    if c == 'i' { 1 }
    else if c == 'v' { 5 }
    else if c == 'x' { 10 }
    else if c == 'l' { 50 }
    else if c == 'c' { 100 }
    else if c == 'd' { 500 }
    else if c == 'm' { 1000 }
    else { 0 }
}

/// What a roman numeral reads as, by the usual rule: each digit counts its value, except
/// that a digit standing before a larger one is subtracted.
pub open spec fn roman_value(s: Seq<char>) -> int
    decreases s.len(),
{
    if s.len() == 0 {
        0
    } else {
        let first = roman_digit_value(s[0]);
        let rest = roman_value(s.drop_first());
        if s.len() >= 2 && first < roman_digit_value(s[1]) {
            rest - first
        } else {
            rest + first
        }
    }
}

/// Two numerals written one after the other read as the sum of their values when the
/// first does not end in a digit smaller than the one the second starts with.
proof fn lemma_roman_value_concat(a: Seq<char>, b: Seq<char>)
    requires
        a.len() == 0 || b.len() == 0 || roman_digit_value(a.last()) >= roman_digit_value(b[0]),
    ensures
        roman_value(a + b) == roman_value(a) + roman_value(b),
    decreases a.len(),
{
    if a.len() == 0 {
        assert(a + b =~= b);
    } else if b.len() == 0 {
        assert(a + b =~= a);
    } else {
        let ab = a + b;
        assert(ab.drop_first() =~= a.drop_first() + b);
        assert(ab[0] == a[0]);
        let first = roman_digit_value(a[0]);
        if a.len() == 1 {
            assert(a.drop_first() + b =~= b);
            assert(ab[1] == b[0]);
            assert(a.last() == a[0]);
            assert(a.drop_first() =~= Seq::<char>::empty());
            assert(roman_value(a) == roman_value(a.drop_first()) + first);
            assert(roman_value(ab) == roman_value(ab.drop_first()) + first);
        } else {
            assert(ab[1] == a[1]);
            assert(a.drop_first().last() == a.last());
            lemma_roman_value_concat(a.drop_first(), b);
            if first < roman_digit_value(a[1]) {
                assert(roman_value(a) == roman_value(a.drop_first()) - first);
                assert(roman_value(ab) == roman_value(ab.drop_first()) - first);
            } else {
                assert(roman_value(a) == roman_value(a.drop_first()) + first);
                assert(roman_value(ab) == roman_value(ab.drop_first()) + first);
            }
        }
    }
}

/// Each numeral of the table reads as its value.
proof fn lemma_numeral_reads_as_its_value(k: nat)
    requires
        k < 13,
    ensures
        roman_value(numeral_text(k)) == numeral_value(k),
        numeral_text(k).len() > 0,
{
    let t = numeral_text(k);
    reveal_with_fuel(roman_value, 3);
    if t.len() == 2 {
        assert(t.drop_first().drop_first() =~= Seq::<char>::empty());
        assert(t.drop_first()[0] == t[1]);
        assert(roman_value(t.drop_first().drop_first()) == 0);
    } else {
        assert(t.drop_first() =~= Seq::<char>::empty());
        assert(roman_value(t.drop_first()) == 0);
    }
}

/// Reading the table from the `k`-th numeral on, no numeral starts with a digit larger
/// than the one the `k`-th ends with.
proof fn lemma_numerals_descend(k: nat, j: nat)
    requires
        k <= j < 13,
    ensures
        roman_digit_value(numeral_text(j)[0]) <= roman_digit_value(numeral_text(k).last()),
{
}

/// The greedy spelling from the `k`-th numeral on reads back as `n`, and it starts with
/// no digit larger than the one any earlier numeral ends with.
proof fn lemma_roman_from_reads_back(n: nat, k: nat)
    requires
        k <= 12,
    ensures
        roman_value(roman_from(n, k)) == n,
        roman_from(n, k).len() > 0 ==> forall|e: nat| e <= k ==> roman_digit_value(roman_from(n, k)[0])
            <= roman_digit_value(#[trigger] numeral_text(e).last()),
    decreases 13 - k, n,
{
    let t = numeral_text(k);
    lemma_numeral_reads_as_its_value(k);
    if n >= numeral_value(k) {
        let m = (n - numeral_value(k)) as nat;
        let rest = roman_from(m, k);
        lemma_roman_from_reads_back(m, k);
        lemma_roman_value_concat(t, rest);
        assert((t + rest)[0] == t[0]);
        assert forall|e: nat| e <= k implies roman_digit_value((t + rest)[0]) <= roman_digit_value(
            #[trigger] numeral_text(e).last(),
        ) by {
            lemma_numerals_descend(e, k);
        }
    } else if k == 12 {
        assert(n == 0);
        assert(roman_from(n, 13) == Seq::<char>::empty());
    } else {
        lemma_roman_from_reads_back(n, k + 1);
        assert(roman_from(n, k) == roman_from(n, k + 1));
        if roman_from(n, k).len() > 0 {
            assert forall|e: nat| e <= k implies roman_digit_value(roman_from(n, k)[0]) <= roman_digit_value(
                #[trigger] numeral_text(e).last(),
            ) by {
                assert(e <= k + 1);
            }
        }
    }
}

/// A roman numeral reads back as the number it spells: by the usual reading — digits
/// add up, and one standing before a larger digit subtracts — `roman_text(n)` is `n`,
/// for every `n`. So `xl` is 40, never `lx`, which reads 60.
pub proof fn lemma_roman_text_reads_back(n: nat)
    ensures
        roman_value(roman_text(n)) == n,
{
    lemma_roman_from_reads_back(n, 0);
}

fn numeral(k: usize) -> (value: u32)
    requires
        k < 13,
    ensures
        value == numeral_value(k as nat),
{
    match k {
        0 => 1000,
        1 => 900,
        2 => 500,
        3 => 400,
        4 => 100,
        5 => 90,
        6 => 50,
        7 => 40,
        8 => 10,
        9 => 9,
        10 => 5,
        11 => 4,
        _ => 1,
    }
}

fn push_numeral(out: &mut String, k: usize)
    requires
        k < 13,
    ensures
        final(out)@ == old(out)@ + numeral_text(k as nat),
{
    let (a, b) = match k {
        0 => ('m', ' '),
        1 => ('c', 'm'),
        2 => ('d', ' '),
        3 => ('c', 'd'),
        4 => ('c', ' '),
        5 => ('x', 'c'),
        6 => ('l', ' '),
        7 => ('x', 'l'),
        8 => ('x', ' '),
        9 => ('i', 'x'),
        10 => ('v', ' '),
        11 => ('i', 'v'),
        _ => ('i', ' '),
    };
    push_char(out, a);
    if b != ' ' {
        push_char(out, b);
    }
    assert(final(out)@ =~= old(out)@ + numeral_text(k as nat));
}

/// Roman numerals, lowercase: 1 → `i`, 4 → `iv`, 1990 → `mcmxc`.
///
/// A counter of zero has no numeral at all; it answers the empty string.
pub fn roman(counter: u32) -> (text: String)
    ensures
        text@ == roman_text(counter as nat),
{
    let mut value = counter;
    let mut out = String::new();
    let mut k: usize = 0;
    while k < 13
        invariant
            k <= 13,
            out@ + roman_from(value as nat, k as nat) == roman_text(counter as nat),
        decreases 13 - k,
    {
        let amount = numeral(k);
        while value >= amount
            invariant
                k < 13,
                amount == numeral_value(k as nat),
                out@ + roman_from(value as nat, k as nat) == roman_text(counter as nat),
            decreases value,
        {
            let ghost before = out@;
            push_numeral(&mut out, k);
            proof {
                assert(before + roman_from(value as nat, k as nat) =~= out@ + roman_from((value - amount) as nat, k as nat));
            }
            value = value - amount;
        }
        k = k + 1;
    }
    assert(out@ + roman_from(value as nat, 13) =~= out@);
    out
}

/// What a counter reads as in a format: `1.`, `(b)`, `iii.`, `B.`.
pub open spec fn counter_text(counter: u32, format: EnumFormat) -> Seq<char> {
    let body = match format.style {
        CounterStyle::Arabic => decimal_text(counter as nat),
        CounterStyle::LowerAlpha => alphabetic_text(counter as nat),
        CounterStyle::UpperAlpha => ascii_uppercase(alphabetic_text(counter as nat)),
        CounterStyle::LowerRoman => roman_text(counter as nat),
        CounterStyle::UpperRoman => ascii_uppercase(roman_text(counter as nat)),
    };
    match format.wrap {
        CounterWrap::Dot => body.push('.'),
        CounterWrap::Parens => seq!['('] + body + seq![')'],
    }
}

/// Format an `enumerate` counter: `1.`, `(a)`, `iii.`, `B.`.
pub fn format_counter(counter: u32, format: EnumFormat) -> (text: String)
    ensures
        text@ == counter_text(counter, format),
{
    let mut out = String::new();
    if format.wrap == CounterWrap::Parens {
        push_char(&mut out, '(');
    }
    let ghost start = out@;
    match format.style {
        CounterStyle::Arabic => push_decimal(&mut out, counter as u64),
        CounterStyle::LowerAlpha => {
            let letters = alphabetic(counter);
            out.append(letters.as_str());
        },
        CounterStyle::UpperAlpha => {
            let letters = alphabetic(counter);
            push_uppercase(&mut out, letters.as_str());
        },
        CounterStyle::LowerRoman => {
            let numeral = roman(counter);
            out.append(numeral.as_str());
        },
        CounterStyle::UpperRoman => {
            let numeral = roman(counter);
            push_uppercase(&mut out, numeral.as_str());
        },
    }
    match format.wrap {
        CounterWrap::Dot => push_char(&mut out, '.'),
        CounterWrap::Parens => push_char(&mut out, ')'),
    }
    proof {
        let body = match format.style {
            CounterStyle::Arabic => decimal_text(counter as nat),
            CounterStyle::LowerAlpha => alphabetic_text(counter as nat),
            CounterStyle::UpperAlpha => ascii_uppercase(alphabetic_text(counter as nat)),
            CounterStyle::LowerRoman => roman_text(counter as nat),
            CounterStyle::UpperRoman => ascii_uppercase(roman_text(counter as nat)),
        };
        match format.wrap {
            CounterWrap::Dot => {
                assert(start =~= Seq::<char>::empty());
                assert(out@ =~= body.push('.'));
            },
            CounterWrap::Parens => {
                assert(out@ =~= seq!['('] + body + seq![')']);
            },
        }
    }
    out
}

/// The counter stack after an item of the innermost list is counted, and the number it
/// is given: one more than before (saturating), or 1 when no list is open.
pub open spec fn counted(counters: Seq<u32>) -> (Seq<u32>, u32) {
    if counters.len() == 0 {
        (counters, 1)
    } else {
        let last = counters.last();
        let next: u32 = if last < u32::MAX { (last + 1) as u32 } else { last };
        (counters.update(counters.len() - 1, next), next)
    }
}

/// Advance the innermost list's counter and answer its new value.
///
/// An `\item` whose enclosing list was never entered has no counter to advance, so an
/// empty stack answers 1 rather than failing.
pub fn next_counter(counters: &mut Vec<u32>) -> (value: u32)
    ensures
        (final(counters)@, value) == counted(old(counters)@),
{
    let n = counters.len();
    if n == 0 {
        return 1;
    }
    let last = counters[n - 1];
    let next = if last < u32::MAX { last + 1 } else { last };
    counters.set(n - 1, next);
    next
}

/// The marker an item takes from its list when it was not given one: a bullet and a
/// space, a formatted number and a space, or — in a description list, whose marker is
/// its label — only the gap a label would have been followed by.
pub open spec fn marker_text(context: ListCtx, counters: Seq<u32>, style: ListStyleView) -> Seq<char> {
    match context.kind {
        ListKind::Itemize => {
            let markers = style.itemize_markers;
            let marker = if markers.len() == 0 {
                seq!['\u{2022}']
            } else {
                markers[cycle_index(context.same_kind_depth, markers.len())]
            };
            marker.push(' ')
        },
        ListKind::Enumerate => {
            let formats = style.enumerate_formats;
            let format = if formats.len() == 0 {
                EnumFormat { style: CounterStyle::Arabic, wrap: CounterWrap::Dot }
            } else {
                formats[cycle_index(context.same_kind_depth, formats.len())]
            };
            counter_text(counted(counters).1, format).push(' ')
        },
        ListKind::Description => seq![' ', ' '],
    }
}

/// The marker an item takes from its list, when it was not given one. An enumerated
/// item advances the innermost counter; the other kinds leave the counters alone.
pub fn automatic_marker(context: ListCtx, counters: &mut Vec<u32>, style: &ListStyle) -> (marker: String)
    ensures
        marker@ == marker_text(context, old(counters)@, style@),
        final(counters)@ == if context.kind == ListKind::Enumerate {
            counted(old(counters)@).0
        } else {
            old(counters)@
        },
{
    match context.kind {
        ListKind::Itemize => {
            let markers = style.itemize_markers.as_slice();
            let mut text = String::new();
            match cycle(markers, context.same_kind_depth) {
                Some(marker) => {
                    proof {
                        assert(style@.itemize_markers[cycle_index(context.same_kind_depth, markers@.len())]
                            == markers@[cycle_index(context.same_kind_depth, markers@.len())]@);
                    }
                    text.append(marker.as_str());
                },
                None => push_char(&mut text, '\u{2022}'),
            }
            push_char(&mut text, ' ');
            assert(text@ =~= marker_text(context, old(counters)@, style@));
            text
        },
        ListKind::Enumerate => {
            // Counted before the format is read, as the item is numbered in the order it
            // comes.
            let counter = next_counter(counters);
            let format = match cycle(style.enumerate_formats.as_slice(), context.same_kind_depth) {
                Some(format) => *format,
                None => EnumFormat { style: CounterStyle::Arabic, wrap: CounterWrap::Dot },
            };
            let mut text = format_counter(counter, format);
            push_char(&mut text, ' ');
            text
        },
        ListKind::Description => {
            let mut text = String::new();
            push_char(&mut text, ' ');
            push_char(&mut text, ' ');
            assert(text@ =~= seq![' ', ' ']);
            text
        },
    }
}

// ------------------------------------------------------------------ open blocks

/// The stack of blocks a run of items leaves open, innermost last, `true` for an item
/// block: an item block closes a preceding item block that is still innermost, a block
/// end closes the innermost block (none if none is open), and nothing else touches it.
pub open spec fn open_stack(items: Seq<ItemView>) -> Seq<bool>
    decreases items.len(),
{
    if items.len() == 0 {
        Seq::empty()
    } else {
        block_step(open_stack(items.drop_last()), items.last())
    }
}

/// One item's effect on the stack of open blocks.
pub open spec fn block_step(open: Seq<bool>, item: ItemView) -> Seq<bool> {
    match item {
        ItemView::BlockStart(BlockView::Item { .. }) => {
            let rest = if open.len() > 0 && open.last() { open.drop_last() } else { open };
            rest.push(true)
        },
        ItemView::BlockStart(_) => open.push(false),
        ItemView::BlockEnd => if open.len() > 0 {
            open.drop_last()
        } else {
            open
        },
        _ => open,
    }
}

/// How many blocks a flow leaves open, counting an item block that a later item closed
/// only once.
///
/// This is the layout engine's own frame rule: an item block auto-closes a preceding
/// item that is still the innermost open block, so a body of three `\item`s leaves *one*
/// block open, not three. A list has to know the count exactly — it emits that many
/// closings before its own — because closing one too many would end a block belonging
/// to whatever the list is written inside.
pub fn open_blocks(flow: &Flow) -> (count: usize)
    ensures
        count == open_stack(flow@).len(),
{
    let items = flow.items();
    let ghost all = flow@;
    let mut open: Vec<bool> = Vec::new();
    let mut i: usize = 0;
    proof {
        assert(all.take(0) =~= Seq::<ItemView>::empty());
    }
    while i < items.len()
        invariant
            i <= items@.len(),
            all == flow@,
            crate::flow::items_view(items@) == all,
            open@ == open_stack(all.take(i as int)),
        decreases items@.len() - i,
    {
        proof {
            assert(all.take(i + 1).drop_last() =~= all.take(i as int));
            assert(all.take(i + 1).last() == all[i as int]);
            assert(all[i as int] == items@[i as int]@);
        }
        match &items[i] {
            FlowItem::BlockStart(BlockKind::Item { .. }) => {
                let n = open.len();
                if n > 0 && open[n - 1] {
                    open.pop();
                }
                open.push(true);
            },
            FlowItem::BlockStart(_) => open.push(false),
            FlowItem::BlockEnd => {
                open.pop();
            },
            _ => {},
        }
        i = i + 1;
    }
    proof {
        assert(all.take(all.len() as int) =~= all);
    }
    open.len()
}

/// Which open frames are item frames, innermost last.
pub open spec fn frame_kinds(frames: Seq<FrameView>) -> Seq<bool> {
    frames.map_values(|frame: FrameView| frame.is_item)
}

proof fn lemma_flush_word_keeps_frames(s: EngineView)
    ensures
        flush_word(s).frames == s.frames,
{
}

proof fn lemma_step_frames(s: EngineView, item: ItemView)
    ensures
        frame_kinds(step(s, item).frames) == block_step(frame_kinds(s.frames), item),
{
    lemma_flush_word_keeps_frames(s);
    let s1 = flush_word(s);
    match item {
        ItemView::BlockStart(kind) => {
            let frame = frame_of(kind);
            let s2 = if frame.is_item && s1.frames.len() > 0 && s1.frames.last().is_item {
                pop_frame(s1)
            } else {
                s1
            };
            let s3 = request_sep(s2, crate::layout::Sep::Line);
            let open = frame_kinds(s.frames);
            if frame.is_item && s1.frames.len() > 0 && s1.frames.last().is_item {
                assert(frame_kinds(s2.frames) =~= open.drop_last());
            } else {
                assert(frame_kinds(s2.frames) =~= open);
            }
            assert(frame_kinds(s3.frames.push(frame)) =~= frame_kinds(s3.frames).push(frame.is_item));
            match kind {
                BlockView::Indent { .. } => {},
                BlockView::Item { .. } => {
                    if open.len() > 0 {
                        assert(open.last() == s.frames.last().is_item);
                    }
                },
            }
        },
        ItemView::BlockEnd => {
            if s1.frames.len() > 0 {
                assert(frame_kinds(s1.frames.drop_last()) =~= frame_kinds(s.frames).drop_last());
            }
        },
        ItemView::Verbatim(p) => {
            if p.len() > 0 {
                assert(verbatim(s1, p).frames == s1.frames);
            }
        },
        _ => {},
    }
}

/// The blocks a run of items leaves open — and which of them are items — are exactly the
/// layout engine's open frames after the same items, whatever the wrap width: the count
/// a list closes before its own is the count layout still has open.
pub proof fn lemma_open_blocks_match_layout(items: Seq<ItemView>, wrap: Option<usize>)
    ensures
        open_stack(items) == frame_kinds(run(initial(wrap), items).frames),
    decreases items.len(),
{
    if items.len() == 0 {
        assert(frame_kinds(initial(wrap).frames) =~= Seq::<bool>::empty());
    } else {
        lemma_open_blocks_match_layout(items.drop_last(), wrap);
        lemma_step_frames(run(initial(wrap), items.drop_last()), items.last());
    }
}

// ------------------------------------------------------------------ the category

// ------------------------------------------------------------------ items and lists

/// The marker line of an `\item`: its explicit label followed by a two-space gap, unless
/// the label is absent or empty; otherwise its list's automatic marker; and for an item
/// outside every list, a dash.
pub open spec fn item_marker(
    label: Option<Seq<char>>,
    context: Option<ListCtx>,
    counters: Seq<u32>,
    style: ListStyleView,
) -> Seq<char> {
    match label {
        Some(text) if text.len() > 0 => text + seq![' ', ' '],
        _ => match context {
            Some(c) => marker_text(c, counters, style),
            None => seq!['-', ' '],
        },
    }
}

/// The counters after an `\item`: only an automatic number advances the innermost one,
/// so an explicitly labelled item leaves the numbering as if it were not there.
pub open spec fn item_counters(label: Option<Seq<char>>, context: Option<ListCtx>, counters: Seq<u32>) -> Seq<u32> {
    match label {
        Some(text) if text.len() > 0 => counters,
        _ => match context {
            Some(c) => if c.kind == ListKind::Enumerate { counted(counters).0 } else { counters },
            None => counters,
        },
    }
}

/// Spaces as wide as `width` columns.
pub open spec fn blank_of_width(width: usize) -> Seq<char> {
    Seq::new(width as nat, |i: int| ' ')
}

/// What an `\item` renders as: the opening of a hanging-indent item block whose first
/// line carries the marker and whose later lines are indented by the marker's width.
/// What follows in the document is the item's text, and the next item closes the block.
pub fn item_block(label: Option<&str>, context: Option<ListCtx>, counters: &mut Vec<u32>, style: &ListStyle) -> (flow: Flow)
    ensures
        ({
            let label_view = match label {
                Some(text) => Some(text@),
                None => None,
            };
            let first = item_marker(label_view, context, old(counters)@, style@);
            &&& flow@ == seq![ItemView::BlockStart(BlockView::Item { first, cont: blank_of_width(str_width(first)) })]
            &&& final(counters)@ == item_counters(label_view, context, old(counters)@)
        }),
{
    let first = match label {
        Some(text) if text.unicode_len() > 0 => {
            let mut first = text.to_owned();
            push_char(&mut first, ' ');
            push_char(&mut first, ' ');
            assert(first@ =~= text@ + seq![' ', ' ']);
            first
        },
        _ => match context {
            Some(c) => automatic_marker(c, counters, style),
            None => {
                let mut first = String::new();
                push_char(&mut first, '-');
                push_char(&mut first, ' ');
                assert(first@ =~= seq!['-', ' ']);
                first
            },
        },
    };
    let width = display_width(first.as_str());
    let mut cont = String::new();
    let mut i: usize = 0;
    while i < width
        invariant
            i <= width,
            cont@ == blank_of_width(i),
        decreases width - i,
    {
        push_char(&mut cont, ' ');
        i = i + 1;
        assert(cont@ =~= blank_of_width(i));
    }
    let mut flow = Flow::new();
    flow.push(FlowItem::BlockStart(BlockKind::Item { first, cont }));
    assert(flow@ =~= seq![ItemView::BlockStart(BlockView::Item { first: first@, cont: blank_of_width(width) })]);
    flow
}

/// The prefix a list's block gives its lines: two spaces for an outermost list, none
/// for a nested one, whose items already stand inside their parent's indentation.
pub open spec fn list_indent(depth: usize) -> Seq<char> {
    if depth == 1 { seq![' ', ' '] } else { Seq::empty() }
}

/// What a list environment renders as, given its rendered body: a block around the
/// body, and a closing for every block the body leaves open — its last item's among
/// them — before the list's own.
pub open spec fn list_items(depth: usize, body: Seq<ItemView>) -> Seq<ItemView> {
    seq![ItemView::BlockStart(BlockView::Indent { first: list_indent(depth), cont: list_indent(depth) })] + body
        + Seq::new(open_stack(body).len(), |i: int| ItemView::BlockEnd) + seq![ItemView::BlockEnd]
}

fn indent_text(depth: usize) -> (text: String)
    ensures
        text@ == list_indent(depth),
{
    let mut text = String::new();
    if depth == 1 {
        push_char(&mut text, ' ');
        push_char(&mut text, ' ');
    }
    assert(text@ =~= list_indent(depth));
    text
}

/// The flow of a list environment around its rendered `body`; `depth` is the list's
/// total nesting depth, counting itself from 1.
pub fn list_block(depth: usize, body: Flow) -> (flow: Flow)
    ensures
        flow@ == list_items(depth, body@),
{
    let open = open_blocks(&body);
    let ghost body_view = body@;
    let mut flow = Flow::new();
    flow.push(FlowItem::BlockStart(BlockKind::Indent { first: indent_text(depth), cont: indent_text(depth) }));
    flow.extend(body);
    let ghost head = flow@;
    let mut i: usize = 0;
    while i < open
        invariant
            i <= open,
            flow@ == head + Seq::new(i as nat, |j: int| ItemView::BlockEnd),
        decreases open - i,
    {
        flow.push(FlowItem::BlockEnd);
        i = i + 1;
        assert(flow@ =~= head + Seq::new(i as nat, |j: int| ItemView::BlockEnd));
    }
    flow.push(FlowItem::BlockEnd);
    assert(flow@ =~= list_items(depth, body_view));
    flow
}

/// The stack of open blocks after `items`, starting from `start`.
pub open spec fn stack_after(start: Seq<bool>, items: Seq<ItemView>) -> Seq<bool>
    decreases items.len(),
{
    if items.len() == 0 {
        start
    } else {
        block_step(stack_after(start, items.drop_last()), items.last())
    }
}

/// Whether `body` closes only blocks it opened itself: no block end meets an empty stack.
pub open spec fn ends_matched(body: Seq<ItemView>) -> bool {
    forall|i: int| 0 <= i < body.len() && (#[trigger] body[i]) is BlockEnd ==> open_stack(body.take(i)).len() > 0
}

/// `n` block ends.
pub open spec fn closings(n: nat) -> Seq<ItemView> {
    Seq::new(n, |i: int| ItemView::BlockEnd)
}

proof fn lemma_open_stack_from_empty(items: Seq<ItemView>)
    ensures
        stack_after(Seq::empty(), items) == open_stack(items),
    decreases items.len(),
{
    if items.len() > 0 {
        lemma_open_stack_from_empty(items.drop_last());
    }
}

proof fn lemma_stack_after_append(start: Seq<bool>, a: Seq<ItemView>, b: Seq<ItemView>)
    ensures
        stack_after(start, a + b) == stack_after(stack_after(start, a), b),
    decreases b.len(),
{
    if b.len() == 0 {
        assert(a + b =~= a);
    } else {
        assert((a + b).drop_last() =~= a + b.drop_last());
        assert((a + b).last() == b.last());
        lemma_stack_after_append(start, a, b.drop_last());
    }
}

/// Over a block that is not an item, a body's blocks stack up exactly as they would on
/// their own.
proof fn lemma_body_over_plain_block(base: Seq<bool>, body: Seq<ItemView>)
    requires
        ends_matched(body),
    ensures
        stack_after(base.push(false), body) == base.push(false) + open_stack(body),
    decreases body.len(),
{
    if body.len() == 0 {
        assert(base.push(false) + Seq::<bool>::empty() =~= base.push(false));
    } else {
        let shorter = body.drop_last();
        assert forall|i: int| 0 <= i < shorter.len() && (#[trigger] shorter[i]) is BlockEnd implies open_stack(
            shorter.take(i),
        ).len() > 0 by {
            assert(shorter[i] == body[i]);
            assert(shorter.take(i) =~= body.take(i));
        }
        lemma_body_over_plain_block(base, shorter);
        let p = base.push(false);
        let x = open_stack(shorter);
        let last = body[body.len() - 1];
        assert(body.last() == last);
        assert(body.take(body.len() - 1) =~= shorter);
        match last {
            ItemView::BlockStart(BlockView::Item { .. }) => {
                if x.len() > 0 && x.last() {
                    assert((p + x).drop_last() =~= p + x.drop_last());
                    assert((p + x.drop_last()).push(true) =~= p + x.drop_last().push(true));
                } else if x.len() > 0 {
                    assert((p + x).push(true) =~= p + x.push(true));
                } else {
                    assert(p + x =~= p);
                    assert(p.push(true) =~= p + x.push(true));
                }
            },
            ItemView::BlockStart(_) => {
                assert((p + x).push(false) =~= p + x.push(false));
            },
            ItemView::BlockEnd => {
                assert(x.len() > 0);
                assert((p + x).drop_last() =~= p + x.drop_last());
            },
            _ => {},
        }
    }
}

/// `n` block ends close the top `n` open blocks.
proof fn lemma_closings(stack: Seq<bool>, n: nat)
    requires
        n <= stack.len(),
    ensures
        stack_after(stack, closings(n)) == stack.subrange(0, stack.len() - n),
    decreases n,
{
    if n == 0 {
        assert(stack.subrange(0, stack.len() as int) =~= stack);
    } else {
        assert(closings(n).drop_last() =~= closings((n - 1) as nat));
        assert(closings(n).last() == ItemView::BlockEnd);
        lemma_closings(stack, (n - 1) as nat);
        assert(stack.subrange(0, stack.len() - (n - 1)).drop_last() =~= stack.subrange(0, stack.len() - n));
    }
}

/// A list leaves the blocks around it as it found them: whatever was open before it —
/// however many blocks, items among them — is open after it, no more and no fewer,
/// provided its body closes no block it did not open itself.
pub proof fn lemma_list_keeps_enclosing_blocks(before: Seq<ItemView>, depth: usize, body: Seq<ItemView>)
    requires
        ends_matched(body),
    ensures
        open_stack(before + list_items(depth, body)) == open_stack(before),
{
    let outer = open_stack(before);
    let start = seq![ItemView::BlockStart(BlockView::Indent { first: list_indent(depth), cont: list_indent(depth) })];
    let x = open_stack(body);
    let ends = closings(x.len());
    assert(Seq::new(x.len(), |i: int| ItemView::BlockEnd) =~= ends);
    assert(list_items(depth, body) =~= start + body + ends + seq![ItemView::BlockEnd]);
    lemma_open_stack_from_empty(before);
    lemma_open_stack_from_empty(before + list_items(depth, body));
    let e = Seq::<bool>::empty();
    assert(before + list_items(depth, body) =~= before + start + body + ends + seq![ItemView::BlockEnd]);
    lemma_stack_after_append(e, before + start + body + ends, seq![ItemView::BlockEnd]);
    lemma_stack_after_append(e, before + start + body, ends);
    lemma_stack_after_append(e, before + start, body);
    lemma_stack_after_append(e, before, start);
    assert(start.drop_last() =~= Seq::<ItemView>::empty());
    assert(stack_after(outer, start.drop_last()) == outer);
    assert(start.last() == ItemView::BlockStart(BlockView::Indent { first: list_indent(depth), cont: list_indent(depth) }));
    assert(stack_after(outer, start) == outer.push(false));
    lemma_body_over_plain_block(outer, body);
    lemma_closings(outer.push(false) + x, x.len());
    assert((outer.push(false) + x).subrange(0, (outer.push(false) + x).len() - x.len()) =~= outer.push(false));
    let last = seq![ItemView::BlockEnd];
    assert(last.drop_last() =~= Seq::<ItemView>::empty());
    assert(stack_after(outer.push(false), last.drop_last()) == outer.push(false));
    assert(last.last() == ItemView::BlockEnd);
    assert(stack_after(outer.push(false), last) == outer.push(false).drop_last());
    assert(outer.push(false).drop_last() =~= outer);
}

/// The environments of the lists category, in declaration order: the four list
/// environments with an optional option list (parsed so that it cannot leak, ignored),
/// and the primitive `list`, whose label template and spacing are parsed and dropped.
pub open spec fn lists_environments() -> Seq<EnvDefView> {
    env_family(seq!["itemize"], seq![("o", "options")], EnvBodyKind::List(ListKind::Itemize), RuleShape::Handler("itemize list"))
        + env_family(seq!["enumerate"], seq![("o", "options")], EnvBodyKind::List(ListKind::Enumerate), RuleShape::Handler("enumerate list"))
        + env_family(seq!["description"], seq![("o", "options")], EnvBodyKind::List(ListKind::Description), RuleShape::Handler("description list"))
        + env_family(seq!["trivlist"], seq![("o", "options")], EnvBodyKind::List(ListKind::Itemize), RuleShape::Handler("itemize list"))
        + env_family(
        seq!["list"],
        seq![("o", "options"), ("m", "label"), ("m", "spacing")],
        EnvBodyKind::List(ListKind::Itemize),
        RuleShape::Handler("itemize list"),
    )
}

/// The category [`category`] builds.
pub open spec fn category_view() -> CategoryView {
    CategoryView {
        name: "lists"@,
        macros: macro_family(seq!["item"], seq![("o", "label")], RuleShape::Handler("list item")),
        environments: lists_environments(),
        specials: Seq::<SpecialsDefView>::empty(),
    }
}

/// The lists category: the list environments and `\item[label]`.
pub fn category() -> (c: Category)
    ensures
        c@ == category_view(),
{
    let mut category = Category::new("lists");
    let options: [(&'static str, &'static str); 1] = [("o", "options")];
    assert(options@ =~= seq![("o", "options")]);
    let itemize: [&'static str; 1] = ["itemize"];
    assert(itemize@ =~= seq!["itemize"]);
    add_env_family(&mut category, &itemize, &options, EnvBodyKind::List(ListKind::Itemize), RuleShape::Handler("itemize list"));
    let ghost e1 = category@.environments;
    let enumerate: [&'static str; 1] = ["enumerate"];
    assert(enumerate@ =~= seq!["enumerate"]);
    add_env_family(&mut category, &enumerate, &options, EnvBodyKind::List(ListKind::Enumerate), RuleShape::Handler("enumerate list"));
    let ghost e2 = category@.environments;
    let description: [&'static str; 1] = ["description"];
    assert(description@ =~= seq!["description"]);
    add_env_family(&mut category, &description, &options, EnvBodyKind::List(ListKind::Description), RuleShape::Handler("description list"));
    let ghost e3 = category@.environments;
    let trivlist: [&'static str; 1] = ["trivlist"];
    assert(trivlist@ =~= seq!["trivlist"]);
    add_env_family(&mut category, &trivlist, &options, EnvBodyKind::List(ListKind::Itemize), RuleShape::Handler("itemize list"));
    let ghost e4 = category@.environments;
    let list: [&'static str; 1] = ["list"];
    let list_args: [(&'static str, &'static str); 3] = [("o", "options"), ("m", "label"), ("m", "spacing")];
    assert(list@ =~= seq!["list"]);
    assert(list_args@ =~= seq![("o", "options"), ("m", "label"), ("m", "spacing")]);
    add_env_family(&mut category, &list, &list_args, EnvBodyKind::List(ListKind::Itemize), RuleShape::Handler("itemize list"));
    let item: [&'static str; 1] = ["item"];
    let label: [(&'static str, &'static str); 1] = [("o", "label")];
    assert(item@ =~= seq!["item"]);
    assert(label@ =~= seq![("o", "label")]);
    add_macro_family(&mut category, &item, &label, RuleShape::Handler("list item"));
    proof {
        assert(category@.environments =~= lists_environments());
        assert(category@.macros =~= macro_family(seq!["item"], seq![("o", "label")], RuleShape::Handler("list item")));
    }
    category
}

} // verus!
