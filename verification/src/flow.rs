//! The text flow: the typed token sequence that handlers produce and the
//! [layout engine](crate::layout) renders.
//!
//! Handlers never write layout. They emit *intent* — a word, a place where a line may
//! break, a request for vertical separation, an indented block, a run of text that must
//! survive untouched — and a single pass over the flow decides every line break, blank
//! line and indent from complete information.
//!
//! - [`FlowItem::Text`] is a run of text carrying no *collapsible* whitespace.
//!   **Adjacent `Text` items are one unbreakable word.**
//! - [`FlowItem::Glue`] is one collapsible inter-word space, and the only place a line
//!   may break.
//! - [`FlowItem::HardBreak`], [`FlowItem::ParagraphBreak`], [`FlowItem::BlockStart`] and
//!   [`FlowItem::BlockEnd`] request vertical separation; layout merges consecutive
//!   requests instead of summing them.
//! - [`FlowItem::Verbatim`] and [`FlowItem::InlineVerbatim`] are content layout must not
//!   touch.

use vstd::prelude::*;

use crate::text::{char_is_whitespace, is_white_space};

verus! {

/// What a [`FlowItem::BlockStart`] opens, as a mathematical value.
pub enum BlockView {
    Indent { first: Seq<char>, cont: Seq<char> },
    Item { first: Seq<char>, cont: Seq<char> },
}

/// One flow item, as a mathematical value: strings are their character sequences.
pub enum ItemView {
    Text(Seq<char>),
    Glue,
    HardBreak,
    ParagraphBreak,
    Verbatim(Seq<char>),
    InlineVerbatim(Seq<char>),
    BlockStart(BlockView),
    BlockEnd,
    CellSep,
    RowSep,
    RuleMark,
}

/// What kind of block a [`FlowItem::BlockStart`] opens.
///
/// Both kinds are hanging-indent blocks with two prefixes: `first` goes on the block's
/// first line and `cont` on every line after it, including lines produced by wrapping.
/// A nested block's prefixes are appended to the enclosing blocks' `cont` prefixes, and
/// the total prefix width counts toward the wrap column.
#[derive(Clone, Debug)]
pub enum BlockKind {
    /// A plain hanging-indent block: display math, quotations, footnote entries.
    Indent {
        /// Prefix for the block's first line.
        first: String,
        /// Prefix for every subsequent line of the block.
        cont: String,
    },
    /// A list-item block, whose `first` prefix is the item marker (`  • `, `1. `).
    ///
    /// Opening an `Item` while another `Item` is the innermost open block closes that
    /// one first, so `\item` never has to look ahead to find where its own item ends.
    Item {
        /// The item marker, used as the prefix of the item's first line.
        first: String,
        /// Prefix for every subsequent line of the item.
        cont: String,
    },
}

impl View for BlockKind {
    type V = BlockView;

    open spec fn view(&self) -> BlockView {
        match self {
            BlockKind::Indent { first, cont } => BlockView::Indent { first: first@, cont: cont@ },
            BlockKind::Item { first, cont } => BlockView::Item { first: first@, cont: cont@ },
        }
    }
}

/// One token of a [`Flow`].
///
/// The variants carry intent, not formatting: nothing here says how many spaces or
/// newlines to emit, because that is the layout engine's decision.
#[derive(Clone, Debug)]
pub enum FlowItem {
    /// Text carrying no collapsible whitespace. Adjacent `Text` items are glued: no break
    /// may occur between them, and the wrap decision measures them as one word.
    Text(String),
    /// One collapsible inter-word space; the only place wrapping may break.
    Glue,
    /// Forced line break: the next content starts on a new line.
    HardBreak,
    /// Paragraph separator: the next content starts after a blank line.
    ParagraphBreak,
    /// Preformatted block: emitted line by line with the current continuation indent,
    /// never wrapped, styled or whitespace-normalized, blank-line separated from its
    /// surroundings.
    Verbatim(String),
    /// Inline preformatted fragment: an unbreakable word emitted exactly as given.
    InlineVerbatim(String),
    /// Open a block context (see [`BlockKind`]).
    BlockStart(BlockKind),
    /// Close the innermost open block.
    BlockEnd,
    /// Column separator inside a table or matrix body (`&`); consumed by the table
    /// before layout, and laid out as [`Glue`](Self::Glue) should one escape.
    CellSep,
    /// Row separator inside a table or matrix body (`\\`); laid out as
    /// [`HardBreak`](Self::HardBreak) should one escape.
    RowSep,
    /// Horizontal rule marker inside a table body (`\hline`); laid out as
    /// [`HardBreak`](Self::HardBreak) should one escape.
    RuleMark,
}

impl View for FlowItem {
    type V = ItemView;

    open spec fn view(&self) -> ItemView {
        match self {
            FlowItem::Text(t) => ItemView::Text(t@),
            FlowItem::Glue => ItemView::Glue,
            FlowItem::HardBreak => ItemView::HardBreak,
            FlowItem::ParagraphBreak => ItemView::ParagraphBreak,
            FlowItem::Verbatim(t) => ItemView::Verbatim(t@),
            FlowItem::InlineVerbatim(t) => ItemView::InlineVerbatim(t@),
            FlowItem::BlockStart(k) => ItemView::BlockStart(k@),
            FlowItem::BlockEnd => ItemView::BlockEnd,
            FlowItem::CellSep => ItemView::CellSep,
            FlowItem::RowSep => ItemView::RowSep,
            FlowItem::RuleMark => ItemView::RuleMark,
        }
    }
}

/// The display width of a string in terminal columns, as `unicode-width` computes it.
pub uninterp spec fn str_width(text: Seq<char>) -> usize;

/// The display width of a string, in terminal columns
/// (`unicode_width::UnicodeWidthStr::width`).
///
/// This is the only place a width is computed: line wrapping, table column alignment
/// and heading underlines all call it, so they agree on what a wide CJK character, a
/// combining accent or a zero-width joiner costs. The contract names the result; beyond
/// that it states only that printable ASCII takes one column per character — every such
/// character is below U+00A0 and not part of the `"\r\n"` pair, so unicode-width counts
/// it as 1 — since everything else depends on unicode-width's tables.
#[verifier::external_body]
pub fn display_width(text: &str) -> (width: usize)
    ensures
        width == str_width(text@),
        (forall|i: int| 0 <= i < text@.len() ==> ' ' <= #[trigger] text@[i] <= '~') ==> width == text@.len(),
{
    unicode_width::UnicodeWidthStr::width(text)
}

/// The views of a sequence of items.
pub open spec fn items_view(items: Seq<FlowItem>) -> Seq<ItemView> {
    items.map_values(|item: FlowItem| item@)
}

/// A sequence of [`FlowItem`]s: what a handler produces and what layout renders.
///
/// Build one with [`Flow::text`], [`Flow::from_plain_text`], [`Flow::glue`] or
/// [`Flow::push`], and concatenate with [`Flow::extend`]: the empty flow and
/// concatenation make it a monoid.
#[derive(Clone, Debug)]
pub struct Flow(Vec<FlowItem>);

impl View for Flow {
    type V = Seq<ItemView>;

    closed spec fn view(&self) -> Seq<ItemView> {
        items_view(self.0@)
    }
}

/// Clone a flow item, keeping its value (`Clone` on the strings inside).
pub fn clone_item(item: &FlowItem) -> (copy: FlowItem)
    ensures
        copy@ == item@,
{
    match item {
        FlowItem::Text(t) => FlowItem::Text(t.clone()),
        FlowItem::Glue => FlowItem::Glue,
        FlowItem::HardBreak => FlowItem::HardBreak,
        FlowItem::ParagraphBreak => FlowItem::ParagraphBreak,
        FlowItem::Verbatim(t) => FlowItem::Verbatim(t.clone()),
        FlowItem::InlineVerbatim(t) => FlowItem::InlineVerbatim(t.clone()),
        FlowItem::BlockStart(BlockKind::Indent { first, cont }) => FlowItem::BlockStart(
            BlockKind::Indent { first: first.clone(), cont: cont.clone() },
        ),
        FlowItem::BlockStart(BlockKind::Item { first, cont }) => FlowItem::BlockStart(
            BlockKind::Item { first: first.clone(), cont: cont.clone() },
        ),
        FlowItem::BlockEnd => FlowItem::BlockEnd,
        FlowItem::CellSep => FlowItem::CellSep,
        FlowItem::RowSep => FlowItem::RowSep,
        FlowItem::RuleMark => FlowItem::RuleMark,
    }
}

/// What a run of whitespace becomes: a paragraph break if it holds two or more
/// newlines (a blank line in the source), one glue otherwise. `newlines` counts up to
/// two; more changes nothing.
pub open spec fn space_item(newlines: nat) -> ItemView {
    if newlines >= 2 {
        ItemView::ParagraphBreak
    } else {
        ItemView::Glue
    }
}

/// The run being accumulated while plain text is split.
pub enum PlainRun {
    /// Nothing yet: the start of the text.
    Start,
    /// A run of non-whitespace characters.
    Word(Seq<char>),
    /// A run of whitespace holding this many newlines (capped at two).
    Space(nat),
}

/// The newline count after one more whitespace character, capped at two.
pub open spec fn count_newline(newlines: nat, c: char) -> nat {
    if c == '\n' && newlines < 2 {
        newlines + 1
    } else {
        newlines
    }
}

/// One step of LaTeX's whitespace rule over plain text: the items closed so far and the
/// run still open, after reading `c`.
pub open spec fn plain_step(state: (Seq<ItemView>, PlainRun), c: char) -> (Seq<ItemView>, PlainRun) {
    let (items, run) = state;
    if is_white_space(c) {
        match run {
            PlainRun::Start => (items, PlainRun::Space(count_newline(0, c))),
            PlainRun::Word(w) => (items.push(ItemView::Text(w)), PlainRun::Space(count_newline(0, c))),
            PlainRun::Space(n) => (items, PlainRun::Space(count_newline(n, c))),
        }
    } else {
        match run {
            PlainRun::Start => (items, PlainRun::Word(seq![c])),
            PlainRun::Word(w) => (items, PlainRun::Word(w.push(c))),
            PlainRun::Space(n) => (items.push(space_item(n)), PlainRun::Word(seq![c])),
        }
    }
}

/// The state after reading all of `text`.
pub open spec fn plain_scan(text: Seq<char>) -> (Seq<ItemView>, PlainRun)
    decreases text.len(),
{
    if text.len() == 0 {
        (Seq::empty(), PlainRun::Start)
    } else {
        plain_step(plain_scan(text.drop_last()), text.last())
    }
}

/// Close the run still open at the end of the text.
pub open spec fn plain_close(state: (Seq<ItemView>, PlainRun)) -> Seq<ItemView> {
    let (items, run) = state;
    match run {
        PlainRun::Start => items,
        PlainRun::Word(w) => items.push(ItemView::Text(w)),
        PlainRun::Space(n) => items.push(space_item(n)),
    }
}

/// The flow of plain document text: each maximal run of non-whitespace is one `Text`
/// item, and each maximal run of whitespace is one `Glue` — or one `ParagraphBreak`
/// when the run holds two or more newlines.
pub open spec fn plain_text_items(text: Seq<char>) -> Seq<ItemView> {
    plain_close(plain_scan(text))
}

impl Flow {
    /// An empty flow.
    pub fn new() -> (flow: Flow)
        ensures
            flow@ == Seq::<ItemView>::empty(),
    {
        let flow = Flow(Vec::new());
        assert(flow@ =~= Seq::<ItemView>::empty());
        flow
    }

    /// Append one item.
    pub fn push(&mut self, item: FlowItem)
        ensures
            final(self)@ == old(self)@.push(item@),
    {
        self.0.push(item);
        assert(self@ =~= old(self)@.push(item@));
    }

    /// Append every item of `other`; this is the flow's monoid append.
    pub fn extend(&mut self, other: Flow)
        ensures
            final(self)@ == old(self)@ + other@,
    {
        let mut other = other;
        let mut rest = other.0;
        let ghost start = self@;
        self.0.append(&mut rest);
        assert(self@ =~= start + other@);
    }

    /// A flow holding exactly one [`FlowItem::Text`] with these contents.
    ///
    /// The text is not split: whatever is passed becomes a single item, and therefore a
    /// single unbreakable word. For document text that still contains spaces and
    /// newlines, use [`from_plain_text`](Self::from_plain_text).
    pub fn text(text: &str) -> (flow: Flow)
        ensures
            flow@ == seq![ItemView::Text(text@)],
    {
        let mut flow = Flow::new();
        flow.push(FlowItem::Text(text.to_owned()));
        flow
    }

    /// A flow holding exactly one [`FlowItem::Glue`].
    pub fn glue() -> (flow: Flow)
        ensures
            flow@ == seq![ItemView::Glue],
    {
        let mut flow = Flow::new();
        flow.push(FlowItem::Glue);
        flow
    }

    /// Split plain document text into words, glue and paragraph breaks.
    ///
    /// This is LaTeX's whitespace rule: runs of non-whitespace become `Text` items, and
    /// each run of whitespace becomes exactly one `Glue` — or one `ParagraphBreak` if
    /// the run contains two or more newlines. Whitespace is the Unicode `White_Space`
    /// property; only `'\n'` counts as a newline, so a `\r\n` pair counts as one.
    /// Leading and trailing whitespace produce leading and trailing glue.
    pub fn from_plain_text(text: &str) -> (flow: Flow)
        ensures
            flow@ == plain_text_items(text@),
    {
        let mut flow = Flow::new();
        let mut word = String::new();
        // 0: no run yet; 1: a word is open; 2: a whitespace run is open.
        let mut run: u8 = 0;
        let mut newlines: u8 = 0;
        let ghost chars = text@;
        let ghost mut index: int = 0;
        for c in it: text.chars()
            invariant
                chars == text@,
                it.seq() == chars,
                index == it.index(),
                run <= 2,
                newlines <= 2,
                ({
                    let (items, open) = plain_scan(chars.take(index));
                    &&& items == flow@
                    &&& match open {
                        PlainRun::Start => run == 0,
                        PlainRun::Word(w) => run == 1 && w == word@,
                        PlainRun::Space(n) => run == 2 && n == newlines as nat,
                    }
                }),
        {
            proof {
                assert(chars.take(index + 1).drop_last() =~= chars.take(index));
                assert(chars.take(index + 1).last() == c);
            }
            if char_is_whitespace(c) {
                if run == 1 {
                    let mut finished = String::new();
                    core::mem::swap(&mut word, &mut finished);
                    flow.push(FlowItem::Text(finished));
                    newlines = 0;
                } else if run == 0 {
                    newlines = 0;
                }
                if c == '\n' && newlines < 2 {
                    newlines = newlines + 1;
                }
                run = 2;
            } else {
                if run == 2 {
                    flow.push(if newlines >= 2 {
                        FlowItem::ParagraphBreak
                    } else {
                        FlowItem::Glue
                    });
                    word = String::new();
                } else if run == 0 {
                    word = String::new();
                }
                crate::text::push_char(&mut word, c);
                proof {
                    if run != 1 {
                        assert(word@ =~= seq![c]);
                    }
                }
                run = 1;
            }
            proof {
                index = index + 1;
            }
        }
        proof {
            assert(chars.take(index) =~= chars);
        }
        if run == 1 {
            flow.push(FlowItem::Text(word));
        } else if run == 2 {
            flow.push(if newlines >= 2 {
                FlowItem::ParagraphBreak
            } else {
                FlowItem::Glue
            });
        }
        flow
    }

    /// The items, in order.
    pub fn items(&self) -> (items: &[FlowItem])
        ensures
            items_view(items@) == self@,
    {
        self.0.as_slice()
    }

    /// Consume the flow and return its items.
    pub fn into_items(self) -> (items: Vec<FlowItem>)
        ensures
            items_view(items@) == self@,
    {
        self.0
    }

    /// How many items the flow holds.
    pub fn len(&self) -> (n: usize)
        ensures
            n == self@.len(),
    {
        self.0.len()
    }

    /// Whether the flow holds no items at all.
    ///
    /// This asks about *items*, not about output: a flow of one empty `Text` is not
    /// empty here, even though it renders to nothing.
    pub fn is_empty(&self) -> (b: bool)
        ensures
            b == (self@.len() == 0),
    {
        self.0.len() == 0
    }
}

impl Default for Flow {
    fn default() -> (flow: Flow)
        ensures
            flow@ == Seq::<ItemView>::empty(),
    {
        Flow::new()
    }
}

/// Concatenation is associative and the empty flow is its identity: the flow is a
/// monoid, which is what lets a fold append children's flows in any grouping.
pub proof fn lemma_flow_monoid(a: Seq<ItemView>, b: Seq<ItemView>, c: Seq<ItemView>)
    ensures
        (a + b) + c == a + (b + c),
        Seq::<ItemView>::empty() + a == a,
        a + Seq::<ItemView>::empty() == a,
{
    assert((a + b) + c =~= a + (b + c));
    assert(Seq::<ItemView>::empty() + a =~= a);
    assert(a + Seq::<ItemView>::empty() =~= a);
}

// ------------------------------------------------------------------ plain text, in words

/// The characters of a flow's words, in order, with nothing between them.
pub open spec fn words_of(items: Seq<ItemView>) -> Seq<char>
    decreases items.len(),
{
    if items.len() == 0 {
        Seq::empty()
    } else {
        words_of(items.drop_last()) + match items.last() {
            ItemView::Text(t) => t,
            _ => Seq::empty(),
        }
    }
}

/// `text` with its whitespace taken out.
pub open spec fn without_white_space(text: Seq<char>) -> Seq<char>
    decreases text.len(),
{
    if text.len() == 0 {
        Seq::empty()
    } else {
        without_white_space(text.drop_last()) + if is_white_space(text.last()) {
            Seq::empty()
        } else {
            seq![text.last()]
        }
    }
}

/// A word as plain text yields it: not empty, and holding no whitespace.
pub open spec fn solid_word(word: Seq<char>) -> bool {
    word.len() > 0 && forall|j: int| 0 <= j < word.len() ==> !is_white_space(#[trigger] word[j])
}

/// Whether an item is the separator plain text puts between words.
pub open spec fn is_space_item(item: ItemView) -> bool {
    item is Glue || item is ParagraphBreak
}

/// The shape plain text gives a flow: solid words and separators only, never two words
/// in a row and never two separators in a row.
pub open spec fn alternating(items: Seq<ItemView>) -> bool {
    &&& forall|i: int| 0 <= i < items.len() ==> match #[trigger] items[i] {
        ItemView::Text(t) => solid_word(t),
        other => is_space_item(other),
    }
    &&& forall|i: int| 0 <= i < items.len() - 1 ==> (#[trigger] items[i] is Text) != (items[i + 1] is Text)
}

/// What plain-text reading keeps true as it goes.
spec fn scan_shape(text: Seq<char>, state: (Seq<ItemView>, PlainRun)) -> bool {
    let (items, run) = state;
    &&& alternating(items)
    &&& words_of(items) + match run {
        PlainRun::Word(w) => w,
        _ => Seq::<char>::empty(),
    } == without_white_space(text)
    &&& match run {
        PlainRun::Start => items.len() == 0,
        PlainRun::Word(w) => solid_word(w) && (items.len() > 0 ==> !(items.last() is Text)),
        PlainRun::Space(n) => n <= 2 && (items.len() > 0 ==> items.last() is Text),
    }
}

proof fn lemma_words_of_push(items: Seq<ItemView>, item: ItemView)
    ensures
        words_of(items.push(item)) == words_of(items) + match item {
            ItemView::Text(t) => t,
            _ => Seq::empty(),
        },
{
    assert(items.push(item).drop_last() =~= items);
}

proof fn lemma_alternating_push(items: Seq<ItemView>, item: ItemView)
    requires
        alternating(items),
        match item {
            ItemView::Text(t) => solid_word(t),
            other => is_space_item(other),
        },
        items.len() > 0 ==> (items.last() is Text) != (item is Text),
    ensures
        alternating(items.push(item)),
{
    let pushed = items.push(item);
    assert forall|i: int| 0 <= i < pushed.len() implies match #[trigger] pushed[i] {
        ItemView::Text(t) => solid_word(t),
        other => is_space_item(other),
    } by {
        if i < items.len() {
            assert(pushed[i] == items[i]);
        }
    }
    assert forall|i: int| 0 <= i < pushed.len() - 1 implies (#[trigger] pushed[i] is Text) != (pushed[i + 1] is Text) by {
        assert(pushed[i] == items[i]);
        if i + 1 < items.len() {
            assert(pushed[i + 1] == items[i + 1]);
        } else {
            assert(items.last() == items[i]);
        }
    }
}

proof fn lemma_plain_scan_shape(text: Seq<char>)
    ensures
        scan_shape(text, plain_scan(text)),
    decreases text.len(),
{
    if text.len() == 0 {
        assert(words_of(Seq::<ItemView>::empty()) + Seq::<char>::empty() =~= Seq::<char>::empty());
    } else {
        let prefix = text.drop_last();
        let c = text.last();
        lemma_plain_scan_shape(prefix);
        let (items, run) = plain_scan(prefix);
        let strip = without_white_space(prefix);
        if is_white_space(c) {
            assert(without_white_space(text) =~= strip);
            match run {
                PlainRun::Start => {},
                PlainRun::Word(w) => {
                    lemma_words_of_push(items, ItemView::Text(w));
                    lemma_alternating_push(items, ItemView::Text(w));
                    assert(words_of(items.push(ItemView::Text(w))) + Seq::<char>::empty() =~= strip);
                },
                PlainRun::Space(n) => {},
            }
        } else {
            assert(without_white_space(text) =~= strip + seq![c]);
            match run {
                PlainRun::Start => {
                    assert(words_of(items) + seq![c] =~= strip + seq![c]);
                },
                PlainRun::Word(w) => {
                    assert(words_of(items) + w.push(c) =~= (words_of(items) + w) + seq![c]);
                    assert forall|j: int| 0 <= j < w.push(c).len() implies !is_white_space(#[trigger] w.push(c)[j]) by {
                        if j < w.len() {
                            assert(w.push(c)[j] == w[j]);
                        }
                    }
                },
                PlainRun::Space(n) => {
                    let sep = space_item(n);
                    lemma_words_of_push(items, sep);
                    lemma_alternating_push(items, sep);
                    assert(words_of(items.push(sep)) =~= words_of(items));
                    assert(words_of(items.push(sep)) + seq![c] =~= strip + seq![c]);
                },
            }
        }
    }
}

/// Plain text becomes words and separators: the words, in order, are the text with its
/// whitespace taken out; no word is empty or holds whitespace; and words and separators
/// alternate, so no two words stand together and no two separators do — each word is a
/// maximal run of the text's non-whitespace.
pub proof fn lemma_plain_text_is_words_and_separators(text: Seq<char>)
    ensures
        words_of(plain_text_items(text)) == without_white_space(text),
        alternating(plain_text_items(text)),
{
    lemma_plain_scan_shape(text);
    let (items, run) = plain_scan(text);
    match run {
        PlainRun::Start => {
            assert(words_of(items) + Seq::<char>::empty() =~= words_of(items));
        },
        PlainRun::Word(w) => {
            lemma_words_of_push(items, ItemView::Text(w));
            lemma_alternating_push(items, ItemView::Text(w));
        },
        PlainRun::Space(n) => {
            lemma_words_of_push(items, space_item(n));
            lemma_alternating_push(items, space_item(n));
            assert(words_of(items.push(space_item(n))) =~= words_of(items) + Seq::<char>::empty());
            assert(words_of(items) + Seq::<char>::empty() =~= words_of(items));
        },
    }
}

} // verus!
