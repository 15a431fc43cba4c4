//! The layout engine: one pass over a [`Flow`] that decides every line break, blank
//! line and indent.
//!
//! One pass, with an indent stack, a current column, a pending-glue flag and a
//! pending-separation level:
//!
//! 1. **Words.** Adjacent `Text` items (and `InlineVerbatim`) accumulate into one
//!    unbreakable word. When the word is emitted and glue is pending, the engine breaks
//!    the line instead of writing the space if the word would not fit
//!    (`col + 1 + width > wrap_width`). A word that does not fit even on a fresh line
//!    overflows; it is never split.
//! 2. **Glue collapses.** Consecutive glue is one potential break, and glue at the start
//!    or end of a line is dropped.
//! 3. **Vertical separation is normalized here and only here.** Every request raises a
//!    pending level, and consecutive requests merge (take the maximum) rather than sum.
//! 4. **Blocks.** A `BlockStart` pushes its `(first, cont)` prefixes. A line's prefix is
//!    the `cont` of every enclosing block followed by the innermost block's `first` — or
//!    its `cont` once that block has produced a line. An `Item` block closes a previous
//!    `Item` that is still the innermost open block.
//! 5. **Verbatim** is emitted line by line with the current continuation indent and
//!    nothing else: never wrapped, trimmed or normalized, blank-line separated from its
//!    surroundings.
//! 6. **No wrapping is the same pass** with the width comparison skipped.
//!
//! The pass is specified below as a state machine over [`EngineView`]: [`step`] is one
//! item, [`run`] folds a sequence, and [`render_spec`] is the text of a whole flow.
//! [`render`] is proved to produce exactly that text, and the laws at the end of the
//! module are proved about it.

use vstd::prelude::*;

use crate::flow::{
    display_width, items_view, str_width, BlockKind, BlockView, Flow, FlowItem, ItemView,
};
use crate::text::{char_is_whitespace, chars_of, is_white_space, push_char, string_of};

verus! {

/// How to lay a [`Flow`] out.
#[derive(Clone, Debug)]
pub struct LayoutOptions {
    /// Wrap lines to this display width, or `None` (the default) not to wrap at all.
    ///
    /// The width is measured in terminal columns and includes block prefixes. A word
    /// that does not fit on a fresh line is emitted anyway, overflowing the width.
    pub wrap_width: Option<usize>,
}

impl Default for LayoutOptions {
    fn default() -> (opts: LayoutOptions)
        ensures
            opts.wrap_width is None,
    {
        LayoutOptions { wrap_width: None }
    }
}

/// How strongly something wants to be separated from what precedes it.
#[derive(Clone, Copy, Debug, PartialEq, Eq, Structural)]
pub enum Sep {
    /// Stay on the current line.
    Stay,
    /// Continue on the next line.
    Line,
    /// Continue after one blank line.
    Blank,
}

/// The strength of a separation request; merging two requests keeps the stronger.
pub open spec fn sep_rank(sep: Sep) -> int {
    match sep {
        Sep::Stay => 0,
        Sep::Line => 1,
        Sep::Blank => 2,
    }
}

/// One open block, as a mathematical value.
pub struct FrameView {
    pub first: Seq<char>,
    pub cont: Seq<char>,
    pub is_item: bool,
}

/// The engine's whole state, as a mathematical value.
///
/// `used` counts the leading frames whose `first` prefix has been spent: opening a line
/// spends every open frame's, and a frame pushed afterwards starts unspent, so the
/// unspent frames are always a suffix of the stack.
pub struct EngineView {
    pub out: Seq<char>,
    pub wrap: Option<usize>,
    pub frames: Seq<FrameView>,
    pub used: nat,
    pub word: Seq<char>,
    pub col: usize,
    pub line_open: bool,
    pub wrote_any: bool,
    pub pending_glue: bool,
    pub pending_sep: Sep,
}

/// The state before anything has been laid out.
pub open spec fn initial(wrap: Option<usize>) -> EngineView {
    EngineView {
        out: Seq::empty(),
        wrap,
        frames: Seq::empty(),
        used: 0,
        word: Seq::empty(),
        col: 0,
        line_open: false,
        wrote_any: false,
        pending_glue: false,
        pending_sep: Sep::Stay,
    }
}

/// Record a request for vertical separation, merging it with any pending one. Glue never
/// survives across a break, and nothing is separated from the start of the document.
pub open spec fn request_sep(s: EngineView, sep: Sep) -> EngineView {
    if s.wrote_any && sep_rank(sep) > sep_rank(s.pending_sep) {
        EngineView { pending_glue: false, pending_sep: sep, ..s }
    } else {
        EngineView { pending_glue: false, ..s }
    }
}

/// Act on the pending separation request, leaving the cursor at the start of a line.
pub open spec fn flush_sep(s: EngineView) -> EngineView {
    if s.pending_sep == Sep::Stay {
        s
    } else {
        let out1 = if s.line_open { s.out.push('\n') } else { s.out };
        let col1: usize = if s.line_open { 0 } else { s.col };
        let out2 = if s.pending_sep == Sep::Blank { out1.push('\n') } else { out1 };
        EngineView {
            out: out2,
            col: col1,
            line_open: false,
            pending_sep: Sep::Stay,
            pending_glue: false,
            ..s
        }
    }
}

/// The prefix frame `i` contributes to a new line: the innermost frame's `first` while
/// it is unspent, every other frame's `cont`.
pub open spec fn prefix_piece(frames: Seq<FrameView>, used: nat, i: int) -> Seq<char> {
    if i == frames.len() - 1 && used <= i {
        frames[i].first
    } else {
        frames[i].cont
    }
}

/// The prefix of the first `n` frames.
pub open spec fn prefix_text(frames: Seq<FrameView>, used: nat, n: nat) -> Seq<char>
    decreases n,
{
    if n == 0 {
        Seq::empty()
    } else {
        prefix_text(frames, used, (n - 1) as nat) + prefix_piece(frames, used, n - 1)
    }
}

/// The width the engine counts for the prefix of the first `n` frames.
pub open spec fn prefix_width(frames: Seq<FrameView>, used: nat, n: nat) -> usize
    decreases n,
{
    if n == 0 {
        0
    } else {
        prefix_width(frames, used, (n - 1) as nat).saturating_add(
            str_width(prefix_piece(frames, used, n - 1)),
        )
    }
}

/// Start a line by writing its prefix, spending every open frame's `first`.
pub open spec fn open_line(s: EngineView) -> EngineView {
    EngineView {
        out: s.out + prefix_text(s.frames, s.used, s.frames.len()),
        col: prefix_width(s.frames, s.used, s.frames.len()),
        used: s.frames.len(),
        line_open: true,
        ..s
    }
}

/// Whether a word of `width` columns still fits after one space on the current line.
pub open spec fn fits(s: EngineView, width: usize) -> bool {
    match s.wrap {
        Some(w) => s.col.saturating_add(1).saturating_add(width) <= w,
        None => true,
    }
}

/// Write one unbreakable word, breaking the line first if it does not fit.
pub open spec fn emit_word(s: EngineView, word: Seq<char>) -> EngineView {
    if word.len() == 0 {
        s
    } else {
        let s1 = flush_sep(s);
        let width = str_width(word);
        let s2 = if !s1.line_open {
            EngineView { pending_glue: false, ..open_line(s1) }
        } else if s1.pending_glue {
            if fits(s1, width) {
                EngineView { out: s1.out.push(' '), col: s1.col.saturating_add(1), pending_glue: false, ..s1 }
            } else {
                open_line(
                    EngineView { out: s1.out.push('\n'), col: 0, line_open: false, pending_glue: false, ..s1 },
                )
            }
        } else {
            s1
        };
        EngineView { out: s2.out + word, col: s2.col.saturating_add(width), wrote_any: true, ..s2 }
    }
}

/// Emit the accumulated word, if any.
pub open spec fn flush_word(s: EngineView) -> EngineView {
    emit_word(EngineView { word: Seq::empty(), ..s }, s.word)
}

/// One line of a verbatim payload: the indent and the line, unless the line is empty,
/// then the newline.
pub open spec fn verbatim_line(indent: Seq<char>, line: Seq<char>) -> Seq<char> {
    (if line.len() > 0 { indent + line } else { Seq::empty() }).push('\n')
}

/// The lines of `body` already completed, and the line still being read.
pub open spec fn verbatim_scan(indent: Seq<char>, body: Seq<char>) -> (Seq<char>, Seq<char>)
    decreases body.len(),
{
    if body.len() == 0 {
        (Seq::empty(), Seq::empty())
    } else {
        let (done, line) = verbatim_scan(indent, body.drop_last());
        if body.last() == '\n' {
            (done + verbatim_line(indent, line), Seq::empty())
        } else {
            (done, line.push(body.last()))
        }
    }
}

/// A verbatim body laid out: every line, indented when it is not empty, ended by a
/// newline.
pub open spec fn verbatim_text(indent: Seq<char>, body: Seq<char>) -> Seq<char> {
    let (done, line) = verbatim_scan(indent, body);
    done + verbatim_line(indent, line)
}

/// A payload without its trailing newline, which terminates the last line rather than
/// starting an empty one.
pub open spec fn verbatim_body(payload: Seq<char>) -> Seq<char> {
    if payload.len() > 0 && payload.last() == '\n' {
        payload.drop_last()
    } else {
        payload
    }
}

/// The continuation prefixes of the first `n` frames.
pub open spec fn cont_indent(frames: Seq<FrameView>, n: nat) -> Seq<char>
    decreases n,
{
    if n == 0 {
        Seq::empty()
    } else {
        cont_indent(frames, (n - 1) as nat) + frames[n - 1].cont
    }
}

/// Emit a nonempty verbatim block, blank-line separated from its surroundings.
pub open spec fn verbatim(s: EngineView, payload: Seq<char>) -> EngineView {
    let s1 = flush_sep(request_sep(s, Sep::Blank));
    let text = verbatim_text(cont_indent(s1.frames, s1.frames.len()), verbatim_body(payload));
    request_sep(
        EngineView { out: s1.out + text, line_open: false, col: 0, wrote_any: true, ..s1 },
        Sep::Blank,
    )
}

/// Close the innermost open block; an unmatched close is dropped.
pub open spec fn pop_frame(s: EngineView) -> EngineView {
    if s.frames.len() > 0 {
        let n = (s.frames.len() - 1) as nat;
        EngineView {
            frames: s.frames.drop_last(),
            used: if s.used < n { s.used } else { n },
            ..s
        }
    } else {
        s
    }
}

/// The frame a block opens.
pub open spec fn frame_of(kind: BlockView) -> FrameView {
    match kind {
        BlockView::Indent { first, cont } => FrameView { first, cont, is_item: false },
        BlockView::Item { first, cont } => FrameView { first, cont, is_item: true },
    }
}

/// Open a block: a new item closes an item that is still the innermost block.
pub open spec fn open_block(s: EngineView, kind: BlockView) -> EngineView {
    let frame = frame_of(kind);
    let s1 = flush_word(s);
    let s2 = if frame.is_item && s1.frames.len() > 0 && s1.frames.last().is_item {
        pop_frame(s1)
    } else {
        s1
    };
    let s3 = request_sep(s2, Sep::Line);
    EngineView { frames: s3.frames.push(frame), ..s3 }
}

/// The engine after one item.
pub open spec fn step(s: EngineView, item: ItemView) -> EngineView {
    match item {
        ItemView::Text(t) => EngineView { word: s.word + t, ..s },
        ItemView::InlineVerbatim(t) => EngineView { word: s.word + t, ..s },
        ItemView::Glue => EngineView { pending_glue: true, ..flush_word(s) },
        ItemView::CellSep => EngineView { pending_glue: true, ..flush_word(s) },
        ItemView::HardBreak => request_sep(flush_word(s), Sep::Line),
        ItemView::RowSep => request_sep(flush_word(s), Sep::Line),
        ItemView::RuleMark => request_sep(flush_word(s), Sep::Line),
        ItemView::ParagraphBreak => request_sep(flush_word(s), Sep::Blank),
        ItemView::BlockStart(kind) => open_block(s, kind),
        ItemView::BlockEnd => request_sep(pop_frame(flush_word(s)), Sep::Line),
        ItemView::Verbatim(p) => if p.len() == 0 {
            s
        } else {
            verbatim(flush_word(s), p)
        },
    }
}

/// The engine after a sequence of items.
pub open spec fn run(s: EngineView, items: Seq<ItemView>) -> EngineView
    decreases items.len(),
{
    if items.len() == 0 {
        s
    } else {
        step(run(s, items.drop_last()), items.last())
    }
}

/// Terminate the output: one trailing newline if a line is open, and no trailing blank
/// line (a pending separation request simply expires).
pub open spec fn finish(s: EngineView) -> EngineView {
    let s1 = flush_word(s);
    if s1.line_open {
        EngineView { out: s1.out.push('\n'), line_open: false, ..s1 }
    } else {
        s1
    }
}

/// The text a flow lays out to.
pub open spec fn render_spec(items: Seq<ItemView>, wrap: Option<usize>) -> Seq<char> {
    finish(run(initial(wrap), items)).out
}

// ------------------------------------------------------------------ the executable pass

/// One open block on the indent stack.
struct Frame {
    first: String,
    cont: String,
    is_item: bool,
}

impl View for Frame {
    type V = FrameView;

    closed spec fn view(&self) -> FrameView {
        FrameView { first: self.first@, cont: self.cont@, is_item: self.is_item }
    }
}

/// The single-pass renderer.
struct Engine {
    out: String,
    wrap_width: Option<usize>,
    frames: Vec<Frame>,
    used: usize,
    word: String,
    col: usize,
    line_open: bool,
    wrote_any: bool,
    pending_glue: bool,
    pending_sep: Sep,
}

impl View for Engine {
    type V = EngineView;

    closed spec fn view(&self) -> EngineView {
        EngineView {
            out: self.out@,
            wrap: self.wrap_width,
            frames: self.frames@.map_values(|f: Frame| f@),
            used: self.used as nat,
            word: self.word@,
            col: self.col,
            line_open: self.line_open,
            wrote_any: self.wrote_any,
            pending_glue: self.pending_glue,
            pending_sep: self.pending_sep,
        }
    }
}

impl Engine {
    spec fn inv(&self) -> bool {
        self.used <= self.frames@.len()
    }

    fn new(wrap_width: Option<usize>) -> (engine: Engine)
        ensures
            engine@ == initial(wrap_width),
            engine.inv(),
    {
        let engine = Engine {
            out: String::new(),
            wrap_width,
            frames: Vec::new(),
            used: 0,
            word: String::new(),
            col: 0,
            line_open: false,
            wrote_any: false,
            pending_glue: false,
            pending_sep: Sep::Stay,
        };
        assert(engine@.frames =~= Seq::<FrameView>::empty());
        engine
    }

    fn request_sep(&mut self, sep: Sep)
        requires
            old(self).inv(),
        ensures
            final(self)@ == request_sep(old(self)@, sep),
            final(self).inv(),
    {
        self.pending_glue = false;
        if !self.wrote_any {
            return;
        }
        let greater = match (sep, self.pending_sep) {
            (Sep::Line, Sep::Stay) => true,
            (Sep::Blank, Sep::Stay) => true,
            (Sep::Blank, Sep::Line) => true,
            _ => false,
        };
        if greater {
            self.pending_sep = sep;
        }
    }

    fn flush_sep(&mut self)
        requires
            old(self).inv(),
        ensures
            final(self)@ == flush_sep(old(self)@),
            final(self).inv(),
    {
        if self.pending_sep == Sep::Stay {
            return;
        }
        if self.line_open {
            push_char(&mut self.out, '\n');
            self.line_open = false;
            self.col = 0;
        }
        if self.pending_sep == Sep::Blank {
            push_char(&mut self.out, '\n');
        }
        self.pending_sep = Sep::Stay;
        self.pending_glue = false;
    }

    fn open_line(&mut self)
        requires
            old(self).inv(),
        ensures
            final(self)@ == open_line(old(self)@),
            final(self).inv(),
    {
        let ghost s = self@;
        let n = self.frames.len();
        let mut width: usize = 0;
        let mut i: usize = 0;
        while i < n
            invariant
                s == old(self)@,
                n == self.frames@.len(),
                self.frames@.map_values(|f: Frame| f@) == s.frames,
                self.used == s.used,
                self.used <= n,
                self.wrap_width == s.wrap,
                self.word@ == s.word,
                self.col == s.col,
                self.line_open == s.line_open,
                self.wrote_any == s.wrote_any,
                self.pending_glue == s.pending_glue,
                self.pending_sep == s.pending_sep,
                0 <= i <= n,
                self.out@ == s.out + prefix_text(s.frames, s.used, i as nat),
                width == prefix_width(s.frames, s.used, i as nat),
            decreases n - i,
        {
            let piece: &str = if i + 1 == n && self.used <= i {
                self.frames[i].first.as_str()
            } else {
                self.frames[i].cont.as_str()
            };
            proof {
                assert(s.frames[i as int] == self.frames@[i as int]@);
                assert(piece@ == prefix_piece(s.frames, s.used, i as int));
            }
            self.out.append(piece);
            width = width.saturating_add(display_width(piece));
            proof {
                assert(s.out + prefix_text(s.frames, s.used, (i + 1) as nat) =~= s.out
                    + prefix_text(s.frames, s.used, i as nat) + piece@);
            }
            i = i + 1;
        }
        self.col = width;
        self.used = n;
        self.line_open = true;
    }

    fn emit_word(&mut self, word: &str)
        requires
            old(self).inv(),
        ensures
            final(self)@ == emit_word(old(self)@, word@),
            final(self).inv(),
    {
        if word.is_empty() {
            return;
        }
        self.flush_sep();
        let width = display_width(word);
        if !self.line_open {
            self.open_line();
            self.pending_glue = false;
        } else if self.pending_glue {
            self.pending_glue = false;
            let wrap = match self.wrap_width {
                Some(w) => self.col.saturating_add(1).saturating_add(width) > w,
                None => false,
            };
            if wrap {
                push_char(&mut self.out, '\n');
                self.line_open = false;
                self.col = 0;
                self.open_line();
            } else {
                push_char(&mut self.out, ' ');
                self.col = self.col.saturating_add(1);
            }
        }
        self.out.append(word);
        self.col = self.col.saturating_add(width);
        self.wrote_any = true;
    }

    fn flush_word(&mut self)
        requires
            old(self).inv(),
        ensures
            final(self)@ == flush_word(old(self)@),
            final(self).inv(),
    {
        let mut word = String::new();
        core::mem::swap(&mut word, &mut self.word);
        self.emit_word(word.as_str());
    }
}


impl Engine {
    fn write_verbatim_line(&mut self, indent: &String, line: &String)
        requires
            old(self).inv(),
        ensures
            final(self)@ == (EngineView { out: old(self)@.out + verbatim_line(indent@, line@), ..old(self)@ }),
            final(self).inv(),
    {
        let ghost start = self.out@;
        if !line.as_str().is_empty() {
            self.out.append(indent.as_str());
            self.out.append(line.as_str());
        }
        push_char(&mut self.out, '\n');
        proof {
            assert(self.out@ =~= start + verbatim_line(indent@, line@));
        }
    }

    /// The continuation prefixes of every open frame.
    fn cont_indent(&self) -> (indent: String)
        ensures
            indent@ == cont_indent(self@.frames, self@.frames.len()),
    {
        let ghost frames = self@.frames;
        let mut indent = String::new();
        let n = self.frames.len();
        let mut i: usize = 0;
        while i < n
            invariant
                frames == self@.frames,
                n == frames.len(),
                0 <= i <= n,
                indent@ == cont_indent(frames, i as nat),
            decreases n - i,
        {
            proof {
                assert(frames[i as int] == self.frames@[i as int]@);
            }
            indent.append(self.frames[i].cont.as_str());
            i = i + 1;
        }
        indent
    }

    fn verbatim(&mut self, payload: &str)
        requires
            old(self).inv(),
            payload@.len() > 0,
        ensures
            final(self)@ == verbatim(old(self)@, payload@),
            final(self).inv(),
    {
        self.request_sep(Sep::Blank);
        self.flush_sep();
        let ghost s1 = self@;
        let indent = self.cont_indent();

        let mut chars: Vec<char> = Vec::new();
        let ghost mut index: int = 0;
        for c in it: payload.chars()
            invariant
                it.seq() == payload@,
                index == it.index(),
                chars@ == payload@.take(index),
        {
            chars.push(c);
            proof {
                assert(chars@ =~= payload@.take(index + 1));
                index = index + 1;
            }
        }
        proof {
            assert(chars@ =~= payload@);
        }
        let mut body_len = chars.len();
        if body_len > 0 && chars[body_len - 1] == '\n' {
            body_len = body_len - 1;
        }
        let ghost body = chars@.take(body_len as int);
        proof {
            assert(body =~= verbatim_body(payload@));
        }

        let mut line = String::new();
        let mut j: usize = 0;
        while j < body_len
            invariant
                self.inv(),
                body_len <= chars@.len(),
                body == chars@.take(body_len as int),
                0 <= j <= body_len,
                self@ == (EngineView {
                    out: s1.out + verbatim_scan(indent@, body.take(j as int)).0,
                    ..s1
                }),
                line@ == verbatim_scan(indent@, body.take(j as int)).1,
            decreases body_len - j,
        {
            let c = chars[j];
            proof {
                assert(body.take(j + 1).drop_last() =~= body.take(j as int));
                assert(body.take(j + 1).last() == c);
            }
            if c == '\n' {
                self.write_verbatim_line(&indent, &line);
                line = String::new();
                proof {
                    assert(line@ =~= Seq::<char>::empty());
                }
            } else {
                push_char(&mut line, c);
            }
            proof {
                assert(self@.out =~= s1.out + verbatim_scan(indent@, body.take(j + 1)).0);
            }
            j = j + 1;
        }
        proof {
            assert(body.take(body_len as int) =~= body);
        }
        self.write_verbatim_line(&indent, &line);
        proof {
            assert(self@.out =~= s1.out + verbatim_text(indent@, body));
        }
        self.line_open = false;
        self.col = 0;
        self.wrote_any = true;
        self.request_sep(Sep::Blank);
    }

    fn pop_frame(&mut self)
        requires
            old(self).inv(),
        ensures
            final(self)@ == pop_frame(old(self)@),
            final(self).inv(),
    {
        let n = self.frames.len();
        if n > 0 {
            let ghost before = self.frames@;
            let _ = self.frames.pop();
            if self.used > n - 1 {
                self.used = n - 1;
            }
            proof {
                assert(self.frames@.map_values(|f: Frame| f@) =~= before.map_values(
                    |f: Frame| f@,
                ).drop_last());
            }
        }
    }

    fn open_block(&mut self, kind: &BlockKind)
        requires
            old(self).inv(),
        ensures
            final(self)@ == open_block(old(self)@, kind@),
            final(self).inv(),
    {
        let frame = match kind {
            BlockKind::Indent { first, cont } => Frame {
                first: first.clone(),
                cont: cont.clone(),
                is_item: false,
            },
            BlockKind::Item { first, cont } => Frame {
                first: first.clone(),
                cont: cont.clone(),
                is_item: true,
            },
        };
        proof {
            assert(frame@ == frame_of(kind@));
        }
        self.flush_word();
        let n = self.frames.len();
        if frame.is_item && n > 0 && self.frames[n - 1].is_item {
            proof {
                assert(self@.frames.last() == self.frames@[n - 1]@);
            }
            self.pop_frame();
        } else {
            proof {
                if n > 0 {
                    assert(self@.frames.last() == self.frames@[n - 1]@);
                }
            }
        }
        self.request_sep(Sep::Line);
        let ghost before = self.frames@;
        self.frames.push(frame);
        proof {
            assert(self.frames@.map_values(|f: Frame| f@) =~= before.map_values(|f: Frame| f@).push(
                frame@,
            ));
        }
    }

    fn item(&mut self, item: &FlowItem)
        requires
            old(self).inv(),
        ensures
            final(self)@ == step(old(self)@, item@),
            final(self).inv(),
    {
        match item {
            FlowItem::Text(text) => {
                self.word.append(text.as_str());
            },
            FlowItem::InlineVerbatim(text) => {
                self.word.append(text.as_str());
            },
            FlowItem::Glue => {
                self.flush_word();
                self.pending_glue = true;
            },
            FlowItem::CellSep => {
                self.flush_word();
                self.pending_glue = true;
            },
            FlowItem::HardBreak => {
                self.flush_word();
                self.request_sep(Sep::Line);
            },
            FlowItem::RowSep => {
                self.flush_word();
                self.request_sep(Sep::Line);
            },
            FlowItem::RuleMark => {
                self.flush_word();
                self.request_sep(Sep::Line);
            },
            FlowItem::ParagraphBreak => {
                self.flush_word();
                self.request_sep(Sep::Blank);
            },
            FlowItem::BlockStart(kind) => {
                self.open_block(kind);
            },
            FlowItem::BlockEnd => {
                self.flush_word();
                self.pop_frame();
                self.request_sep(Sep::Line);
            },
            FlowItem::Verbatim(payload) => {
                if !payload.as_str().is_empty() {
                    self.flush_word();
                    self.verbatim(payload.as_str());
                }
            },
        }
    }

    fn finish(&mut self)
        requires
            old(self).inv(),
        ensures
            final(self)@ == finish(old(self)@),
            final(self).inv(),
    {
        self.flush_word();
        if self.line_open {
            push_char(&mut self.out, '\n');
            self.line_open = false;
        }
    }
}

/// Render a flow to a [`String`].
pub fn render(flow: &Flow, opts: &LayoutOptions) -> (text: String)
    ensures
        text@ == render_spec(flow@, opts.wrap_width),
{
    let mut engine = Engine::new(opts.wrap_width);
    let items = flow.items();
    let ghost view = items_view(items@);
    let n = items.len();
    let mut i: usize = 0;
    while i < n
        invariant
            view == items_view(items@),
            view == flow@,
            n == items@.len(),
            0 <= i <= n,
            engine.inv(),
            engine@ == run(initial(opts.wrap_width), view.take(i as int)),
        decreases n - i,
    {
        proof {
            assert(view.take(i + 1).drop_last() =~= view.take(i as int));
            assert(view.take(i + 1).last() == items@[i as int]@);
        }
        engine.item(&items[i]);
        i = i + 1;
    }
    proof {
        assert(view.take(n as int) =~= view);
    }
    engine.finish();
    engine.out
}

// ----------------------------------------------------------------------- one-line form

/// Leading whitespace removed (the Unicode `White_Space` property).
pub open spec fn trim_front(text: Seq<char>) -> Seq<char>
    decreases text.len(),
{
    if text.len() > 0 && is_white_space(text[0]) {
        trim_front(text.drop_first())
    } else {
        text
    }
}

/// Trailing whitespace removed.
pub open spec fn trim_back(text: Seq<char>) -> Seq<char>
    decreases text.len(),
{
    if text.len() > 0 && is_white_space(text.last()) {
        trim_back(text.drop_last())
    } else {
        text
    }
}

/// Leading and trailing whitespace removed (`str::trim`).
pub open spec fn trim(text: Seq<char>) -> Seq<char> {
    trim_back(trim_front(text))
}

/// Skipping `k` leading whitespace characters, up to one that is not, is trimming the
/// front.
pub proof fn lemma_trim_front_at(text: Seq<char>, k: int)
    requires
        0 <= k <= text.len(),
        forall|j: int| 0 <= j < k ==> is_white_space(#[trigger] text[j]),
        k < text.len() ==> !is_white_space(text[k]),
    ensures
        trim_front(text) == text.skip(k),
    decreases k,
{
    if k == 0 {
        assert(text.skip(0) =~= text);
    } else {
        let rest = text.drop_first();
        assert forall|j: int| 0 <= j < k - 1 implies is_white_space(#[trigger] rest[j]) by {
            assert(rest[j] == text[j + 1]);
        }
        if k - 1 < rest.len() {
            assert(rest[k - 1] == text[k]);
        }
        lemma_trim_front_at(rest, k - 1);
        assert(rest.skip(k - 1) =~= text.skip(k));
    }
}

/// Dropping trailing whitespace down to position `k`, past one that is not, is trimming
/// the back.
pub proof fn lemma_trim_back_at(text: Seq<char>, k: int)
    requires
        0 <= k <= text.len(),
        forall|j: int| k <= j < text.len() ==> is_white_space(#[trigger] text[j]),
        k > 0 ==> !is_white_space(text[k - 1]),
    ensures
        trim_back(text) == text.take(k),
    decreases text.len() - k,
{
    if k == text.len() {
        assert(text.take(k) =~= text);
    } else {
        let rest = text.drop_last();
        assert forall|j: int| k <= j < rest.len() implies is_white_space(#[trigger] rest[j]) by {
            assert(rest[j] == text[j]);
        }
        if k > 0 {
            assert(rest[k - 1] == text[k - 1]);
        }
        assert(is_white_space(text[text.len() - 1]));
        lemma_trim_back_at(rest, k);
        assert(rest.take(k) =~= text.take(k));
    }
}

/// Where the whitespace at the end of `chars[from..]` starts.
pub(crate) fn back_end(chars: &[char], from: usize) -> (end: usize)
    requires
        from <= chars@.len(),
    ensures
        from <= end <= chars@.len(),
        forall|j: int| end <= j < chars@.len() ==> is_white_space(#[trigger] chars@[j]),
        end > from ==> !is_white_space(chars@[end - 1]),
{
    let mut end = chars.len();
    while end > from && char_is_whitespace(chars[end - 1])
        invariant
            from <= end <= chars@.len(),
            forall|j: int| end <= j < chars@.len() ==> is_white_space(#[trigger] chars@[j]),
        decreases end,
    {
        end = end - 1;
    }
    end
}

/// `text` without its leading and trailing whitespace (`str::trim`, into a new string).
fn trimmed(text: &str) -> (out: String)
    ensures
        out@ == trim(text@),
{
    let chars = chars_of(text);
    let mut start: usize = 0;
    while start < chars.len() && char_is_whitespace(chars[start])
        invariant
            start <= chars@.len(),
            forall|j: int| 0 <= j < start ==> is_white_space(#[trigger] chars@[j]),
        decreases chars@.len() - start,
    {
        start = start + 1;
    }
    let end = back_end(chars.as_slice(), start);
    proof {
        lemma_trim_front_at(text@, start as int);
        let front = text@.skip(start as int);
        assert forall|j: int| end - start <= j < front.len() implies is_white_space(#[trigger] front[j]) by {
            assert(front[j] == chars@[start + j]);
        }
        if end > start {
            assert(front[end - start - 1] == chars@[end - 1]);
        }
        lemma_trim_back_at(front, end - start);
        assert(front.take(end - start) =~= chars@.subrange(start as int, end as int));
    }
    string_of(chars.as_slice(), start, end)
}

/// Append one word to a one-line rendering, honouring the pending separator.
pub open spec fn inline_word(state: (Seq<char>, bool), word: Seq<char>) -> (Seq<char>, bool) {
    let (out, pending) = state;
    if word.len() == 0 {
        state
    } else {
        ((if pending && out.len() > 0 { out.push(' ') } else { out }) + word, false)
    }
}

/// A verbatim payload on one line: its newlines become spaces.
pub open spec fn flatten_newlines(text: Seq<char>) -> Seq<char> {
    text.map_values(|c: char| if c == '\n' { ' ' } else { c })
}

/// One item of a one-line rendering.
pub open spec fn inline_step(state: (Seq<char>, bool), item: ItemView) -> (Seq<char>, bool) {
    let (out, pending) = state;
    match item {
        ItemView::Text(t) => inline_word(state, t),
        ItemView::InlineVerbatim(t) => inline_word(state, t),
        ItemView::Verbatim(p) => if p.len() == 0 {
            state
        } else {
            ((if out.len() > 0 { out.push(' ') } else { out }) + flatten_newlines(p), true)
        },
        _ => (out, true),
    }
}

/// The one-line rendering of a sequence of items, before trimming.
pub open spec fn inline_run(items: Seq<ItemView>) -> (Seq<char>, bool)
    decreases items.len(),
{
    if items.len() == 0 {
        (Seq::empty(), false)
    } else {
        inline_step(inline_run(items.drop_last()), items.last())
    }
}

/// The one-line rendering of a flow.
pub open spec fn render_inline_spec(items: Seq<ItemView>) -> Seq<char> {
    trim(inline_run(items).0)
}

/// Append a word to a one-line rendering.
fn push_inline_word(out: &mut String, pending_space: &mut bool, word: &str)
    ensures
        (final(out)@, *final(pending_space)) == inline_word((old(out)@, *old(pending_space)), word@),
{
    if word.is_empty() {
        return;
    }
    if *pending_space && !out.as_str().is_empty() {
        push_char(out, ' ');
    }
    *pending_space = false;
    out.append(word);
}

/// Render a flow onto a single line, for places that must not contain one.
///
/// Table cells, the width measurement behind a heading underline and the lines of a
/// title block need a flow as one line of text: glue, breaks and block boundaries all
/// become a single space, block prefixes are ignored, verbatim contents go in raw with
/// their newlines turned into spaces, and the result is trimmed.
pub fn render_inline(flow: &Flow) -> (text: String)
    ensures
        text@ == render_inline_spec(flow@),
{
    let items = flow.items();
    let ghost view = items_view(items@);
    let mut out = String::new();
    let mut pending_space = false;
    let n = items.len();
    let mut i: usize = 0;
    while i < n
        invariant
            view == items_view(items@),
            view == flow@,
            n == items@.len(),
            0 <= i <= n,
            (out@, pending_space) == inline_run(view.take(i as int)),
        decreases n - i,
    {
        proof {
            assert(view.take(i + 1).drop_last() =~= view.take(i as int));
            assert(view.take(i + 1).last() == items@[i as int]@);
        }
        match &items[i] {
            FlowItem::Text(text) => push_inline_word(&mut out, &mut pending_space, text.as_str()),
            FlowItem::InlineVerbatim(text) => push_inline_word(
                &mut out,
                &mut pending_space,
                text.as_str(),
            ),
            FlowItem::Verbatim(payload) => {
                if !payload.as_str().is_empty() {
                    if !out.as_str().is_empty() {
                        push_char(&mut out, ' ');
                    }
                    let ghost start = out@;
                    let ghost mut index: int = 0;
                    for c in it: payload.as_str().chars()
                        invariant
                            it.seq() == payload@,
                            index == it.index(),
                            out@ == start + flatten_newlines(payload@.take(index)),
                    {
                        push_char(&mut out, if c == '\n' { ' ' } else { c });
                        proof {
                            assert(flatten_newlines(payload@.take(index + 1)) =~= flatten_newlines(
                                payload@.take(index),
                            ).push(if c == '\n' { ' ' } else { c }));
                            index = index + 1;
                        }
                    }
                    proof {
                        assert(payload@.take(index) =~= payload@);
                    }
                    pending_space = true;
                }
            },
            _ => {
                pending_space = true;
            },
        }
        i = i + 1;
    }
    proof {
        assert(view.take(n as int) =~= view);
    }
    trimmed(out.as_str())
}

// ---------------------------------------------------------------------------- the laws

/// Laying out `a` then `b` is laying out `a + b`: the pass is a left fold.
pub proof fn lemma_run_append(s: EngineView, a: Seq<ItemView>, b: Seq<ItemView>)
    ensures
        run(s, a + b) == run(run(s, a), b),
    decreases b.len(),
{
    if b.len() == 0 {
        assert(a + b =~= a);
    } else {
        assert((a + b).drop_last() =~= a + b.drop_last());
        lemma_run_append(s, a, b.drop_last());
    }
}

/// Flushing an empty word changes nothing.
proof fn lemma_flush_word_idle(s: EngineView)
    requires
        s.word.len() == 0,
    ensures
        flush_word(s) == s,
{
    assert(s.word =~= Seq::<char>::empty());
}

/// Two paragraph breaks in a row are one: separation requests merge, they never sum.
pub proof fn lemma_paragraph_breaks_merge(s: EngineView)
    ensures
        step(step(s, ItemView::ParagraphBreak), ItemView::ParagraphBreak) == step(
            s,
            ItemView::ParagraphBreak,
        ),
{
    let s1 = step(s, ItemView::ParagraphBreak);
    lemma_flush_word_idle(s1);
}

/// A line break next to a paragraph break, on either side, is absorbed by it: merging
/// keeps the stronger request.
pub proof fn lemma_line_break_absorbed(s: EngineView)
    ensures
        step(step(s, ItemView::HardBreak), ItemView::ParagraphBreak) == step(
            s,
            ItemView::ParagraphBreak,
        ),
        step(step(s, ItemView::ParagraphBreak), ItemView::HardBreak) == step(
            s,
            ItemView::ParagraphBreak,
        ),
{
    lemma_flush_word_idle(step(s, ItemView::HardBreak));
    lemma_flush_word_idle(step(s, ItemView::ParagraphBreak));
}

/// Consecutive glue is one potential break.
pub proof fn lemma_glue_collapses(s: EngineView)
    ensures
        step(step(s, ItemView::Glue), ItemView::Glue) == step(s, ItemView::Glue),
{
    let s1 = step(s, ItemView::Glue);
    lemma_flush_word_idle(EngineView { pending_glue: true, ..s1 });
}

/// In any flow, a paragraph break may be doubled without changing the text: however
/// many blank-line requests neighbouring constructs make, one blank line comes out.
pub proof fn lemma_render_paragraph_breaks_merge(
    before: Seq<ItemView>,
    after: Seq<ItemView>,
    wrap: Option<usize>,
)
    ensures
        render_spec(before + seq![ItemView::ParagraphBreak, ItemView::ParagraphBreak] + after, wrap)
            == render_spec(before + seq![ItemView::ParagraphBreak] + after, wrap),
{
    let s0 = initial(wrap);
    let p = ItemView::ParagraphBreak;
    let two = seq![p, p];
    let one = seq![p];
    lemma_run_append(s0, before + two, after);
    lemma_run_append(s0, before, two);
    lemma_run_append(s0, before + one, after);
    lemma_run_append(s0, before, one);
    let sb = run(s0, before);
    assert(two.drop_last() =~= one);
    assert(one.drop_last() =~= Seq::<ItemView>::empty());
    assert(run(sb, Seq::<ItemView>::empty()) == sb);
    assert(run(sb, one) == step(sb, p));
    assert(run(sb, two) == step(run(sb, one), p));
    lemma_paragraph_breaks_merge(sb);
}

/// A paragraph break in any flow absorbs a line break written right before it.
pub proof fn lemma_render_line_break_absorbed(
    before: Seq<ItemView>,
    after: Seq<ItemView>,
    wrap: Option<usize>,
)
    ensures
        render_spec(before + seq![ItemView::HardBreak, ItemView::ParagraphBreak] + after, wrap)
            == render_spec(before + seq![ItemView::ParagraphBreak] + after, wrap),
{
    let s0 = initial(wrap);
    let h = ItemView::HardBreak;
    let p = ItemView::ParagraphBreak;
    let two = seq![h, p];
    let one = seq![p];
    lemma_run_append(s0, before + two, after);
    lemma_run_append(s0, before, two);
    lemma_run_append(s0, before + one, after);
    lemma_run_append(s0, before, one);
    let sb = run(s0, before);
    assert(two.drop_last() =~= seq![h]);
    assert(seq![h].drop_last() =~= Seq::<ItemView>::empty());
    assert(one.drop_last() =~= Seq::<ItemView>::empty());
    assert(run(sb, Seq::<ItemView>::empty()) == sb);
    assert(run(sb, seq![h]) == step(sb, h));
    assert(run(sb, two) == step(run(sb, seq![h]), p));
    assert(run(sb, one) == step(sb, p));
    lemma_line_break_absorbed(sb);
}

/// With no indent, the lines of a verbatim body come out as the body itself.
proof fn lemma_verbatim_scan_unindented(body: Seq<char>)
    ensures
        verbatim_scan(Seq::empty(), body).0 + verbatim_scan(Seq::empty(), body).1 == body,
    decreases body.len(),
{
    if body.len() > 0 {
        lemma_verbatim_scan_unindented(body.drop_last());
        let (done, line) = verbatim_scan(Seq::empty(), body.drop_last());
        assert(body =~= body.drop_last().push(body.last()));
        if body.last() == '\n' {
            assert(verbatim_line(Seq::empty(), line) =~= line.push('\n'));
            assert(done + verbatim_line(Seq::empty(), line) + Seq::<char>::empty() =~= body);
        } else {
            assert(done + line.push(body.last()) =~= body);
        }
    }
}

/// Verbatim survives byte for byte: a nonempty payload laid out on its own is the
/// payload itself, with a newline added only when it does not already end in one.
pub proof fn lemma_verbatim_byte_for_byte(payload: Seq<char>, wrap: Option<usize>)
    requires
        payload.len() > 0,
    ensures
        render_spec(seq![ItemView::Verbatim(payload)], wrap) == (if payload.last() == '\n' {
            payload
        } else {
            payload.push('\n')
        }),
{
    let s0 = initial(wrap);
    let items = seq![ItemView::Verbatim(payload)];
    assert(items.drop_last() =~= Seq::<ItemView>::empty());
    lemma_flush_word_idle(s0);
    let body = verbatim_body(payload);
    lemma_verbatim_scan_unindented(body);
    let (done, line) = verbatim_scan(Seq::empty(), body);
    assert(verbatim_line(Seq::empty(), line) =~= line.push('\n'));
    assert(verbatim_text(Seq::empty(), body) =~= body.push('\n'));
    assert(cont_indent(Seq::<FrameView>::empty(), 0) =~= Seq::<char>::empty());
    assert(run(s0, items.drop_last()) == s0);
    let s2 = run(s0, items);
    assert(s2 == step(s0, ItemView::Verbatim(payload)));
    assert(s2.out =~= body.push('\n'));
    lemma_flush_word_idle(s2);
    if payload.last() == '\n' {
        assert(body.push('\n') =~= payload);
    }
}
/// `longer` begins with `shorter`.
pub open spec fn begins_with(longer: Seq<char>, shorter: Seq<char>) -> bool {
    shorter.len() <= longer.len() && longer.subrange(0, shorter.len() as int) == shorter
}

proof fn lemma_begins_with_append(a: Seq<char>, x: Seq<char>)
    ensures
        begins_with(a + x, a),
{
    assert((a + x).subrange(0, a.len() as int) =~= a);
}

proof fn lemma_begins_with_push(a: Seq<char>, c: char)
    ensures
        begins_with(a.push(c), a),
{
    assert(a.push(c).subrange(0, a.len() as int) =~= a);
}

proof fn lemma_begins_with_trans(a: Seq<char>, b: Seq<char>, c: Seq<char>)
    requires
        begins_with(c, b),
        begins_with(b, a),
    ensures
        begins_with(c, a),
{
    assert(c.subrange(0, a.len() as int) =~= b.subrange(0, a.len() as int));
}

proof fn lemma_flush_sep_grows(s: EngineView)
    ensures
        begins_with(flush_sep(s).out, s.out),
        flush_sep(s).frames == s.frames,
{
    if s.pending_sep != Sep::Stay {
        let out1 = if s.line_open { s.out.push('\n') } else { s.out };
        if s.line_open {
            lemma_begins_with_push(s.out, '\n');
        } else {
            lemma_begins_with_append(s.out, Seq::empty());
            assert(s.out + Seq::<char>::empty() =~= s.out);
        }
        if s.pending_sep == Sep::Blank {
            lemma_begins_with_push(out1, '\n');
            lemma_begins_with_trans(s.out, out1, out1.push('\n'));
        }
    } else {
        assert(s.out.subrange(0, s.out.len() as int) =~= s.out);
    }
}

proof fn lemma_open_line_grows(s: EngineView)
    ensures
        begins_with(open_line(s).out, s.out),
        open_line(s).frames == s.frames,
{
    lemma_begins_with_append(s.out, prefix_text(s.frames, s.used, s.frames.len()));
}

proof fn lemma_emit_word_grows(s: EngineView, word: Seq<char>)
    ensures
        begins_with(emit_word(s, word).out, s.out),
        emit_word(s, word).frames == s.frames,
{
    if word.len() == 0 {
        assert(s.out.subrange(0, s.out.len() as int) =~= s.out);
    } else {
        let s1 = flush_sep(s);
        lemma_flush_sep_grows(s);
        let width = str_width(word);
        let s2 = if !s1.line_open {
            EngineView { pending_glue: false, ..open_line(s1) }
        } else if s1.pending_glue {
            if fits(s1, width) {
                EngineView { out: s1.out.push(' '), col: s1.col.saturating_add(1), pending_glue: false, ..s1 }
            } else {
                open_line(
                    EngineView { out: s1.out.push('\n'), col: 0, line_open: false, pending_glue: false, ..s1 },
                )
            }
        } else {
            s1
        };
        if !s1.line_open {
            lemma_open_line_grows(s1);
        } else if s1.pending_glue {
            if fits(s1, width) {
                lemma_begins_with_push(s1.out, ' ');
            } else {
                let t = EngineView { out: s1.out.push('\n'), col: 0, line_open: false, pending_glue: false, ..s1 };
                lemma_begins_with_push(s1.out, '\n');
                lemma_open_line_grows(t);
                lemma_begins_with_trans(s1.out, t.out, s2.out);
            }
        } else {
            assert(s1.out.subrange(0, s1.out.len() as int) =~= s1.out);
        }
        lemma_begins_with_trans(s.out, s1.out, s2.out);
        lemma_begins_with_append(s2.out, word);
        lemma_begins_with_trans(s.out, s2.out, s2.out + word);
    }
}

proof fn lemma_flush_word_grows(s: EngineView)
    ensures
        begins_with(flush_word(s).out, s.out),
        flush_word(s).frames == s.frames,
{
    lemma_emit_word_grows(EngineView { word: Seq::empty(), ..s }, s.word);
}

/// Every item only adds to what has been written.
proof fn lemma_step_grows(s: EngineView, item: ItemView)
    ensures
        begins_with(step(s, item).out, s.out),
{
    assert(s.out.subrange(0, s.out.len() as int) =~= s.out);
    match item {
        ItemView::Text(_) => {},
        ItemView::InlineVerbatim(_) => {},
        ItemView::BlockStart(kind) => {
            lemma_flush_word_grows(s);
            let s1 = flush_word(s);
            if frame_of(kind).is_item && s1.frames.len() > 0 && s1.frames.last().is_item {
            }
        },
        ItemView::Verbatim(p) => {
            if p.len() > 0 {
                let f = flush_word(s);
                lemma_flush_word_grows(s);
                let s1 = flush_sep(request_sep(f, Sep::Blank));
                lemma_flush_sep_grows(request_sep(f, Sep::Blank));
                let text = verbatim_text(cont_indent(s1.frames, s1.frames.len()), verbatim_body(p));
                lemma_begins_with_append(s1.out, text);
                lemma_begins_with_trans(f.out, s1.out, s1.out + text);
                lemma_begins_with_trans(s.out, f.out, s1.out + text);
            }
        },
        _ => {
            lemma_flush_word_grows(s);
        },
    }
}

/// A run only adds to what has been written.
proof fn lemma_run_grows(s: EngineView, items: Seq<ItemView>)
    ensures
        begins_with(run(s, items).out, s.out),
    decreases items.len(),
{
    if items.len() == 0 {
        assert(s.out.subrange(0, s.out.len() as int) =~= s.out);
    } else {
        lemma_run_grows(s, items.drop_last());
        let r = run(s, items.drop_last());
        lemma_step_grows(r, items.last());
        lemma_begins_with_trans(s.out, r.out, run(s, items).out);
    }
}

/// Finishing only adds to what has been written.
proof fn lemma_finish_grows(s: EngineView)
    ensures
        begins_with(finish(s).out, s.out),
{
    lemma_flush_word_grows(s);
    let s1 = flush_word(s);
    if s1.line_open {
        lemma_begins_with_push(s1.out, '\n');
        lemma_begins_with_trans(s.out, s1.out, s1.out.push('\n'));
    }
}

/// Verbatim survives byte for byte wherever it stands outside every block: whatever
/// comes before and after it, the layout holds the payload's lines exactly as written,
/// one after another, the last ended by a newline.
pub proof fn lemma_verbatim_kept_in_place(
    before: Seq<ItemView>,
    payload: Seq<char>,
    after: Seq<ItemView>,
    wrap: Option<usize>,
)
    requires
        payload.len() > 0,
        run(initial(wrap), before).frames.len() == 0,
    ensures
        ({
            let out = render_spec(before + seq![ItemView::Verbatim(payload)] + after, wrap);
            let kept = verbatim_body(payload).push('\n');
            exists|k: int| 0 <= k && k + kept.len() <= out.len() && #[trigger] out.subrange(k, k + kept.len()) == kept
        }),
{
    let v = seq![ItemView::Verbatim(payload)];
    let items = before + v + after;
    let s0 = initial(wrap);
    let s1 = run(s0, before);
    lemma_run_append(s0, before + v, after);
    lemma_run_append(s0, before, v);
    assert(v.drop_last() =~= Seq::<ItemView>::empty());
    assert(run(s1, v.drop_last()) == s1);
    assert(v.last() == ItemView::Verbatim(payload));
    assert(run(s1, v) == step(s1, ItemView::Verbatim(payload)));
    let f = flush_word(s1);
    lemma_flush_word_grows(s1);
    let t = flush_sep(request_sep(f, Sep::Blank));
    lemma_flush_sep_grows(request_sep(f, Sep::Blank));
    let body = verbatim_body(payload);
    assert(cont_indent(t.frames, 0) =~= Seq::<char>::empty());
    lemma_verbatim_scan_unindented(body);
    let (done, line) = verbatim_scan(Seq::empty(), body);
    assert(verbatim_line(Seq::empty(), line) =~= line.push('\n'));
    let kept = body.push('\n');
    assert(verbatim_text(Seq::empty(), body) =~= kept);
    let s2 = run(s1, v);
    assert(s2.out == t.out + kept);
    let s3 = run(s2, after);
    lemma_run_grows(s2, after);
    lemma_finish_grows(s3);
    lemma_begins_with_trans(s2.out, s3.out, finish(s3).out);
    let out = finish(s3).out;
    assert(run(s0, before + v) == s2);
    assert(run(s0, items) == s3);
    assert(out == render_spec(items, wrap));
    let k = t.out.len() as int;
    assert(out.subrange(k, k + kept.len()) =~= kept) by {
        assert forall|i: int| 0 <= i < kept.len() implies out.subrange(k, k + kept.len())[i] == kept[i] by {
            assert(out[k + i] == s2.out[k + i]);
        }
    }
}

/// The error a formatter reports (`core::fmt::Error`), carried through as it is.
#[verifier::external_type_specification]
#[verifier::external_body]
pub struct ExFmtError(core::fmt::Error);

/// Write a string to a formatter (`core::fmt::Write::write_str`).
///
/// Whether the write succeeds is the writer's business; nothing is promised of it.
#[verifier::external_body]
fn write_text<W: core::fmt::Write + ?Sized>(out: &mut W, text: &str) -> (r: Result<(), core::fmt::Error>) {
    out.write_str(text)
}

/// Render a flow into any [`core::fmt::Write`]: the text [`render`] produces, written in
/// one piece. A writer's error is handed back.
pub fn render_to<W: core::fmt::Write + ?Sized>(flow: &Flow, opts: &LayoutOptions, out: &mut W) -> (r: Result<(), core::fmt::Error>) {
    let text = render(flow, opts);
    write_text(out, text.as_str())
}

} // verus!
