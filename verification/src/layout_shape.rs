//! What the layout engine guarantees about the vertical shape of its output.
//!
//! For every flow whose items keep their contracts — no newline inside a word or a block
//! prefix, and no verbatim payload that starts or ends with an empty line or holds two
//! empty lines in a row — the text [`render`] produces has
//! **at most one blank line anywhere, none at the start, none at the end**, and, when it
//! is not empty, ends with exactly one newline. Vertical separation is requested by
//! handlers and merged by layout, so no combination of neighbouring constructs can
//! produce a gap of two blank lines.
//!
//! [`render`]: crate::layout::render

use vstd::prelude::*;

use crate::flow::{BlockView, ItemView};
use crate::layout::{
    flatten_newlines, inline_run, inline_step, lemma_trim_back_at, lemma_trim_front_at,
    render_inline_spec, trim, trim_back, trim_front, cont_indent, emit_word, flush_sep, flush_word, fits, frame_of, initial, pop_frame, prefix_piece,
    prefix_text, render_spec, request_sep, run, step, verbatim, verbatim_body, verbatim_line,
    verbatim_scan, verbatim_text, EngineView, FrameView, Sep,
};
use crate::flow::str_width;
use crate::text::is_white_space;

verus! {

/// No character of `text` is a newline.
pub open spec fn no_newline(text: Seq<char>) -> bool {
    forall|i: int| 0 <= i < text.len() ==> text[i] != '\n'
}

/// `text` holds no two newlines in a row, i.e. no empty line between two others.
pub open spec fn no_newline_pair(text: Seq<char>) -> bool {
    forall|i: int| #![trigger text[i]] 0 <= i && i + 1 < text.len() ==> !(text[i] == '\n' && text[i + 1] == '\n')
}

/// `text` holds no three newlines in a row, i.e. never two blank lines in a row.
pub open spec fn no_newline_triple(text: Seq<char>) -> bool {
    forall|i: int|
        #![trigger text[i]]
        0 <= i && i + 2 < text.len() ==> !(text[i] == '\n' && text[i + 1] == '\n' && text[i + 2]
            == '\n')
}

/// `text` ends with a newline that is not preceded by another: one line terminator,
/// no blank line.
pub open spec fn ends_with_one_newline(text: Seq<char>) -> bool {
    &&& text.len() >= 2
    &&& text.last() == '\n'
    &&& text[text.len() - 2] != '\n'
}

/// A verbatim payload that neither starts nor ends with an empty line and never holds
/// two empty lines in a row (the empty payload, which layout ignores, included). Single
/// empty lines inside it are kept as they are.
pub open spec fn verbatim_payload_ok(payload: Seq<char>) -> bool {
    payload.len() == 0 || {
        let body = verbatim_body(payload);
        &&& body.len() > 0
        &&& body[0] != '\n'
        &&& body.last() != '\n'
        &&& no_newline_triple(body)
    }
}

/// An item that keeps its contract: words and block prefixes hold no newline, and a
/// verbatim payload holds no blank line at its ends and never two in a row.
pub open spec fn item_ok(item: ItemView) -> bool {
    match item {
        ItemView::Text(t) => no_newline(t),
        ItemView::InlineVerbatim(t) => no_newline(t),
        ItemView::Verbatim(p) => verbatim_payload_ok(p),
        ItemView::BlockStart(BlockView::Indent { first, cont }) => no_newline(first) && no_newline(
            cont,
        ),
        ItemView::BlockStart(BlockView::Item { first, cont }) => no_newline(first) && no_newline(
            cont,
        ),
        _ => true,
    }
}

/// Every item of a flow keeps its contract.
pub open spec fn flow_ok(items: Seq<ItemView>) -> bool {
    forall|i: int| 0 <= i < items.len() ==> item_ok(#[trigger] items[i])
}

/// Every open frame's prefixes hold no newline.
pub open spec fn frames_ok(frames: Seq<FrameView>) -> bool {
    forall|i: int|
        0 <= i < frames.len() ==> no_newline(#[trigger] frames[i].first) && no_newline(
            frames[i].cont,
        )
}

/// The state between items: what has been written so far already has the promised shape.
pub open spec fn good(s: EngineView) -> bool {
    &&& frames_ok(s.frames)
    &&& no_newline(s.word)
    &&& (s.wrote_any <==> s.out.len() > 0)
    &&& (!s.wrote_any ==> s.pending_sep == Sep::Stay && !s.line_open)
    &&& (s.out.len() > 0 ==> s.out[0] != '\n')
    &&& no_newline_triple(s.out)
    &&& (s.line_open ==> s.out.len() > 0 && s.out.last() != '\n')
    &&& (!s.line_open && s.out.len() > 0 ==> ends_with_one_newline(s.out))
}

/// The state right after separation has been acted on: a blank line may just have been
/// written, and the next thing written is content.
pub open spec fn settled(s: EngineView) -> bool {
    &&& frames_ok(s.frames)
    &&& (s.wrote_any <==> s.out.len() > 0)
    &&& s.pending_sep == Sep::Stay
    &&& (s.out.len() > 0 ==> s.out[0] != '\n')
    &&& no_newline_triple(s.out)
    &&& (s.line_open ==> s.out.len() > 0 && s.out.last() != '\n')
    &&& (!s.line_open && s.out.len() > 0 ==> s.out.last() == '\n')
}

proof fn lemma_no_newline_concat(a: Seq<char>, b: Seq<char>)
    requires
        no_newline(a),
        no_newline(b),
    ensures
        no_newline(a + b),
{
    assert forall|i: int| 0 <= i < (a + b).len() implies (a + b)[i] != '\n' by {
        if i < a.len() {
            assert((a + b)[i] == a[i]);
        } else {
            assert((a + b)[i] == b[i - a.len()]);
        }
    }
}

proof fn lemma_no_newline_has_no_pair(a: Seq<char>)
    requires
        no_newline(a),
    ensures
        no_newline_pair(a),
{
    assert forall|i: int| #![trigger a[i]] 0 <= i && i + 1 < a.len() implies !(a[i] == '\n' && a[i + 1] == '\n') by {
        assert(a[i] != '\n');
    }
}

/// Appending text with no empty line keeps a text free of two blank lines in a row, as
/// long as the seam does not make three newlines.
proof fn lemma_triple_concat(a: Seq<char>, b: Seq<char>)
    requires
        no_newline_triple(a),
        no_newline_pair(b),
        !(a.len() >= 2 && a.last() == '\n' && a[a.len() - 2] == '\n' && b.len() > 0 && b[0]
            == '\n'),
    ensures
        no_newline_triple(a + b),
{
    let c = a + b;
    assert forall|i: int| #![trigger c[i]] 0 <= i && i + 2 < c.len() implies !(c[i] == '\n' && c[i + 1] == '\n'
        && c[i + 2] == '\n') by {
        if i + 2 < a.len() {
            assert(c[i] == a[i] && c[i + 1] == a[i + 1] && c[i + 2] == a[i + 2]);
        } else if i >= a.len() {
            assert(c[i] == b[i - a.len()] && c[i + 1] == b[i + 1 - a.len()]);
        } else if i + 1 >= a.len() {
            assert(c[i + 1] == b[i + 1 - a.len()] && c[i + 2] == b[i + 2 - a.len()]);
        } else {
            assert(c[i] == a[i] && c[i + 1] == a[i + 1] && c[i + 2] == b[0]);
        }
    }
}

/// Two texts free of empty lines, joined where the first does not end and the second
/// does not start with a newline on the same seam.
proof fn lemma_pair_concat(a: Seq<char>, b: Seq<char>)
    requires
        no_newline_pair(a),
        no_newline_pair(b),
        !(a.len() > 0 && a.last() == '\n' && b.len() > 0 && b[0] == '\n'),
    ensures
        no_newline_pair(a + b),
{
    let c = a + b;
    assert forall|i: int| #![trigger c[i]] 0 <= i && i + 1 < c.len() implies !(c[i] == '\n' && c[i + 1] == '\n') by {
        if i + 1 < a.len() {
            assert(c[i] == a[i] && c[i + 1] == a[i + 1]);
        } else if i >= a.len() {
            assert(c[i] == b[i - a.len()] && c[i + 1] == b[i + 1 - a.len()]);
        } else {
            assert(c[i] == a[i] && c[i + 1] == b[0]);
        }
    }
}

/// Appending a text that starts with content and never holds two blank lines in a row
/// keeps a text free of two blank lines in a row.
proof fn lemma_triple_concat_content(a: Seq<char>, b: Seq<char>)
    requires
        no_newline_triple(a),
        no_newline_triple(b),
        b.len() > 0 ==> b[0] != '\n',
    ensures
        no_newline_triple(a + b),
{
    let c = a + b;
    assert forall|i: int| #![trigger c[i]] 0 <= i && i + 2 < c.len() implies !(c[i] == '\n' && c[i + 1] == '\n'
        && c[i + 2] == '\n') by {
        if i + 2 < a.len() {
            assert(c[i] == a[i] && c[i + 1] == a[i + 1] && c[i + 2] == a[i + 2]);
        } else if i >= a.len() {
            assert(c[i] == b[i - a.len()] && c[i + 1] == b[i + 1 - a.len()] && c[i + 2] == b[i + 2 - a.len()]);
        } else if i + 1 >= a.len() {
            assert(c[i + 1] == b[i + 1 - a.len()]);
            if i + 1 == a.len() {
                assert(c[i + 1] == b[0]);
            } else {
                assert(c[i] == b[0]);
            }
        } else {
            assert(c[i + 2] == b[0]);
        }
    }
}

proof fn lemma_pair_has_no_triple(a: Seq<char>)
    requires
        no_newline_pair(a),
    ensures
        no_newline_triple(a),
{
    assert forall|i: int| #![trigger a[i]] 0 <= i && i + 2 < a.len() implies !(a[i] == '\n' && a[i + 1] == '\n'
        && a[i + 2] == '\n') by {
        assert(!(a[i] == '\n' && a[i + 1] == '\n'));
    }
}

proof fn lemma_prefix_text_ok(frames: Seq<FrameView>, used: nat, n: nat)
    requires
        frames_ok(frames),
        n <= frames.len(),
    ensures
        no_newline(prefix_text(frames, used, n)),
    decreases n,
{
    if n > 0 {
        lemma_prefix_text_ok(frames, used, (n - 1) as nat);
        let k = n - 1;
        assert(no_newline(frames[k].first) && no_newline(frames[k].cont));
        lemma_no_newline_concat(prefix_text(frames, used, (n - 1) as nat), prefix_piece(frames, used, k));
    }
}

proof fn lemma_cont_indent_ok(frames: Seq<FrameView>, n: nat)
    requires
        frames_ok(frames),
        n <= frames.len(),
    ensures
        no_newline(cont_indent(frames, n)),
    decreases n,
{
    if n > 0 {
        lemma_cont_indent_ok(frames, (n - 1) as nat);
        let k = n - 1;
        assert(no_newline(frames[k].first) && no_newline(frames[k].cont));
        lemma_no_newline_concat(cont_indent(frames, (n - 1) as nat), frames[k].cont);
    }
}

proof fn lemma_request_sep_good(s: EngineView, sep: Sep)
    requires
        good(s),
    ensures
        good(request_sep(s, sep)),
{
}

proof fn lemma_flush_sep_settled(s: EngineView)
    requires
        good(s),
    ensures
        settled(flush_sep(s)),
        flush_sep(s).frames == s.frames,
        flush_sep(s).word == s.word,
{
    let t = flush_sep(s);
    if s.pending_sep != Sep::Stay {
        let out1 = if s.line_open { s.out.push('\n') } else { s.out };
        if s.line_open {
            lemma_triple_concat(s.out, seq!['\n']);
            assert(s.out + seq!['\n'] =~= out1);
        }
        assert(ends_with_one_newline(out1));
        if s.pending_sep == Sep::Blank {
            lemma_triple_concat(out1, seq!['\n']);
            assert(out1 + seq!['\n'] =~= out1.push('\n'));
        }
        assert(t.out.len() > 0 ==> t.out[0] == s.out[0]);
    }
}

/// A line's content: a prefix and a nonempty word, neither holding a newline.
proof fn lemma_line_piece(prefix: Seq<char>, word: Seq<char>)
    requires
        no_newline(prefix),
        no_newline(word),
        word.len() > 0,
    ensures
        no_newline(prefix + word),
        no_newline_pair(prefix + word),
        (prefix + word).len() > 0,
        (prefix + word)[0] != '\n',
        (prefix + word).last() != '\n',
{
    lemma_no_newline_concat(prefix, word);
    lemma_no_newline_has_no_pair(prefix + word);
    assert((prefix + word).last() == word.last());
}

proof fn lemma_emit_word_good(s: EngineView, word: Seq<char>)
    requires
        good(s),
        no_newline(word),
    ensures
        good(emit_word(s, word)),
        emit_word(s, word).word == s.word,
{
    if word.len() > 0 {
        lemma_flush_sep_settled(s);
        let s1 = flush_sep(s);
        let width = str_width(word);
        if !s1.line_open {
            lemma_prefix_text_ok(s1.frames, s1.used, s1.frames.len());
            let prefix = prefix_text(s1.frames, s1.used, s1.frames.len());
            lemma_line_piece(prefix, word);
            lemma_triple_concat(s1.out, prefix + word);
            assert(s1.out + prefix + word =~= s1.out + (prefix + word));
            let out = s1.out + (prefix + word);
            assert(out.last() == word.last());
            assert(out.len() > 0 ==> out[0] != '\n') by {
                if s1.out.len() > 0 {
                    assert(out[0] == s1.out[0]);
                } else {
                    assert(out[0] == (prefix + word)[0]);
                }
            }
        } else if s1.pending_glue {
            if fits(s1, width) {
                let piece = seq![' '] + word;
                lemma_line_piece(seq![' '], word);
                lemma_triple_concat(s1.out, piece);
                assert(s1.out.push(' ') + word =~= s1.out + piece);
                assert((s1.out + piece)[0] == s1.out[0]);
                assert((s1.out + piece).last() == word.last());
            } else {
                lemma_prefix_text_ok(s1.frames, s1.used, s1.frames.len());
                let prefix = prefix_text(s1.frames, s1.used, s1.frames.len());
                lemma_line_piece(prefix, word);
                let piece = seq!['\n'] + (prefix + word);
                lemma_pair_concat(seq!['\n'], prefix + word);
                lemma_triple_concat(s1.out, piece);
                assert(s1.out.push('\n') + prefix + word =~= s1.out + piece);
                assert((s1.out + piece)[0] == s1.out[0]);
                assert((s1.out + piece).last() == word.last());
            }
        } else {
            lemma_line_piece(Seq::empty(), word);
            assert(Seq::<char>::empty() + word =~= word);
            lemma_triple_concat(s1.out, word);
            assert((s1.out + word)[0] == s1.out[0]);
            assert((s1.out + word).last() == word.last());
        }
    }
}

proof fn lemma_flush_word_good(s: EngineView)
    requires
        good(s),
    ensures
        good(flush_word(s)),
        flush_word(s).word.len() == 0,
        flush_word(s).frames == s.frames,
{
    let t = EngineView { word: Seq::empty(), ..s };
    assert(good(t));
    lemma_emit_word_good(t, s.word);
    if s.word.len() > 0 {
        lemma_flush_sep_settled(t);
    }
}

/// The scan of a verbatim body that starts with content and never holds two empty lines
/// in a row: what has been laid out starts with content, never holds two blank lines in
/// a row, and ends with two newlines only where the body does.
proof fn lemma_verbatim_scan_ok(indent: Seq<char>, body: Seq<char>)
    requires
        no_newline(indent),
        no_newline_triple(body),
        body.len() > 0 ==> body[0] != '\n',
    ensures
        ({
            let (done, line) = verbatim_scan(indent, body);
            &&& no_newline(line)
            &&& (line.len() == 0 <==> (body.len() == 0 || body.last() == '\n'))
            &&& no_newline_triple(done)
            &&& (done.len() > 0 ==> done[0] != '\n' && done.last() == '\n')
            &&& (body.len() > 0 && body.last() == '\n' ==> done.len() > 0)
            &&& (done.len() >= 2 && done[done.len() - 2] == '\n' && line.len() == 0 ==> body.len() >= 2
                && body.last() == '\n' && body[body.len() - 2] == '\n')
        }),
    decreases body.len(),
{
    if body.len() > 0 {
        let prev = body.drop_last();
        assert(no_newline_triple(prev)) by {
            assert forall|i: int| #![trigger prev[i]] 0 <= i && i + 2 < prev.len() implies !(prev[i] == '\n'
                && prev[i + 1] == '\n' && prev[i + 2] == '\n') by {
                assert(prev[i] == body[i] && prev[i + 1] == body[i + 1] && prev[i + 2] == body[i + 2]);
            }
        }
        assert(prev.len() > 0 ==> prev[0] == body[0]);
        lemma_verbatim_scan_ok(indent, prev);
        let (done, line) = verbatim_scan(indent, prev);
        let c = body.last();
        if c == '\n' {
            let piece = verbatim_line(indent, line);
            if line.len() > 0 {
                lemma_line_piece(indent, line);
                assert(piece =~= (indent + line).push('\n'));
                let nl = seq!['\n'];
                lemma_pair_concat(indent + line, nl);
                assert((indent + line) + nl =~= piece);
                lemma_pair_has_no_triple(piece);
                assert(piece[0] == (indent + line)[0]);
                lemma_triple_concat_content(done, piece);
                let d2 = done + piece;
                assert(d2.last() == piece.last());
                assert(d2[d2.len() - 2] == piece[piece.len() - 2]);
                assert(piece[piece.len() - 2] == (indent + line).last());
                assert(d2[0] != '\n') by {
                    if done.len() > 0 {
                        assert(d2[0] == done[0]);
                    } else {
                        assert(d2[0] == piece[0]);
                    }
                }
            } else {
                // An empty line: the body so far ended a line, and not with an empty one.
                assert(prev.len() > 0);
                assert(prev.last() == '\n');
                assert(done.len() > 0);
                assert(piece =~= seq!['\n']);
                let d2 = done + piece;
                assert(!(done.len() >= 2 && done[done.len() - 2] == '\n')) by {
                    if done.len() >= 2 && done[done.len() - 2] == '\n' {
                        assert(prev[prev.len() - 2] == body[body.len() - 3]);
                        assert(body[body.len() - 3] == '\n' && body[body.len() - 2] == '\n'
                            && body[body.len() - 1] == '\n');
                    }
                }
                assert forall|i: int| #![trigger d2[i]] 0 <= i && i + 2 < d2.len() implies !(d2[i] == '\n'
                    && d2[i + 1] == '\n' && d2[i + 2] == '\n') by {
                    if i + 2 < done.len() {
                        assert(d2[i] == done[i] && d2[i + 1] == done[i + 1] && d2[i + 2] == done[i + 2]);
                    } else {
                        assert(i == done.len() - 2);
                        assert(d2[i] == done[done.len() - 2]);
                    }
                }
                assert(d2[0] == done[0]);
                assert(d2[d2.len() - 2] == done.last());
                assert(body[body.len() - 2] == prev.last());
            }
        } else {
            let l2 = line.push(c);
            assert(no_newline(l2)) by {
                assert forall|i: int| 0 <= i < l2.len() implies l2[i] != '\n' by {
                    if i < line.len() {
                        assert(l2[i] == line[i]);
                    }
                }
            }
        }
    }
}

/// A laid-out verbatim body: nonempty, starting with content, never holding two blank
/// lines in a row, and ending with exactly one newline.
proof fn lemma_verbatim_text_ok(indent: Seq<char>, payload: Seq<char>)
    requires
        no_newline(indent),
        payload.len() > 0,
        verbatim_payload_ok(payload),
    ensures
        ({
            let text = verbatim_text(indent, verbatim_body(payload));
            &&& text.len() > 0
            &&& text[0] != '\n'
            &&& no_newline_triple(text)
            &&& ends_with_one_newline(text)
        }),
{
    let body = verbatim_body(payload);
    lemma_verbatim_scan_ok(indent, body);
    let (done, line) = verbatim_scan(indent, body);
    assert(line.len() > 0);
    let piece = verbatim_line(indent, line);
    lemma_line_piece(indent, line);
    assert(piece =~= (indent + line).push('\n'));
    let nl = seq!['\n'];
    lemma_pair_concat(indent + line, nl);
    assert((indent + line) + nl =~= piece);
    assert(piece[piece.len() - 2] == (indent + line).last());
    lemma_pair_has_no_triple(piece);
    assert(piece[0] == (indent + line)[0]);
    lemma_triple_concat_content(done, piece);
    let text = done + piece;
    assert(text.last() == piece.last());
    assert(text[text.len() - 2] == piece[piece.len() - 2]);
    assert(text[0] != '\n') by {
        if done.len() > 0 {
            assert(text[0] == done[0]);
        } else {
            assert(text[0] == piece[0]);
        }
    }
}

proof fn lemma_verbatim_good(s: EngineView, payload: Seq<char>)
    requires
        good(s),
        payload.len() > 0,
        verbatim_payload_ok(payload),
    ensures
        good(verbatim(s, payload)),
{
    lemma_request_sep_good(s, Sep::Blank);
    let s0 = request_sep(s, Sep::Blank);
    lemma_flush_sep_settled(s0);
    let s1 = flush_sep(s0);
    lemma_cont_indent_ok(s1.frames, s1.frames.len());
    let indent = cont_indent(s1.frames, s1.frames.len());
    lemma_verbatim_text_ok(indent, payload);
    let text = verbatim_text(indent, verbatim_body(payload));
    lemma_triple_concat_content(s1.out, text);
    let out = s1.out + text;
    assert(out.last() == text.last());
    assert(out[out.len() - 2] == text[text.len() - 2]);
    assert(out[0] != '\n') by {
        if s1.out.len() > 0 {
            assert(out[0] == s1.out[0]);
        } else {
            assert(out[0] == text[0]);
        }
    }
    let s2 = EngineView { out, line_open: false, col: 0, wrote_any: true, ..s1 };
    assert(good(s2));
    lemma_request_sep_good(s2, Sep::Blank);
}

proof fn lemma_pop_frame_good(s: EngineView)
    requires
        good(s),
    ensures
        good(pop_frame(s)),
{
    if s.frames.len() > 0 {
        let f = s.frames.drop_last();
        assert forall|i: int| 0 <= i < f.len() implies no_newline(#[trigger] f[i].first)
            && no_newline(f[i].cont) by {
            assert(f[i] == s.frames[i]);
        }
    }
}

#[verifier::spinoff_prover]
proof fn lemma_step_good(s: EngineView, item: ItemView)
    requires
        good(s),
        item_ok(item),
    ensures
        good(step(s, item)),
{
    match item {
        ItemView::Text(t) => {
            lemma_no_newline_concat(s.word, t);
            assert(good(EngineView { word: s.word + t, ..s }));
        },
        ItemView::InlineVerbatim(t) => {
            lemma_no_newline_concat(s.word, t);
            assert(good(EngineView { word: s.word + t, ..s }));
        },
        ItemView::Glue => {
            lemma_flush_word_good(s);
        },
        ItemView::CellSep => {
            lemma_flush_word_good(s);
        },
        ItemView::HardBreak => {
            lemma_flush_word_good(s);
            lemma_request_sep_good(flush_word(s), Sep::Line);
        },
        ItemView::RowSep => {
            lemma_flush_word_good(s);
            lemma_request_sep_good(flush_word(s), Sep::Line);
        },
        ItemView::RuleMark => {
            lemma_flush_word_good(s);
            lemma_request_sep_good(flush_word(s), Sep::Line);
        },
        ItemView::ParagraphBreak => {
            lemma_flush_word_good(s);
            lemma_request_sep_good(flush_word(s), Sep::Blank);
        },
        ItemView::BlockStart(kind) => {
            lemma_flush_word_good(s);
            let s1 = flush_word(s);
            let frame = frame_of(kind);
            let s2 = if frame.is_item && s1.frames.len() > 0 && s1.frames.last().is_item {
                lemma_pop_frame_good(s1);
                pop_frame(s1)
            } else {
                s1
            };
            lemma_request_sep_good(s2, Sep::Line);
            let s3 = request_sep(s2, Sep::Line);
            assert(frames_ok(s3.frames));
            assert(no_newline(frame.first) && no_newline(frame.cont)) by {
                match kind {
                    BlockView::Indent { first, cont } => {},
                    BlockView::Item { first, cont } => {},
                }
            }
            let f = s3.frames.push(frame);
            assert forall|i: int| 0 <= i < f.len() implies no_newline(#[trigger] f[i].first)
                && no_newline(f[i].cont) by {
                if i < s3.frames.len() {
                    let fr = s3.frames[i];
                    assert(f[i] == fr);
                    assert(no_newline(fr.first) && no_newline(fr.cont));
                } else {
                    assert(f[i] == frame);
                }
            }
            assert(good(EngineView { frames: f, ..s3 }));
        },
        ItemView::BlockEnd => {
            lemma_flush_word_good(s);
            lemma_pop_frame_good(flush_word(s));
            lemma_request_sep_good(pop_frame(flush_word(s)), Sep::Line);
        },
        ItemView::Verbatim(p) => {
            if p.len() > 0 {
                lemma_flush_word_good(s);
                lemma_verbatim_good(flush_word(s), p);
            }
        },
    }
}

proof fn lemma_run_good(s: EngineView, items: Seq<ItemView>)
    requires
        good(s),
        flow_ok(items),
    ensures
        good(run(s, items)),
    decreases items.len(),
{
    if items.len() > 0 {
        let prev = items.drop_last();
        assert(flow_ok(prev)) by {
            assert forall|i: int| 0 <= i < prev.len() implies item_ok(#[trigger] prev[i]) by {
                assert(prev[i] == items[i]);
            }
        }
        lemma_run_good(s, prev);
        assert(item_ok(items[items.len() - 1]));
        lemma_step_good(run(s, prev), items.last());
    }
}

/// The shape of laid-out text: for a flow whose items keep their contracts, the output
/// never holds two blank lines in a row, never starts with a newline, and — unless it is
/// empty — ends with exactly one newline, so there is no blank line at the end either.
pub proof fn lemma_blank_lines_normalized(items: Seq<ItemView>, wrap: Option<usize>)
    requires
        flow_ok(items),
    ensures
        no_newline_triple(render_spec(items, wrap)),
        render_spec(items, wrap).len() > 0 ==> render_spec(items, wrap)[0] != '\n'
            && ends_with_one_newline(render_spec(items, wrap)),
{
    let s0 = initial(wrap);
    assert(good(s0));
    lemma_run_good(s0, items);
    let s = run(s0, items);
    lemma_flush_word_good(s);
    let s1 = flush_word(s);
    if s1.line_open {
        lemma_triple_concat(s1.out, seq!['\n']);
        assert(s1.out + seq!['\n'] =~= s1.out.push('\n'));
        let out = s1.out.push('\n');
        assert(out[0] == s1.out[0]);
        assert(out[out.len() - 2] == s1.out.last());
    }
}

// ------------------------------------------------------------------ one-line renderings

/// Neither end of `text` is whitespace.
pub open spec fn trimmed_ends(text: Seq<char>) -> bool {
    text.len() > 0 ==> !is_white_space(text[0]) && !is_white_space(text.last())
}

proof fn lemma_trim_front_is_a_suffix(text: Seq<char>)
    ensures
        exists|k: int| 0 <= k <= text.len() && trim_front(text) == text.skip(k),
        trim_front(text).len() > 0 ==> !is_white_space(trim_front(text)[0]),
    decreases text.len(),
{
    if text.len() > 0 && is_white_space(text[0]) {
        lemma_trim_front_is_a_suffix(text.drop_first());
        let k = choose|k: int| 0 <= k <= text.drop_first().len() && trim_front(text.drop_first()) == text.drop_first().skip(k);
        assert(text.drop_first().skip(k) =~= text.skip(k + 1));
    } else {
        assert(text.skip(0) =~= text);
    }
}

proof fn lemma_trim_back_is_a_prefix(text: Seq<char>)
    ensures
        exists|k: int| 0 <= k <= text.len() && trim_back(text) == text.take(k),
        trim_back(text).len() > 0 ==> !is_white_space(trim_back(text).last()),
    decreases text.len(),
{
    if text.len() > 0 && is_white_space(text.last()) {
        lemma_trim_back_is_a_prefix(text.drop_last());
        let k = choose|k: int| 0 <= k <= text.drop_last().len() && trim_back(text.drop_last()) == text.drop_last().take(k);
        assert(text.drop_last().take(k) =~= text.take(k));
    } else {
        assert(text.take(text.len() as int) =~= text);
    }
}

/// A trimmed text: both ends are non-whitespace, and trimming it again changes nothing.
proof fn lemma_trim_shape(text: Seq<char>)
    ensures
        trimmed_ends(trim(text)),
        trim(trim(text)) == trim(text),
        exists|a: int, b: int| 0 <= a <= b <= text.len() && trim(text) == text.subrange(a, b),
{
    lemma_trim_front_is_a_suffix(text);
    let front = trim_front(text);
    let a = choose|k: int| 0 <= k <= text.len() && front == text.skip(k);
    lemma_trim_back_is_a_prefix(front);
    let r = trim_back(front);
    let b = choose|k: int| 0 <= k <= front.len() && r == front.take(k);
    assert(r =~= text.subrange(a, a + b));
    if r.len() > 0 {
        assert(r[0] == front[0]);
    }
    // Trimming a text with non-whitespace ends changes nothing.
    assert(trim_front(r) == r);
    assert(trim_back(r) == r);
}

proof fn lemma_inline_run_one_line(items: Seq<ItemView>)
    requires
        forall|i: int| 0 <= i < items.len() ==> match #[trigger] items[i] {
            ItemView::Text(t) => no_newline(t),
            ItemView::InlineVerbatim(t) => no_newline(t),
            _ => true,
        },
    ensures
        no_newline(inline_run(items).0),
    decreases items.len(),
{
    if items.len() > 0 {
        let prev = items.drop_last();
        assert forall|i: int| 0 <= i < prev.len() implies match #[trigger] prev[i] {
            ItemView::Text(t) => no_newline(t),
            ItemView::InlineVerbatim(t) => no_newline(t),
            _ => true,
        } by {
            assert(prev[i] == items[i]);
        }
        lemma_inline_run_one_line(prev);
        let (out, pending) = inline_run(prev);
        let item = items.last();
        assert(items[items.len() - 1] == item);
        let sp = if out.len() > 0 { out.push(' ') } else { out };
        let sp2 = if pending && out.len() > 0 { out.push(' ') } else { out };
        assert(no_newline(sp)) by {
            assert forall|i: int| 0 <= i < sp.len() implies sp[i] != '\n' by {
                if i < out.len() {
                    assert(sp[i] == out[i]);
                }
            }
        }
        assert(no_newline(sp2)) by {
            assert forall|i: int| 0 <= i < sp2.len() implies sp2[i] != '\n' by {
                if i < out.len() {
                    assert(sp2[i] == out[i]);
                }
            }
        }
        match item {
            ItemView::Text(t) => {
                if t.len() > 0 {
                    lemma_no_newline_concat(sp2, t);
                }
            },
            ItemView::InlineVerbatim(t) => {
                if t.len() > 0 {
                    lemma_no_newline_concat(sp2, t);
                }
            },
            ItemView::Verbatim(p) => {
                if p.len() > 0 {
                    let f = flatten_newlines(p);
                    assert(no_newline(f));
                    lemma_no_newline_concat(sp, f);
                }
            },
            _ => {},
        }
    }
}

/// A one-line rendering is trimmed — rendering it and trimming the result are the same —
/// and, when no word of the flow holds a newline, it is one line: verbatim payloads have
/// their newlines turned into spaces.
pub proof fn lemma_render_inline_is_one_trimmed_line(items: Seq<ItemView>)
    ensures
        trimmed_ends(render_inline_spec(items)),
        trim(render_inline_spec(items)) == render_inline_spec(items),
        (forall|i: int| 0 <= i < items.len() ==> match #[trigger] items[i] {
            ItemView::Text(t) => no_newline(t),
            ItemView::InlineVerbatim(t) => no_newline(t),
            _ => true,
        }) ==> no_newline(render_inline_spec(items)),
{
    let raw = inline_run(items).0;
    lemma_trim_shape(raw);
    if forall|i: int| 0 <= i < items.len() ==> match #[trigger] items[i] {
        ItemView::Text(t) => no_newline(t),
        ItemView::InlineVerbatim(t) => no_newline(t),
        _ => true,
    } {
        lemma_inline_run_one_line(items);
        let (a, b) = choose|a: int, b: int| 0 <= a <= b <= raw.len() && trim(raw) == raw.subrange(a, b);
        assert forall|i: int| 0 <= i < trim(raw).len() implies trim(raw)[i] != '\n' by {
            assert(trim(raw)[i] == raw[a + i]);
        }
    }
}

// ------------------------------------------------------------------ one line or a page

/// A flow of words and glue only, where no word holds whitespace.
pub open spec fn words_and_glue(items: Seq<ItemView>) -> bool {
    forall|i: int|
        0 <= i < items.len() ==> match #[trigger] items[i] {
            ItemView::Text(t) => forall|j: int| 0 <= j < t.len() ==> !is_white_space(#[trigger] t[j]),
            ItemView::Glue => true,
            _ => false,
        }
}

/// The word the engine has not written yet, with the space it will be written after.
spec fn unwritten(s: EngineView) -> Seq<char> {
    if s.word.len() > 0 {
        (if s.pending_glue && s.out.len() > 0 { seq![' '] } else { Seq::<char>::empty() }) + s.word
    } else {
        Seq::empty()
    }
}

/// The page engine, on words and glue without wrapping, is the one-line form: what it
/// has written and is about to write is the one-line text, which neither starts nor ends
/// with whitespace.
spec fn keeps_to_one_line(s: EngineView, line: (Seq<char>, bool)) -> bool {
    &&& s.frames.len() == 0
    &&& s.wrap is None
    &&& s.pending_sep == Sep::Stay
    &&& s.used == 0
    &&& s.line_open == (s.out.len() > 0)
    &&& line.0 == s.out + unwritten(s)
    &&& (s.word.len() > 0 ==> !line.1)
    &&& (s.word.len() == 0 ==> line.1 == s.pending_glue)
    &&& (line.0.len() > 0 ==> !is_white_space(line.0[0]) && !is_white_space(line.0.last()))
}

/// Writing the unwritten word keeps the engine on the one-line text.
proof fn lemma_flush_keeps_to_one_line(s: EngineView, line: (Seq<char>, bool))
    requires
        keeps_to_one_line(s, line),
    ensures
        ({
            let f = flush_word(s);
            &&& f.out == line.0
            &&& f.word.len() == 0
            &&& f.line_open == (f.out.len() > 0)
            &&& f.frames.len() == 0
            &&& f.wrap is None
            &&& f.pending_sep == Sep::Stay
            &&& f.used == 0
        }),
{
    let cleared = EngineView { word: Seq::empty(), ..s };
    if s.word.len() > 0 {
        let s1 = flush_sep(cleared);
        assert(s1 == cleared);
        assert(prefix_text(s1.frames, s1.used, 0) =~= Seq::<char>::empty());
        assert(s1.out + Seq::<char>::empty() =~= s1.out);
        if s.pending_glue && s.out.len() > 0 {
            assert(fits(s1, str_width(s.word)));
            assert(s.out.push(' ') + s.word =~= s.out + (seq![' '] + s.word));
        } else {
            assert(Seq::<char>::empty() + s.word =~= s.word);
        }
    } else {
        assert(s.out + Seq::<char>::empty() =~= s.out);
    }
}

/// A word keeps the engine on the one-line text.
proof fn lemma_word_keeps_to_one_line(s: EngineView, line: (Seq<char>, bool), t: Seq<char>)
    requires
        keeps_to_one_line(s, line),
        forall|j: int| 0 <= j < t.len() ==> !is_white_space(#[trigger] t[j]),
    ensures
        keeps_to_one_line(step(s, ItemView::Text(t)), inline_step(line, ItemView::Text(t))),
{
    let s2 = EngineView { word: s.word + t, ..s };
    assert(step(s, ItemView::Text(t)) == s2);
    if t.len() == 0 {
        assert(s.word + t =~= s.word);
        assert(s2 == s);
    } else {
        let base = if line.1 && line.0.len() > 0 { line.0.push(' ') } else { line.0 };
        let next = base + t;
        assert(inline_step(line, ItemView::Text(t)) == (next, false));
        assert(!is_white_space(t[0]));
        assert(!is_white_space(t[t.len() - 1]));
        assert(next.last() == t[t.len() - 1]);
        if base.len() > 0 {
            assert(next[0] == base[0]);
            assert(base[0] == line.0[0]);
        } else {
            assert(next[0] == t[0]);
        }
        assert(next =~= s2.out + unwritten(s2));
    }
}

/// Glue keeps the engine on the one-line text.
proof fn lemma_glue_keeps_to_one_line(s: EngineView, line: (Seq<char>, bool))
    requires
        keeps_to_one_line(s, line),
    ensures
        keeps_to_one_line(step(s, ItemView::Glue), inline_step(line, ItemView::Glue)),
{
    lemma_flush_keeps_to_one_line(s, line);
    let f = flush_word(s);
    assert(f.out + Seq::<char>::empty() =~= f.out);
}

/// The engine and the one-line form agree item by item on words and glue.
proof fn lemma_words_and_glue_run(items: Seq<ItemView>)
    requires
        words_and_glue(items),
    ensures
        keeps_to_one_line(run(initial(None), items), inline_run(items)),
    decreases items.len(),
{
    if items.len() == 0 {
        assert(Seq::<char>::empty() + Seq::<char>::empty() =~= Seq::<char>::empty());
    } else {
        let prefix = items.drop_last();
        assert forall|i: int| 0 <= i < prefix.len() implies match #[trigger] prefix[i] {
            ItemView::Text(t) => forall|j: int| 0 <= j < t.len() ==> !is_white_space(#[trigger] t[j]),
            ItemView::Glue => true,
            _ => false,
        } by {
            assert(prefix[i] == items[i]);
        }
        lemma_words_and_glue_run(prefix);
        let last = items[items.len() - 1];
        assert(items.last() == last);
        match last {
            ItemView::Text(t) => lemma_word_keeps_to_one_line(run(initial(None), prefix), inline_run(prefix), t),
            ItemView::Glue => lemma_glue_keeps_to_one_line(run(initial(None), prefix), inline_run(prefix)),
            _ => {},
        }
    }
}

/// A flow of words and glue, no word holding whitespace, lays out without wrapping as
/// its one-line form followed by a newline — or as nothing, when that form is empty.
pub proof fn lemma_words_and_glue_lay_out_as_one_line(items: Seq<ItemView>)
    requires
        words_and_glue(items),
    ensures
        render_spec(items, None) == (if render_inline_spec(items).len() == 0 {
            Seq::<char>::empty()
        } else {
            render_inline_spec(items).push('\n')
        }),
{
    lemma_words_and_glue_run(items);
    let s = run(initial(None), items);
    let line = inline_run(items);
    lemma_flush_keeps_to_one_line(s, line);
    let text = line.0;
    lemma_trim_front_at(text, 0);
    assert(text.skip(0) =~= text);
    lemma_trim_back_at(text, text.len() as int);
    assert(text.take(text.len() as int) =~= text);
    assert(trim(text) == text);
}

} // verus!
