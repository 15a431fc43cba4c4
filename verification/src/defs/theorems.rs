//! Theorem-like environments, quotations, abstracts and captions: how their pieces are
//! put together once they have been rendered.

use vstd::prelude::*;

use crate::def::{
    add_env_family, add_env_table, add_macro_family, env_family, env_table, macro_family, Category, CategoryView, EnvDefView,
    MacroDefView, RuleShape, SpecialsDefView,
};
use crate::symbols::EnvBodyKind;
use crate::flow::{BlockKind, BlockView, Flow, FlowItem, ItemView};
use crate::layout::{render_inline, render_inline_spec};
use crate::text::push_char;
use vstd::string::StringExecFns;

verus! {

/// What a `quote` or an abstract is set in from the margin by: four spaces.
pub open spec fn quote_indent() -> Seq<char> {
    seq![' ', ' ', ' ', ' ']
}

/// The end-of-proof mark, `□`.
pub open spec fn qed_mark() -> Seq<char> {
    seq!['\u{25a1}']
}

/// A flow wrapped in a block indented by `indent` on every line.
pub open spec fn indented_items(body: Seq<ItemView>, indent: Seq<char>) -> Seq<ItemView> {
    seq![ItemView::BlockStart(BlockView::Indent { first: indent, cont: indent })] + body + seq![
        ItemView::BlockEnd,
    ]
}

/// Wrap a flow in a block, indented by `indent` (which may be empty).
pub fn indented(body: Flow, indent: &str) -> (flow: Flow)
    ensures
        flow@ == indented_items(body@, indent@),
{
    let first = String::from_str(indent);
    let cont = String::from_str(indent);
    let mut flow = Flow::new();
    flow.push(FlowItem::BlockStart(BlockKind::Indent { first, cont }));
    let rest = body;
    flow.extend(rest);
    flow.push(FlowItem::BlockEnd);
    proof {
        assert(flow@ =~= indented_items(body@, indent@));
    }
    flow
}

/// A theorem-like environment: a label, an optional note, and the body after it.
#[derive(Clone, Copy, Debug, PartialEq, Eq)]
pub struct Theorem {
    /// The word this environment is called by (`Theorem`, `Proof`).
    pub label: &'static str,
    /// Whether the body ends with an end-of-proof mark.
    pub qed: bool,
}

/// A theorem as flow: its own paragraph, the label — followed by the note in
/// parentheses when there is one, glued to the note's first and last words — a period,
/// the body, and the end-of-proof mark if it has one.
pub open spec fn theorem_items(label: Seq<char>, qed: bool, note: Option<Seq<ItemView>>, body: Seq<ItemView>) -> Seq<ItemView> {
    let head = match note {
        Some(n) => seq![ItemView::Text(label), ItemView::Glue, ItemView::Text(seq!['('])] + n
            + seq![ItemView::Text(seq![')', '.'])],
        None => seq![ItemView::Text(label.push('.'))],
    };
    let tail = if qed {
        seq![ItemView::Glue, ItemView::Text(qed_mark())]
    } else {
        Seq::empty()
    };
    seq![ItemView::ParagraphBreak] + head + seq![ItemView::Glue] + body + tail + seq![
        ItemView::ParagraphBreak,
    ]
}

impl Theorem {
    /// Lay a theorem out from its rendered note (if one was written) and body. A note
    /// that renders as nothing is no note at all.
    pub fn render(&self, note: Option<Flow>, body: Flow) -> (flow: Flow)
        ensures
            flow@ == theorem_items(
                self.label@,
                self.qed,
                match note {
                    Some(n) => if render_inline_spec(n@).len() > 0 {
                        Some(n@)
                    } else {
                        None
                    },
                    None => None,
                },
                body@,
            ),
    {
        let note = match note {
            Some(n) => {
                let line = render_inline(&n);
                if line.as_str().is_empty() {
                    None
                } else {
                    Some(n)
                }
            },
            None => None,
        };
        let ghost note_view = match &note {
            Some(n) => Some(n@),
            None => None::<Seq<ItemView>>,
        };
        let mut flow = Flow::new();
        // Its own paragraph: a theorem is a unit, and running it into the sentence
        // before it would lose exactly the boundary the environment was marking.
        flow.push(FlowItem::ParagraphBreak);
        let ghost start = flow@;
        match note {
            Some(note) => {
                assert(note_view == Some(note@));
                flow.push(FlowItem::Text(String::from_str(self.label)));
                flow.push(FlowItem::Glue);
                // The parentheses glue to the note's own first and last words, so a
                // multi-word note still reads as one parenthesis.
                let mut open = String::new();
                push_char(&mut open, '(');
                flow.push(FlowItem::Text(open));
                flow.extend(note);
                let mut close = String::new();
                push_char(&mut close, ')');
                push_char(&mut close, '.');
                assert(open@ =~= seq!['(']);
                assert(close@ =~= seq![')', '.']);
                flow.push(FlowItem::Text(close));
                assert(flow@ =~= start + seq![ItemView::Text(self.label@), ItemView::Glue, ItemView::Text(seq!['('])] + note_view->0
                    + seq![ItemView::Text(seq![')', '.'])]);
            },
            None => {
                let mut label = String::from_str(self.label);
                push_char(&mut label, '.');
                flow.push(FlowItem::Text(label));
                assert(flow@ =~= start + seq![ItemView::Text(self.label@.push('.'))]);
            },
        }
        flow.push(FlowItem::Glue);
        let body = body;
        let ghost body_view = body@;
        flow.extend(body);
        if self.qed {
            flow.push(FlowItem::Glue);
            let mut mark = String::new();
            push_char(&mut mark, '\u{25a1}');
            flow.push(FlowItem::Text(mark));
        }
        flow.push(FlowItem::ParagraphBreak);
        proof {
            let head = match note_view {
                Some(n) => seq![ItemView::Text(self.label@), ItemView::Glue, ItemView::Text(seq!['('])] + n
                    + seq![ItemView::Text(seq![')', '.'])],
                None => seq![ItemView::Text(self.label@.push('.'))],
            };
            let tail = if self.qed {
                seq![ItemView::Glue, ItemView::Text(qed_mark())]
            } else {
                Seq::empty()
            };
            assert(flow@ =~= seq![ItemView::ParagraphBreak] + head + seq![ItemView::Glue] + body_view + tail
                + seq![ItemView::ParagraphBreak]);
        }
        flow
    }
}

/// An abstract as flow: the word `Abstract` as a paragraph of its own, then the body set
/// in from the margin.
pub open spec fn abstract_items(body: Seq<ItemView>) -> Seq<ItemView> {
    seq![
        ItemView::ParagraphBreak,
        ItemView::Text(seq!['A', 'b', 's', 't', 'r', 'a', 'c', 't']),
        ItemView::ParagraphBreak,
    ] + indented_items(body, quote_indent()) + seq![ItemView::ParagraphBreak]
}

/// Lay an abstract out from its rendered body.
pub fn render_abstract(body: Flow) -> (flow: Flow)
    ensures
        flow@ == abstract_items(body@),
{
    let mut flow = Flow::new();
    flow.push(FlowItem::ParagraphBreak);
    let word = String::from_str("Abstract");
    proof {
        reveal_strlit("Abstract");
    }
    flow.push(FlowItem::Text(word));
    flow.push(FlowItem::ParagraphBreak);
    let mut indent = String::new();
    push_char(&mut indent, ' ');
    push_char(&mut indent, ' ');
    push_char(&mut indent, ' ');
    push_char(&mut indent, ' ');
    assert(indent@ =~= quote_indent());
    let block = indented(body, indent.as_str());
    flow.extend(block);
    flow.push(FlowItem::ParagraphBreak);
    proof {
        assert(seq!['A', 'b', 's', 't', 'r', 'a', 'c', 't'] =~= "Abstract"@);
        assert(flow@ =~= abstract_items(body@));
    }
    flow
}

/// Which float a caption is in.
#[derive(Clone, Copy, Debug, PartialEq, Eq, Structural, Hash)]
pub enum FloatKind {
    /// `figure`.
    Figure,
    /// `table`.
    Table,
}

/// What a caption calls itself: after the float it is in, or plain `Caption:` outside
/// any float, which still has something to say.
pub open spec fn caption_label(float: Option<FloatKind>) -> Seq<char> {
    match float {
        Some(FloatKind::Figure) => seq!['F', 'i', 'g', 'u', 'r', 'e', ':'],
        Some(FloatKind::Table) => seq!['T', 'a', 'b', 'l', 'e', ':'],
        None => seq!['C', 'a', 'p', 't', 'i', 'o', 'n', ':'],
    }
}

/// A caption laid out: a paragraph of its own, its label, then its text.
pub open spec fn caption_items(float: Option<FloatKind>, text: Seq<ItemView>) -> Seq<ItemView> {
    seq![ItemView::ParagraphBreak, ItemView::Text(caption_label(float)), ItemView::Glue] + text
        + seq![ItemView::ParagraphBreak]
}

/// A caption is labelled with the float it is in, whatever its text: `Table:` inside a
/// table, `Figure:` inside a figure, `Caption:` outside any float — so a table's
/// caption never reads as a figure's — and its text follows the label unchanged.
pub proof fn lemma_caption_names_its_float(text: Seq<ItemView>)
    ensures
        caption_items(Some(FloatKind::Table), text)[1] == ItemView::Text("Table:"@),
        caption_items(Some(FloatKind::Figure), text)[1] == ItemView::Text("Figure:"@),
        caption_items(None, text)[1] == ItemView::Text("Caption:"@),
        caption_label(Some(FloatKind::Table)) != caption_label(Some(FloatKind::Figure)),
        forall|float: Option<FloatKind>| #[trigger] caption_items(float, text).subrange(3, 3 + text.len() as int) == text,
{
    reveal_strlit("Table:");
    reveal_strlit("Figure:");
    reveal_strlit("Caption:");
    assert(caption_label(Some(FloatKind::Table)) =~= "Table:"@);
    assert(caption_label(Some(FloatKind::Figure)) =~= "Figure:"@);
    assert(caption_label(None) =~= "Caption:"@);
    assert(caption_label(Some(FloatKind::Table))[0] != caption_label(Some(FloatKind::Figure))[0]);
    assert forall|float: Option<FloatKind>| #[trigger] caption_items(float, text).subrange(3, 3 + text.len() as int) == text by {
        assert(caption_items(float, text).subrange(3, 3 + text.len() as int) =~= text);
    }
}

/// Lay a caption out from its rendered text: a paragraph of its own, named after the
/// float it is in.
pub fn render_caption(float: Option<FloatKind>, text: Flow) -> (flow: Flow)
    ensures
        flow@ == caption_items(float, text@),
{
    let label = match float {
        Some(FloatKind::Figure) => {
            proof {
                reveal_strlit("Figure:");
            }
            String::from_str("Figure:")
        },
        Some(FloatKind::Table) => {
            proof {
                reveal_strlit("Table:");
            }
            String::from_str("Table:")
        },
        None => {
            proof {
                reveal_strlit("Caption:");
            }
            String::from_str("Caption:")
        },
    };
    assert(label@ =~= caption_label(float));
    let mut flow = Flow::new();
    flow.push(FlowItem::ParagraphBreak);
    flow.push(FlowItem::Text(label));
    flow.push(FlowItem::Glue);
    let text = text;
    let ghost text_view = text@;
    flow.extend(text);
    flow.push(FlowItem::ParagraphBreak);
    assert(flow@ =~= seq![ItemView::ParagraphBreak, ItemView::Text(caption_label(float)), ItemView::Glue]
        + text_view + seq![ItemView::ParagraphBreak]);
    flow
}

// ------------------------------------------------------------------ the category

/// The environments that render as a theorem, each with the handler that heads it with
/// its word; the short aliases are the ones `\newtheorem{thm}{Theorem}` conventionally
/// declares.
pub open spec fn theorem_table() -> Seq<(&'static str, &'static str)> {
    seq![("theorem", "theorem: Theorem"), ("proposition", "theorem: Proposition"), ("lemma", "theorem: Lemma"), ("corollary", "theorem: Corollary"), ("definition", "theorem: Definition"), ("conjecture", "theorem: Conjecture"), ("remark", "theorem: Remark"), ("example", "theorem: Example"), ("thm", "theorem: Theorem"), ("prop", "theorem: Proposition"), ("lem", "theorem: Lemma"), ("cor", "theorem: Corollary"), ("defn", "theorem: Definition"), ("conj", "theorem: Conjecture"), ("rem", "theorem: Remark")]
}

/// The block environments, in declaration order: alignment environments as unindented
/// blocks, quotations as indented ones, a `minipage`, a `titlepage` and `multicols` as
/// blocks (their position, height, width and column count parsed so that they cannot
/// leak), `spacing` and `sloppypar` as their content, and the abstract.
pub open spec fn block_environments() -> Seq<EnvDefView> {
    env_family(seq!["center", "flushleft", "flushright"], Seq::empty(), EnvBodyKind::Normal, RuleShape::Handler("block"))
        + env_family(seq!["quote", "quotation", "verse"], Seq::empty(), EnvBodyKind::Normal, RuleShape::Handler("indented block"))
        + env_family(
        seq!["minipage"],
        seq![("o", "position"), ("o", "height"), ("o", "inner"), ("m", "width")],
        EnvBodyKind::Normal,
        RuleShape::Handler("block"),
    ) + env_family(seq!["titlepage"], Seq::empty(), EnvBodyKind::Normal, RuleShape::Handler("block")) + env_family(
        seq!["multicols"],
        seq![("m", "columns"), ("o", "heading")],
        EnvBodyKind::Normal,
        RuleShape::Handler("block"),
    ) + env_family(seq!["spacing"], seq![("m", "factor")], EnvBodyKind::Normal, RuleShape::Content) + env_family(
        seq!["sloppypar"],
        Seq::empty(),
        EnvBodyKind::Normal,
        RuleShape::Content,
    ) + env_family(seq!["abstract"], Seq::empty(), EnvBodyKind::Normal, RuleShape::Handler("abstract"))
}

/// The floats: figures and tables with their placement parsed and dropped.
pub open spec fn float_environments() -> Seq<EnvDefView> {
    env_table(
        seq![("figure", "figure float"), ("figure*", "figure float"), ("table", "table float"), ("table*", "table float")],
        seq![("o", "placement")],
        EnvBodyKind::Normal,
    )
}

/// The theorem environments, then `proof`, which ends with the end-of-proof mark.
pub open spec fn theorem_environments() -> Seq<EnvDefView> {
    env_table(theorem_table(), seq![("o", "note")], EnvBodyKind::Normal) + env_family(
        seq!["proof"],
        seq![("o", "note")],
        EnvBodyKind::Normal,
        RuleShape::Handler("proof"),
    )
}

/// `\caption*[short]{text}`.
pub open spec fn theorems_macros() -> Seq<MacroDefView> {
    macro_family(seq!["caption"], seq![("s", "star"), ("o", "short"), ("m", "text")], RuleShape::Handler("caption"))
}

/// The category [`category`] builds.
pub open spec fn category_view() -> CategoryView {
    CategoryView {
        name: "theorems"@,
        macros: theorems_macros(),
        environments: block_environments() + float_environments() + theorem_environments(),
        specials: Seq::<SpecialsDefView>::empty(),
    }
}

/// The theorems category: blocks, floats and theorem-like environments.
pub fn category() -> (c: Category)
    ensures
        c@ == category_view(),
{
    let mut category = Category::new("theorems");
    let ghost start = category@;
    let none: [(&'static str, &'static str); 0] = [];
    assert(none@ =~= Seq::<(&'static str, &'static str)>::empty());
    // blocks
    let aligned: [&'static str; 3] = ["center", "flushleft", "flushright"];
    assert(aligned@ =~= seq!["center", "flushleft", "flushright"]);
    add_env_family(&mut category, &aligned, &none, EnvBodyKind::Normal, RuleShape::Handler("block"));
    let ghost b1 = category@.environments;
    let quotes: [&'static str; 3] = ["quote", "quotation", "verse"];
    assert(quotes@ =~= seq!["quote", "quotation", "verse"]);
    add_env_family(&mut category, &quotes, &none, EnvBodyKind::Normal, RuleShape::Handler("indented block"));
    let ghost b2 = category@.environments;
    let minipage: [&'static str; 1] = ["minipage"];
    let minipage_args: [(&'static str, &'static str); 4] = [("o", "position"), ("o", "height"), ("o", "inner"), ("m", "width")];
    assert(minipage@ =~= seq!["minipage"]);
    assert(minipage_args@ =~= seq![("o", "position"), ("o", "height"), ("o", "inner"), ("m", "width")]);
    add_env_family(&mut category, &minipage, &minipage_args, EnvBodyKind::Normal, RuleShape::Handler("block"));
    let ghost b3 = category@.environments;
    let titlepage: [&'static str; 1] = ["titlepage"];
    assert(titlepage@ =~= seq!["titlepage"]);
    add_env_family(&mut category, &titlepage, &none, EnvBodyKind::Normal, RuleShape::Handler("block"));
    let ghost b4 = category@.environments;
    let multicols: [&'static str; 1] = ["multicols"];
    let multicols_args: [(&'static str, &'static str); 2] = [("m", "columns"), ("o", "heading")];
    assert(multicols@ =~= seq!["multicols"]);
    assert(multicols_args@ =~= seq![("m", "columns"), ("o", "heading")]);
    add_env_family(&mut category, &multicols, &multicols_args, EnvBodyKind::Normal, RuleShape::Handler("block"));
    let ghost b5 = category@.environments;
    let spacing: [&'static str; 1] = ["spacing"];
    let factor: [(&'static str, &'static str); 1] = [("m", "factor")];
    assert(spacing@ =~= seq!["spacing"]);
    assert(factor@ =~= seq![("m", "factor")]);
    add_env_family(&mut category, &spacing, &factor, EnvBodyKind::Normal, RuleShape::Content);
    let ghost b6 = category@.environments;
    let sloppypar: [&'static str; 1] = ["sloppypar"];
    assert(sloppypar@ =~= seq!["sloppypar"]);
    add_env_family(&mut category, &sloppypar, &none, EnvBodyKind::Normal, RuleShape::Content);
    let ghost b7 = category@.environments;
    let abstract_env: [&'static str; 1] = ["abstract"];
    assert(abstract_env@ =~= seq!["abstract"]);
    add_env_family(&mut category, &abstract_env, &none, EnvBodyKind::Normal, RuleShape::Handler("abstract"));
    let ghost after_blocks = category@.environments;
    // floats
    let floats: [(&'static str, &'static str); 4] = [
        ("figure", "figure float"), ("figure*", "figure float"), ("table", "table float"), ("table*", "table float"),
    ];
    let placement: [(&'static str, &'static str); 1] = [("o", "placement")];
    assert(floats@ =~= seq![("figure", "figure float"), ("figure*", "figure float"), ("table", "table float"), ("table*", "table float")]);
    assert(placement@ =~= seq![("o", "placement")]);
    add_env_table(&mut category, &floats, &placement, EnvBodyKind::Normal);
    let ghost after_floats = category@.environments;
    let caption: [&'static str; 1] = ["caption"];
    let caption_args: [(&'static str, &'static str); 3] = [("s", "star"), ("o", "short"), ("m", "text")];
    assert(caption@ =~= seq!["caption"]);
    assert(caption_args@ =~= seq![("s", "star"), ("o", "short"), ("m", "text")]);
    add_macro_family(&mut category, &caption, &caption_args, RuleShape::Handler("caption"));
    // theorems
    let table: [(&'static str, &'static str); 15] = [("theorem", "theorem: Theorem"), ("proposition", "theorem: Proposition"), ("lemma", "theorem: Lemma"), ("corollary", "theorem: Corollary"), ("definition", "theorem: Definition"), ("conjecture", "theorem: Conjecture"), ("remark", "theorem: Remark"), ("example", "theorem: Example"), ("thm", "theorem: Theorem"), ("prop", "theorem: Proposition"), ("lem", "theorem: Lemma"), ("cor", "theorem: Corollary"), ("defn", "theorem: Definition"), ("conj", "theorem: Conjecture"), ("rem", "theorem: Remark")];
    let note: [(&'static str, &'static str); 1] = [("o", "note")];
    assert(table@ =~= theorem_table());
    assert(note@ =~= seq![("o", "note")]);
    add_env_table(&mut category, &table, &note, EnvBodyKind::Normal);
    let ghost t1 = category@.environments;
    let proof_env: [&'static str; 1] = ["proof"];
    assert(proof_env@ =~= seq!["proof"]);
    add_env_family(&mut category, &proof_env, &note, EnvBodyKind::Normal, RuleShape::Handler("proof"));
    proof {
        assert(start.environments =~= Seq::<EnvDefView>::empty());
        assert(start.macros =~= Seq::<MacroDefView>::empty());
        assert(after_blocks =~= block_environments());
        assert(after_floats =~= block_environments() + float_environments());
        assert(category@.environments =~= block_environments() + float_environments() + theorem_environments());
        assert(category@.macros =~= theorems_macros());
    }
    category
}

} // verus!
