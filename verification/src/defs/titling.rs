//! The title block: `\title`, `\author` and `\date` set fields that `\maketitle` shows,
//! as three lines over a rule of `=`.

use vstd::prelude::*;

use crate::def::{
    add_macro_family, macro_family, Category, CategoryView, EnvDefView, MacroDefView, RuleShape, SpecialsDefView,
};

use crate::flow::{display_width, str_width, Flow, FlowItem, ItemView};
use crate::layout::{render_inline, render_inline_spec};
use crate::text::push_char;

verus! {

/// A field-setting macro: `\title[short]{value}` and its siblings.
pub open spec fn field_args() -> Seq<(&'static str, &'static str)> {
    seq![("o", "short"), ("m", "value")]
}

/// The titling macros, in declaration order: the three fields, `\maketitle`, `\today`,
/// `\and` between authors, and `\thanks`, dropped.
pub open spec fn titling_macros() -> Seq<MacroDefView> {
    macro_family(seq!["title"], field_args(), RuleShape::Handler("set title")) + macro_family(
        seq!["author"],
        field_args(),
        RuleShape::Handler("set author"),
    ) + macro_family(seq!["date"], field_args(), RuleShape::Handler("set date")) + macro_family(
        seq!["maketitle"],
        Seq::empty(),
        RuleShape::Handler("title block"),
    ) + macro_family(seq!["today"], Seq::empty(), RuleShape::Handler("today")) + macro_family(
        seq!["and"],
        Seq::empty(),
        RuleShape::Literal(" and "),
    ) + macro_family(seq!["thanks"], seq![("m", "text")], RuleShape::Skip)
}

/// The category [`category`] builds.
pub open spec fn category_view() -> CategoryView {
    CategoryView {
        name: "titling"@,
        macros: titling_macros(),
        environments: Seq::<EnvDefView>::empty(),
        specials: Seq::<SpecialsDefView>::empty(),
    }
}

/// The titling category.
pub fn category() -> (c: Category)
    ensures
        c@ == category_view(),
{
    let mut category = Category::new("titling");
    let ghost start = category@;
    let field: [(&'static str, &'static str); 2] = [("o", "short"), ("m", "value")];
    let none: [(&'static str, &'static str); 0] = [];
    assert(field@ =~= field_args());
    assert(none@ =~= Seq::<(&'static str, &'static str)>::empty());
    let title: [&'static str; 1] = ["title"];
    assert(title@ =~= seq!["title"]);
    add_macro_family(&mut category, &title, &field, RuleShape::Handler("set title"));
    let ghost m1 = category@.macros;
    let author: [&'static str; 1] = ["author"];
    assert(author@ =~= seq!["author"]);
    add_macro_family(&mut category, &author, &field, RuleShape::Handler("set author"));
    let ghost m2 = category@.macros;
    let date: [&'static str; 1] = ["date"];
    assert(date@ =~= seq!["date"]);
    add_macro_family(&mut category, &date, &field, RuleShape::Handler("set date"));
    let ghost m3 = category@.macros;
    let maketitle: [&'static str; 1] = ["maketitle"];
    assert(maketitle@ =~= seq!["maketitle"]);
    add_macro_family(&mut category, &maketitle, &none, RuleShape::Handler("title block"));
    let ghost m4 = category@.macros;
    let today: [&'static str; 1] = ["today"];
    assert(today@ =~= seq!["today"]);
    add_macro_family(&mut category, &today, &none, RuleShape::Handler("today"));
    let ghost m5 = category@.macros;
    let and: [&'static str; 1] = ["and"];
    assert(and@ =~= seq!["and"]);
    add_macro_family(&mut category, &and, &none, RuleShape::Literal(" and "));
    let ghost m6 = category@.macros;
    let thanks: [&'static str; 1] = ["thanks"];
    let text: [(&'static str, &'static str); 1] = [("m", "text")];
    assert(thanks@ =~= seq!["thanks"]);
    assert(text@ =~= seq![("m", "text")]);
    add_macro_family(&mut category, &thanks, &text, RuleShape::Skip);
    proof {
        assert(start.macros =~= Seq::<MacroDefView>::empty());
        assert(category@.macros =~= titling_macros());
    }
    category
}

// ------------------------------------------------------------------ the title block

/// A recorded field as a mathematical value, if it was recorded.
pub open spec fn field_view(field: Option<&Flow>) -> Option<Seq<ItemView>> {
    match field {
        Some(flow) => Some(flow@),
        None => None,
    }
}

/// A field on one line, or what stands in for it when the document never set it.
pub open spec fn field_line(field: Option<Seq<ItemView>>, missing: Seq<char>) -> Seq<char> {
    match field {
        Some(items) => render_inline_spec(items),
        None => missing,
    }
}

/// The indent of the author and date lines.
pub open spec fn title_indent() -> Seq<char> {
    seq![' ', ' ', ' ', ' ']
}

/// The three lines of a title block: the title, then the author and the date indented.
/// A date the document did not set is today's date as the options give it.
pub open spec fn title_lines(
    title: Option<Seq<ItemView>>,
    author: Option<Seq<ItemView>>,
    date: Option<Seq<ItemView>>,
    today: Option<Seq<char>>,
) -> (Seq<char>, Seq<char>, Seq<char>) {
    let date_text = match date {
        Some(items) => render_inline_spec(items),
        None => match today {
            Some(text) => text,
            None => "<today>"@,
        },
    };
    (
        field_line(title, "<no title>"@),
        title_indent() + field_line(author, "<no author>"@),
        title_indent() + date_text,
    )
}

/// The widest of three lines, in display columns.
pub open spec fn widest(a: Seq<char>, b: Seq<char>, c: Seq<char>) -> usize {
    let ab = if str_width(a) >= str_width(b) { str_width(a) } else { str_width(b) };
    if ab >= str_width(c) { ab } else { str_width(c) }
}

/// A title block: a paragraph of its three lines and a rule of `=` as wide as the widest,
/// one line break apart.
pub open spec fn title_items(lines: (Seq<char>, Seq<char>, Seq<char>)) -> Seq<ItemView> {
    let rule = Seq::new(widest(lines.0, lines.1, lines.2) as nat, |i: int| '=');
    seq![
        ItemView::ParagraphBreak,
        ItemView::Text(lines.0),
        ItemView::HardBreak,
        ItemView::Text(lines.1),
        ItemView::HardBreak,
        ItemView::Text(lines.2),
        ItemView::HardBreak,
        ItemView::Text(rule),
        ItemView::ParagraphBreak,
    ]
}

fn indented(text: String) -> (line: String)
    ensures
        line@ == title_indent() + text@,
{
    let mut line = String::new();
    push_char(&mut line, ' ');
    push_char(&mut line, ' ');
    push_char(&mut line, ' ');
    push_char(&mut line, ' ');
    line.append(text.as_str());
    assert(line@ =~= title_indent() + text@);
    line
}

/// What `\maketitle` renders as, given the fields the document recorded and the date the
/// options give for today. Each field is laid out on one line — a title block is a block
/// of lines, and a paragraph break inside a recorded title would break it apart — and
/// each line is one item, so the rule's width, measured from these exact strings, stays
/// right.
pub fn title_block(title: Option<&Flow>, author: Option<&Flow>, date: Option<&Flow>, today: Option<&str>) -> (flow: Flow)
    ensures
        flow@ == title_items(title_lines(
            field_view(title),
            field_view(author),
            field_view(date),
            match today {
                Some(text) => Some(text@),
                None => None,
            },
        )),
{
    let first = match title {
        Some(f) => render_inline(f),
        None => "<no title>".to_owned(),
    };
    let who = match author {
        Some(f) => render_inline(f),
        None => "<no author>".to_owned(),
    };
    let when = match date {
        Some(f) => render_inline(f),
        None => match today {
            Some(text) => text.to_owned(),
            None => "<today>".to_owned(),
        },
    };
    let second = indented(who);
    let third = indented(when);
    let w1 = display_width(first.as_str());
    let w2 = display_width(second.as_str());
    let w3 = display_width(third.as_str());
    let w12 = if w1 >= w2 { w1 } else { w2 };
    let width = if w12 >= w3 { w12 } else { w3 };
    let mut rule = String::new();
    let mut i: usize = 0;
    while i < width
        invariant
            i <= width,
            rule@ == Seq::new(i as nat, |j: int| '='),
        decreases width - i,
    {
        push_char(&mut rule, '=');
        i = i + 1;
        assert(rule@ =~= Seq::new(i as nat, |j: int| '='));
    }
    let ghost lines = (first@, second@, third@);
    let mut flow = Flow::new();
    flow.push(FlowItem::ParagraphBreak);
    flow.push(FlowItem::Text(first));
    flow.push(FlowItem::HardBreak);
    flow.push(FlowItem::Text(second));
    flow.push(FlowItem::HardBreak);
    flow.push(FlowItem::Text(third));
    flow.push(FlowItem::HardBreak);
    flow.push(FlowItem::Text(rule));
    flow.push(FlowItem::ParagraphBreak);
    assert(flow@ =~= title_items(lines));
    flow
}

} // verus!
