//! The graphics category: an included graphic becomes a placeholder block.

use vstd::prelude::*;

use crate::def::{add_macro_family, macro_family, Category, CategoryView, EnvDefView, MacroDefView, RuleShape, SpecialsDefView};

use crate::flow::{BlockKind, BlockView, Flow, FlowItem, ItemView};
use crate::text::{chars_of, push_char};

verus! {

/// The graphics macros: `\includegraphics[options]{file}`, rendered by the placeholder
/// handler for graphics.
pub open spec fn graphics_macros() -> Seq<MacroDefView> {
    macro_family(seq!["includegraphics"], seq![("o", "options"), ("m", "file")], RuleShape::Handler("graphics placeholder"))
}

/// The category [`category`] builds.
pub open spec fn category_view() -> CategoryView {
    CategoryView {
        name: "graphics"@,
        macros: graphics_macros(),
        environments: Seq::<EnvDefView>::empty(),
        specials: Seq::<SpecialsDefView>::empty(),
    }
}

/// The graphics category.
pub fn category() -> (c: Category)
    ensures
        c@ == category_view(),
{
    let mut category = Category::new("graphics");
    let names: [&'static str; 1] = ["includegraphics"];
    let args: [(&'static str, &'static str); 2] = [("o", "options"), ("m", "file")];
    assert(names@ =~= seq!["includegraphics"]);
    assert(args@ =~= seq![("o", "options"), ("m", "file")]);
    add_macro_family(&mut category, &names, &args, RuleShape::Handler("graphics placeholder"));
    assert(category@.macros =~= graphics_macros());
    category
}

/// A label spelled out: each character after a space, between `<` and ` >` —
/// `< g r a p h i c s >`. Spaced out, the word is unmistakably a marker rather than a
/// word of the document to whatever indexes the text.
pub open spec fn spaced_label(label: Seq<char>) -> Seq<char>
    decreases label.len(),
{
    if label.len() == 0 {
        seq!['<']
    } else {
        spaced_label(label.drop_last()) + seq![' ', label.last()]
    }
}

/// The indent a placeholder block sits in.
pub open spec fn placeholder_indent() -> Seq<char> {
    seq![' ', ' ', ' ', ' ']
}

/// A placeholder block, set off by blank lines: it interrupts the text, and the marker
/// is one item, so the spaces inside it are never touched.
pub open spec fn placeholder_items(label: Seq<char>) -> Seq<ItemView> {
    seq![
        ItemView::ParagraphBreak,
        ItemView::BlockStart(BlockView::Indent { first: placeholder_indent(), cont: placeholder_indent() }),
        ItemView::Text(spaced_label(label) + seq![' ', '>']),
        ItemView::BlockEnd,
        ItemView::ParagraphBreak,
    ]
}

fn indent() -> (text: String)
    ensures
        text@ == placeholder_indent(),
{
    let mut text = String::new();
    push_char(&mut text, ' ');
    push_char(&mut text, ' ');
    push_char(&mut text, ' ');
    push_char(&mut text, ' ');
    assert(text@ =~= placeholder_indent());
    text
}

/// What something plain text cannot show renders as: a placeholder block naming it.
pub fn placeholder(label: &str) -> (flow: Flow)
    ensures
        flow@ == placeholder_items(label@),
{
    let chars = chars_of(label);
    let mut text = String::new();
    push_char(&mut text, '<');
    let mut i: usize = 0;
    assert(chars@.take(0) =~= Seq::<char>::empty());
    while i < chars.len()
        invariant
            i <= chars@.len(),
            chars@ == label@,
            text@ == spaced_label(chars@.take(i as int)),
        decreases chars@.len() - i,
    {
        push_char(&mut text, ' ');
        push_char(&mut text, chars[i]);
        assert(chars@.take(i + 1).drop_last() =~= chars@.take(i as int));
        i = i + 1;
    }
    assert(chars@.take(chars@.len() as int) =~= chars@);
    push_char(&mut text, ' ');
    push_char(&mut text, '>');
    let ghost marker = text@;
    let mut flow = Flow::new();
    flow.push(FlowItem::ParagraphBreak);
    flow.push(FlowItem::BlockStart(BlockKind::Indent { first: indent(), cont: indent() }));
    flow.push(FlowItem::Text(text));
    flow.push(FlowItem::BlockEnd);
    flow.push(FlowItem::ParagraphBreak);
    assert(marker =~= spaced_label(label@) + seq![' ', '>']);
    assert(flow@ =~= placeholder_items(label@));
    flow
}

} // verus!
