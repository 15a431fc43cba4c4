use techxt::convert::FootnoteStyle;
use techxt::defs::base::{alignment, footnote, horizontal_rule, line_break, MathCtx};
use techxt::flow::{Flow, FlowItem};
use techxt::layout::{render, LayoutOptions};

fn only(flow: &Flow) -> &FlowItem {
    assert_eq!(flow.items().len(), 1);
    &flow.items()[0]
}

const DISPLAY: MathCtx = MathCtx {
    display: true,
    matrix: false,
};
const INLINE: MathCtx = MathCtx {
    display: false,
    matrix: false,
};
const MATRIX: MathCtx = MathCtx {
    display: true,
    matrix: true,
};

#[test]
fn a_line_break_means_what_its_place_says() {
    assert!(matches!(only(&line_break(true, None)), FlowItem::RowSep));
    assert!(matches!(only(&line_break(false, Some(MATRIX))), FlowItem::RowSep));
    assert!(matches!(only(&line_break(false, Some(DISPLAY))), FlowItem::HardBreak));
    assert!(matches!(only(&line_break(false, Some(INLINE))), FlowItem::Glue));
    assert!(matches!(only(&line_break(false, None)), FlowItem::HardBreak));
}

#[test]
fn an_alignment_marker_separates_cells_or_is_reported() {
    let (flow, misplaced) = alignment(true, None);
    assert!(matches!(only(&flow), FlowItem::CellSep));
    assert!(!misplaced);
    let (flow, misplaced) = alignment(false, Some(INLINE));
    assert!(flow.items().is_empty());
    assert!(!misplaced);
    let (flow, misplaced) = alignment(false, None);
    assert!(matches!(only(&flow), FlowItem::Glue));
    assert!(misplaced);
}

#[test]
fn a_rule_outside_a_table_is_ignored_and_reported() {
    let (flow, ignored) = horizontal_rule(true);
    assert!(matches!(only(&flow), FlowItem::RuleMark));
    assert!(!ignored);
    let (flow, ignored) = horizontal_rule(false);
    assert!(flow.items().is_empty());
    assert!(ignored);
}

#[test]
fn collected_footnotes_are_numbered_in_order_and_glue_to_their_word() {
    let mut notes = Vec::new();
    let mut text = Flow::text("Fact");
    text.extend(footnote(FootnoteStyle::Collected, Flow::text("Why."), &mut notes));
    text.push(FlowItem::Glue);
    text.push(FlowItem::Text("holds".into()));
    text.extend(footnote(FootnoteStyle::Collected, Flow::text("How."), &mut notes));
    assert_eq!(render(&text, &LayoutOptions::default()), "Fact[1] holds[2]\n");
    assert_eq!(notes.len(), 2);
}

#[test]
fn inline_and_skipped_footnotes_collect_nothing() {
    let mut notes = Vec::new();
    let mut text = Flow::text("Fact");
    text.extend(footnote(FootnoteStyle::Inline, Flow::text("why"), &mut notes));
    text.extend(footnote(FootnoteStyle::Skip, Flow::text("gone"), &mut notes));
    assert_eq!(render(&text, &LayoutOptions::default()), "Fact[why]\n");
    assert!(notes.is_empty());
}

#[test]
fn a_graphic_becomes_a_spaced_out_placeholder_block() {
    let mut flow = Flow::text("See");
    flow.extend(techxt::defs::graphics::placeholder("graphics"));
    flow.push(FlowItem::Text("here".into()));
    assert_eq!(
        render(&flow, &LayoutOptions::default()),
        "See\n\n    < g r a p h i c s >\n\nhere\n"
    );
}
