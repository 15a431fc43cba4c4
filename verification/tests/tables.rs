use techxt::defs::tables::{pad_into, parse_alignments, render_rows, render_row, split_rows, tabular, Align, Row};
use techxt::flow::{Flow, FlowItem};
use techxt::layout::{render, LayoutOptions};

#[test]
fn alignment_letters_are_read_and_the_rest_is_skipped() {
    assert_eq!(
        parse_alignments("lcr"),
        [Align::Left, Align::Center, Align::Right]
    );
    assert_eq!(
        parse_alignments("|l||c|r|"),
        [Align::Left, Align::Center, Align::Right]
    );
    // A paragraph column takes a column but not its width, and its `{3cm}` must not
    // read as a centred column of its own.
    assert_eq!(parse_alignments("p{3cm}r"), [Align::Left, Align::Right]);
    assert_eq!(parse_alignments("Xl"), [Align::Left, Align::Left]);
    // Inserted material and cell decorations take no column at all.
    assert_eq!(
        parse_alignments("@{}l>{\\bfseries}c<{}"),
        [Align::Left, Align::Center]
    );
    assert_eq!(parse_alignments("!{\\vrule}r"), [Align::Right]);
    // Nested braces inside a skipped group.
    assert_eq!(
        parse_alignments(">{\\raggedright{a}}lr"),
        [Align::Left, Align::Right]
    );
    assert_eq!(parse_alignments(""), []);
}

#[test]
fn padding_is_left_biased_when_centring() {
    let mut line = String::new();
    pad_into(&mut line, "x", 4, Align::Center);
    assert_eq!(line, " x  ");

    let mut line = String::new();
    pad_into(&mut line, "x", 3, Align::Right);
    assert_eq!(line, "  x");

    let mut line = String::new();
    pad_into(&mut line, "xyz", 2, Align::Left);
    assert_eq!(line, "xyz");
}

#[test]
fn a_repetition_group_is_skipped_and_whitespace_before_a_width_is_allowed() {
    assert_eq!(parse_alignments("*{3}{c}"), []);
    assert_eq!(parse_alignments("p {2cm}c"), [Align::Left, Align::Center]);
    assert_eq!(parse_alignments("p{unclosed"), [Align::Left]);
}

fn body(items: Vec<FlowItem>) -> Flow {
    let mut flow = Flow::new();
    for item in items {
        flow.push(item);
    }
    flow
}

fn t(s: &str) -> FlowItem {
    FlowItem::Text(s.into())
}

#[test]
fn a_body_splits_into_rows_and_rules() {
    let rows = split_rows(&body(vec![
        FlowItem::RuleMark,
        t("a"),
        FlowItem::CellSep,
        t("b"),
        FlowItem::Glue,
        t("c"),
        FlowItem::RowSep,
        t("dd"),
        FlowItem::CellSep,
        FlowItem::RowSep,
        FlowItem::RuleMark,
    ]));
    assert_eq!(
        rows,
        vec![
            Row::Rule,
            Row::Cells(vec!["a".into(), "b c".into()]),
            Row::Cells(vec!["dd".into(), "".into()]),
            Row::Rule,
        ]
    );
}

#[test]
fn rows_are_padded_into_columns_with_rules_across() {
    let rows = vec![
        Row::Cells(vec!["a".into(), "bb".into(), "c".into()]),
        Row::Rule,
        Row::Cells(vec!["dddd".into(), "e".into()]),
    ];
    let flow = render_rows(&rows, &[Align::Left, Align::Right, Align::Center]);
    assert_eq!(
        render(&flow, &LayoutOptions::default()),
        "a     bb  c\n-----------\ndddd   e\n"
    );
    assert!(render_rows(&[Row::Rule], &[]).is_empty());
    assert_eq!(
        render_row(&["x".to_string()], &[3, 2], &[Align::Center]),
        " x     "
    );
}

#[test]
fn a_tabular_lays_its_body_out_in_aligned_columns() {
    let table = tabular(
        "|l|r|",
        &body(vec![
            FlowItem::RuleMark,
            t("a"),
            FlowItem::CellSep,
            t("bb"),
            FlowItem::RowSep,
            t("ccc"),
            FlowItem::CellSep,
            t("d"),
            FlowItem::RowSep,
        ]),
    );
    let expected = render(&render_rows(
        &[
            Row::Rule,
            Row::Cells(vec!["a".into(), "bb".into()]),
            Row::Cells(vec!["ccc".into(), "d".into()]),
        ],
        &[Align::Left, Align::Right],
    ), &LayoutOptions::default());
    assert_eq!(render(&table, &LayoutOptions::default()), expected);
    assert!(expected.contains("a    bb"));
}
