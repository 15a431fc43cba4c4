use techxt::flow::FlowItem::{
    BlockEnd, BlockStart, CellSep, Glue, HardBreak, InlineVerbatim, ParagraphBreak, RowSep, RuleMark,
    Text, Verbatim,
};
use techxt::flow::{BlockKind, Flow, FlowItem};
use techxt::layout::{render, render_inline, render_to, LayoutOptions};

fn flow(items: Vec<FlowItem>) -> Flow {
    let mut f = Flow::new();
    for item in items {
        f.push(item);
    }
    f
}

fn plain(items: Vec<FlowItem>) -> String {
    render(&flow(items), &LayoutOptions::default())
}

fn wrapped(width: usize, items: Vec<FlowItem>) -> String {
    render(
        &flow(items),
        &LayoutOptions {
            wrap_width: Some(width),
        },
    )
}

fn t(s: &str) -> FlowItem {
    Text(s.into())
}

fn indent(first: &str, cont: &str) -> FlowItem {
    BlockStart(BlockKind::Indent {
        first: first.into(),
        cont: cont.into(),
    })
}

fn item(first: &str, cont: &str) -> FlowItem {
    BlockStart(BlockKind::Item {
        first: first.into(),
        cont: cont.into(),
    })
}

#[test]
fn empty_flow_renders_nothing() {
    assert_eq!(plain(vec![]), "");
    assert_eq!(wrapped(10, vec![]), "");
    assert_eq!(plain(vec![t("")]), "");
    assert_eq!(plain(vec![Glue, t(""), Glue]), "");
}

#[test]
fn words_are_separated_by_one_space() {
    assert_eq!(plain(vec![t("a"), Glue, t("b")]), "a b\n");
}

#[test]
fn glue_collapses() {
    assert_eq!(plain(vec![t("a"), Glue, Glue, Glue, t("b")]), "a b\n");
}

#[test]
fn glue_at_the_edges_is_dropped() {
    assert_eq!(plain(vec![Glue, t("a"), Glue]), "a\n");
    assert_eq!(
        plain(vec![Glue, Glue, t("a"), HardBreak, Glue, t("b"), Glue]),
        "a\nb\n"
    );
}

#[test]
fn adjacent_text_items_are_one_word() {
    assert_eq!(plain(vec![t("bold"), t("text")]), "boldtext\n");
    assert_eq!(
        wrapped(10, vec![t("aa"), Glue, t("bold"), t("text")]),
        "aa\nboldtext\n"
    );
}

#[test]
fn inline_verbatim_is_an_unbreakable_word() {
    assert_eq!(plain(vec![t("a"), InlineVerbatim("x_1".into())]), "ax_1\n");
    assert_eq!(
        wrapped(6, vec![t("aa"), Glue, InlineVerbatim("b  c".into())]),
        "aa\nb  c\n"
    );
}

#[test]
fn wrapping_breaks_at_glue() {
    assert_eq!(
        wrapped(
            11,
            vec![t("aaa"), Glue, t("bbb"), Glue, t("ccc"), Glue, t("ddd")]
        ),
        "aaa bbb ccc\nddd\n"
    );
}

#[test]
fn wrapping_crosses_item_boundaries() {
    assert_eq!(
        wrapped(
            12,
            vec![
                t("aaa"),
                Glue,
                t("bbb"),
                Glue,
                t("ccc"),
                Glue,
                t("ddd"),
                Glue,
                t("eee")
            ]
        ),
        "aaa bbb ccc\nddd eee\n"
    );
}

#[test]
fn no_wrap_is_the_same_pass_without_the_width_check() {
    let items = vec![
        t("aaa"),
        Glue,
        t("bbb"),
        Glue,
        t("ccc"),
        Glue,
        t("ddd"),
        Glue,
        t("eee"),
    ];
    assert_eq!(plain(items), "aaa bbb ccc ddd eee\n");
}

#[test]
fn an_oversized_word_overflows_rather_than_splitting() {
    assert_eq!(wrapped(3, vec![t("aaaaa"), Glue, t("bb")]), "aaaaa\nbb\n");
    assert_eq!(
        wrapped(5, vec![t("a"), Glue, t("https://example.org/very/long")]),
        "a\nhttps://example.org/very/long\n"
    );
}

#[test]
fn wrapping_uses_display_width_not_byte_length() {
    assert_eq!(wrapped(9, vec![t("aaaa"), Glue, t("𝐛𝐨𝐥𝐝")]), "aaaa 𝐛𝐨𝐥𝐝\n");
    assert_eq!(wrapped(8, vec![t("aaaa"), Glue, t("𝐛𝐨𝐥𝐝")]), "aaaa\n𝐛𝐨𝐥𝐝\n");
}

#[test]
fn a_word_that_exactly_fits_stays_on_the_line() {
    assert_eq!(wrapped(7, vec![t("aaa"), Glue, t("bbb")]), "aaa bbb\n");
    assert_eq!(wrapped(6, vec![t("aaa"), Glue, t("bbb")]), "aaa\nbbb\n");
}

#[test]
fn hard_break_starts_a_new_line() {
    assert_eq!(plain(vec![t("a"), HardBreak, t("b")]), "a\nb\n");
}

#[test]
fn paragraph_break_leaves_one_blank_line() {
    assert_eq!(plain(vec![t("a"), ParagraphBreak, t("b")]), "a\n\nb\n");
}

#[test]
fn separation_requests_merge_and_never_sum() {
    assert_eq!(
        plain(vec![
            t("a"),
            ParagraphBreak,
            ParagraphBreak,
            ParagraphBreak,
            t("b")
        ]),
        "a\n\nb\n"
    );
    assert_eq!(
        plain(vec![t("a"), HardBreak, ParagraphBreak, HardBreak, t("b")]),
        "a\n\nb\n"
    );
    assert_eq!(
        plain(vec![t("a"), ParagraphBreak, Glue, ParagraphBreak, t("b")]),
        "a\n\nb\n"
    );
}

#[test]
fn example_2_four_newlines_are_one_blank_line() {
    let f = Flow::from_plain_text("one\n\n\n\ntwo");
    assert_eq!(render(&f, &LayoutOptions::default()), "one\n\ntwo\n");
}

#[test]
fn no_leading_or_trailing_blank_lines() {
    assert_eq!(
        plain(vec![
            ParagraphBreak,
            HardBreak,
            t("a"),
            ParagraphBreak,
            HardBreak
        ]),
        "a\n"
    );
    assert_eq!(plain(vec![ParagraphBreak, ParagraphBreak]), "");
}

#[test]
fn output_ends_with_exactly_one_newline() {
    assert_eq!(plain(vec![t("a")]), "a\n");
    assert_eq!(plain(vec![t("a"), HardBreak]), "a\n");
    assert_eq!(plain(vec![Verbatim("v\n".into())]), "v\n");
}

#[test]
fn a_block_prefixes_its_first_and_later_lines() {
    assert_eq!(
        plain(vec![
            indent("> ", "| "),
            t("a"),
            HardBreak,
            t("b"),
            BlockEnd,
            t("c")
        ]),
        "> a\n| b\nc\n"
    );
}

#[test]
fn block_prefix_width_counts_toward_the_wrap_column() {
    assert_eq!(
        wrapped(
            8,
            vec![indent("* ", "  "), t("aaa"), Glue, t("bbb"), Glue, t("ccc")]
        ),
        "* aaa\n  bbb\n  ccc\n"
    );
    assert_eq!(
        wrapped(8, vec![t("aaa"), Glue, t("bbb"), Glue, t("ccc")]),
        "aaa bbb\nccc\n"
    );
}

#[test]
fn nested_blocks_stack_their_prefixes() {
    assert_eq!(
        plain(vec![
            indent("", "  "),
            t("a"),
            indent("> ", "| "),
            t("b"),
            HardBreak,
            t("c"),
            BlockEnd,
            t("d"),
            BlockEnd,
        ]),
        "a\n  > b\n  | c\n  d\n"
    );
}

#[test]
fn a_block_boundary_separates_but_does_not_blank() {
    assert_eq!(
        plain(vec![t("a"), indent("", ""), t("b"), BlockEnd, t("c")]),
        "a\nb\nc\n"
    );
    assert_eq!(
        plain(vec![
            t("a"),
            ParagraphBreak,
            indent("", ""),
            t("b"),
            BlockEnd,
            t("c")
        ]),
        "a\n\nb\nc\n"
    );
}

#[test]
fn empty_blocks_produce_nothing() {
    assert_eq!(
        plain(vec![t("a"), indent("> ", "| "), BlockEnd, t("b")]),
        "a\nb\n"
    );
    assert_eq!(plain(vec![indent("> ", "| "), BlockEnd]), "");
}

#[test]
fn an_unmatched_block_end_is_ignored() {
    assert_eq!(
        plain(vec![BlockEnd, t("a"), BlockEnd, BlockEnd, t("b")]),
        "a\nb\n"
    );
}

#[test]
fn an_item_auto_closes_the_previous_item() {
    assert_eq!(
        plain(vec![
            item("1. ", "   "),
            t("x"),
            item("2. ", "   "),
            t("y"),
            BlockEnd
        ]),
        "1. x\n2. y\n"
    );
}

#[test]
fn example_22_nested_lists() {
    assert_eq!(
        plain(vec![
            indent("", ""),
            item("  • ", "    "),
            t("one"),
            indent("", ""),
            item("1. ", "   "),
            t("x"),
            item("2. ", "   "),
            t("y"),
            BlockEnd,
            BlockEnd,
            item("  • ", "    "),
            t("two"),
            BlockEnd,
            BlockEnd,
        ]),
        "  • one\n    1. x\n    2. y\n  • two\n"
    );
}

#[test]
fn a_block_first_prefix_is_used_once() {
    assert_eq!(
        plain(vec![
            item("- ", "  "),
            t("a"),
            Glue,
            t("b"),
            HardBreak,
            t("c"),
            BlockEnd
        ]),
        "- a b\n  c\n"
    );
}

#[test]
fn verbatim_is_preserved_byte_for_byte() {
    let body = "  keep   this\n\n    exactly\n";
    assert_eq!(
        wrapped(6, vec![t("a"), Verbatim(body.into()), t("b")]),
        "a\n\n  keep   this\n\n    exactly\n\nb\n"
    );
}

#[test]
fn verbatim_is_never_wrapped() {
    let body = "a very long preformatted line that must not be broken\n";
    let out = wrapped(10, vec![Verbatim(body.into())]);
    assert!(out.contains("a very long preformatted line that must not be broken"));
}

#[test]
fn verbatim_lines_get_the_continuation_indent() {
    assert_eq!(
        plain(vec![
            indent("", "  "),
            t("a"),
            Verbatim("x\n\ny\n".into()),
            t("b"),
            BlockEnd
        ]),
        "a\n\n  x\n\n  y\n\n  b\n"
    );
}

#[test]
fn empty_verbatim_lines_carry_no_indent() {
    let out = plain(vec![
        indent("", "    "),
        Verbatim("x\n\ny".into()),
        BlockEnd,
    ]);
    assert_eq!(out, "    x\n\n    y\n");
    for line in out.lines() {
        assert_eq!(line.trim_end(), line, "trailing whitespace in {line:?}");
    }
}

#[test]
fn an_empty_verbatim_is_a_no_op() {
    assert_eq!(plain(vec![t("a"), Verbatim("".into()), t("b")]), "ab\n");
    assert_eq!(
        plain(vec![t("a"), Glue, Verbatim("".into()), t("b")]),
        "a b\n"
    );
}

#[test]
fn verbatim_at_the_document_edges_needs_no_blank_lines() {
    assert_eq!(plain(vec![Verbatim("x\n".into())]), "x\n");
    assert_eq!(plain(vec![Verbatim("x".into())]), "x\n");
    assert_eq!(
        plain(vec![Verbatim("x".into()), Verbatim("y".into())]),
        "x\n\ny\n"
    );
}

#[test]
fn render_inline_flattens_everything_to_one_line() {
    assert_eq!(render_inline(&flow(vec![])), "");
    assert_eq!(
        render_inline(&flow(vec![Glue, t("a"), Glue, Glue, t("b"), Glue])),
        "a b"
    );
    assert_eq!(
        render_inline(&flow(vec![
            t("a"),
            HardBreak,
            t("b"),
            ParagraphBreak,
            t("c")
        ])),
        "a b c"
    );
    assert_eq!(render_inline(&flow(vec![t("bold"), t("text")])), "boldtext");
}

#[test]
fn render_inline_ignores_block_prefixes() {
    assert_eq!(
        render_inline(&flow(vec![
            t("a"),
            indent("> ", "| "),
            t("b"),
            BlockEnd,
            t("c")
        ])),
        "a b c"
    );
}

#[test]
fn render_inline_squeezes_verbatim_onto_the_line() {
    assert_eq!(
        render_inline(&flow(vec![t("a"), Verbatim("x  y\nz\n".into()), t("b")])),
        "a x  y z  b"
    );
    assert_eq!(
        render_inline(&flow(vec![InlineVerbatim(" x ".into())])),
        "x"
    );
}

#[test]
fn stray_table_markers_fall_back_in_release() {
    assert_eq!(plain(vec![t("a"), CellSep, t("b")]), "a b\n");
    assert_eq!(plain(vec![t("a"), RowSep, t("b")]), "a\nb\n");
    assert_eq!(plain(vec![t("a"), RuleMark, t("b")]), "a\nb\n");
    assert_eq!(render_inline(&flow(vec![t("a"), CellSep, t("b")])), "a b");
}

#[test]
fn module_example_wraps_at_sixteen_columns() {
    let flow = Flow::from_plain_text("the quick brown fox jumps");
    let opts = LayoutOptions {
        wrap_width: Some(16),
    };
    assert_eq!(render(&flow, &opts), "the quick brown\nfox jumps\n");
}

#[test]
fn render_to_matches_render() {
    let f = flow(vec![t("a"), ParagraphBreak, t("b")]);
    let opts = LayoutOptions::default();
    let mut out = String::new();
    render_to(&f, &opts, &mut out).expect("String's fmt::Write cannot fail");
    assert_eq!(out, render(&f, &opts));
}

#[test]
fn render_to_propagates_writer_errors() {
    struct Failing;
    impl std::fmt::Write for Failing {
        fn write_str(&mut self, _s: &str) -> std::fmt::Result {
            Err(std::fmt::Error)
        }
    }
    let f = flow(vec![t("a")]);
    assert!(render_to(&f, &LayoutOptions::default(), &mut Failing).is_err());
}

#[test]
fn words_and_glue_lay_out_as_their_one_line_form() {
    let items = || vec![Glue, t("ab"), t("c"), Glue, Glue, t("d"), Glue];
    let line = render_inline(&flow(items()));
    assert_eq!(line, "abc d");
    assert_eq!(plain(items()), format!("{line}\n"));
    assert_eq!(plain(vec![Glue, Glue]), "");
    assert_eq!(render_inline(&flow(vec![Glue, Glue])), "");
}

#[test]
fn verbatim_between_paragraphs_keeps_its_lines_exactly() {
    let payload = "fn main() {\n    let  x = 1;\n\n}";
    let out = plain(vec![
        t("before"),
        Glue,
        t("text"),
        Verbatim(payload.into()),
        t("after"),
        ParagraphBreak,
        t("more"),
    ]);
    assert!(out.contains(&format!("{payload}\n")));
    assert_eq!(out, format!("before text\n\n{payload}\n\nafter\n\nmore\n"));
}
