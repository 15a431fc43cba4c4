use techxt::defs::titling::title_block;
use techxt::flow::{Flow, FlowItem};
use techxt::layout::{render, LayoutOptions};

fn words(text: &str) -> Flow {
    let mut flow = Flow::new();
    for (i, word) in text.split(' ').enumerate() {
        if i > 0 {
            flow.push(FlowItem::Glue);
        }
        flow.push(FlowItem::Text(word.into()));
    }
    flow
}

#[test]
fn a_title_block_is_three_lines_over_a_rule_as_wide_as_the_widest() {
    let title = words("On Plain Text");
    let author = words("A. Writer");
    let date = words("May 2024");
    let block = title_block(Some(&title), Some(&author), Some(&date), None);
    assert_eq!(
        render(&block, &LayoutOptions::default()),
        "On Plain Text\n    A. Writer\n    May 2024\n=============\n"
    );
}

#[test]
fn missing_fields_are_named_and_the_date_falls_back_to_today() {
    let block = title_block(None, None, None, Some("August 19, 2026"));
    assert_eq!(
        render(&block, &LayoutOptions::default()),
        "<no title>\n    <no author>\n    August 19, 2026\n===================\n"
    );
    let block = title_block(None, None, None, None);
    assert_eq!(
        render(&block, &LayoutOptions::default()),
        "<no title>\n    <no author>\n    <today>\n===============\n"
    );
}
