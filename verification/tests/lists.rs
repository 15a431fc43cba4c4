use techxt::convert::{CounterStyle, CounterWrap, EnumFormat, ListStyle};
use techxt::defs::lists::{
    alphabetic, automatic_marker, cycle, format_counter, item_block, list_block, next_counter,
    open_blocks, roman, ListCtx, ListKind,
};
use techxt::flow::{BlockKind, Flow, FlowItem};

#[test]
fn alphabetic_counters_run_past_the_alphabet() {
    assert_eq!(alphabetic(1), "a");
    assert_eq!(alphabetic(26), "z");
    assert_eq!(alphabetic(27), "aa");
    assert_eq!(alphabetic(52), "az");
    assert_eq!(alphabetic(53), "ba");
    assert_eq!(alphabetic(0), "");
}

#[test]
fn roman_counters_are_subtractive() {
    assert_eq!(roman(1), "i");
    assert_eq!(roman(4), "iv");
    assert_eq!(roman(9), "ix");
    assert_eq!(roman(14), "xiv");
    assert_eq!(roman(1990), "mcmxc");
    assert_eq!(roman(0), "");
}

#[test]
fn markers_cycle_and_an_empty_array_has_none() {
    let markers = ["a", "b", "c"];
    assert_eq!(cycle(&markers, 1), Some(&"a"));
    assert_eq!(cycle(&markers, 3), Some(&"c"));
    assert_eq!(cycle(&markers, 4), Some(&"a"));
    assert_eq!(cycle(&markers, 7), Some(&"a"));
    // A depth of zero cannot occur, but it must not panic either.
    assert_eq!(cycle(&markers, 0), Some(&"a"));
    assert_eq!(cycle::<&str>(&[], 1), None);
}

#[test]
fn counter_formats_read_as_the_plan_writes_them() {
    let dot = |style| EnumFormat {
        style,
        wrap: CounterWrap::Dot,
    };
    assert_eq!(format_counter(1, dot(CounterStyle::Arabic)), "1.");
    assert_eq!(format_counter(3, dot(CounterStyle::LowerRoman)), "iii.");
    assert_eq!(format_counter(2, dot(CounterStyle::UpperAlpha)), "B.");
    assert_eq!(format_counter(4, dot(CounterStyle::UpperRoman)), "IV.");
    assert_eq!(
        format_counter(
            2,
            EnumFormat {
                style: CounterStyle::LowerAlpha,
                wrap: CounterWrap::Parens
            }
        ),
        "(b)"
    );
}

#[test]
fn open_blocks_counts_an_item_run_once() {
    let item = || {
        FlowItem::BlockStart(BlockKind::Item {
            first: "• ".into(),
            cont: "  ".into(),
        })
    };
    let indent = || {
        FlowItem::BlockStart(BlockKind::Indent {
            first: "".into(),
            cont: "".into(),
        })
    };

    let mut flow = Flow::new();
    assert_eq!(open_blocks(&flow), 0);

    flow.push(item());
    flow.push(item());
    flow.push(item());
    assert_eq!(open_blocks(&flow), 1);

    // A nested list: its own block, its items, and both of its closings.
    flow.push(indent());
    flow.push(item());
    flow.push(item());
    flow.push(FlowItem::BlockEnd);
    flow.push(FlowItem::BlockEnd);
    assert_eq!(open_blocks(&flow), 1);

    flow.push(FlowItem::BlockEnd);
    assert_eq!(open_blocks(&flow), 0);
    // Never negative, whatever an unbalanced handler emitted.
    flow.push(FlowItem::BlockEnd);
    assert_eq!(open_blocks(&flow), 0);
}

#[test]
fn large_counters_format_exactly() {
    assert_eq!(format_counter(4_294_967_295, EnumFormat { style: CounterStyle::Arabic, wrap: CounterWrap::Parens }), "(4294967295)");
    assert_eq!(alphabetic(702), "zz");
    assert_eq!(alphabetic(703), "aaa");
    assert_eq!(roman(3999), "mmmcmxcix");
    assert_eq!(format_counter(0, EnumFormat { style: CounterStyle::UpperRoman, wrap: CounterWrap::Dot }), ".");
}

#[test]
fn counters_advance_the_innermost_list_only() {
    let mut counters = vec![3, 0];
    assert_eq!(next_counter(&mut counters), 1);
    assert_eq!(next_counter(&mut counters), 2);
    assert_eq!(counters, vec![3, 2]);
    let mut none: Vec<u32> = Vec::new();
    assert_eq!(next_counter(&mut none), 1);
    assert!(none.is_empty());
    let mut full = vec![u32::MAX];
    assert_eq!(next_counter(&mut full), u32::MAX);
}

#[test]
fn automatic_markers_follow_the_list_style() {
    let style = ListStyle::default();
    let mut counters = vec![0];
    let itemize = ListCtx { kind: ListKind::Itemize, same_kind_depth: 2, depth: 2 };
    assert_eq!(automatic_marker(itemize, &mut counters, &style), "– ");
    let fifth = ListCtx { kind: ListKind::Itemize, same_kind_depth: 5, depth: 5 };
    assert_eq!(automatic_marker(fifth, &mut counters, &style), "• ");
    assert_eq!(counters, vec![0]);

    let enumerate = ListCtx { kind: ListKind::Enumerate, same_kind_depth: 2, depth: 3 };
    assert_eq!(automatic_marker(enumerate, &mut counters, &style), "(a) ");
    assert_eq!(automatic_marker(enumerate, &mut counters, &style), "(b) ");
    assert_eq!(counters, vec![2]);

    let description = ListCtx { kind: ListKind::Description, same_kind_depth: 1, depth: 1 };
    assert_eq!(automatic_marker(description, &mut counters, &style), "  ");
}

fn item_prefixes(flow: &Flow) -> (String, String) {
    assert_eq!(flow.items().len(), 1);
    match &flow.items()[0] {
        FlowItem::BlockStart(BlockKind::Item { first, cont }) => (first.to_string(), cont.to_string()),
        _ => panic!("an item opens an item block"),
    }
}

#[test]
fn an_item_opens_a_block_marked_by_its_list() {
    let style = ListStyle::default();
    let context = ListCtx {
        kind: ListKind::Enumerate,
        same_kind_depth: 1,
        depth: 1,
    };
    let mut counters = vec![0];
    let flow = item_block(None, Some(context), &mut counters, &style);
    assert_eq!(item_prefixes(&flow), ("1. ".to_string(), "   ".to_string()));
    assert_eq!(counters, vec![1]);
    let flow = item_block(None, Some(context), &mut counters, &style);
    assert_eq!(item_prefixes(&flow).0, "2. ");
    assert_eq!(counters, vec![2]);
}

#[test]
fn an_explicit_label_does_not_advance_the_counter() {
    let style = ListStyle::default();
    let context = ListCtx {
        kind: ListKind::Enumerate,
        same_kind_depth: 1,
        depth: 1,
    };
    let mut counters = vec![3];
    let flow = item_block(Some("Note"), Some(context), &mut counters, &style);
    assert_eq!(item_prefixes(&flow), ("Note  ".to_string(), "      ".to_string()));
    assert_eq!(counters, vec![3]);
    // An empty label is no label at all.
    let flow = item_block(Some(""), Some(context), &mut counters, &style);
    assert_eq!(item_prefixes(&flow).0, "4. ");
}

#[test]
fn an_item_outside_a_list_gets_a_dash() {
    let style = ListStyle::default();
    let mut counters: Vec<u32> = Vec::new();
    let flow = item_block(None, None, &mut counters, &style);
    assert_eq!(item_prefixes(&flow), ("- ".to_string(), "  ".to_string()));
    assert!(counters.is_empty());
}

#[test]
fn a_list_closes_every_block_its_body_leaves_open() {
    let mut body = Flow::new();
    for _ in 0..3 {
        body.push(FlowItem::BlockStart(BlockKind::Item {
            first: "• ".into(),
            cont: "  ".into(),
        }));
        body.push(FlowItem::Text("x".into()));
    }
    let flow = list_block(1, body);
    let items = flow.items();
    assert_eq!(items.len(), 1 + 6 + 1 + 1);
    assert!(matches!(
        &items[0],
        FlowItem::BlockStart(BlockKind::Indent { first, cont }) if &**first == "  " && &**cont == "  "
    ));
    assert!(matches!(items[7], FlowItem::BlockEnd));
    assert!(matches!(items[8], FlowItem::BlockEnd));
    assert_eq!(open_blocks(&flow), 0);
    let nested = list_block(2, Flow::new());
    assert!(matches!(
        &nested.items()[0],
        FlowItem::BlockStart(BlockKind::Indent { first, .. }) if first.is_empty()
    ));
    assert_eq!(nested.items().len(), 2);
}
