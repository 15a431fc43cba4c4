use techxt::flow::{display_width, BlockKind, Flow, FlowItem};

/// Compact rendering of a flow's shape, for expected-value tests.
fn shape(flow: &Flow) -> String {
    let mut out = String::new();
    for item in flow.items() {
        if !out.is_empty() {
            out.push(' ');
        }
        match item {
            FlowItem::Text(t) => out.push_str(&format!("T({t})")),
            FlowItem::Glue => out.push('G'),
            FlowItem::ParagraphBreak => out.push('P'),
            other => out.push_str(&format!("{other:?}")),
        }
    }
    out
}

#[test]
fn new_and_default_are_empty() {
    assert!(Flow::new().is_empty());
    assert!(Flow::default().is_empty());
    assert!(Flow::new().items().is_empty());
}

#[test]
fn text_does_not_split() {
    assert_eq!(shape(&Flow::text("a b\nc")), "T(a b\nc)");
    assert_eq!(Flow::text("").items().len(), 1);
}

#[test]
fn glue_is_one_item() {
    assert_eq!(shape(&Flow::glue()), "G");
}

#[test]
fn from_plain_text_splits_words_and_spaces() {
    assert_eq!(shape(&Flow::from_plain_text("")), "");
    assert_eq!(shape(&Flow::from_plain_text("one")), "T(one)");
    assert_eq!(shape(&Flow::from_plain_text("one two")), "T(one) G T(two)");
    assert_eq!(
        shape(&Flow::from_plain_text("one  \t two")),
        "T(one) G T(two)"
    );
    assert_eq!(shape(&Flow::from_plain_text(" a ")), "G T(a) G");
    assert_eq!(shape(&Flow::from_plain_text("  ")), "G");
}

#[test]
fn from_plain_text_recognizes_blank_lines() {
    assert_eq!(shape(&Flow::from_plain_text("a\nb")), "T(a) G T(b)");
    assert_eq!(shape(&Flow::from_plain_text("a\n\nb")), "T(a) P T(b)");
    assert_eq!(shape(&Flow::from_plain_text("a\n\n\n\nb")), "T(a) P T(b)");
    assert_eq!(shape(&Flow::from_plain_text("a \n \n b")), "T(a) P T(b)");
    assert_eq!(shape(&Flow::from_plain_text("a\r\nb")), "T(a) G T(b)");
    assert_eq!(shape(&Flow::from_plain_text("a\r\n\r\nb")), "T(a) P T(b)");
}

#[test]
fn from_plain_text_uses_unicode_whitespace() {
    assert_eq!(shape(&Flow::from_plain_text("é\u{a0}x")), "T(é) G T(x)");
    assert_eq!(shape(&Flow::from_plain_text("a\u{200d}b")), "T(a\u{200d}b)");
}

#[test]
fn extend_concatenates_and_empties_the_argument() {
    let mut a = Flow::text("x");
    let b = Flow::from_plain_text("y z");
    a.extend(b);
    assert_eq!(shape(&a), "T(x) T(y) G T(z)");
}

#[test]
fn into_items_round_trips() {
    let flow = Flow::from_plain_text("a b");
    let items = flow.into_items();
    assert_eq!(items.len(), 3);
}

#[test]
fn compose_piece_is_empty_and_append() {
    let mut piece = Flow::default();
    assert!(piece.is_empty());
    piece.extend(Flow::text("a"));
    piece.extend(Flow::glue());
    assert_eq!(shape(&piece), "T(a) G");
}

#[test]
fn push_accepts_every_kind_of_item() {
    let mut flow = Flow::new();
    flow.push(FlowItem::HardBreak);
    flow.push(FlowItem::Verbatim("v".into()));
    flow.push(FlowItem::InlineVerbatim("i".into()));
    flow.push(FlowItem::BlockStart(BlockKind::Indent {
        first: "> ".into(),
        cont: "| ".into(),
    }));
    flow.push(FlowItem::BlockEnd);
    assert_eq!(flow.items().len(), 5);
}

#[test]
fn display_width_counts_columns_not_bytes() {
    assert_eq!(display_width("abc"), 3);
    assert_eq!(display_width("漢字"), 4);
    assert_eq!(display_width("e\u{301}"), 1);
    assert_eq!(display_width("𝐛𝐨𝐥𝐝"), 4);
}

#[test]
fn flow_items_are_debuggable() {
    let items = vec![FlowItem::Glue, FlowItem::CellSep, FlowItem::RowSep];
    assert!(format!("{items:?}").contains("CellSep"));
}

#[test]
fn len_counts_items() {
    assert_eq!(Flow::from_plain_text("a b c").len(), 5);
    assert_eq!(Flow::new().len(), 0);
}

#[test]
fn plain_text_words_are_its_non_whitespace_in_order_and_alternate_with_separators() {
    let text = "  Two\twords,\n\n and\u{a0}more \n";
    let flow = Flow::from_plain_text(text);
    let mut words = String::new();
    let mut last_was_word: Option<bool> = None;
    for item in flow.items() {
        let is_word = matches!(item, FlowItem::Text(_));
        if let FlowItem::Text(t) = item {
            assert!(!t.is_empty() && !t.chars().any(char::is_whitespace));
            words.push_str(t);
        } else {
            assert!(matches!(item, FlowItem::Glue | FlowItem::ParagraphBreak));
        }
        assert_ne!(last_was_word, Some(is_word));
        last_was_word = Some(is_word);
    }
    let expected: String = text.chars().filter(|c| !c.is_whitespace()).collect();
    assert_eq!(words, expected);
    assert_eq!(shape(&flow), "G T(Two) G T(words,) P T(and) G T(more) G");
}
