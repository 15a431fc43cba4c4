use techxt::convert::HeadingStyle;
use techxt::defs::sectioning::{roman, Heading, HeadingNumbers};
use techxt::flow::FlowItem;

#[test]
fn parts_count_in_roman_numerals() {
    assert_eq!(roman(1), "I");
    assert_eq!(roman(4), "IV");
    assert_eq!(roman(9), "IX");
    assert_eq!(roman(14), "XIV");
    assert_eq!(roman(1987), "MCMLXXXVII");
    assert_eq!(roman(0), "0");
}

#[test]
fn the_prefix_style_repeats_a_section_sign_per_level() {
    assert_eq!(Heading { level: 2 }.prefix(), "§ ");
    assert_eq!(Heading { level: 3 }.prefix(), "§.§ ");
    assert_eq!(Heading { level: 4 }.prefix(), "§.§.§ ");
    assert_eq!(Heading { level: 5 }.prefix(), "");
}

#[test]
fn only_the_underlining_styles_underline() {
    let section = Heading { level: 2 };
    assert_eq!(
        section.underline_char(HeadingStyle::NumberedUnderlined),
        Some('-')
    );
    assert_eq!(section.underline_char(HeadingStyle::Underlined), Some('-'));
    assert_eq!(section.underline_char(HeadingStyle::Prefix), None);
    assert_eq!(section.underline_char(HeadingStyle::Plain), None);
    // Nothing below a subsection is underlined.
    assert_eq!(
        Heading { level: 4 }.underline_char(HeadingStyle::Underlined),
        None
    );
}

fn counted(numbers: &mut HeadingNumbers, level: usize) -> Option<String> {
    Heading { level }.count(numbers, true)
}

#[test]
fn sections_number_from_one_in_an_article() {
    let mut numbers = HeadingNumbers::new();
    assert_eq!(counted(&mut numbers, 2).as_deref(), Some("1"));
    assert_eq!(counted(&mut numbers, 3).as_deref(), Some("1.1"));
    assert_eq!(counted(&mut numbers, 3).as_deref(), Some("1.2"));
    assert_eq!(counted(&mut numbers, 2).as_deref(), Some("2"));
    // A new section restarts its subsections.
    assert_eq!(counted(&mut numbers, 3).as_deref(), Some("2.1"));
    assert_eq!(counted(&mut numbers, 4).as_deref(), Some("2.1.1"));
}

#[test]
fn chapters_prefix_their_sections_and_parts_reset_nothing() {
    let mut numbers = HeadingNumbers::new();
    assert_eq!(counted(&mut numbers, 1).as_deref(), Some("1"));
    assert_eq!(counted(&mut numbers, 1).as_deref(), Some("2"));
    assert_eq!(counted(&mut numbers, 1).as_deref(), Some("3"));
    assert_eq!(counted(&mut numbers, 2).as_deref(), Some("3.1"));
    assert_eq!(counted(&mut numbers, 0).as_deref(), Some("I"));
    assert_eq!(counted(&mut numbers, 2).as_deref(), Some("3.2"));
}

#[test]
fn an_unnumbered_opening_chapter_still_organizes_the_sections() {
    let mut numbers = HeadingNumbers::new();
    assert_eq!(Heading { level: 1 }.count(&mut numbers, false), None);
    assert!(numbers.chapter_seen());
    assert_eq!(counted(&mut numbers, 2).as_deref(), Some("0.1"));
}

#[test]
fn a_heading_line_carries_its_number_or_label() {
    let part = Heading { level: 0 };
    assert_eq!(part.heading_line(HeadingStyle::NumberedUnderlined, Some("II"), "Tools"), "Part II: Tools");
    let section = Heading { level: 2 };
    assert_eq!(section.heading_line(HeadingStyle::NumberedUnderlined, Some("3.1"), "Intro"), "3.1 Intro");
    assert_eq!(section.heading_line(HeadingStyle::NumberedUnderlined, None, "Intro"), "Intro");
    assert_eq!(section.heading_line(HeadingStyle::Prefix, Some("3.1"), "Intro"), "§ Intro");
    assert_eq!(section.heading_line(HeadingStyle::Plain, Some("3.1"), "Intro"), "Intro");
}

#[test]
fn a_rendered_heading_is_underlined_to_its_width() {
    let mut numbers = HeadingNumbers::new();
    let flow = Heading { level: 2 }.render(false, HeadingStyle::NumberedUnderlined, "Intro", &mut numbers);
    let items = flow.into_items();
    assert_eq!(items.len(), 5);
    assert!(matches!(&items[0], FlowItem::ParagraphBreak));
    assert!(matches!(&items[1], FlowItem::Text(line) if line == "1 Intro"));
    assert!(matches!(&items[2], FlowItem::HardBreak));
    assert!(matches!(&items[3], FlowItem::Text(rule) if rule == "-------"));
    assert!(matches!(&items[4], FlowItem::ParagraphBreak));

    let starred = Heading { level: 2 }.render(true, HeadingStyle::NumberedUnderlined, "Ünïcode", &mut numbers);
    let items = starred.into_items();
    assert!(matches!(&items[1], FlowItem::Text(line) if line == "Ünïcode"));
    assert!(matches!(&items[3], FlowItem::Text(rule) if rule == "-------"));
    assert_eq!(numbers.counter(2), 1);
}
