use techxt::convert::{
    CounterStyle, CounterWrap, FootnoteStyle, HeadingStyle, ListStyle, MathMode, Options,
    UnknownEnvPolicy, UnknownMacroPolicy, UnknownSpecialsPolicy,
};
use techxt::mathfmt::{FontStyle, FontStyleKind, MathWrapDelims, MatrixDelims};

#[test]
fn default_options_match_the_plan() {
    let options = Options::default();
    assert_eq!(options.math_mode, MathMode::Fancy);
    assert_eq!(options.math_expression_in, MathWrapDelims::Parens);
    assert_eq!(options.matrix_delimiters, MatrixDelims::Unicode);
    assert_eq!(options.wrap_width, None);
    assert!(!options.keep_comments);
    assert_eq!(options.heading_style, HeadingStyle::NumberedUnderlined);
    assert_eq!(options.footnote_style, FootnoteStyle::Collected);
    assert_eq!(options.text_font, FontStyle::Default);
    assert_eq!(options.math_font, FontStyle::Style(FontStyleKind::Italic));
    assert_eq!(options.unknown_macro, UnknownMacroPolicy::Skip);
    assert_eq!(options.unknown_env, UnknownEnvPolicy::RenderBody);
    assert_eq!(options.unknown_specials, UnknownSpecialsPolicy::EmitChars);
    assert_eq!(options.today, None);

    let list = ListStyle::default();
    assert_eq!(list.itemize_markers.len(), 4);
    assert_eq!(&*list.itemize_markers[0], "•");
    assert_eq!(list.enumerate_formats.len(), 4);
    assert_eq!(list.enumerate_formats[0].style, CounterStyle::Arabic);
    assert_eq!(list.enumerate_formats[1].wrap, CounterWrap::Parens);
}

#[test]
fn the_default_list_style_spells_every_marker() {
    let list = ListStyle::default();
    assert_eq!(list.itemize_markers, vec!["•", "–", "*", "·"]);
    assert_eq!(list.enumerate_formats[2].style, CounterStyle::LowerRoman);
    assert_eq!(list.enumerate_formats[3].style, CounterStyle::UpperAlpha);
    assert_eq!(list.enumerate_formats[3].wrap, CounterWrap::Dot);
}
