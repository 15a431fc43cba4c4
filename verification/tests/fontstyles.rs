use techxt::defs::fontstyles::toggle_italic;
use techxt::mathfmt::FontStyleKind;

#[test]
fn emphasis_toggles_rather_than_setting() {
    assert_eq!(toggle_italic(None), FontStyleKind::Italic);
    assert_eq!(
        toggle_italic(Some(FontStyleKind::Italic)),
        FontStyleKind::Upright
    );
    assert_eq!(
        toggle_italic(Some(FontStyleKind::Bold)),
        FontStyleKind::BoldItalic
    );
    assert_eq!(
        toggle_italic(Some(FontStyleKind::BoldItalic)),
        FontStyleKind::Bold
    );
    // No italic counterpart: plain italic is the best there is.
    assert_eq!(
        toggle_italic(Some(FontStyleKind::Fraktur)),
        FontStyleKind::Italic
    );
}

#[test]
fn emphasizing_twice_gives_the_style_back() {
    for style in [
        FontStyleKind::Upright,
        FontStyleKind::Italic,
        FontStyleKind::SansSerif,
        FontStyleKind::SansSerifBoldItalic,
    ] {
        assert_eq!(toggle_italic(Some(toggle_italic(Some(style)))), style);
    }
}
