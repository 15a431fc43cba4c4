//! Font switching: what `\emph` does to the style in force.
//!
//! A font macro does not transform its argument's output; it renders the argument
//! under a modified style, so the alphabet is applied at the character leaves and nested
//! styles compose.

use vstd::prelude::*;

use crate::def::{
    add_macro_family, add_macro_table, macro_family, macro_table, Category, CategoryView, EnvDefView, MacroDefView, RuleShape,
    SpecialsDefView,
};
use crate::mathfmt::FontStyleKind;

verus! {

/// The style `\emph` switches to, given the one in force.
pub open spec fn emphasized(current: Option<FontStyleKind>) -> FontStyleKind {
    match current {
        None => FontStyleKind::Italic,
        Some(FontStyleKind::Upright) => FontStyleKind::Italic,
        Some(FontStyleKind::Italic) => FontStyleKind::Upright,
        Some(FontStyleKind::Bold) => FontStyleKind::BoldItalic,
        Some(FontStyleKind::BoldItalic) => FontStyleKind::Bold,
        Some(FontStyleKind::SansSerif) => FontStyleKind::SansSerifItalic,
        Some(FontStyleKind::SansSerifItalic) => FontStyleKind::SansSerif,
        Some(FontStyleKind::SansSerifBold) => FontStyleKind::SansSerifBoldItalic,
        Some(FontStyleKind::SansSerifBoldItalic) => FontStyleKind::SansSerifBold,
        Some(_) => FontStyleKind::Italic,
    }
}

/// The style `\emph` switches to, given the one in force: italic where it is not,
/// upright where it is.
///
/// Toggling rather than simply setting italic is what makes it compose: inside a bold
/// context `\emph` gives bold italic, and inside an italic one it gives the upright
/// shape back — which is what LaTeX's `\emph` is for. Anything with no italic
/// counterpart — script, fraktur, monospace — emphasizes as plain italic, which is the
/// best unicode can offer.
pub fn toggle_italic(current: Option<FontStyleKind>) -> (style: FontStyleKind)
    ensures
        style == emphasized(current),
{
    match current {
        None | Some(FontStyleKind::Upright) => FontStyleKind::Italic,
        Some(FontStyleKind::Italic) => FontStyleKind::Upright,
        Some(FontStyleKind::Bold) => FontStyleKind::BoldItalic,
        Some(FontStyleKind::BoldItalic) => FontStyleKind::Bold,
        Some(FontStyleKind::SansSerif) => FontStyleKind::SansSerifItalic,
        Some(FontStyleKind::SansSerifItalic) => FontStyleKind::SansSerif,
        Some(FontStyleKind::SansSerifBold) => FontStyleKind::SansSerifBoldItalic,
        Some(FontStyleKind::SansSerifBoldItalic) => FontStyleKind::SansSerifBold,
        Some(_) => FontStyleKind::Italic,
    }
}

/// Emphasis undoes itself on every style that has an italic counterpart: emphasizing
/// twice gives back the style in force.
pub proof fn lemma_emphasis_is_an_involution(style: FontStyleKind)
    requires
        style == FontStyleKind::Upright || style == FontStyleKind::Italic || style
            == FontStyleKind::Bold || style == FontStyleKind::BoldItalic || style
            == FontStyleKind::SansSerif || style == FontStyleKind::SansSerifItalic || style
            == FontStyleKind::SansSerifBold || style == FontStyleKind::SansSerifBoldItalic,
    ensures
        emphasized(Some(emphasized(Some(style)))) == style,
{
}

// ------------------------------------------------------------------ the category

/// The text font macros, each with the font it sets.
pub open spec fn text_font_table() -> Seq<(&'static str, &'static str)> {
    seq![("textrm", "set font: upright"), ("textup", "set font: upright"), ("textmd", "set font: upright"), ("textnormal", "set font: upright"), ("textbf", "set font: bold"), ("textit", "set font: italic"), ("textsl", "set font: italic"), ("textsf", "set font: sans-serif"), ("texttt", "set font: monospace")]
}

/// The math font macros, each with the font it sets.
pub open spec fn math_font_table() -> Seq<(&'static str, &'static str)> {
    seq![("mathrm", "set font: upright"), ("mathnormal", "set font: italic"), ("mathbf", "set font: bold"), ("mathit", "set font: italic"), ("mathsf", "set font: sans-serif"), ("mathbb", "set font: double-struck"), ("mathtt", "set font: monospace"), ("mathcal", "set font: script"), ("mathscr", "set font: script"), ("mathfrak", "set font: fraktur")]
}

/// The font declarations (`\bfseries`, `\large`, …), which switch a font or a size for
/// the rest of a group; plain text has neither to switch, so each renders as nothing.
pub open spec fn declaration_names() -> Seq<&'static str> {
    seq!["rmfamily", "sffamily", "ttfamily", "mdseries", "bfseries", "upshape", "itshape", "slshape", "scshape", "normalfont", "em", "rm", "sf", "tt", "bf", "it", "sl", "sc", "tiny", "scriptsize", "footnotesize", "small", "normalsize", "large", "Large", "LARGE", "huge", "Huge"]
}

/// The one argument a font macro takes.
pub open spec fn text_arg() -> Seq<(&'static str, &'static str)> {
    seq![("m", "text")]
}

/// The fontstyles macros, in declaration order: the text fonts, `\textsc` as its
/// content (unicode has no small capitals), the math fonts, the declarations, `\emph`,
/// and `\operatorname*`, upright.
pub open spec fn fontstyles_macros() -> Seq<MacroDefView> {
    macro_table(text_font_table(), text_arg()) + macro_family(seq!["textsc"], text_arg(), RuleShape::Content) + macro_table(
        math_font_table(),
        text_arg(),
    ) + macro_family(declaration_names(), Seq::empty(), RuleShape::Skip) + macro_family(
        seq!["emph"],
        text_arg(),
        RuleShape::Handler("emphasis"),
    ) + macro_family(seq!["operatorname"], seq![("s", "star"), ("m", "text")], RuleShape::Handler("set font: upright"))
}

/// Add the font declarations.
pub fn declarations(category: &mut Category)
    ensures
        final(category)@ == (CategoryView {
            macros: old(category)@.macros + macro_family(declaration_names(), Seq::empty(), RuleShape::Skip),
            ..old(category)@
        }),
{
    let names: [&'static str; 28] = ["rmfamily", "sffamily", "ttfamily", "mdseries", "bfseries", "upshape", "itshape", "slshape", "scshape", "normalfont", "em", "rm", "sf", "tt", "bf", "it", "sl", "sc", "tiny", "scriptsize", "footnotesize", "small", "normalsize", "large", "Large", "LARGE", "huge", "Huge"];
    let none: [(&'static str, &'static str); 0] = [];
    assert(names@ =~= declaration_names());
    assert(none@ =~= Seq::<(&'static str, &'static str)>::empty());
    add_macro_family(category, &names, &none, RuleShape::Skip);
}

/// The category [`category`] builds.
pub open spec fn category_view() -> CategoryView {
    CategoryView {
        name: "fontstyles"@,
        macros: fontstyles_macros(),
        environments: Seq::<EnvDefView>::empty(),
        specials: Seq::<SpecialsDefView>::empty(),
    }
}

/// The fontstyles category.
pub fn category() -> (c: Category)
    ensures
        c@ == category_view(),
{
    let mut category = Category::new("fontstyles");
    let ghost start = category@;
    let text: [(&'static str, &'static str); 1] = [("m", "text")];
    assert(text@ =~= text_arg());
    let text_fonts: [(&'static str, &'static str); 9] = [("textrm", "set font: upright"), ("textup", "set font: upright"), ("textmd", "set font: upright"), ("textnormal", "set font: upright"), ("textbf", "set font: bold"), ("textit", "set font: italic"), ("textsl", "set font: italic"), ("textsf", "set font: sans-serif"), ("texttt", "set font: monospace")];
    assert(text_fonts@ =~= text_font_table());
    add_macro_table(&mut category, &text_fonts, &text);
    let ghost m1 = category@.macros;
    let textsc: [&'static str; 1] = ["textsc"];
    assert(textsc@ =~= seq!["textsc"]);
    add_macro_family(&mut category, &textsc, &text, RuleShape::Content);
    let ghost m2 = category@.macros;
    let math_fonts: [(&'static str, &'static str); 10] = [("mathrm", "set font: upright"), ("mathnormal", "set font: italic"), ("mathbf", "set font: bold"), ("mathit", "set font: italic"), ("mathsf", "set font: sans-serif"), ("mathbb", "set font: double-struck"), ("mathtt", "set font: monospace"), ("mathcal", "set font: script"), ("mathscr", "set font: script"), ("mathfrak", "set font: fraktur")];
    assert(math_fonts@ =~= math_font_table());
    add_macro_table(&mut category, &math_fonts, &text);
    let ghost m3 = category@.macros;
    declarations(&mut category);
    let ghost m4 = category@.macros;
    let emph: [&'static str; 1] = ["emph"];
    assert(emph@ =~= seq!["emph"]);
    add_macro_family(&mut category, &emph, &text, RuleShape::Handler("emphasis"));
    let ghost m5 = category@.macros;
    let operatorname: [&'static str; 1] = ["operatorname"];
    let starred: [(&'static str, &'static str); 2] = [("s", "star"), ("m", "text")];
    assert(operatorname@ =~= seq!["operatorname"]);
    assert(starred@ =~= seq![("s", "star"), ("m", "text")]);
    add_macro_family(&mut category, &operatorname, &starred, RuleShape::Handler("set font: upright"));
    proof {
        assert(start.macros =~= Seq::<MacroDefView>::empty());
        assert(category@.macros =~= fontstyles_macros());
    }
    category
}

} // verus!
