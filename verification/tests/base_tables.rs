use techxt::defs::{graphics, links, lists, natbib, tables, theorems, verbatim};
use techxt::def::{Category, DefinitionSet};
use techxt::defs::base::{misc, text_symbols};
use techxt::symbols::{CallableKind, ModeVisibility};

#[test]
fn the_text_symbols_resolve_to_their_characters() {
    let mut category = Category::new("base");
    text_symbols(&mut category);
    assert_eq!(category.macros().len(), 61);
    let index = DefinitionSet::new().with(category).symbols();
    let lookup = |name: &str| index.get(CallableKind::Macro, name).and_then(|e| e.replacement.clone());
    assert_eq!(lookup("ss").as_deref(), Some("ß"));
    assert_eq!(lookup("ldots").as_deref(), Some("…"));
    assert_eq!(lookup("textbackslash").as_deref(), Some("\\"));
    assert_eq!(lookup("LaTeXe").as_deref(), Some("LaTeX2e"));
    assert_eq!(index.len(), 61);
}

#[test]
fn the_misc_macros_keep_their_arguments_and_drop_their_decorations() {
    let mut category = Category::new("base");
    misc(&mut category);
    let index = DefinitionSet::new().with(category).symbols();
    let entry = |name: &str| index.get(CallableKind::Macro, name).expect("declared").clone();
    assert_eq!(entry("texorpdfstring").arity, 2);
    assert_eq!(entry("hspace").arity, 2);
    assert_eq!(entry("vspace").arity, 2);
    assert_eq!(entry("bigskip").arity, 0);
    assert_eq!(entry("mbox").arity, 1);
    assert_eq!(entry("overbrace").arity, 1);
    assert_eq!(entry("overbrace").replacement, None);
    assert_eq!(entry("ensuremath").modes, ModeVisibility::Anywhere);
    assert_eq!(index.len(), 1 + 3 + 2 + 3 + 4 + 2 + 1 + 21);
}

#[test]
fn a_later_category_shadows_the_text_symbols() {
    let mut base = Category::new("base");
    text_symbols(&mut base);
    let mut extra = Category::new("extra");
    extra.add_macro(techxt::def::MacroDef::symbol("ldots", "..."));
    let index = DefinitionSet::new().with(base).with(extra).symbols();
    let ldots = index.get(CallableKind::Macro, "ldots").expect("declared");
    assert_eq!((ldots.category.as_str(), ldots.replacement.as_deref()), ("extra", Some("...")));
}

#[test]
fn references_and_citations_render_as_markers() {
    let index = DefinitionSet::new().with(techxt::defs::refs::category()).symbols();
    let entry = |kind, name: &str| index.get(kind, name).expect("declared").clone();
    assert_eq!(entry(CallableKind::Macro, "ref").replacement.as_deref(), Some("<ref>"));
    assert_eq!(entry(CallableKind::Macro, "Cref").replacement.as_deref(), Some("<Ref>"));
    assert_eq!(entry(CallableKind::Macro, "eqref").replacement.as_deref(), Some("(<ref>)"));
    assert_eq!(entry(CallableKind::Macro, "citep").replacement.as_deref(), Some("<cit.>"));
    assert_eq!(entry(CallableKind::Macro, "citep").arity, 2);
    assert_eq!(entry(CallableKind::Macro, "label").replacement, None);
    assert_eq!(entry(CallableKind::Environment, "thebibliography").arity, 1);
    assert_eq!(entry(CallableKind::Macro, "bibitem").category, "refs");
    assert_eq!(index.len(), 5 + 1 + 1 + 3 + 2 + 1 + 1 + 1);
}

#[test]
fn the_sectioning_category_declares_seven_levels_and_the_structure() {
    let category = techxt::defs::sectioning::category();
    assert_eq!(category.name(), "sectioning");
    let names: Vec<&str> = category.macros().iter().take(7).map(|d| d.name()).collect();
    assert_eq!(names, ["part", "chapter", "section", "subsection", "subsubsection", "paragraph", "subparagraph"]);
    assert!(category.macros().iter().take(7).all(|d| d.arity() == 3));
    let index = DefinitionSet::new().with(category).symbols();
    assert_eq!(index.get(CallableKind::Macro, "addcontentsline").expect("declared").arity, 3);
    assert_eq!(index.len(), 7 + 7 + 4);
}

#[test]
fn every_display_environment_has_a_math_body() {
    let mut category = Category::new("mathenvs");
    techxt::defs::mathenvs::display_environments(&mut category);
    assert_eq!(category.environments().len(), 18 + 3 + 1 + 1);
    for definition in category.environments() {
        let math = definition.body_kind() == techxt::symbols::EnvBodyKind::Math;
        assert_eq!(math, definition.name() != "subequations", "{}", definition.name());
    }
    let index = DefinitionSet::new().with(category).symbols();
    assert_eq!(index.get(CallableKind::Environment, "alignat*").expect("declared").arity, 1);
}

#[test]
fn printable_ascii_takes_one_column_a_character() {
    assert_eq!(techxt::flow::display_width("a b ~!"), 6);
    assert_eq!(techxt::flow::display_width("日本"), 4);
}

#[test]
fn the_small_categories_declare_what_they_say() {
    assert_eq!(verbatim::category().macros().len() + verbatim::category().environments().len(), 0);
    assert_eq!(natbib::category().name(), "natbib");
    let index = DefinitionSet::new()
        .with(lists::category())
        .with(tables::category())
        .with(theorems::category())
        .with(links::category())
        .with(graphics::category())
        .symbols();
    let entry = |kind, name: &str| index.get(kind, name).expect("declared").clone();
    assert_eq!(entry(CallableKind::Environment, "enumerate").arity, 1);
    assert_eq!(entry(CallableKind::Environment, "list").arity, 3);
    assert_eq!(entry(CallableKind::Macro, "item").category, "lists");
    assert_eq!(entry(CallableKind::Environment, "tabularx").arity, 3);
    assert_eq!(entry(CallableKind::Macro, "multicolumn").arity, 3);
    assert_eq!(entry(CallableKind::Environment, "thm").category, "theorems");
    assert_eq!(entry(CallableKind::Macro, "caption").arity, 3);
    assert_eq!(entry(CallableKind::Macro, "href").arity, 2);
    assert_eq!(entry(CallableKind::Macro, "includegraphics").arity, 2);
    assert_eq!(theorems::category().environments().len(), 3 + 3 + 5 + 1 + 4 + 15 + 1);
}

#[test]
fn the_base_category_holds_escapes_spacing_ligatures_and_symbols() {
    let index = DefinitionSet::new().with(techxt::defs::base::category()).symbols();
    let entry = |kind, name: &str| index.get(kind, name).expect("declared").clone();
    assert_eq!(entry(CallableKind::Macro, "%").replacement.as_deref(), Some("%"));
    assert_eq!(entry(CallableKind::Macro, ",").replacement.as_deref(), Some(" "));
    assert_eq!(entry(CallableKind::Macro, "\\").arity, 2);
    assert_eq!(entry(CallableKind::Specials, "---").replacement.as_deref(), Some("—"));
    assert_eq!(entry(CallableKind::Specials, "---").modes, ModeVisibility::TextOnly);
    assert_eq!(entry(CallableKind::Specials, "~").replacement, None);
    assert_eq!(entry(CallableKind::Macro, "footnote").arity, 2);
    assert_eq!(entry(CallableKind::Macro, "ss").replacement.as_deref(), Some("ß"));
}

#[test]
fn scripts_titles_and_matrices_are_declared() {
    let index = DefinitionSet::new()
        .with(techxt::defs::mathenvs::category())
        .with(techxt::defs::subsuperscripts::category())
        .with(techxt::defs::titling::category())
        .symbols();
    let entry = |kind, name: &str| index.get(kind, name).expect("declared").clone();
    assert_eq!(entry(CallableKind::Specials, "^").modes, ModeVisibility::MathOnly);
    assert_eq!(entry(CallableKind::Specials, "_").arity, 1);
    assert_eq!(entry(CallableKind::Environment, "pmatrix").category, "mathenvs");
    assert_eq!(entry(CallableKind::Environment, "array").arity, 2);
    assert_eq!(entry(CallableKind::Macro, "and").replacement.as_deref(), Some(" and "));
    assert_eq!(entry(CallableKind::Macro, "title").arity, 2);
    assert_eq!(techxt::defs::mathenvs::category().environments().len(), 23 + 18);
}

#[test]
fn the_font_macros_take_their_text_and_the_declarations_nothing() {
    let category = techxt::defs::fontstyles::category();
    assert_eq!(category.macros().len(), 9 + 1 + 10 + 28 + 1 + 1);
    let index = DefinitionSet::new().with(category).symbols();
    let entry = |name: &str| index.get(CallableKind::Macro, name).expect("declared").clone();
    assert_eq!(entry("textbf").arity, 1);
    assert_eq!(entry("mathfrak").arity, 1);
    assert_eq!(entry("bfseries").arity, 0);
    assert_eq!(entry("operatorname").arity, 2);
}

#[test]
fn the_greek_letters_and_math_symbols_resolve() {
    let mut category = Category::new("mathcore");
    techxt::defs::mathcore::greek(&mut category);
    techxt::defs::mathcore::symbols(&mut category);
    let index = DefinitionSet::new().with(category).symbols();
    let lookup = |name: &str| index.get(CallableKind::Macro, name).and_then(|e| e.replacement.clone());
    assert_eq!(lookup("alpha").as_deref(), Some("α"));
    assert_eq!(lookup("Omega").as_deref(), Some("Ω"));
    assert_eq!(lookup("upphi").as_deref(), Some("ϕ"));
    assert_eq!(lookup("varphi").as_deref(), Some("φ"));
    assert_eq!(lookup("epsilon").as_deref(), Some("ϵ"));
    assert_eq!(lookup("pm").as_deref(), Some("±"));
    assert_eq!(lookup("times").as_deref(), Some("×"));
}

#[test]
fn the_mathcore_category_declares_operators_fractions_and_delimiters() {
    let index = DefinitionSet::new().with(techxt::defs::mathcore::category()).symbols();
    let entry = |name: &str| index.get(CallableKind::Macro, name).expect("declared").clone();
    assert_eq!(entry("limsup").arity, 0);
    assert_eq!(entry("frac").arity, 2);
    assert_eq!(entry("sqrt").arity, 2);
    assert_eq!(entry("binom").arity, 2);
    assert_eq!(entry("operatorname").arity, 2);
    assert_eq!(entry("pmod").arity, 1);
    assert_eq!(entry("left").arity, 1);
    assert_eq!(entry("displaystyle").arity, 0);
    let lookup = |name: &str| index.get(CallableKind::Macro, name).and_then(|e| e.replacement.clone());
    assert_eq!(lookup("|").as_deref(), Some("\u{2016}"));
    assert_eq!(lookup("backslash").as_deref(), Some("\\"));
    assert_eq!(lookup("lbrace").as_deref(), Some("{"));
    assert_eq!(lookup("alpha").as_deref(), Some("α"));
    assert!(index.get(CallableKind::Macro, "nosuchoperator").is_none());
}
