use techxt::def::{Category, DefinitionSet, EnvDef, MacroDef, SpecialsDef, TextRule};
use techxt::symbols::{CallableKind, Mode, ModeVisibility, SymbolIndex};

fn sample() -> SymbolIndex {
    DefinitionSet::new()
        .with(Category::new("extra").with_macro(MacroDef::symbol("ldots", "...")))
        .with(Category::new("greek").with_macro(MacroDef::symbol("alpha", "α")))
        .with(Category::new("envs").with_env(EnvDef::new("alpha")))
        .with(Category::new("misc").with_macro(MacroDef::new("alphabet")))
        .with(Category::new("scripts").with_specials(SpecialsDef::new("^")))
        .with(Category::new("base").with_macro(MacroDef::symbol("ldots", "…")))
        .with(Category::new("greek").with_macro(MacroDef::symbol("beta", "β")))
        .symbols()
}

#[test]
fn later_declarations_shadow_earlier_ones() {
    let index = sample();
    let ldots = index.get(CallableKind::Macro, "ldots").expect("declared");
    assert_eq!(ldots.category, "base");
    assert_eq!(ldots.replacement.as_deref(), Some("…"));
    assert_eq!(index.len(), 6);
    assert!(!index.is_empty());
}

#[test]
fn the_table_is_sorted_by_kind_then_name() {
    let index = sample();
    let keys: Vec<(CallableKind, &str)> =
        index.entries().iter().map(|e| (e.kind, e.name.as_str())).collect();
    assert_eq!(
        keys,
        vec![
            (CallableKind::Macro, "alpha"),
            (CallableKind::Macro, "alphabet"),
            (CallableKind::Macro, "beta"),
            (CallableKind::Macro, "ldots"),
            (CallableKind::Environment, "alpha"),
            (CallableKind::Specials, "^"),
        ]
    );
}

#[test]
fn a_name_is_looked_up_under_its_kind() {
    let index = sample();
    assert_eq!(index.get(CallableKind::Macro, "alpha").unwrap().category, "greek");
    assert_eq!(index.get(CallableKind::Environment, "alpha").unwrap().category, "envs");
    assert!(index.get(CallableKind::Environment, "beta").is_none());
    assert!(index.get(CallableKind::Macro, "gamma").is_none());
    assert_eq!(index.of_kind(CallableKind::Macro).len(), 4);
    assert_eq!(index.of_kind(CallableKind::Specials)[0].name, "^");
}

#[test]
fn a_prefix_scan_is_the_completion_query() {
    let index = sample();
    let offered: Vec<&str> = index
        .starts_with(CallableKind::Macro, "alph")
        .iter()
        .map(|e| e.name.as_str())
        .collect();
    assert_eq!(offered, vec!["alpha", "alphabet"]);
    assert_eq!(index.starts_with(CallableKind::Macro, "").len(), 4);
    assert!(index.starts_with(CallableKind::Macro, "z").is_empty());
    assert!(index.starts_with(CallableKind::Environment, "alphab").is_empty());
}

#[test]
fn an_empty_set_defines_nothing() {
    let index = DefinitionSet::new().symbols();
    assert!(index.is_empty());
    assert!(index.get(CallableKind::Macro, "alpha").is_none());
}

#[test]
fn a_mode_restriction_reads_as_a_visibility() {
    assert_eq!(ModeVisibility::of(None), ModeVisibility::Anywhere);
    assert_eq!(ModeVisibility::of(Some(&[Mode::Text])), ModeVisibility::TextOnly);
    assert_eq!(ModeVisibility::of(Some(&[Mode::Math])), ModeVisibility::MathOnly);
    assert_eq!(ModeVisibility::of(Some(&[Mode::Math, Mode::Text])), ModeVisibility::Anywhere);
    assert_eq!(ModeVisibility::of(Some(&[])), ModeVisibility::Anywhere);
}

#[test]
fn a_macro_is_written_with_its_escape_character() {
    assert_eq!(CallableKind::Macro.write_construct("emph"), "\\emph");
    assert_eq!(CallableKind::Environment.write_construct("itemize"), "itemize");
    assert_eq!(CallableKind::Specials.write_construct("~"), "~");
}

#[test]
fn an_entry_is_read_off_its_definition() {
    let set = DefinitionSet::new().with(
        Category::new("sample")
            .with_macro(MacroDef::new("href").arg("BracedOnly", "url").arg("m", "text").rule(TextRule::Content))
            .with_macro(MacroDef::symbol("ldots", "…").text_mode_only())
            .with_macro(MacroDef::new("hspace").star().arg("m", "length").rule(TextRule::Skip))
            .with_env(EnvDef::new("quote").arg("o", "who").math_body().rule(TextRule::Literal("q".into())))
            .with_specials(SpecialsDef::new("^").arg("m", "script").math_mode_only()),
    );
    let index = SymbolIndex::build(&set);
    let href = index.get(CallableKind::Macro, "href").expect("defined");
    assert_eq!((href.arity, href.replacement.as_deref(), href.modes), (2, None, ModeVisibility::Anywhere));
    assert_eq!(href.category, "sample");
    let ldots = index.get(CallableKind::Macro, "ldots").expect("defined");
    assert_eq!((ldots.arity, ldots.replacement.as_deref(), ldots.modes), (0, Some("…"), ModeVisibility::TextOnly));
    let hspace = index.get(CallableKind::Macro, "hspace").expect("defined");
    assert_eq!(hspace.arity, 2);
    let quote = index.get(CallableKind::Environment, "quote").expect("defined");
    assert_eq!((quote.arity, quote.replacement.as_deref(), quote.modes), (1, Some("q"), ModeVisibility::Anywhere));
    let script = index.get(CallableKind::Specials, "^").expect("defined");
    assert_eq!((script.arity, script.modes), (1, ModeVisibility::MathOnly));
    assert_eq!(index.len(), 5);
}
