use std::collections::BTreeSet;

use techxt::convert::{
    BuildError, FootnoteStyle, HeadingStyle, MacroDefinitions, MathMode, Options, Recovery,
    RuleTable, UnknownMacroResolution,
};
use techxt::def::{DefinitionSet, TextRule};
use techxt::defs;
use techxt::symbols::CallableKind;
use techxt::template::{Template, TemplateError};
use techxt::{Converter, ConverterBuilder};

fn assert_send_sync<T: Send + Sync>() {}

fn template(source: &str) -> TextRule {
    TextRule::Template(Template::new(source))
}

/// The error a build reports; panics if the build succeeded.
fn build_error(builder: ConverterBuilder) -> BuildError {
    match builder.build() {
        Ok(_) => panic!("the build should have failed"),
        Err(error) => error,
    }
}

#[test]
fn converter_is_shareable() {
    assert_send_sync::<Converter>();
    assert_send_sync::<Options>();
}

#[test]
fn stores_are_separate_per_kind() {
    let mut table = RuleTable::new();
    table.insert(CallableKind::Macro, "x", TextRule::Skip);
    table.insert(
        CallableKind::Environment,
        "x",
        TextRule::Literal(String::from("env")),
    );
    assert!(matches!(
        table.get(CallableKind::Macro, "x"),
        Some(TextRule::Skip)
    ));
    assert!(matches!(
        table.get(CallableKind::Environment, "x"),
        Some(TextRule::Literal(_))
    ));
    assert!(table.get(CallableKind::Specials, "x").is_none());
}

#[test]
fn later_insert_replaces() {
    let mut table = RuleTable::new();
    table.insert(CallableKind::Macro, "x", TextRule::Skip);
    table.insert(CallableKind::Macro, "x", TextRule::Content);
    assert!(matches!(
        table.get(CallableKind::Macro, "x"),
        Some(TextRule::Content)
    ));
}

#[test]
fn category_names_are_unique() {
    let names: Vec<String> = defs::standard()
        .categories()
        .iter()
        .map(|c| String::from(c.name()))
        .collect();
    let unique: BTreeSet<&String> = names.iter().collect();
    assert_eq!(names.len(), unique.len());
}

#[test]
fn the_shipped_categories_are_stacked_with_natbib_last() {
    let definitions = defs::standard();
    let names: Vec<&str> = definitions.categories().iter().map(|c| c.name()).collect();
    assert_eq!(
        names,
        [
            "base",
            "fontstyles",
            "mathcore",
            "mathenvs",
            "subsuperscripts",
            "sectioning",
            "lists",
            "verbatim",
            "tables",
            "theorems",
            "refs",
            "links",
            "graphics",
            "titling",
            "natbib",
        ]
    );
}

#[test]
fn the_standard_converter_uses_the_shipped_definitions_and_defaults() {
    let converter = Converter::standard();
    assert_eq!(converter.definitions().categories().len(), 15);
    assert_eq!(converter.options().math_mode, MathMode::Fancy);
    assert_eq!(converter.options().wrap_width, None);
    assert!(converter.accepts_unknown_macros());
    assert!(converter.override_for(CallableKind::Macro, "emph").is_none());
}

#[test]
fn definitions_given_to_the_builder_replace_the_shipped_ones() {
    let mut definitions = DefinitionSet::new();
    definitions.push(defs::base::category());
    definitions.push(defs::sectioning::category());
    let converter = ConverterBuilder::new()
        .definitions(definitions)
        .build()
        .expect("no overrides to refuse");
    let names: Vec<&str> = converter
        .definitions()
        .categories()
        .iter()
        .map(|c| c.name())
        .collect();
    assert_eq!(names, ["base", "sectioning"]);
}

#[test]
fn unknown_commands_follow_the_recovery_policy_by_default() {
    let tolerant = Converter::builder().build().expect("builds");
    assert!(tolerant.accepts_unknown_macros());
    let strict = Converter::builder()
        .recovery(Recovery::Strict)
        .build()
        .expect("builds");
    assert!(!strict.accepts_unknown_macros());
}

#[test]
fn the_unknown_macro_resolution_overrides_the_recovery_policy() {
    let lenient = Converter::builder()
        .recovery(Recovery::Strict)
        .unknown_macro_resolution(UnknownMacroResolution::Accept)
        .build()
        .expect("builds");
    assert!(lenient.accepts_unknown_macros());
    let refusing = Converter::builder()
        .recovery(Recovery::Tolerant)
        .unknown_macro_resolution(UnknownMacroResolution::Reject)
        .build()
        .expect("builds");
    assert!(!refusing.accepts_unknown_macros());
}

#[test]
fn a_body_reference_is_refused_in_a_macro_override() {
    let error = build_error(Converter::builder().override_macro("x", template("[{body}]")));
    match error {
        BuildError::Template {
            definition,
            template,
            error,
        } => {
            assert_eq!(definition, "\\x");
            assert_eq!(template, "[{body}]");
            assert_eq!(error, TemplateError::BodyOutsideEnvironment);
        }
    }
}

#[test]
fn a_body_reference_is_refused_in_a_specials_override() {
    let error = build_error(Converter::builder().override_specials("~", template("{body}")));
    match error {
        BuildError::Template {
            definition, error, ..
        } => {
            assert_eq!(definition, "~");
            assert_eq!(error, TemplateError::BodyOutsideEnvironment);
        }
    }
}

#[test]
fn an_environment_override_may_use_its_body() {
    let converter = Converter::builder()
        .override_environment("quote", template("> {body}"))
        .build()
        .expect("an environment has a body");
    assert!(matches!(
        converter.override_for(CallableKind::Environment, "quote"),
        Some(TextRule::Template(_))
    ));
    assert!(converter
        .override_for(CallableKind::Macro, "quote")
        .is_none());
}

#[test]
fn an_override_argument_name_is_not_checked_against_any_definition() {
    let converter = Converter::builder()
        .override_macro("href", template("{text} <{url}>"))
        .build()
        .expect("names are unchecked in an override");
    assert!(converter.override_for(CallableKind::Macro, "href").is_some());
}

#[test]
fn the_first_failing_override_is_the_one_reported() {
    let error = build_error(
        Converter::builder()
            .override_macro("fine", TextRule::Skip)
            .override_macro("first", template("{unclosed"))
            .override_macro("second", template("{body}")),
    );
    match error {
        BuildError::Template {
            definition,
            template,
            ..
        } => {
            assert_eq!(definition, "\\first");
            assert_eq!(template, "{unclosed");
        }
    }
}

#[test]
fn the_last_override_of_a_construct_wins() {
    let converter = Converter::builder()
        .override_macro("x", TextRule::Skip)
        .override_macro("x", TextRule::Content)
        .build()
        .expect("builds");
    assert!(matches!(
        converter.override_for(CallableKind::Macro, "x"),
        Some(TextRule::Content)
    ));
}

#[test]
fn each_option_setter_changes_its_option_only() {
    let converter = Converter::builder()
        .math_mode(MathMode::Source)
        .wrap_width(Some(40))
        .keep_comments(true)
        .footnote_style(FootnoteStyle::Inline)
        .macro_definitions(MacroDefinitions::Declared)
        .expansion_count_limit(50)
        .expansion_depth_limit(8)
        .build()
        .expect("builds");
    let options = converter.options();
    assert_eq!(options.math_mode, MathMode::Source);
    assert_eq!(options.wrap_width, Some(40));
    assert!(options.keep_comments);
    assert_eq!(options.footnote_style, FootnoteStyle::Inline);
    assert_eq!(options.heading_style, HeadingStyle::NumberedUnderlined);
    assert_eq!(options.today, None);
}

#[test]
fn the_command_line_converter_follows_strict_and_keeps_its_options() {
    let mut options = Options::default();
    options.wrap_width = Some(60);
    let converter = techxt::cli::build_converter(options, true).expect("nothing to refuse");
    assert_eq!(converter.options().wrap_width, Some(60));
    assert!(!converter.accepts_unknown_macros());
    let lenient = techxt::cli::build_converter(Options::default(), false).expect("nothing to refuse");
    assert!(lenient.accepts_unknown_macros());
    assert_eq!(lenient.definitions().categories().len(), 15);
}
