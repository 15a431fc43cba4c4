use techxt::cli::{
    Cli, FootnoteStyleArg, HeadingStyleArg, MathModeArg, MathWrapArg, MatrixDelimsArg,
    UnknownMacroArg, Verbosity,
};
use techxt::convert::{FootnoteStyle, HeadingStyle, MathMode, Options, UnknownMacroPolicy};
use techxt::mathfmt::{MathWrapDelims, MatrixDelims};

/// The arguments a bare `techxt` invocation parses to.
fn bare() -> Cli {
    Cli {
        file: None,
        output: None,
        math_mode: MathModeArg::Fancy,
        math_wrap: MathWrapArg::Parens,
        matrix_delims: MatrixDelimsArg::Unicode,
        wrap: None,
        keep_comments: false,
        heading_style: HeadingStyleArg::NumberedUnderlined,
        footnote_style: FootnoteStyleArg::Collected,
        unknown_macro: UnknownMacroArg::Skip,
        input_dir: None,
        strict: false,
        quiet: false,
        verbose: false,
    }
}

#[test]
fn the_defaults_are_the_librarys_defaults() {
    let defaults = Options::default();
    let cli = bare().options("May 1, 2001".into());
    assert_eq!(cli.math_mode, defaults.math_mode);
    assert_eq!(cli.math_expression_in, defaults.math_expression_in);
    assert_eq!(cli.matrix_delimiters, defaults.matrix_delimiters);
    assert_eq!(cli.wrap_width, defaults.wrap_width);
    assert_eq!(cli.keep_comments, defaults.keep_comments);
    assert_eq!(cli.heading_style, defaults.heading_style);
    assert_eq!(cli.footnote_style, defaults.footnote_style);
    assert_eq!(cli.unknown_macro, defaults.unknown_macro);
    // The one deliberate difference: the library has no clock, the command line does.
    assert_eq!(defaults.today, None);
    assert!(cli.today.is_some());
}

#[test]
fn every_flag_reaches_its_option() {
    let cli = Cli {
        math_mode: MathModeArg::Plain,
        math_wrap: MathWrapArg::Braces,
        matrix_delims: MatrixDelimsArg::Ascii,
        wrap: Some(40),
        keep_comments: true,
        heading_style: HeadingStyleArg::Prefix,
        footnote_style: FootnoteStyleArg::Inline,
        unknown_macro: UnknownMacroArg::KeepSource,
        ..bare()
    };
    let options = cli.options("May 1, 2001".into());
    assert_eq!(options.math_mode, MathMode::Plain);
    assert_eq!(options.math_expression_in, MathWrapDelims::Braces);
    assert_eq!(options.matrix_delimiters, MatrixDelims::Ascii);
    assert_eq!(options.wrap_width, Some(40));
    assert!(options.keep_comments);
    assert_eq!(options.heading_style, HeadingStyle::Prefix);
    assert_eq!(options.footnote_style, FootnoteStyle::Inline);
    assert_eq!(options.unknown_macro, UnknownMacroPolicy::KeepSource);
    assert_eq!(options.today.as_deref(), Some("May 1, 2001"));
}

#[test]
fn verbosity_follows_the_two_flags() {
    assert_eq!(bare().verbosity(), Verbosity::Default);
    assert_eq!(Cli { quiet: true, ..bare() }.verbosity(), Verbosity::Quiet);
    assert_eq!(Cli { verbose: true, ..bare() }.verbosity(), Verbosity::Verbose);
}

#[test]
fn each_enumerated_value_names_its_option() {
    assert_eq!(MathMode::from(MathModeArg::Source), MathMode::Source);
    assert_eq!(MathWrapDelims::from(MathWrapArg::Bare), MathWrapDelims::Bare);
    assert_eq!(HeadingStyle::from(HeadingStyleArg::Underlined), HeadingStyle::Underlined);
    assert_eq!(HeadingStyle::from(HeadingStyleArg::Plain), HeadingStyle::Plain);
    assert_eq!(FootnoteStyle::from(FootnoteStyleArg::Skip), FootnoteStyle::Skip);
    assert_eq!(UnknownMacroPolicy::from(UnknownMacroArg::RenderArgs), UnknownMacroPolicy::RenderArgs);
    assert_eq!(UnknownMacroPolicy::from(UnknownMacroArg::Placeholder), UnknownMacroPolicy::Placeholder);
}
