//! The command line's meaning: every flag maps onto exactly one option, and the mapping
//! is the only thing this module does.
//!
//! The enumerated values are restated as local types rather than shared with the
//! library's own enums: two of the library's enums carry variants with payloads that no
//! command line can spell.

use vstd::prelude::*;

use crate::convert::{FootnoteStyle, HeadingStyle, MacroDefinitions, MathMode, Options, UnknownMacroPolicy};
use crate::converter::{
    BuildError, Converter, ConverterView, Recovery, DEFAULT_EXPANSION_COUNT_LIMIT, DEFAULT_EXPANSION_DEPTH_LIMIT,
};
use crate::diag::Severity;
use crate::mathfmt::{MathWrapDelims, MatrixDelims};
use crate::text::push_decimal;
use vstd::string::StringExecFns;
use vstd::std_specs::convert::FromSpecImpl;

verus! {

/// The arguments a command line was given, as plain values.
#[derive(Clone, Debug, PartialEq, Eq)]
pub struct Cli {
    /// The document to convert. Reads standard input when absent.
    pub file: Option<String>,
    /// Write the converted text here instead of to standard output.
    pub output: Option<String>,
    /// How formulas are rendered.
    pub math_mode: MathModeArg,
    /// What a formula whose extent would be unclear is wrapped in.
    pub math_wrap: MathWrapArg,
    /// How the delimiters of a display matrix are drawn.
    pub matrix_delims: MatrixDelimsArg,
    /// Wrap the text at this column. Off by default.
    pub wrap: Option<usize>,
    /// Keep the document's comments, each on a line of its own.
    pub keep_comments: bool,
    /// How headings are rendered.
    pub heading_style: HeadingStyleArg,
    /// Where a footnote's text goes.
    pub footnote_style: FootnoteStyleArg,
    /// What to do with a macro no rule renders.
    pub unknown_macro: UnknownMacroArg,
    /// Resolve `\input` and `\include` against this directory, and refuse anything
    /// outside it.
    pub input_dir: Option<String>,
    /// Refuse a malformed document instead of converting it as best as possible.
    pub strict: bool,
    /// Print no diagnostics at all. The exit code still reports them.
    pub quiet: bool,
    /// Print notes as well as warnings and errors.
    pub verbose: bool,
}

/// Which diagnostics are printed: `-q`, the default, or `-v`.
///
/// This is about *reporting* only. Whatever is printed, every diagnostic still counts
/// towards the exit code: `-q` silences the report, not the failure.
#[derive(Clone, Copy, Debug, PartialEq, Eq, Structural, Hash)]
pub enum Verbosity {
    /// `-q`: nothing at all.
    Quiet,
    /// The default: warnings and errors.
    Default,
    /// `-v`: notes too.
    Verbose,
}

/// `--math-mode`.
#[derive(Clone, Copy, Debug, PartialEq, Eq, Structural, Hash)]
pub enum MathModeArg {
    /// Unicode symbols, scripts and alphabets, spaced like a typesetter would.
    Fancy,
    /// The same symbols, concatenated without the typesetter's spacing.
    Plain,
    /// The formula's LaTeX source, left as it was written.
    Source,
}

/// `--math-wrap`. A pair of arbitrary delimiters is deliberately unreachable from the
/// command line.
#[derive(Clone, Copy, Debug, PartialEq, Eq, Structural, Hash)]
pub enum MathWrapArg {
    /// `(a+b)/2`.
    Parens,
    /// `{a+b}/2`.
    Braces,
    /// `a+b/2` — nothing at all, even where the extent is then unclear.
    Bare,
}

/// `--matrix-delims`.
#[derive(Clone, Copy, Debug, PartialEq, Eq, Structural, Hash)]
pub enum MatrixDelimsArg {
    /// Multi-line box-drawing brackets, assembled from the unicode extension pieces.
    Unicode,
    /// One-character ASCII brackets on every row.
    Ascii,
}

/// `--heading-style`.
#[derive(Clone, Copy, Debug, PartialEq, Eq, Structural, Hash)]
pub enum HeadingStyleArg {
    /// A section number, the title, and a rule of underline characters.
    NumberedUnderlined,
    /// The title and its underline, without a number.
    Underlined,
    /// The number and the title on one line, with no underline.
    Prefix,
    /// The title alone.
    Plain,
}

/// `--footnote-style`.
#[derive(Clone, Copy, Debug, PartialEq, Eq, Structural, Hash)]
pub enum FootnoteStyleArg {
    /// A marker in the text, and the notes gathered into a block at the end.
    Collected,
    /// The note's text where the footnote was.
    Inline,
    /// Neither marker nor text.
    Skip,
}

/// `--unknown-macro`.
#[derive(Clone, Copy, Debug, PartialEq, Eq, Structural, Hash)]
pub enum UnknownMacroArg {
    /// Render nothing.
    Skip,
    /// Render the macro's arguments as if the macro were transparent.
    RenderArgs,
    /// Emit the macro's LaTeX source.
    KeepSource,
    /// Emit `<name>`.
    Placeholder,
}

/// The rendering mode a `--math-mode` value names.
pub open spec fn math_mode_of(arg: MathModeArg) -> MathMode {
    match arg {
        MathModeArg::Fancy => MathMode::Fancy,
        MathModeArg::Plain => MathMode::Plain,
        MathModeArg::Source => MathMode::Source,
    }
}

impl From<MathModeArg> for MathMode {
    fn from(arg: MathModeArg) -> (mode: MathMode) {
        match arg {
            MathModeArg::Fancy => MathMode::Fancy,
            MathModeArg::Plain => MathMode::Plain,
            MathModeArg::Source => MathMode::Source,
        }
    }
}

impl FromSpecImpl<MathModeArg> for MathMode {
    open spec fn obeys_from_spec() -> bool {
        true
    }

    open spec fn from_spec(arg: MathModeArg) -> MathMode {
        math_mode_of(arg)
    }
}

/// The delimiters a `--math-wrap` value names.
pub open spec fn math_wrap_of(arg: MathWrapArg) -> MathWrapDelims {
    match arg {
        MathWrapArg::Parens => MathWrapDelims::Parens,
        MathWrapArg::Braces => MathWrapDelims::Braces,
        MathWrapArg::Bare => MathWrapDelims::Bare,
    }
}

impl From<MathWrapArg> for MathWrapDelims {
    fn from(arg: MathWrapArg) -> (delims: MathWrapDelims) {
        match arg {
            MathWrapArg::Parens => MathWrapDelims::Parens,
            MathWrapArg::Braces => MathWrapDelims::Braces,
            MathWrapArg::Bare => MathWrapDelims::Bare,
        }
    }
}

impl FromSpecImpl<MathWrapArg> for MathWrapDelims {
    open spec fn obeys_from_spec() -> bool {
        true
    }

    open spec fn from_spec(arg: MathWrapArg) -> MathWrapDelims {
        math_wrap_of(arg)
    }
}

/// The bracket style a `--matrix-delims` value names.
pub open spec fn matrix_delims_of(arg: MatrixDelimsArg) -> MatrixDelims {
    match arg {
        MatrixDelimsArg::Unicode => MatrixDelims::Unicode,
        MatrixDelimsArg::Ascii => MatrixDelims::Ascii,
    }
}

impl From<MatrixDelimsArg> for MatrixDelims {
    fn from(arg: MatrixDelimsArg) -> (delims: MatrixDelims) {
        match arg {
            MatrixDelimsArg::Unicode => MatrixDelims::Unicode,
            MatrixDelimsArg::Ascii => MatrixDelims::Ascii,
        }
    }
}

impl FromSpecImpl<MatrixDelimsArg> for MatrixDelims {
    open spec fn obeys_from_spec() -> bool {
        true
    }

    open spec fn from_spec(arg: MatrixDelimsArg) -> MatrixDelims {
        matrix_delims_of(arg)
    }
}

/// The heading style a `--heading-style` value names.
pub open spec fn heading_style_of(arg: HeadingStyleArg) -> HeadingStyle {
    match arg {
        HeadingStyleArg::NumberedUnderlined => HeadingStyle::NumberedUnderlined,
        HeadingStyleArg::Underlined => HeadingStyle::Underlined,
        HeadingStyleArg::Prefix => HeadingStyle::Prefix,
        HeadingStyleArg::Plain => HeadingStyle::Plain,
    }
}

impl From<HeadingStyleArg> for HeadingStyle {
    fn from(arg: HeadingStyleArg) -> (style: HeadingStyle) {
        match arg {
            HeadingStyleArg::NumberedUnderlined => HeadingStyle::NumberedUnderlined,
            HeadingStyleArg::Underlined => HeadingStyle::Underlined,
            HeadingStyleArg::Prefix => HeadingStyle::Prefix,
            HeadingStyleArg::Plain => HeadingStyle::Plain,
        }
    }
}

impl FromSpecImpl<HeadingStyleArg> for HeadingStyle {
    open spec fn obeys_from_spec() -> bool {
        true
    }

    open spec fn from_spec(arg: HeadingStyleArg) -> HeadingStyle {
        heading_style_of(arg)
    }
}

/// The footnote style a `--footnote-style` value names.
pub open spec fn footnote_style_of(arg: FootnoteStyleArg) -> FootnoteStyle {
    match arg {
        FootnoteStyleArg::Collected => FootnoteStyle::Collected,
        FootnoteStyleArg::Inline => FootnoteStyle::Inline,
        FootnoteStyleArg::Skip => FootnoteStyle::Skip,
    }
}

impl From<FootnoteStyleArg> for FootnoteStyle {
    fn from(arg: FootnoteStyleArg) -> (style: FootnoteStyle) {
        match arg {
            FootnoteStyleArg::Collected => FootnoteStyle::Collected,
            FootnoteStyleArg::Inline => FootnoteStyle::Inline,
            FootnoteStyleArg::Skip => FootnoteStyle::Skip,
        }
    }
}

impl FromSpecImpl<FootnoteStyleArg> for FootnoteStyle {
    open spec fn obeys_from_spec() -> bool {
        true
    }

    open spec fn from_spec(arg: FootnoteStyleArg) -> FootnoteStyle {
        footnote_style_of(arg)
    }
}

/// The policy an `--unknown-macro` value names.
pub open spec fn unknown_macro_of(arg: UnknownMacroArg) -> UnknownMacroPolicy {
    match arg {
        UnknownMacroArg::Skip => UnknownMacroPolicy::Skip,
        UnknownMacroArg::RenderArgs => UnknownMacroPolicy::RenderArgs,
        UnknownMacroArg::KeepSource => UnknownMacroPolicy::KeepSource,
        UnknownMacroArg::Placeholder => UnknownMacroPolicy::Placeholder,
    }
}

impl From<UnknownMacroArg> for UnknownMacroPolicy {
    fn from(arg: UnknownMacroArg) -> (policy: UnknownMacroPolicy) {
        match arg {
            UnknownMacroArg::Skip => UnknownMacroPolicy::Skip,
            UnknownMacroArg::RenderArgs => UnknownMacroPolicy::RenderArgs,
            UnknownMacroArg::KeepSource => UnknownMacroPolicy::KeepSource,
            UnknownMacroArg::Placeholder => UnknownMacroPolicy::Placeholder,
        }
    }
}

impl FromSpecImpl<UnknownMacroArg> for UnknownMacroPolicy {
    open spec fn obeys_from_spec() -> bool {
        true
    }

    open spec fn from_spec(arg: UnknownMacroArg) -> UnknownMacroPolicy {
        unknown_macro_of(arg)
    }
}

impl Cli {
    /// Assemble the rendering options these arguments ask for.
    ///
    /// Start from the library's defaults and overwrite, so that an option without a flag
    /// keeps its own default. `today` is passed in rather than read here so that the
    /// caller owns the one impure step; the command line is the caller that knows what
    /// day it is, so `\today` renders a date rather than the library's placeholder.
    pub fn options(&self, today: String) -> (options: Options)
        ensures
            options.math_mode == math_mode_of(self.math_mode),
            options.math_expression_in == math_wrap_of(self.math_wrap),
            options.matrix_delimiters == matrix_delims_of(self.matrix_delims),
            options.wrap_width == self.wrap,
            options.keep_comments == self.keep_comments,
            options.heading_style == heading_style_of(self.heading_style),
            options.footnote_style == footnote_style_of(self.footnote_style),
            options.unknown_macro == unknown_macro_of(self.unknown_macro),
            options.today is Some && options.today->0@ == today@,
            options.list_style@ == crate::convert::default_list_style(),
            options.text_font == crate::mathfmt::FontStyle::Default,
            options.math_font == crate::mathfmt::FontStyle::Style(crate::mathfmt::FontStyleKind::Italic),
            options.unknown_env == crate::convert::UnknownEnvPolicy::RenderBody,
            options.unknown_specials == crate::convert::UnknownSpecialsPolicy::EmitChars,
    {
        let mut options = Options::default();
        options.math_mode = MathMode::from(self.math_mode);
        options.math_expression_in = MathWrapDelims::from(self.math_wrap);
        options.matrix_delimiters = MatrixDelims::from(self.matrix_delims);
        options.wrap_width = self.wrap;
        options.keep_comments = self.keep_comments;
        options.heading_style = HeadingStyle::from(self.heading_style);
        options.footnote_style = FootnoteStyle::from(self.footnote_style);
        options.unknown_macro = UnknownMacroPolicy::from(self.unknown_macro);
        options.today = Some(today);
        options
    }

    /// Which diagnostics reach standard error: `-q` wins over everything, `-v` adds the
    /// notes.
    pub fn verbosity(&self) -> (verbosity: Verbosity)
        ensures
            verbosity == if self.quiet {
                Verbosity::Quiet
            } else if self.verbose {
                Verbosity::Verbose
            } else {
                Verbosity::Default
            },
    {
        match (self.quiet, self.verbose) {
            (true, _) => Verbosity::Quiet,
            (_, true) => Verbosity::Verbose,
            _ => Verbosity::Default,
        }
    }
}

/// Exit code 0: the document converted and nothing was wrong with it.
pub const EXIT_CLEAN: u8 = 0;

/// Exit code 1: the document converted, but the diagnostics contain errors. The text has
/// still been written; the code is how a script learns not to trust it.
pub const EXIT_DIAGNOSED: u8 = 1;

/// Exit code 2: there is no text — a parse the recovery policy could not survive, a file
/// that could not be read, or a file that could not be written.
pub const EXIT_FAILED: u8 = 2;

/// The exit code of a conversion that produced text.
pub fn exit_code(has_errors: bool) -> (code: u8)
    ensures
        code == if has_errors { EXIT_DIAGNOSED } else { EXIT_CLEAN },
{
    if has_errors {
        EXIT_DIAGNOSED
    } else {
        EXIT_CLEAN
    }
}

/// How serious a severity is: notes, then warnings, then errors.
pub open spec fn severity_rank(severity: Severity) -> int {
    match severity {
        Severity::Note => 0,
        Severity::Warning => 1,
        Severity::Error => 2,
    }
}

impl Verbosity {
    /// Whether a diagnostic of this severity is printed: nothing under `-q`, warnings and
    /// errors by default, everything under `-v`. Whatever is printed, every diagnostic
    /// still counts towards the exit code.
    pub fn shows(&self, severity: Severity) -> (shown: bool)
        ensures
            shown == match *self {
                Verbosity::Quiet => false,
                Verbosity::Default => severity_rank(severity) >= 1,
                Verbosity::Verbose => true,
            },
    {
        match self {
            Verbosity::Quiet => false,
            Verbosity::Default => match severity {
                Severity::Note => false,
                Severity::Warning | Severity::Error => true,
            },
            Verbosity::Verbose => true,
        }
    }
}

/// What a report ends with when the collection hit its retention cap and forgot the rest:
/// `… and N further diagnostics were not recorded (retention limit reached)`.
pub fn surplus_note(suppressed: usize) -> (text: String)
    ensures
        text@ == "\u{2026} and "@ + crate::text::decimal_text(suppressed as nat)
            + " further diagnostics were not recorded (retention limit reached)"@,
{
    let mut text = String::from_str("\u{2026} and ");
    push_decimal(&mut text, suppressed as u64);
    text.append(" further diagnostics were not recorded (retention limit reached)");
    text
}

/// The converter a command line runs: the shipped definitions, the options its flags
/// ask for, and strict recovery under `--strict` — which also refuses commands no
/// definition claims. Every other builder setting keeps its default. There are no
/// overrides to refuse, so the build always succeeds; the `Result` is the builder's.
pub fn build_converter(options: Options, strict: bool) -> (r: Result<Converter, BuildError>)
    ensures
        r matches Ok(c) && c@ == (ConverterView {
            options,
            definitions: crate::defs::standard_view(),
            overrides: Map::empty(),
            unknown_macro_fallback: !strict,
            recovery: if strict { Recovery::Strict } else { Recovery::Tolerant },
            macro_definitions: MacroDefinitions::Honored,
            expansion_depth_limit: DEFAULT_EXPANSION_DEPTH_LIMIT,
            expansion_count_limit: DEFAULT_EXPANSION_COUNT_LIMIT,
        }),
{
    let recovery = if strict { Recovery::Strict } else { Recovery::Tolerant };
    let builder = Converter::builder().options(options).recovery(recovery);
    assert(builder@.overrides.len() == 0);
    let r = builder.build();
    assert(r matches Ok(c) && c@.overrides =~= Map::<(crate::symbols::CallableKind, Seq<char>), crate::def::RuleView>::empty());
    r
}

} // verus!
