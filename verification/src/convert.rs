//! The rendering options — everything a caller may choose about how a document becomes
//! text, and the defaults the library ships with — and the one collection a conversion
//! reports through: its diagnostics, the parse's and the renderer's merged into one.
//!
//! Deliberately *not* here: whitespace behaviour. LaTeX's whitespace semantics are
//! exact, and a knob would only ever make the output less correct.

use vstd::prelude::*;

pub use crate::converter::{BuildError, Converter, ConverterBuilder, Recovery, RuleTable};

use crate::diag::Severity;
use crate::mathfmt::{FontStyle, FontStyleKind, MathWrapDelims, MatrixDelims};
use crate::text::push_char;
use techy::error::Diagnostic;
use techy_xp::presets::{
    CategoryCodeChangeUnsupported, ConditionalUnsupported, CounterCommandUnsupported, CsNameUnsupported,
    ExpandAfterUnsupported, NoExpandUnsupported, RegisterAllocationUnsupported, RegisterUnsupported,
};

verus! {

/// How formulas are rendered.
#[derive(Clone, Copy, Debug, Default, PartialEq, Eq, Structural, Hash)]
pub enum MathMode {
    /// Unicode symbols, unicode scripts, font alphabets — *and* the joiner, which spaces
    /// a formula the way a typesetter would: `𝑎 + 𝑏`, `𝑥² + 𝑦ᵢ`. The default.
    #[default]
    Fancy,
    /// The same symbol conversion without the joiner: pieces concatenate directly, so
    /// `$a + b$` comes out as `𝑎+𝑏`.
    Plain,
    /// Leave the formula as LaTeX, re-emitted from the parsed tree.
    Source,
}

/// How headings are rendered.
#[derive(Clone, Copy, Debug, Default, PartialEq, Eq, Structural, Hash)]
pub enum HeadingStyle {
    /// A section number, then the title, then a rule of underline characters. The
    /// default.
    #[default]
    NumberedUnderlined,
    /// The title and its underline, without a number.
    Underlined,
    /// The number and the title on one line, with no underline.
    Prefix,
    /// The title alone.
    Plain,
}

/// Where a footnote's text goes.
#[derive(Clone, Copy, Debug, Default, PartialEq, Eq, Structural, Hash)]
pub enum FootnoteStyle {
    /// A marker in the text, and the notes gathered into a block at the end. The
    /// default.
    #[default]
    Collected,
    /// The note's text in the running text, where the footnote was.
    Inline,
    /// Neither marker nor text.
    Skip,
}

/// What an `enumerate` counter counts in.
#[derive(Clone, Copy, Debug, PartialEq, Eq, Structural, Hash)]
pub enum CounterStyle {
    /// `1`, `2`, `3`.
    Arabic,
    /// `a`, `b`, `c`.
    LowerAlpha,
    /// `A`, `B`, `C`.
    UpperAlpha,
    /// `i`, `ii`, `iii`.
    LowerRoman,
    /// `I`, `II`, `III`.
    UpperRoman,
}

/// What punctuates an `enumerate` counter.
#[derive(Clone, Copy, Debug, PartialEq, Eq, Structural, Hash)]
pub enum CounterWrap {
    /// `1.`
    Dot,
    /// `(1)`
    Parens,
}

/// How one level of an `enumerate` numbers its items: `1.`, `(a)`, `i.`, `A.`.
#[derive(Clone, Copy, Debug, PartialEq, Eq, Structural, Hash)]
pub struct EnumFormat {
    /// What the counter counts in.
    pub style: CounterStyle,
    /// What punctuates it.
    pub wrap: CounterWrap,
}

/// The markers lists number and bullet themselves with.
///
/// Both arrays *cycle*: a list nested deeper than the array is long starts over at the
/// beginning, so no nesting depth is ever without a marker.
#[non_exhaustive]
#[derive(Clone, Debug, PartialEq, Eq)]
pub struct ListStyle {
    /// Bullets for `itemize`, by nesting depth among `itemize` lists.
    pub itemize_markers: Vec<String>,
    /// Number formats for `enumerate`, by nesting depth among `enumerate` lists.
    pub enumerate_formats: Vec<EnumFormat>,
}

/// A list style, as a mathematical value.
pub struct ListStyleView {
    pub itemize_markers: Seq<Seq<char>>,
    pub enumerate_formats: Seq<EnumFormat>,
}

impl View for ListStyle {
    type V = ListStyleView;

    open spec fn view(&self) -> ListStyleView {
        ListStyleView {
            itemize_markers: self.itemize_markers@.map_values(|marker: String| marker@),
            enumerate_formats: self.enumerate_formats@,
        }
    }
}

/// The shipped list style: bullets `•`, `–`, `*`, `·`, and numbers `1.`, `(a)`, `i.`,
/// `A.`.
pub open spec fn default_list_style() -> ListStyleView {
    ListStyleView {
        itemize_markers: seq![seq!['\u{2022}'], seq!['\u{2013}'], seq!['*'], seq!['\u{b7}']],
        enumerate_formats: seq![
            EnumFormat { style: CounterStyle::Arabic, wrap: CounterWrap::Dot },
            EnumFormat { style: CounterStyle::LowerAlpha, wrap: CounterWrap::Parens },
            EnumFormat { style: CounterStyle::LowerRoman, wrap: CounterWrap::Dot },
            EnumFormat { style: CounterStyle::UpperAlpha, wrap: CounterWrap::Dot },
        ],
    }
}

/// A one-character string.
fn one_char(c: char) -> (text: String)
    ensures
        text@ == seq![c],
{
    let mut text = String::new();
    push_char(&mut text, c);
    assert(text@ =~= seq![c]);
    text
}

impl Default for ListStyle {
    fn default() -> (style: ListStyle)
        ensures
            style@ == default_list_style(),
    {
        let mut itemize_markers: Vec<String> = Vec::new();
        itemize_markers.push(one_char('\u{2022}'));
        itemize_markers.push(one_char('\u{2013}'));
        itemize_markers.push(one_char('*'));
        itemize_markers.push(one_char('\u{b7}'));
        let enumerate_formats = vec![
            EnumFormat { style: CounterStyle::Arabic, wrap: CounterWrap::Dot },
            EnumFormat { style: CounterStyle::LowerAlpha, wrap: CounterWrap::Parens },
            EnumFormat { style: CounterStyle::LowerRoman, wrap: CounterWrap::Dot },
            EnumFormat { style: CounterStyle::UpperAlpha, wrap: CounterWrap::Dot },
        ];
        let style = ListStyle { itemize_markers, enumerate_formats };
        assert(style@.itemize_markers =~= default_list_style().itemize_markers);
        assert(style@.enumerate_formats =~= default_list_style().enumerate_formats);
        style
    }
}

/// How the definitions decide the fate of a command no category defines.
///
/// This is a *parsing* setting: whether an unclaimed `\foo` becomes a callable node at
/// all is settled before rendering, and only then does [`Options::unknown_macro`] get to
/// say what it looks like.
#[non_exhaustive]
#[derive(Clone, Copy, Debug, Default, PartialEq, Eq, Structural, Hash)]
pub enum UnknownMacroResolution {
    /// Default. Follow the recovery mode: tolerant recovery registers the catch-all,
    /// strict recovery registers nothing.
    #[default]
    FollowRecovery,
    /// Always register the catch-all: an unknown command is a no-argument callable and
    /// [`Options::unknown_macro`] decides what it renders as.
    Accept,
    /// Never register the catch-all: an unknown command is a parse diagnostic, and under
    /// tolerant recovery survives as literal characters.
    Reject,
}

/// Whether the macro-defining commands (`\newcommand`, `\def`, …) are honoured or only
/// declared.
#[non_exhaustive]
#[derive(Clone, Copy, Debug, Default, PartialEq, Eq, Structural, Hash)]
pub enum MacroDefinitions {
    /// Default. A definition made in the document takes effect, and a later use of the
    /// defined macro expands.
    #[default]
    Honored,
    /// The defining commands are *declared* only: their arguments are consumed so that a
    /// definition body cannot leak into the text, and nothing is defined.
    Declared,
}

/// What to do with a macro no rule renders. Whichever it is, an unknown-macro
/// diagnostic is raised.
#[derive(Clone, Copy, Debug, Default, PartialEq, Eq, Structural, Hash)]
pub enum UnknownMacroPolicy {
    /// Render nothing at all. The default: an unknown macro is usually formatting, and
    /// formatting is what plain text drops anyway.
    #[default]
    Skip,
    /// Render the macro's arguments, in order, as if the macro were transparent.
    RenderArgs,
    /// Emit the macro's LaTeX source, protected from wrapping.
    KeepSource,
    /// Emit `<name>`, so the reader can see that something was there.
    Placeholder,
}

/// What to do with an environment no rule renders. Whichever it is, an
/// unknown-environment diagnostic is raised.
#[derive(Clone, Copy, Debug, Default, PartialEq, Eq, Structural, Hash)]
pub enum UnknownEnvPolicy {
    /// Render the body and drop the wrapper. The default: an unknown wrapper rarely
    /// means the text inside it is unwanted.
    #[default]
    RenderBody,
    /// Render nothing at all, body included.
    Skip,
    /// Emit the environment's LaTeX source as a preformatted block.
    KeepSource,
}

/// What to do with a specials construct no rule renders. Whichever it is, an
/// unknown-specials diagnostic is raised.
#[derive(Clone, Copy, Debug, Default, PartialEq, Eq, Structural, Hash)]
pub enum UnknownSpecialsPolicy {
    /// Emit the trigger characters themselves. The default: they were, after all, in
    /// the document.
    #[default]
    EmitChars,
    /// Render nothing at all.
    Skip,
}

/// Everything a caller may choose about how a document is rendered.
#[non_exhaustive]
#[derive(Clone, Debug)]
pub struct Options {
    /// How formulas are rendered. Default [`MathMode::Fancy`].
    pub math_mode: MathMode,
    /// What a sub-expression is wrapped in when its extent would otherwise be unclear.
    /// Default [`MathWrapDelims::Parens`].
    pub math_expression_in: MathWrapDelims,
    /// How the delimiters of a display matrix are drawn. Default
    /// [`MatrixDelims::Unicode`].
    pub matrix_delimiters: MatrixDelims,
    /// The column to wrap lines at, or `None` (the default) for no wrapping at all.
    pub wrap_width: Option<usize>,
    /// Whether comments survive into the output, each on a line of its own. Default
    /// `false` — a comment is a note to the source's reader, not to the text's.
    pub keep_comments: bool,
    /// How headings are rendered. Default [`HeadingStyle::NumberedUnderlined`].
    pub heading_style: HeadingStyle,
    /// Where footnote text goes. Default [`FootnoteStyle::Collected`].
    pub footnote_style: FootnoteStyle,
    /// The markers lists number and bullet themselves with.
    pub list_style: ListStyle,
    /// The font alphabet text starts in. Default [`FontStyle::Default`] (upright).
    pub text_font: FontStyle,
    /// The font alphabet math starts in. Default italic, which is what makes variables
    /// look like variables.
    pub math_font: FontStyle,
    /// What to do with a macro no rule renders. Default [`UnknownMacroPolicy::Skip`].
    pub unknown_macro: UnknownMacroPolicy,
    /// What to do with an environment no rule renders. Default
    /// [`UnknownEnvPolicy::RenderBody`].
    pub unknown_env: UnknownEnvPolicy,
    /// What to do with a specials construct no rule renders. Default
    /// [`UnknownSpecialsPolicy::EmitChars`].
    pub unknown_specials: UnknownSpecialsPolicy,
    /// What `\today` renders as. `None` (the default) renders `<today>`: the library has
    /// no clock, and a caller who wants a date knows which one.
    pub today: Option<String>,
}

impl Default for Options {
    fn default() -> (options: Options)
        ensures
            options.math_mode == MathMode::Fancy,
            options.math_expression_in == MathWrapDelims::Parens,
            options.matrix_delimiters == MatrixDelims::Unicode,
            options.wrap_width is None,
            !options.keep_comments,
            options.heading_style == HeadingStyle::NumberedUnderlined,
            options.footnote_style == FootnoteStyle::Collected,
            options.list_style@ == default_list_style(),
            options.text_font == FontStyle::Default,
            options.math_font == FontStyle::Style(FontStyleKind::Italic),
            options.unknown_macro == UnknownMacroPolicy::Skip,
            options.unknown_env == UnknownEnvPolicy::RenderBody,
            options.unknown_specials == UnknownSpecialsPolicy::EmitChars,
            options.today is None,
    {
        Options {
            math_mode: MathMode::Fancy,
            math_expression_in: MathWrapDelims::Parens,
            matrix_delimiters: MatrixDelims::Unicode,
            wrap_width: None,
            keep_comments: false,
            heading_style: HeadingStyle::NumberedUnderlined,
            footnote_style: FootnoteStyle::Collected,
            list_style: ListStyle::default(),
            text_font: FontStyle::Default,
            math_font: FontStyle::Style(FontStyleKind::Italic),
            unknown_macro: UnknownMacroPolicy::Skip,
            unknown_env: UnknownEnvPolicy::RenderBody,
            unknown_specials: UnknownSpecialsPolicy::EmitChars,
            today: None,
        }
    }
}

// ------------------------------------------------------------------ diagnostics

/// The diagnostics of a conversion, in the order they were reported: techy's capped
/// collection, held as it is.
///
/// At most a retention limit of them are stored; pushes beyond it are dropped but
/// counted as suppressed, and an error-severity one still counts as an error. So a
/// collection has four things to say about itself — what it stores, its limit, how many
/// it suppressed and how many errors it was given in all — and the contracts below
/// speak of each: [`retained`], [`retention_limit`], [`suppressed_count`] and
/// [`error_total`].
#[verifier::external_body]
pub struct Diagnostics(pub techy::error::Diagnostics<Option<String>>);

/// The severities of the diagnostics a collection stores, in recording order.
pub uninterp spec fn retained(diagnostics: Diagnostics) -> Seq<Severity>;

/// The retention limit a collection was created with.
pub uninterp spec fn retention_limit(diagnostics: Diagnostics) -> nat;

/// How many pushes a collection dropped because its limit was reached.
pub uninterp spec fn suppressed_count(diagnostics: Diagnostics) -> nat;

/// How many error-severity diagnostics a collection was given, stored and suppressed.
pub uninterp spec fn error_total(diagnostics: Diagnostics) -> nat;

/// How many of `severities` are errors.
pub open spec fn errors_in(severities: Seq<Severity>) -> nat
    decreases severities.len(),
{
    if severities.len() == 0 {
        0
    } else {
        errors_in(severities.drop_last()) + (if severities.last() == Severity::Error { 1nat } else { 0 })
    }
}

/// What pushing a diagnostic of severity `severity` does to a collection: it is stored
/// while there is room and counted as suppressed once there is none, and an error is
/// counted as one either way.
pub open spec fn pushed(before: Diagnostics, after: Diagnostics, severity: Severity) -> bool {
    &&& retention_limit(after) == retention_limit(before)
    &&& if retained(before).len() < retention_limit(before) {
        retained(after) == retained(before).push(severity) && suppressed_count(after)
            == suppressed_count(before)
    } else {
        retained(after) == retained(before) && suppressed_count(after) == suppressed_count(before) + 1
    }
    &&& error_total(after) == error_total(before) + (if severity == Severity::Error { 1nat } else { 0 })
}

/// A new, empty collection retaining at most `limit` diagnostics
/// (`Diagnostics::with_limit`).
#[verifier::external_body]
fn with_limit(limit: usize) -> (diagnostics: Diagnostics)
    ensures
        retained(diagnostics) == Seq::<Severity>::empty(),
        retention_limit(diagnostics) == limit,
        suppressed_count(diagnostics) == 0,
        error_total(diagnostics) == 0,
{
    Diagnostics(techy::error::Diagnostics::with_limit(limit))
}

/// The retention limit a collection gets when none is chosen
/// (`Diagnostics::DEFAULT_LIMIT`, which techy sets at 1000).
#[verifier::external_body]
fn default_limit() -> (limit: usize)
    ensures
        limit == 1000,
{
    techy::error::Diagnostics::<Option<String>>::DEFAULT_LIMIT
}

/// How many diagnostics a collection stores (`Diagnostics::len`); never more than its
/// limit.
#[verifier::external_body]
pub(crate) fn retained_len(diagnostics: &Diagnostics) -> (n: usize)
    ensures
        n == retained(*diagnostics).len(),
        n <= retention_limit(*diagnostics),
{
    diagnostics.0.len()
}

/// How many pushes a collection suppressed (`Diagnostics::suppressed`); it suppresses
/// only once it stores as many as its limit allows.
#[verifier::external_body]
pub(crate) fn suppressed(diagnostics: &Diagnostics) -> (n: usize)
    ensures
        n == suppressed_count(*diagnostics),
        n > 0 ==> retained(*diagnostics).len() == retention_limit(*diagnostics),
{
    diagnostics.0.suppressed()
}

/// How many errors a collection was given (`Diagnostics::error_count`): at least the
/// errors it stores, and at most those and every suppressed push besides.
#[verifier::external_body]
pub(crate) fn error_count(diagnostics: &Diagnostics) -> (n: usize)
    ensures
        n == error_total(*diagnostics),
        errors_in(retained(*diagnostics)) <= n <= errors_in(retained(*diagnostics)) + suppressed_count(
            *diagnostics,
        ),
{
    diagnostics.0.error_count()
}

/// The severity of the diagnostic stored at `index` (`Diagnostic::severity`).
#[verifier::external_body]
pub(crate) fn severity_at(diagnostics: &Diagnostics, index: usize) -> (severity: Severity)
    requires
        index < retained(*diagnostics).len(),
    ensures
        severity == retained(*diagnostics)[index as int],
{
    match diagnostics.0.as_slice()[index].severity() {
        techy::error::Severity::Note => Severity::Note,
        techy::error::Severity::Warning => Severity::Warning,
        techy::error::Severity::Error => Severity::Error,
    }
}

/// Push a copy of the diagnostic `source` stores at `index` (`Diagnostics::push`).
#[verifier::external_body]
fn push_copy(merged: &mut Diagnostics, source: &Diagnostics, index: usize)
    requires
        index < retained(*source).len(),
        error_total(*old(merged)) < usize::MAX,
        suppressed_count(*old(merged)) < usize::MAX,
    ensures
        pushed(*old(merged), *final(merged), retained(*source)[index as int]),
{
    merged.0.push(source.0.as_slice()[index].clone());
}

/// Whether the parts describe a collection techy's pushes could have produced: no more
/// stored than the limit, suppression only once the limit is reached, and an error
/// count between the stored errors and those plus every suppressed push.
pub open spec fn consistent_counts(severities: Seq<Severity>, limit: nat, suppressed: nat, errors: nat) -> bool {
    &&& severities.len() <= limit
    &&& (suppressed == 0 || severities.len() == limit)
    &&& errors_in(severities) <= errors <= errors_in(severities) + suppressed
}

/// The same stored diagnostics and limit with the given suppressed and error counts
/// (`Diagnostics::from_parts`), or `None` when those counts are inconsistent.
#[verifier::external_body]
fn with_counts(diagnostics: &Diagnostics, suppressed: usize, errors: usize) -> (result: Option<Diagnostics>)
    ensures
        result is Some <==> consistent_counts(retained(*diagnostics), retention_limit(*diagnostics), suppressed as nat, errors as nat),
        result matches Some(full) ==> {
            &&& retained(full) == retained(*diagnostics)
            &&& retention_limit(full) == retention_limit(*diagnostics)
            &&& suppressed_count(full) == suppressed
            &&& error_total(full) == errors
        },
{
    techy::error::Diagnostics::from_parts(
        diagnostics.0.as_slice().to_vec(),
        diagnostics.0.limit(),
        suppressed,
        errors,
    ).ok().map(Diagnostics)
}

/// For each diagnostic a collection stores, in order, which of techy-xp's eight refusal
/// conditions it carries — 1 to 8 for `CategoryCodeChangeUnsupported`,
/// `ExpandAfterUnsupported`, `NoExpandUnsupported`, `CsNameUnsupported`,
/// `RegisterUnsupported`, `RegisterAllocationUnsupported`, `CounterCommandUnsupported`
/// and `ConditionalUnsupported` — or 0 for any other condition. It is read off the type
/// of each stored condition.
pub uninterp spec fn refusal_of(diagnostics: Diagnostics) -> Seq<u8>;

/// Push the diagnostic `source` stores at `index` again as a warning if its condition is
/// techy-xp's `CategoryCodeChangeUnsupported` (refusal 1, a category-code change (`\\catcode`)), found by `DiagnosticData::downcast_ref`;
/// the condition and the span are kept (`Diagnostic::warning`), the traceback frames are
/// not. Otherwise nothing is pushed.
#[verifier::external_body]
fn push_category_code_change_warning(merged: &mut Diagnostics, source: &Diagnostics, index: usize) -> (demoted: bool)
    requires
        index < retained(*source).len(),
        suppressed_count(*old(merged)) < usize::MAX,
    ensures
        demoted ==> refusal_of(*source)[index as int] == 1,
        !demoted ==> refusal_of(*source)[index as int] != 1 && refusal_of(*source)[index as int] <= 8,
        demoted ==> pushed(*old(merged), *final(merged), Severity::Warning),
        !demoted ==> *final(merged) == *old(merged),
{
    let diagnostic = &source.0.as_slice()[index];
    match diagnostic.data().downcast_ref::<CategoryCodeChangeUnsupported>() {
        Some(condition) => {
            merged.0.push(Diagnostic::warning(condition.clone(), diagnostic.span().clone()));
            true
        },
        None => false,
    }
}

/// Push the diagnostic `source` stores at `index` again as a warning if its condition is
/// techy-xp's `ExpandAfterUnsupported` (refusal 2, `\\expandafter`), found by `DiagnosticData::downcast_ref`;
/// the condition and the span are kept (`Diagnostic::warning`), the traceback frames are
/// not. Otherwise nothing is pushed.
#[verifier::external_body]
fn push_expand_after_warning(merged: &mut Diagnostics, source: &Diagnostics, index: usize) -> (demoted: bool)
    requires
        index < retained(*source).len(),
        suppressed_count(*old(merged)) < usize::MAX,
    ensures
        demoted ==> refusal_of(*source)[index as int] == 2,
        !demoted ==> refusal_of(*source)[index as int] != 2 && refusal_of(*source)[index as int] <= 8,
        demoted ==> pushed(*old(merged), *final(merged), Severity::Warning),
        !demoted ==> *final(merged) == *old(merged),
{
    let diagnostic = &source.0.as_slice()[index];
    match diagnostic.data().downcast_ref::<ExpandAfterUnsupported>() {
        Some(condition) => {
            merged.0.push(Diagnostic::warning(condition.clone(), diagnostic.span().clone()));
            true
        },
        None => false,
    }
}

/// Push the diagnostic `source` stores at `index` again as a warning if its condition is
/// techy-xp's `NoExpandUnsupported` (refusal 3, `\\noexpand`), found by `DiagnosticData::downcast_ref`;
/// the condition and the span are kept (`Diagnostic::warning`), the traceback frames are
/// not. Otherwise nothing is pushed.
#[verifier::external_body]
fn push_no_expand_warning(merged: &mut Diagnostics, source: &Diagnostics, index: usize) -> (demoted: bool)
    requires
        index < retained(*source).len(),
        suppressed_count(*old(merged)) < usize::MAX,
    ensures
        demoted ==> refusal_of(*source)[index as int] == 3,
        !demoted ==> refusal_of(*source)[index as int] != 3 && refusal_of(*source)[index as int] <= 8,
        demoted ==> pushed(*old(merged), *final(merged), Severity::Warning),
        !demoted ==> *final(merged) == *old(merged),
{
    let diagnostic = &source.0.as_slice()[index];
    match diagnostic.data().downcast_ref::<NoExpandUnsupported>() {
        Some(condition) => {
            merged.0.push(Diagnostic::warning(condition.clone(), diagnostic.span().clone()));
            true
        },
        None => false,
    }
}

/// Push the diagnostic `source` stores at `index` again as a warning if its condition is
/// techy-xp's `CsNameUnsupported` (refusal 4, `\\csname`), found by `DiagnosticData::downcast_ref`;
/// the condition and the span are kept (`Diagnostic::warning`), the traceback frames are
/// not. Otherwise nothing is pushed.
#[verifier::external_body]
fn push_cs_name_warning(merged: &mut Diagnostics, source: &Diagnostics, index: usize) -> (demoted: bool)
    requires
        index < retained(*source).len(),
        suppressed_count(*old(merged)) < usize::MAX,
    ensures
        demoted ==> refusal_of(*source)[index as int] == 4,
        !demoted ==> refusal_of(*source)[index as int] != 4 && refusal_of(*source)[index as int] <= 8,
        demoted ==> pushed(*old(merged), *final(merged), Severity::Warning),
        !demoted ==> *final(merged) == *old(merged),
{
    let diagnostic = &source.0.as_slice()[index];
    match diagnostic.data().downcast_ref::<CsNameUnsupported>() {
        Some(condition) => {
            merged.0.push(Diagnostic::warning(condition.clone(), diagnostic.span().clone()));
            true
        },
        None => false,
    }
}

/// Push the diagnostic `source` stores at `index` again as a warning if its condition is
/// techy-xp's `RegisterUnsupported` (refusal 5, a register), found by `DiagnosticData::downcast_ref`;
/// the condition and the span are kept (`Diagnostic::warning`), the traceback frames are
/// not. Otherwise nothing is pushed.
#[verifier::external_body]
fn push_register_warning(merged: &mut Diagnostics, source: &Diagnostics, index: usize) -> (demoted: bool)
    requires
        index < retained(*source).len(),
        suppressed_count(*old(merged)) < usize::MAX,
    ensures
        demoted ==> refusal_of(*source)[index as int] == 5,
        !demoted ==> refusal_of(*source)[index as int] != 5 && refusal_of(*source)[index as int] <= 8,
        demoted ==> pushed(*old(merged), *final(merged), Severity::Warning),
        !demoted ==> *final(merged) == *old(merged),
{
    let diagnostic = &source.0.as_slice()[index];
    match diagnostic.data().downcast_ref::<RegisterUnsupported>() {
        Some(condition) => {
            merged.0.push(Diagnostic::warning(condition.clone(), diagnostic.span().clone()));
            true
        },
        None => false,
    }
}

/// Push the diagnostic `source` stores at `index` again as a warning if its condition is
/// techy-xp's `RegisterAllocationUnsupported` (refusal 6, a register allocation), found by `DiagnosticData::downcast_ref`;
/// the condition and the span are kept (`Diagnostic::warning`), the traceback frames are
/// not. Otherwise nothing is pushed.
#[verifier::external_body]
fn push_register_allocation_warning(merged: &mut Diagnostics, source: &Diagnostics, index: usize) -> (demoted: bool)
    requires
        index < retained(*source).len(),
        suppressed_count(*old(merged)) < usize::MAX,
    ensures
        demoted ==> refusal_of(*source)[index as int] == 6,
        !demoted ==> refusal_of(*source)[index as int] != 6 && refusal_of(*source)[index as int] <= 8,
        demoted ==> pushed(*old(merged), *final(merged), Severity::Warning),
        !demoted ==> *final(merged) == *old(merged),
{
    let diagnostic = &source.0.as_slice()[index];
    match diagnostic.data().downcast_ref::<RegisterAllocationUnsupported>() {
        Some(condition) => {
            merged.0.push(Diagnostic::warning(condition.clone(), diagnostic.span().clone()));
            true
        },
        None => false,
    }
}

/// Push the diagnostic `source` stores at `index` again as a warning if its condition is
/// techy-xp's `CounterCommandUnsupported` (refusal 7, a counter command), found by `DiagnosticData::downcast_ref`;
/// the condition and the span are kept (`Diagnostic::warning`), the traceback frames are
/// not. Otherwise nothing is pushed.
#[verifier::external_body]
fn push_counter_command_warning(merged: &mut Diagnostics, source: &Diagnostics, index: usize) -> (demoted: bool)
    requires
        index < retained(*source).len(),
        suppressed_count(*old(merged)) < usize::MAX,
    ensures
        demoted ==> refusal_of(*source)[index as int] == 7,
        !demoted ==> refusal_of(*source)[index as int] != 7 && refusal_of(*source)[index as int] <= 8,
        demoted ==> pushed(*old(merged), *final(merged), Severity::Warning),
        !demoted ==> *final(merged) == *old(merged),
{
    let diagnostic = &source.0.as_slice()[index];
    match diagnostic.data().downcast_ref::<CounterCommandUnsupported>() {
        Some(condition) => {
            merged.0.push(Diagnostic::warning(condition.clone(), diagnostic.span().clone()));
            true
        },
        None => false,
    }
}

/// Push the diagnostic `source` stores at `index` again as a warning if its condition is
/// techy-xp's `ConditionalUnsupported` (refusal 8, a conditional), found by `DiagnosticData::downcast_ref`;
/// the condition and the span are kept (`Diagnostic::warning`), the traceback frames are
/// not. Otherwise nothing is pushed.
#[verifier::external_body]
fn push_conditional_warning(merged: &mut Diagnostics, source: &Diagnostics, index: usize) -> (demoted: bool)
    requires
        index < retained(*source).len(),
        suppressed_count(*old(merged)) < usize::MAX,
    ensures
        demoted ==> refusal_of(*source)[index as int] == 8,
        !demoted ==> refusal_of(*source)[index as int] != 8 && refusal_of(*source)[index as int] <= 8,
        demoted ==> pushed(*old(merged), *final(merged), Severity::Warning),
        !demoted ==> *final(merged) == *old(merged),
{
    let diagnostic = &source.0.as_slice()[index];
    match diagnostic.data().downcast_ref::<ConditionalUnsupported>() {
        Some(condition) => {
            merged.0.push(Diagnostic::warning(condition.clone(), diagnostic.span().clone()));
            true
        },
        None => false,
    }
}

/// Push the diagnostic `source` stores at `index` at the severity techxt reports it at:
/// techy-xp's **refusals** — `\catcode`, `\expandafter`, `\noexpand`, `\csname`, the
/// registers and their allocation, the counter commands and the conditionals — demoted
/// from error to warning, everything else exactly as techy raised it. A command techxt
/// understands well enough to refuse by name cannot rank worse than one it has never
/// heard of, which is a warning. The answer is whether it demoted.
fn push_at_techxt_severity(merged: &mut Diagnostics, source: &Diagnostics, index: usize) -> (demoted: bool)
    requires
        index < retained(*source).len(),
        error_total(*old(merged)) < usize::MAX,
        suppressed_count(*old(merged)) < usize::MAX,
    ensures
        demoted == (retained(*source)[index as int] == Severity::Error && refusal_of(*source)[index as int] != 0),
        pushed(
            *old(merged),
            *final(merged),
            at_techxt_severity(retained(*source)[index as int], refusal_of(*source)[index as int]),
        ),
{
    if severity_at(source, index) == Severity::Error {
        if push_category_code_change_warning(merged, source, index)
            || push_expand_after_warning(merged, source, index)
            || push_no_expand_warning(merged, source, index)
            || push_cs_name_warning(merged, source, index)
            || push_register_warning(merged, source, index)
            || push_register_allocation_warning(merged, source, index)
            || push_counter_command_warning(merged, source, index)
            || push_conditional_warning(merged, source, index) {
            return true;
        }
    }
    push_copy(merged, source, index);
    false
}

/// The severity techxt reports a diagnostic at: an error that is one of techy-xp's
/// refusals is a warning, everything else is as techy raised it.
pub open spec fn at_techxt_severity(severity: Severity, refusal: u8) -> Severity {
    if severity == Severity::Error && refusal != 0 {
        Severity::Warning
    } else {
        severity
    }
}

/// The severities of stored diagnostics at techxt's severity, given which refusal each
/// carries.
pub open spec fn techxt_severities(severities: Seq<Severity>, refusals: Seq<u8>) -> Seq<Severity> {
    Seq::new(severities.len(), |i: int| at_techxt_severity(severities[i], refusals[i]))
}

/// Whether `after` holds `before`, position by position, except that an error may have
/// become a warning.
pub open spec fn same_or_demoted(before: Seq<Severity>, after: Seq<Severity>) -> bool {
    &&& after.len() == before.len()
    &&& forall|i: int|
        0 <= i < before.len() ==> #[trigger] after[i] == before[i] || (before[i] == Severity::Error
            && after[i] == Severity::Warning)
}

proof fn lemma_errors_in_push(severities: Seq<Severity>, severity: Severity)
    ensures
        errors_in(severities.push(severity)) == errors_in(severities) + (if severity == Severity::Error {
            1nat
        } else {
            0
        }),
{
    assert(severities.push(severity).drop_last() =~= severities);
}

proof fn lemma_errors_in_bounds(severities: Seq<Severity>)
    ensures
        errors_in(severities) <= severities.len(),
    decreases severities.len(),
{
    if severities.len() > 0 {
        lemma_errors_in_bounds(severities.drop_last());
    }
}

proof fn lemma_errors_in_concat(a: Seq<Severity>, b: Seq<Severity>)
    ensures
        errors_in(a + b) == errors_in(a) + errors_in(b),
    decreases b.len(),
{
    if b.len() == 0 {
        assert(a + b =~= a);
    } else {
        lemma_errors_in_concat(a, b.drop_last());
        assert((a + b).drop_last() =~= a + b.drop_last());
    }
}

/// Demoting errors to warnings loses exactly the demoted errors.
proof fn lemma_errors_after_demotion(before: Seq<Severity>, after: Seq<Severity>)
    requires
        same_or_demoted(before, after),
    ensures
        errors_in(after) <= errors_in(before),
    decreases before.len(),
{
    if before.len() > 0 {
        assert(same_or_demoted(before.drop_last(), after.drop_last()));
        lemma_errors_after_demotion(before.drop_last(), after.drop_last());
    }
}

/// Push every diagnostic `source` stores into `merged`, each at techxt's severity,
/// while `merged` has room for all of them. The answer is how many were demoted.
fn take_over(merged: &mut Diagnostics, source: &Diagnostics) -> (demoted: usize)
    requires
        retained(*old(merged)).len() + retained(*source).len() <= retention_limit(*old(merged)),
        suppressed_count(*old(merged)) == 0,
        error_total(*old(merged)) == errors_in(retained(*old(merged))),
        retention_limit(*old(merged)) <= usize::MAX,
    ensures
        retention_limit(*final(merged)) == retention_limit(*old(merged)),
        suppressed_count(*final(merged)) == 0,
        error_total(*final(merged)) == errors_in(retained(*final(merged))),
        retained(*final(merged)).len() == retained(*old(merged)).len() + retained(*source).len(),
        retained(*final(merged)).take(retained(*old(merged)).len() as int) == retained(*old(merged)),
        same_or_demoted(
            retained(*source),
            retained(*final(merged)).skip(retained(*old(merged)).len() as int),
        ),
        demoted == errors_in(retained(*source)) - errors_in(
            retained(*final(merged)).skip(retained(*old(merged)).len() as int),
        ),
        retained(*final(merged)).skip(retained(*old(merged)).len() as int) == techxt_severities(
            retained(*source),
            refusal_of(*source),
        ),
{
    let ghost start = retained(*merged);
    let ghost source_view = retained(*source);
    let ghost refusals = refusal_of(*source);
    let count = retained_len(source);
    let mut demoted: usize = 0;
    let mut i: usize = 0;
    while i < count
        invariant
            count == source_view.len(),
            source_view == retained(*source),
            i <= count,
            retention_limit(*merged) == retention_limit(*old(merged)),
            start.len() + count <= retention_limit(*merged),
            retention_limit(*merged) <= usize::MAX,
            suppressed_count(*merged) == 0,
            error_total(*merged) == errors_in(retained(*merged)),
            retained(*merged).len() == start.len() + i,
            retained(*merged).take(start.len() as int) == start,
            same_or_demoted(source_view.take(i as int), retained(*merged).skip(start.len() as int)),
            demoted as int == errors_in(source_view.take(i as int)) - errors_in(
                retained(*merged).skip(start.len() as int),
            ),
            refusals == refusal_of(*source),
            retained(*merged).skip(start.len() as int) == techxt_severities(source_view.take(i as int), refusals),
        decreases count - i,
    {
        let ghost before = retained(*merged);
        proof {
            lemma_errors_in_bounds(before);
            lemma_errors_in_bounds(source_view.take(i as int));
        }
        let was_demoted = push_at_techxt_severity(merged, source, i);
        let ghost after = retained(*merged);
        let ghost severity = at_techxt_severity(source_view[i as int], refusals[i as int]);
        assert(techxt_severities(source_view.take(i + 1), refusals) =~= techxt_severities(
            source_view.take(i as int),
            refusals,
        ).push(severity));
        assert(after == before.push(severity));
        assert(after.take(start.len() as int) =~= before.take(start.len() as int));
        assert(after.skip(start.len() as int) =~= before.skip(start.len() as int).push(severity));
        assert(source_view.take(i + 1) =~= source_view.take(i as int).push(source_view[i as int]));
        proof {
            lemma_errors_in_push(before, severity);
            lemma_errors_in_push(before.skip(start.len() as int), severity);
            lemma_errors_in_push(source_view.take(i as int), source_view[i as int]);
            lemma_errors_after_demotion(source_view.take(i as int), before.skip(start.len() as int));
            let prev = source_view.take(i as int);
            let now = source_view.take(i + 1);
            let got = after.skip(start.len() as int);
            assert forall|k: int| 0 <= k < now.len() implies #[trigger] got[k] == now[k] || (now[k]
                == Severity::Error && got[k] == Severity::Warning) by {
                if k < prev.len() {
                    assert(got[k] == before.skip(start.len() as int)[k]);
                    assert(now[k] == prev[k]);
                }
            }
        }
        if was_demoted {
            demoted = demoted + 1;
        }
        i = i + 1;
    }
    assert(source_view.take(count as int) =~= source_view);
    demoted
}

/// The smaller of two counts.
fn smaller(a: usize, b: usize) -> (m: usize)
    ensures
        m == if a <= b { a } else { b },
{
    if a <= b { a } else { b }
}

/// What [`merge`] makes of two collections: the stored diagnostics of both in order, an
/// error possibly demoted to a warning; the limit; the suppressed surplus; and the error
/// count less exactly the demoted errors.
pub open spec fn merged_from(first: Diagnostics, second: Diagnostics, merged: Diagnostics) -> bool {
    let stored = retained(first).len() + retained(second).len();
    let surplus = suppressed_count(first) + suppressed_count(second);
    &&& same_or_demoted(retained(first) + retained(second), retained(merged))
    &&& retained(merged) == techxt_severities(retained(first), refusal_of(first)) + techxt_severities(
        retained(second),
        refusal_of(second),
    )
    &&& retention_limit(merged) == (if surplus == 0 {
        if stored <= 1000 { 1000 } else { stored }
    } else {
        stored
    })
    &&& suppressed_count(merged) == (if stored > 0 { surplus } else { 0 })
    &&& error_total(merged) == (if stored > 0 || surplus == 0 {
        error_total(first) + error_total(second) - (errors_in(retained(first) + retained(second))
            - errors_in(retained(merged)))
    } else {
        0
    })
}

/// The diagnostics of a conversion's two stages — the parse's and the renderer's — as
/// one collection, every entry at techxt's severity (see [`push_at_techxt_severity`]).
///
/// Nothing either stage counted is lost. The stored diagnostics are the first stage's
/// and then the second's; the suppressed surplus is carried over, with a limit of
/// exactly the stored count so that the merged collection reads as the full one it is;
/// and the error count is the two stages' together, less exactly the refusals that were
/// demoted. With nothing suppressed the merged collection keeps the headroom a fresh one
/// has. A suppressed surplus needs a stored diagnostic to be recorded against; with none
/// stored at all (a limit of zero) there is nothing to record it on, and it is dropped.
pub fn merge(first: &Diagnostics, second: &Diagnostics) -> (merged: Diagnostics)
    requires
        retained(*first).len() + retained(*second).len() <= usize::MAX,
        suppressed_count(*first) + suppressed_count(*second) <= usize::MAX,
        error_total(*first) + error_total(*second) <= usize::MAX,
    ensures
        merged_from(*first, *second, merged),
{
    let stored = retained_len(first) + retained_len(second);
    let surplus = suppressed(first) + suppressed(second);
    let errors = error_count(first) + error_count(second);
    let default = default_limit();
    // With nothing suppressed there is nothing to carry over, and the limit keeps the
    // headroom a fresh collection has. With something suppressed the merged collection
    // is a capped one, and it has to be exactly full for its counts to be consistent.
    let limit = if surplus == 0 {
        if stored <= default { default } else { stored }
    } else {
        stored
    };
    let mut merged = with_limit(limit);
    let ghost first_view = retained(*first);
    let ghost second_view = retained(*second);
    let demoted_first = take_over(&mut merged, first);
    let ghost middle = retained(merged);
    let demoted_second = take_over(&mut merged, second);
    let ghost all = first_view + second_view;
    let ghost end = retained(merged);
    proof {
        assert(end.take(first_view.len() as int) =~= middle);
        assert(middle.skip(0) =~= middle);
        assert(end =~= middle + end.skip(first_view.len() as int));
        assert forall|k: int| 0 <= k < all.len() implies #[trigger] end[k] == all[k] || (all[k]
            == Severity::Error && end[k] == Severity::Warning) by {
            if k < first_view.len() {
                assert(end[k] == middle[k]);
                assert(middle.skip(0)[k] == middle[k]);
            } else {
                assert(end[k] == end.skip(first_view.len() as int)[k - first_view.len()]);
            }
        }
        lemma_errors_in_concat(first_view, second_view);
        lemma_errors_in_concat(middle, end.skip(first_view.len() as int));
        lemma_errors_after_demotion(first_view, middle);
        lemma_errors_after_demotion(second_view, end.skip(first_view.len() as int));
    }
    let demoted = demoted_first + demoted_second;
    if surplus > 0 && stored > 0 {
        // How many of the suppressed entries were errors: the two collections counted
        // every error they were given, stored or not, so the difference is exactly the
        // errors that were dropped — once the demotions are given back, since those
        // errors were not lost but reclassified.
        let kept = error_count(&merged);
        let errors_lost = errors.saturating_sub(demoted).saturating_sub(kept);
        let surplus_errors = smaller(errors_lost, surplus);
        match with_counts(&merged, surplus, kept + surplus_errors) {
            Some(full) => return full,
            None => {},
        }
    }
    merged
}

/// [`merge`] for any two collections: `None` when their counts added together would not
/// fit a `usize`, which no collection held in memory reaches, and the merged collection
/// otherwise.
pub fn merge_checked(first: &Diagnostics, second: &Diagnostics) -> (merged: Option<Diagnostics>)
    ensures
        merged is Some <==> (retained(*first).len() + retained(*second).len() <= usize::MAX
            && suppressed_count(*first) + suppressed_count(*second) <= usize::MAX
            && error_total(*first) + error_total(*second) <= usize::MAX),
        merged matches Some(m) ==> merged_from(*first, *second, m),
{
    let stored = retained_len(first).checked_add(retained_len(second));
    let surplus = suppressed(first).checked_add(suppressed(second));
    let errors = error_count(first).checked_add(error_count(second));
    if stored.is_none() || surplus.is_none() || errors.is_none() {
        return None;
    }
    Some(merge(first, second))
}

} // verus!
