//! The converter and its builder: the choices a caller makes before converting anything,
//! and the checks made of them once, when the converter is built.
//!
//! What a builder decides is all here: which definitions the converter knows (the
//! shipped ones unless told otherwise), how it renders a construct it has an override
//! for, whether a command no definition claims is accepted, and the expansion budgets.
//! Every override written as a template is checked when the converter is built — its
//! shape, and that it asks for `{body}` only of an environment — so that a bad template
//! is a build error rather than a hole in someone's output.

use vstd::prelude::*;

use crate::convert::{
    FootnoteStyle, HeadingStyle, ListStyle, MacroDefinitions, MathMode, Options, UnknownEnvPolicy,
    UnknownMacroPolicy, UnknownMacroResolution, UnknownSpecialsPolicy,
};
use crate::def::{CategoryView, DefinitionSet, RuleView, TextRule};
use crate::defs::standard_view;
use crate::mathfmt::{FontStyle, FontStyleKind, MathWrapDelims, MatrixDelims};
use crate::symbols::{construct_text, CallableKind};
use crate::template::{validation, ScopeView, TemplateError, TemplateErrorView, TemplateScope};

verus! {

/// What the parser does with a malformed document.
#[derive(Clone, Copy, Debug, PartialEq, Eq, Structural, Hash)]
pub enum Recovery {
    /// Stop at the first problem; the parse fails.
    Strict,
    /// Report each problem and go on with a best-effort tree. The default.
    Tolerant,
}

/// The default depth of nested macro expansion: 64 frames.
pub const DEFAULT_EXPANSION_DEPTH_LIMIT: usize = 64;

/// The default number of macro expansions one parse may start: 2 000.
pub const DEFAULT_EXPANSION_COUNT_LIMIT: usize = 2000;

/// An override as a mathematical value: the construct and the rule it renders with.
pub type OverrideView = (CallableKind, Seq<char>, RuleView);

/// The overrides of a builder, as mathematical values, in the order they were given.
pub open spec fn overrides_view(overrides: Seq<(CallableKind, String, TextRule)>) -> Seq<OverrideView> {
    overrides.map_values(|o: (CallableKind, String, TextRule)| (o.0, o.1@, o.2@))
}

/// Rules keyed by construct, where a later rule for the same construct replaces an
/// earlier one.
pub open spec fn rule_map(rules: Seq<OverrideView>) -> Map<(CallableKind, Seq<char>), RuleView>
    decreases rules.len(),
{
    if rules.len() == 0 {
        Map::empty()
    } else {
        let last = rules.last();
        rule_map(rules.drop_last()).insert((last.0, last.1), last.2)
    }
}

/// What building checks of one override: a template must compile, and may ask for
/// `{body}` only when it renders an environment. Its argument references are not checked
/// against names, since an override is written against whichever definition it lands on.
pub open spec fn override_check(o: OverrideView) -> Result<(), TemplateErrorView> {
    match o.2 {
        RuleView::Template(t) => validation(
            t.parsed,
            ScopeView { names: None, has_body: o.0 == CallableKind::Environment },
        ),
        _ => Ok(()),
    }
}

/// Whether the first `n` overrides all pass the check.
pub open spec fn overrides_pass(overrides: Seq<OverrideView>, n: int) -> bool {
    forall|j: int| 0 <= j < n ==> (#[trigger] override_check(overrides[j])) is Ok
}

/// Whether an unknown command is accepted: as the recovery policy says, unless the
/// resolution says otherwise.
pub open spec fn accepts_unknown_macros(resolution: UnknownMacroResolution, recovery: Recovery) -> bool {
    match resolution {
        UnknownMacroResolution::FollowRecovery => recovery == Recovery::Tolerant,
        UnknownMacroResolution::Accept => true,
        UnknownMacroResolution::Reject => false,
    }
}

/// Whether `options` are the defaults.
pub open spec fn default_options(options: Options) -> bool {
    &&& options.math_mode == MathMode::Fancy
    &&& options.math_expression_in == MathWrapDelims::Parens
    &&& options.matrix_delimiters == MatrixDelims::Unicode
    &&& options.wrap_width is None
    &&& !options.keep_comments
    &&& options.heading_style == HeadingStyle::NumberedUnderlined
    &&& options.footnote_style == FootnoteStyle::Collected
    &&& options.list_style@ == crate::convert::default_list_style()
    &&& options.text_font == FontStyle::Default
    &&& options.math_font == FontStyle::Style(FontStyleKind::Italic)
    &&& options.unknown_macro == UnknownMacroPolicy::Skip
    &&& options.unknown_env == UnknownEnvPolicy::RenderBody
    &&& options.unknown_specials == UnknownSpecialsPolicy::EmitChars
    &&& options.today is None
}

// ------------------------------------------------------------------ the rule table

/// Override rules, looked up by construct. Macros, environments and specials are keyed
/// apart: `\emph` and an environment called `emph` are different constructs.
pub struct RuleTable {
    /// Every rule given, in order; the last one for a construct is the one that holds.
    rules: Vec<(CallableKind, String, TextRule)>,
}

impl View for RuleTable {
    type V = Map<(CallableKind, Seq<char>), RuleView>;

    closed spec fn view(&self) -> Map<(CallableKind, Seq<char>), RuleView> {
        rule_map(overrides_view(self.rules@))
    }
}

/// A later rule for a construct replaces an earlier one, and leaves every other
/// construct's rule as it was.
pub proof fn lemma_later_rule_wins(rules: Seq<OverrideView>, kind: CallableKind, name: Seq<char>, rule: RuleView)
    ensures
        rule_map(rules.push((kind, name, rule))).contains_key((kind, name)),
        rule_map(rules.push((kind, name, rule)))[(kind, name)] == rule,
        forall|key: (CallableKind, Seq<char>)|
            key != (kind, name) ==> (#[trigger] rule_map(rules.push((kind, name, rule))).contains_key(key)
                == rule_map(rules).contains_key(key) && rule_map(rules.push((kind, name, rule)))[key]
                == rule_map(rules)[key]),
{
    assert(rules.push((kind, name, rule)).drop_last() =~= rules);
}

/// A key absent from the rules after `from` is looked up as in the rules before it.
proof fn lemma_rule_map_prefix(rules: Seq<OverrideView>, from: int, key: (CallableKind, Seq<char>))
    requires
        0 <= from <= rules.len(),
        forall|j: int| from <= j < rules.len() ==> (rules[j].0, rules[j].1) != key,
    ensures
        rule_map(rules).contains_key(key) == rule_map(rules.subrange(0, from)).contains_key(key),
        rule_map(rules)[key] == rule_map(rules.subrange(0, from))[key],
    decreases rules.len() - from,
{
    if from < rules.len() {
        let shorter = rules.drop_last();
        assert(shorter.subrange(0, from) =~= rules.subrange(0, from));
        lemma_rule_map_prefix(shorter, from, key);
    } else {
        assert(rules.subrange(0, from) =~= rules);
    }
}

impl RuleTable {
    /// An empty table.
    pub fn new() -> (table: RuleTable)
        ensures
            table@ == Map::<(CallableKind, Seq<char>), RuleView>::empty(),
    {
        let table = RuleTable { rules: Vec::new() };
        assert(overrides_view(table.rules@) =~= Seq::<OverrideView>::empty());
        table
    }

    /// Record a rule, replacing any rule already keyed the same way.
    pub fn insert(&mut self, kind: CallableKind, name: &str, rule: TextRule)
        ensures
            final(self)@ == old(self)@.insert((kind, name@), rule@),
    {
        let ghost before = self.rules@;
        self.rules.push((kind, name.to_owned(), rule));
        assert(overrides_view(self.rules@).drop_last() =~= overrides_view(before));
    }

    /// The rule for this construct, if the table has one.
    pub fn get(&self, kind: CallableKind, name: &str) -> (rule: Option<&TextRule>)
        ensures
            match rule {
                Some(r) => self@.contains_key((kind, name@)) && self@[(kind, name@)] == r@,
                None => !self@.contains_key((kind, name@)),
            },
    {
        let ghost rules = overrides_view(self.rules@);
        let ghost key = (kind, name@);
        let wanted = name.to_owned();
        let mut i: usize = self.rules.len();
        while i > 0
            invariant
                i <= self.rules.len(),
                rules == overrides_view(self.rules@),
                key == (kind, name@),
                wanted@ == name@,
                forall|j: int| i <= j < rules.len() ==> (rules[j].0, rules[j].1) != key,
            decreases i,
        {
            let entry = &self.rules[i - 1];
            assert(rules[i - 1] == (entry.0, entry.1@, entry.2@));
            if entry.0 == kind && entry.1 == wanted {
                proof {
                    let before = rules.subrange(0, i as int);
                    lemma_rule_map_prefix(rules, i as int, key);
                    assert(before.drop_last() =~= rules.subrange(0, i - 1));
                    assert(before.last() == rules[i - 1]);
                }
                return Some(&entry.2);
            }
            i = i - 1;
        }
        proof {
            lemma_rule_map_prefix(rules, 0, key);
            assert(rules.subrange(0, 0) =~= Seq::<OverrideView>::empty());
        }
        None
    }
}

// ------------------------------------------------------------------ the converter

/// Why a converter could not be built.
#[derive(Debug)]
pub enum BuildError {
    /// An override's template is malformed, or asks for `{body}` of a construct that is
    /// not an environment.
    Template {
        /// The construct it overrides, as a document writes it (`\name` for a macro).
        definition: String,
        /// The template, as written.
        template: String,
        /// What is wrong with it.
        error: TemplateError,
    },
}

/// A converter, as a mathematical value.
pub struct ConverterView {
    pub options: Options,
    pub definitions: Seq<CategoryView>,
    pub overrides: Map<(CallableKind, Seq<char>), RuleView>,
    pub unknown_macro_fallback: bool,
    pub recovery: Recovery,
    pub macro_definitions: MacroDefinitions,
    pub expansion_depth_limit: usize,
    pub expansion_count_limit: usize,
}

/// A converter's configuration: what it converts with, fixed once it is built.
pub struct Converter {
    options: Options,
    definitions: DefinitionSet,
    overrides: RuleTable,
    unknown_macro_fallback: bool,
    recovery: Recovery,
    macro_definitions: MacroDefinitions,
    expansion_depth_limit: usize,
    expansion_count_limit: usize,
}

impl View for Converter {
    type V = ConverterView;

    closed spec fn view(&self) -> ConverterView {
        ConverterView {
            options: self.options,
            definitions: self.definitions@,
            overrides: self.overrides@,
            unknown_macro_fallback: self.unknown_macro_fallback,
            recovery: self.recovery,
            macro_definitions: self.macro_definitions,
            expansion_depth_limit: self.expansion_depth_limit,
            expansion_count_limit: self.expansion_count_limit,
        }
    }
}

/// A builder, as a mathematical value.
pub struct BuilderView {
    pub options: Options,
    pub definitions: Option<Seq<CategoryView>>,
    pub overrides: Seq<OverrideView>,
    pub recovery: Recovery,
    pub unknown_macro_resolution: UnknownMacroResolution,
    pub macro_definitions: MacroDefinitions,
    pub expansion_depth_limit: usize,
    pub expansion_count_limit: usize,
}

/// The converter a builder builds when every override passes.
pub open spec fn built(b: BuilderView) -> ConverterView {
    ConverterView {
        options: b.options,
        definitions: match b.definitions {
            Some(d) => d,
            None => standard_view(),
        },
        overrides: rule_map(b.overrides),
        unknown_macro_fallback: accepts_unknown_macros(b.unknown_macro_resolution, b.recovery),
        recovery: b.recovery,
        macro_definitions: b.macro_definitions,
        expansion_depth_limit: b.expansion_depth_limit,
        expansion_count_limit: b.expansion_count_limit,
    }
}

/// Chooses the definitions, the options, the overrides and the parse policies, then
/// builds a [`Converter`].
pub struct ConverterBuilder {
    options: Options,
    definitions: Option<DefinitionSet>,
    overrides: Vec<(CallableKind, String, TextRule)>,
    recovery: Recovery,
    unknown_macro_resolution: UnknownMacroResolution,
    macro_definitions: MacroDefinitions,
    expansion_depth_limit: usize,
    expansion_count_limit: usize,
}

impl View for ConverterBuilder {
    type V = BuilderView;

    closed spec fn view(&self) -> BuilderView {
        BuilderView {
            options: self.options,
            definitions: match self.definitions {
                Some(d) => Some(d@),
                None => None,
            },
            overrides: overrides_view(self.overrides@),
            recovery: self.recovery,
            unknown_macro_resolution: self.unknown_macro_resolution,
            macro_definitions: self.macro_definitions,
            expansion_depth_limit: self.expansion_depth_limit,
            expansion_count_limit: self.expansion_count_limit,
        }
    }
}

impl ConverterBuilder {
    /// A builder with the shipped definitions, the default options, tolerant recovery,
    /// no overrides, and the default expansion budgets.
    pub fn new() -> (b: ConverterBuilder)
        ensures
            default_options(b@.options),
            b@.definitions is None,
            b@.overrides == Seq::<OverrideView>::empty(),
            b@.recovery == Recovery::Tolerant,
            b@.unknown_macro_resolution == UnknownMacroResolution::FollowRecovery,
            b@.macro_definitions == MacroDefinitions::Honored,
            b@.expansion_depth_limit == DEFAULT_EXPANSION_DEPTH_LIMIT,
            b@.expansion_count_limit == DEFAULT_EXPANSION_COUNT_LIMIT,
    {
        let b = ConverterBuilder {
            options: Options::default(),
            definitions: None,
            overrides: Vec::new(),
            recovery: Recovery::Tolerant,
            unknown_macro_resolution: UnknownMacroResolution::FollowRecovery,
            macro_definitions: MacroDefinitions::Honored,
            expansion_depth_limit: DEFAULT_EXPANSION_DEPTH_LIMIT,
            expansion_count_limit: DEFAULT_EXPANSION_COUNT_LIMIT,
        };
        assert(b@.overrides =~= Seq::<OverrideView>::empty());
        b
    }

    /// Use these definitions instead of the shipped ones.
    pub fn definitions(self, definitions: DefinitionSet) -> (b: ConverterBuilder)
        ensures
            b@ == (BuilderView { definitions: Some(definitions@), ..self@ }),
    {
        let mut b = self;
        b.definitions = Some(definitions);
        b
    }

    /// Replace the whole options struct.
    pub fn options(self, options: Options) -> (b: ConverterBuilder)
        ensures
            b@ == (BuilderView { options, ..self@ }),
    {
        let mut b = self;
        b.options = options;
        b
    }

    /// Add an override for one construct, after those already given.
    fn push_override(self, kind: CallableKind, name: &str, rule: TextRule) -> (b: ConverterBuilder)
        ensures
            b@ == (BuilderView { overrides: self@.overrides.push((kind, name@, rule@)), ..self@ }),
    {
        let mut b = self;
        let ghost before = b.overrides@;
        b.overrides.push((kind, name.to_owned(), rule));
        assert(overrides_view(b.overrides@) =~= overrides_view(before).push((kind, name@, rule@)));
        b
    }

    /// Render a macro with `rule` instead of whatever its definition says. The name
    /// carries no escape character.
    pub fn override_macro(self, name: &str, rule: TextRule) -> (b: ConverterBuilder)
        ensures
            b@ == (BuilderView {
                overrides: self@.overrides.push((CallableKind::Macro, name@, rule@)),
                ..self@
            }),
    {
        self.push_override(CallableKind::Macro, name, rule)
    }

    /// Render an environment with `rule` instead of whatever its definition says.
    pub fn override_environment(self, name: &str, rule: TextRule) -> (b: ConverterBuilder)
        ensures
            b@ == (BuilderView {
                overrides: self@.overrides.push((CallableKind::Environment, name@, rule@)),
                ..self@
            }),
    {
        self.push_override(CallableKind::Environment, name, rule)
    }

    /// Render a specials construct with `rule` instead of whatever its definition says.
    /// The name is the trigger characters.
    pub fn override_specials(self, name: &str, rule: TextRule) -> (b: ConverterBuilder)
        ensures
            b@ == (BuilderView {
                overrides: self@.overrides.push((CallableKind::Specials, name@, rule@)),
                ..self@
            }),
    {
        self.push_override(CallableKind::Specials, name, rule)
    }

    /// Choose the parser's recovery policy. Unless
    /// [`unknown_macro_resolution`](Self::unknown_macro_resolution) says otherwise, it
    /// also decides whether a command no definition claims is accepted: tolerant parses
    /// accept one, strict parses refuse it.
    pub fn recovery(self, recovery: Recovery) -> (b: ConverterBuilder)
        ensures
            b@ == (BuilderView { recovery, ..self@ }),
    {
        let mut b = self;
        b.recovery = recovery;
        b
    }

    /// Decide the fate of a command no definition claims, independently of the recovery
    /// policy.
    pub fn unknown_macro_resolution(self, resolution: UnknownMacroResolution) -> (b: ConverterBuilder)
        ensures
            b@ == (BuilderView { unknown_macro_resolution: resolution, ..self@ }),
    {
        let mut b = self;
        b.unknown_macro_resolution = resolution;
        b
    }

    /// Decide whether the macro-defining commands are honoured or only declared.
    pub fn macro_definitions(self, macro_definitions: MacroDefinitions) -> (b: ConverterBuilder)
        ensures
            b@ == (BuilderView { macro_definitions, ..self@ }),
    {
        let mut b = self;
        b.macro_definitions = macro_definitions;
        b
    }

    /// How deeply one expansion may nest inside another before the reader refuses.
    pub fn expansion_depth_limit(self, limit: usize) -> (b: ConverterBuilder)
        ensures
            b@ == (BuilderView { expansion_depth_limit: limit, ..self@ }),
    {
        let mut b = self;
        b.expansion_depth_limit = limit;
        b
    }

    /// How many expansions one parse may start before the reader refuses.
    pub fn expansion_count_limit(self, limit: usize) -> (b: ConverterBuilder)
        ensures
            b@ == (BuilderView { expansion_count_limit: limit, ..self@ }),
    {
        let mut b = self;
        b.expansion_count_limit = limit;
        b
    }
}

/// Check each override in order and report the first that fails.
fn check_overrides(overrides: &Vec<(CallableKind, String, TextRule)>) -> (r: Result<(), BuildError>)
    ensures
        r is Ok <==> overrides_pass(overrides_view(overrides@), overrides@.len() as int),
        r matches Err(BuildError::Template { definition, template, error }) ==> exists|i: int|
            {
                let o = #[trigger] overrides_view(overrides@)[i];
                &&& 0 <= i < overrides@.len()
                &&& overrides_pass(overrides_view(overrides@), i)
                &&& override_check(o) == Err::<(), TemplateErrorView>(error@)
                &&& definition@ == construct_text(o.0, o.1)
                &&& o.2 matches RuleView::Template(t) && template@ == t.source
            },
{
    let ghost all = overrides_view(overrides@);
    let mut i: usize = 0;
    while i < overrides.len()
        invariant
            i <= overrides.len(),
            all == overrides_view(overrides@),
            overrides_pass(all, i as int),
        decreases overrides.len() - i,
    {
        let entry = &overrides[i];
        assert(all[i as int] == (entry.0, entry.1@, entry.2@));
        if let TextRule::Template(template) = &entry.2 {
            let scope = TemplateScope::unchecked(entry.0 == CallableKind::Environment);
            if let Err(error) = template.validate(scope) {
                let definition = entry.0.write_construct(entry.1.as_str());
                let written = template.source().to_owned();
                assert(override_check(all[i as int]) is Err);
                return Err(BuildError::Template { definition, template: written, error });
            }
        }
        assert(override_check(all[i as int]) is Ok);
        i = i + 1;
    }
    Ok(())
}

impl ConverterBuilder {
    /// Build the converter, checking every override written as a template: it must
    /// compile, and it may ask for `{body}` only when it overrides an environment. The
    /// first override that fails is the error. Left unset, the definitions are the
    /// shipped ones ([`standard`](crate::defs::standard)), and whether a command no
    /// definition claims is accepted is settled here, from the recovery policy and the
    /// unknown-macro resolution.
    pub fn build(self) -> (r: Result<Converter, BuildError>)
        ensures
            r is Err <==> exists|i: int|
                0 <= i < self@.overrides.len() && (#[trigger] override_check(self@.overrides[i])) is Err,
            r matches Err(BuildError::Template { definition, template, error }) ==> exists|i: int|
                {
                    let o = #[trigger] self@.overrides[i];
                    &&& 0 <= i < self@.overrides.len()
                    &&& overrides_pass(self@.overrides, i)
                    &&& override_check(o) == Err::<(), TemplateErrorView>(error@)
                    &&& definition@ == construct_text(o.0, o.1)
                    &&& o.2 matches RuleView::Template(t) && template@ == t.source
                },
            r matches Ok(c) ==> c@ == built(self@),
    {
        match check_overrides(&self.overrides) {
            Ok(()) => Ok(self.finish()),
            Err(error) => Err(error),
        }
    }

    /// The converter this builder describes, once its overrides have passed.
    fn finish(self) -> (c: Converter)
        requires
            overrides_pass(self@.overrides, self@.overrides.len() as int),
        ensures
            c@ == built(self@),
    {
        let ConverterBuilder {
            options,
            definitions,
            overrides,
            recovery,
            unknown_macro_resolution,
            macro_definitions,
            expansion_depth_limit,
            expansion_count_limit,
        } = self;
        let definitions = match definitions {
            Some(definitions) => definitions,
            None => crate::defs::standard(),
        };
        // The definitions never see the recovery policy: what they need is the answer.
        let unknown_macro_fallback = match unknown_macro_resolution {
            UnknownMacroResolution::FollowRecovery => recovery == Recovery::Tolerant,
            UnknownMacroResolution::Accept => true,
            UnknownMacroResolution::Reject => false,
        };
        Converter {
            options,
            definitions,
            overrides: RuleTable { rules: overrides },
            unknown_macro_fallback,
            recovery,
            macro_definitions,
            expansion_depth_limit,
            expansion_count_limit,
        }
    }
}

impl Converter {
    /// Start building a converter.
    pub fn builder() -> (b: ConverterBuilder)
        ensures
            default_options(b@.options),
            b@.definitions is None,
            b@.overrides == Seq::<OverrideView>::empty(),
            b@.recovery == Recovery::Tolerant,
            b@.unknown_macro_resolution == UnknownMacroResolution::FollowRecovery,
            b@.macro_definitions == MacroDefinitions::Honored,
            b@.expansion_depth_limit == DEFAULT_EXPANSION_DEPTH_LIMIT,
            b@.expansion_count_limit == DEFAULT_EXPANSION_COUNT_LIMIT,
    {
        ConverterBuilder::new()
    }

    /// A converter with the shipped definitions and the default options. It cannot
    /// fail: with no overrides there is nothing to refuse.
    pub fn standard() -> (c: Converter)
        ensures
            default_options(c@.options),
            c@.definitions == standard_view(),
            c@.overrides == Map::<(CallableKind, Seq<char>), RuleView>::empty(),
            c@.unknown_macro_fallback,
            c@.recovery == Recovery::Tolerant,
            c@.macro_definitions == MacroDefinitions::Honored,
            c@.expansion_depth_limit == DEFAULT_EXPANSION_DEPTH_LIMIT,
            c@.expansion_count_limit == DEFAULT_EXPANSION_COUNT_LIMIT,
    {
        ConverterBuilder::new().finish()
    }

    /// The options this converter converts with.
    pub fn options(&self) -> (options: &Options)
        ensures
            *options == self@.options,
    {
        &self.options
    }

    /// The definitions this converter knows.
    pub fn definitions(&self) -> (definitions: &DefinitionSet)
        ensures
            definitions@ == self@.definitions,
    {
        &self.definitions
    }

    /// The override for a construct, if the builder was given one; the last given wins.
    pub fn override_for(&self, kind: CallableKind, name: &str) -> (rule: Option<&TextRule>)
        ensures
            match rule {
                Some(r) => self@.overrides.contains_key((kind, name@)) && self@.overrides[(kind, name@)] == r@,
                None => !self@.overrides.contains_key((kind, name@)),
            },
    {
        self.overrides.get(kind, name)
    }

    /// Whether a command no definition claims is accepted, as the builder settled it.
    pub fn accepts_unknown_macros(&self) -> (accepted: bool)
        ensures
            accepted == self@.unknown_macro_fallback,
    {
        self.unknown_macro_fallback
    }
}

/// One setter per option, each changing that option and nothing else.
impl ConverterBuilder {
    /// Set [`Options::math_mode`].
    pub fn math_mode(self, math_mode: MathMode) -> (b: ConverterBuilder)
        ensures
            b@ == (BuilderView { options: Options { math_mode, ..self@.options }, ..self@ }),
    {
        let mut b = self;
        b.options.math_mode = math_mode;
        b
    }

    /// Set [`Options::math_expression_in`].
    pub fn math_expression_in(self, delimiters: MathWrapDelims) -> (b: ConverterBuilder)
        ensures
            b@ == (BuilderView { options: Options { math_expression_in: delimiters, ..self@.options }, ..self@ }),
    {
        let mut b = self;
        b.options.math_expression_in = delimiters;
        b
    }

    /// Set [`Options::matrix_delimiters`].
    pub fn matrix_delimiters(self, delimiters: MatrixDelims) -> (b: ConverterBuilder)
        ensures
            b@ == (BuilderView { options: Options { matrix_delimiters: delimiters, ..self@.options }, ..self@ }),
    {
        let mut b = self;
        b.options.matrix_delimiters = delimiters;
        b
    }

    /// Set [`Options::wrap_width`].
    pub fn wrap_width(self, wrap_width: Option<usize>) -> (b: ConverterBuilder)
        ensures
            b@ == (BuilderView { options: Options { wrap_width, ..self@.options }, ..self@ }),
    {
        let mut b = self;
        b.options.wrap_width = wrap_width;
        b
    }

    /// Set [`Options::keep_comments`].
    pub fn keep_comments(self, keep_comments: bool) -> (b: ConverterBuilder)
        ensures
            b@ == (BuilderView { options: Options { keep_comments, ..self@.options }, ..self@ }),
    {
        let mut b = self;
        b.options.keep_comments = keep_comments;
        b
    }

    /// Set [`Options::heading_style`].
    pub fn heading_style(self, heading_style: HeadingStyle) -> (b: ConverterBuilder)
        ensures
            b@ == (BuilderView { options: Options { heading_style, ..self@.options }, ..self@ }),
    {
        let mut b = self;
        b.options.heading_style = heading_style;
        b
    }

    /// Set [`Options::footnote_style`].
    pub fn footnote_style(self, footnote_style: FootnoteStyle) -> (b: ConverterBuilder)
        ensures
            b@ == (BuilderView { options: Options { footnote_style, ..self@.options }, ..self@ }),
    {
        let mut b = self;
        b.options.footnote_style = footnote_style;
        b
    }

    /// Set [`Options::list_style`].
    pub fn list_style(self, list_style: ListStyle) -> (b: ConverterBuilder)
        ensures
            b@ == (BuilderView { options: Options { list_style, ..self@.options }, ..self@ }),
    {
        let mut b = self;
        b.options.list_style = list_style;
        b
    }

    /// Set [`Options::text_font`].
    pub fn text_font(self, text_font: FontStyle) -> (b: ConverterBuilder)
        ensures
            b@ == (BuilderView { options: Options { text_font, ..self@.options }, ..self@ }),
    {
        let mut b = self;
        b.options.text_font = text_font;
        b
    }

    /// Set [`Options::math_font`].
    pub fn math_font(self, math_font: FontStyle) -> (b: ConverterBuilder)
        ensures
            b@ == (BuilderView { options: Options { math_font, ..self@.options }, ..self@ }),
    {
        let mut b = self;
        b.options.math_font = math_font;
        b
    }

    /// Set [`Options::unknown_macro`].
    pub fn unknown_macro(self, policy: UnknownMacroPolicy) -> (b: ConverterBuilder)
        ensures
            b@ == (BuilderView { options: Options { unknown_macro: policy, ..self@.options }, ..self@ }),
    {
        let mut b = self;
        b.options.unknown_macro = policy;
        b
    }

    /// Set [`Options::unknown_env`].
    pub fn unknown_env(self, policy: UnknownEnvPolicy) -> (b: ConverterBuilder)
        ensures
            b@ == (BuilderView { options: Options { unknown_env: policy, ..self@.options }, ..self@ }),
    {
        let mut b = self;
        b.options.unknown_env = policy;
        b
    }

    /// Set [`Options::unknown_specials`].
    pub fn unknown_specials(self, policy: UnknownSpecialsPolicy) -> (b: ConverterBuilder)
        ensures
            b@ == (BuilderView { options: Options { unknown_specials: policy, ..self@.options }, ..self@ }),
    {
        let mut b = self;
        b.options.unknown_specials = policy;
        b
    }

    /// Set [`Options::today`].
    pub fn today(self, today: Option<String>) -> (b: ConverterBuilder)
        ensures
            b@ == (BuilderView { options: Options { today, ..self@.options }, ..self@ }),
    {
        let mut b = self;
        b.options.today = today;
        b
    }
}

} // verus!
