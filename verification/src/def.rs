//! Definitions: one entry per construct, saying both how it parses — its arguments, by
//! techy argument code and name — and how it renders — its [`TextRule`].
//!
//! Entries are grouped into named [`Category`] values, and a [`DefinitionSet`] is the
//! categories in the order they were pushed: a later category shadows an earlier one, and
//! a later entry within a category shadows an earlier entry of the same name. What a set
//! resolves every name to is read back through [`DefinitionSet::symbols`].

use vstd::prelude::*;

use crate::defs::lists::ListKind;
use crate::symbols::{EnvBodyKind, Mode, SymbolIndex};
use crate::template::{parse_template, Template, TemplateView};

verus! {

/// How a construct renders.
pub enum TextRule {
    /// A fixed replacement text (`\ldots` → `…`).
    Literal(String),
    /// A template over the construct's arguments (`{text} <{url}>`).
    Template(Template),
    /// Nothing: the construct and its arguments are dropped.
    Skip,
    /// The construct's content, without the construct itself.
    Content,
    /// Code that renders the construct, by the name it is registered under.
    Handler(String),
}

/// A text rule, as a mathematical value.
pub enum RuleView {
    Literal(Seq<char>),
    Template(TemplateView),
    Skip,
    Content,
    Handler(Seq<char>),
}

impl View for TextRule {
    type V = RuleView;

    open spec fn view(&self) -> RuleView {
        match self {
            TextRule::Literal(text) => RuleView::Literal(text@),
            TextRule::Template(template) => RuleView::Template(template@),
            TextRule::Skip => RuleView::Skip,
            TextRule::Content => RuleView::Content,
            TextRule::Handler(name) => RuleView::Handler(name@),
        }
    }
}

/// One declared argument, in declaration order.
pub enum ArgDecl {
    /// An argument written as a techy argument code plus a name.
    Code { code: String, name: String },
    /// An argument whose techy spec is built directly rather than from a code (one that
    /// leaves or enters math, say); only its name is held here.
    Spec { name: String },
}

/// An argument declaration, as a mathematical value: its code, if it has one, and its
/// name.
pub struct ArgView {
    pub code: Option<Seq<char>>,
    pub name: Seq<char>,
}

impl View for ArgDecl {
    type V = ArgView;

    open spec fn view(&self) -> ArgView {
        match self {
            ArgDecl::Code { code, name } => ArgView { code: Some(code@), name: name@ },
            ArgDecl::Spec { name } => ArgView { code: None, name: name@ },
        }
    }
}

/// The views of a list of argument declarations.
pub open spec fn args_view(args: Seq<ArgDecl>) -> Seq<ArgView> {
    args.map_values(|arg: ArgDecl| arg@)
}

/// The view of an optional rule.
pub open spec fn rule_view(rule: Option<TextRule>) -> Option<RuleView> {
    match rule {
        Some(rule) => Some(rule@),
        None => None,
    }
}

/// The view of an optional mode restriction.
pub open spec fn modes_view(modes: Option<Vec<Mode>>) -> Option<Seq<Mode>> {
    match modes {
        Some(modes) => Some(modes@),
        None => None,
    }
}

/// The replacement a rule gives when it is a plain literal.
pub open spec fn literal_of(rule: Option<RuleView>) -> Option<Seq<char>> {
    match rule {
        Some(RuleView::Literal(text)) => Some(text),
        _ => None,
    }
}

/// The `\star` argument: an optional `*`.
pub open spec fn star_arg() -> ArgView {
    ArgView { code: Some(seq!['s']), name: seq!['s', 't', 'a', 'r'] }
}

// ------------------------------------------------------------------ macros

/// A macro definition: its name, its arguments, its rule and the modes it is visible in
/// (`None`: every mode).
pub struct MacroDef {
    name: String,
    args: Vec<ArgDecl>,
    rule: Option<TextRule>,
    modes: Option<Vec<Mode>>,
}

/// A macro definition, as a mathematical value.
pub struct MacroDefView {
    pub name: Seq<char>,
    pub args: Seq<ArgView>,
    pub rule: Option<RuleView>,
    pub modes: Option<Seq<Mode>>,
}

impl View for MacroDef {
    type V = MacroDefView;

    closed spec fn view(&self) -> MacroDefView {
        MacroDefView {
            name: self.name@,
            args: args_view(self.args@),
            rule: rule_view(self.rule),
            modes: modes_view(self.modes),
        }
    }
}

/// A fresh declaration list with one more argument.
fn pushed_arg(mut args: Vec<ArgDecl>, arg: ArgDecl) -> (out: Vec<ArgDecl>)
    ensures
        args_view(out@) == args_view(args@).push(arg@),
{
    let ghost before = args@;
    args.push(arg);
    assert(args_view(args@) =~= args_view(before).push(arg@));
    args
}

/// A declaration `code` for an argument called `name`.
fn code_arg(code: &str, name: &str) -> (arg: ArgDecl)
    ensures
        arg@ == (ArgView { code: Some(code@), name: name@ }),
{
    ArgDecl::Code { code: code.to_owned(), name: name.to_owned() }
}

/// A declaration for an argument whose spec is built directly.
fn spec_arg(name: &str) -> (arg: ArgDecl)
    ensures
        arg@ == (ArgView { code: None, name: name@ }),
{
    ArgDecl::Spec { name: name.to_owned() }
}

/// The argument views of an empty declaration list.
proof fn lemma_no_args()
    ensures
        args_view(Seq::<ArgDecl>::empty()) =~= Seq::<ArgView>::empty(),
{
}

impl MacroDef {
    /// A macro called `name`, with no arguments, no rule yet, visible in every mode.
    pub fn new(name: &str) -> (d: MacroDef)
        ensures
            d@ == (MacroDefView { name: name@, args: Seq::empty(), rule: None, modes: None }),
    {
        proof {
            lemma_no_args();
        }
        MacroDef { name: name.to_owned(), args: Vec::new(), rule: None, modes: None }
    }

    /// A macro with no arguments that renders as `replacement`.
    pub fn symbol(name: &str, replacement: &str) -> (d: MacroDef)
        ensures
            d@ == (MacroDefView {
                name: name@,
                args: Seq::empty(),
                rule: Some(RuleView::Literal(replacement@)),
                modes: None,
            }),
    {
        MacroDef::new(name).rule(TextRule::Literal(replacement.to_owned()))
    }

    /// Declare one more argument: techy argument code `code`, called `name`.
    pub fn arg(self, code: &str, name: &str) -> (d: MacroDef)
        ensures
            d@ == (MacroDefView { args: self@.args.push(ArgView { code: Some(code@), name: name@ }), ..self@ }),
    {
        let arg = code_arg(code, name);
        MacroDef { args: pushed_arg(self.args, arg), ..self }
    }

    /// Declare one more argument whose spec is built directly, called `name`.
    pub fn arg_spec(self, name: &str) -> (d: MacroDef)
        ensures
            d@ == (MacroDefView { args: self@.args.push(ArgView { code: None, name: name@ }), ..self@ }),
    {
        let arg = spec_arg(name);
        MacroDef { args: pushed_arg(self.args, arg), ..self }
    }

    /// Declare an optional `*`: the argument `s`, called `star`.
    pub fn star(self) -> (d: MacroDef)
        ensures
            d@ == (MacroDefView { args: self@.args.push(star_arg()), ..self@ }),
    {
        proof {
            reveal_strlit("s");
            reveal_strlit("star");
            assert("s"@ =~= seq!['s']);
            assert("star"@ =~= seq!['s', 't', 'a', 'r']);
        }
        self.arg("s", "star")
    }

    /// Render with `rule`.
    pub fn rule(self, rule: TextRule) -> (d: MacroDef)
        ensures
            d@ == (MacroDefView { rule: Some(rule@), ..self@ }),
    {
        MacroDef { rule: Some(rule), ..self }
    }

    /// Visible in text mode only.
    pub fn text_mode_only(self) -> (d: MacroDef)
        ensures
            d@ == (MacroDefView { modes: Some(seq![Mode::Text]), ..self@ }),
    {
        let modes = vec![Mode::Text];
        assert(modes@ =~= seq![Mode::Text]);
        MacroDef { modes: Some(modes), ..self }
    }

    /// Visible in math mode only.
    pub fn math_mode_only(self) -> (d: MacroDef)
        ensures
            d@ == (MacroDefView { modes: Some(seq![Mode::Math]), ..self@ }),
    {
        let modes = vec![Mode::Math];
        assert(modes@ =~= seq![Mode::Math]);
        MacroDef { modes: Some(modes), ..self }
    }

    /// The macro's name.
    pub fn name(&self) -> (name: &str)
        ensures
            name@ == self@.name,
    {
        self.name.as_str()
    }

    /// How many arguments it declares.
    pub fn arity(&self) -> (n: usize)
        ensures
            n == self@.args.len(),
    {
        self.args.len()
    }

    /// Its rule, if it has one.
    pub fn text_rule(&self) -> (rule: Option<&TextRule>)
        ensures
            match rule {
                Some(r) => self@.rule == Some(r@),
                None => self@.rule is None,
            },
    {
        match &self.rule {
            Some(rule) => Some(rule),
            None => None,
        }
    }

    /// The modes it is restricted to, if any.
    pub fn modes(&self) -> (modes: Option<&[Mode]>)
        ensures
            match modes {
                Some(m) => self@.modes == Some(m@),
                None => self@.modes is None,
            },
    {
        match &self.modes {
            Some(modes) => Some(modes.as_slice()),
            None => None,
        }
    }
}

// ------------------------------------------------------------------ environments

/// An environment definition: its name, its arguments, how its body is parsed and its
/// rule.
pub struct EnvDef {
    name: String,
    args: Vec<ArgDecl>,
    body: EnvBodyKind,
    rule: Option<TextRule>,
}

/// An environment definition, as a mathematical value.
pub struct EnvDefView {
    pub name: Seq<char>,
    pub args: Seq<ArgView>,
    pub body: EnvBodyKind,
    pub rule: Option<RuleView>,
}

impl View for EnvDef {
    type V = EnvDefView;

    closed spec fn view(&self) -> EnvDefView {
        EnvDefView { name: self.name@, args: args_view(self.args@), body: self.body, rule: rule_view(self.rule) }
    }
}

impl EnvDef {
    /// An environment called `name`, with no arguments, an ordinary body and no rule yet.
    pub fn new(name: &str) -> (d: EnvDef)
        ensures
            d@ == (EnvDefView { name: name@, args: Seq::empty(), body: EnvBodyKind::Normal, rule: None }),
    {
        proof {
            lemma_no_args();
        }
        EnvDef { name: name.to_owned(), args: Vec::new(), body: EnvBodyKind::Normal, rule: None }
    }

    /// Declare one more argument: techy argument code `code`, called `name`.
    pub fn arg(self, code: &str, name: &str) -> (d: EnvDef)
        ensures
            d@ == (EnvDefView { args: self@.args.push(ArgView { code: Some(code@), name: name@ }), ..self@ }),
    {
        let arg = code_arg(code, name);
        EnvDef { args: pushed_arg(self.args, arg), ..self }
    }

    /// Declare one more argument whose spec is built directly, called `name`.
    pub fn arg_spec(self, name: &str) -> (d: EnvDef)
        ensures
            d@ == (EnvDefView { args: self@.args.push(ArgView { code: None, name: name@ }), ..self@ }),
    {
        let arg = spec_arg(name);
        EnvDef { args: pushed_arg(self.args, arg), ..self }
    }

    /// Render with `rule`.
    pub fn rule(self, rule: TextRule) -> (d: EnvDef)
        ensures
            d@ == (EnvDefView { rule: Some(rule@), ..self@ }),
    {
        EnvDef { rule: Some(rule), ..self }
    }

    /// Parse the body in math mode.
    pub fn math_body(self) -> (d: EnvDef)
        ensures
            d@ == (EnvDefView { body: EnvBodyKind::Math, ..self@ }),
    {
        EnvDef { body: EnvBodyKind::Math, ..self }
    }

    /// Take the body raw.
    pub fn verbatim_body(self) -> (d: EnvDef)
        ensures
            d@ == (EnvDefView { body: EnvBodyKind::Verbatim, ..self@ }),
    {
        EnvDef { body: EnvBodyKind::Verbatim, ..self }
    }

    /// Parse the body as a list of the given kind.
    pub fn list_body(self, kind: ListKind) -> (d: EnvDef)
        ensures
            d@ == (EnvDefView { body: EnvBodyKind::List(kind), ..self@ }),
    {
        EnvDef { body: EnvBodyKind::List(kind), ..self }
    }

    /// The environment's name.
    pub fn name(&self) -> (name: &str)
        ensures
            name@ == self@.name,
    {
        self.name.as_str()
    }

    /// How many arguments it declares.
    pub fn arity(&self) -> (n: usize)
        ensures
            n == self@.args.len(),
    {
        self.args.len()
    }

    /// How its body is parsed.
    pub fn body_kind(&self) -> (kind: EnvBodyKind)
        ensures
            kind == self@.body,
    {
        self.body
    }

    /// Its rule, if it has one.
    pub fn text_rule(&self) -> (rule: Option<&TextRule>)
        ensures
            match rule {
                Some(r) => self@.rule == Some(r@),
                None => self@.rule is None,
            },
    {
        match &self.rule {
            Some(rule) => Some(rule),
            None => None,
        }
    }
}

// ------------------------------------------------------------------ specials

/// A specials definition: the characters that trigger it, its arguments, its rule and
/// the modes it fires in (`None`: every mode).
pub struct SpecialsDef {
    chars: String,
    args: Vec<ArgDecl>,
    rule: Option<TextRule>,
    modes: Option<Vec<Mode>>,
}

/// A specials definition, as a mathematical value.
pub struct SpecialsDefView {
    pub chars: Seq<char>,
    pub args: Seq<ArgView>,
    pub rule: Option<RuleView>,
    pub modes: Option<Seq<Mode>>,
}

impl View for SpecialsDef {
    type V = SpecialsDefView;

    closed spec fn view(&self) -> SpecialsDefView {
        SpecialsDefView {
            chars: self.chars@,
            args: args_view(self.args@),
            rule: rule_view(self.rule),
            modes: modes_view(self.modes),
        }
    }
}

impl SpecialsDef {
    /// A specials triggered by `chars`, with no arguments, no rule yet, in every mode.
    pub fn new(chars: &str) -> (d: SpecialsDef)
        ensures
            d@ == (SpecialsDefView { chars: chars@, args: Seq::empty(), rule: None, modes: None }),
    {
        proof {
            lemma_no_args();
        }
        SpecialsDef { chars: chars.to_owned(), args: Vec::new(), rule: None, modes: None }
    }

    /// Declare one more argument: techy argument code `code`, called `name`.
    pub fn arg(self, code: &str, name: &str) -> (d: SpecialsDef)
        ensures
            d@ == (SpecialsDefView { args: self@.args.push(ArgView { code: Some(code@), name: name@ }), ..self@ }),
    {
        let arg = code_arg(code, name);
        SpecialsDef { args: pushed_arg(self.args, arg), ..self }
    }

    /// Declare one more argument whose spec is built directly, called `name`.
    pub fn arg_spec(self, name: &str) -> (d: SpecialsDef)
        ensures
            d@ == (SpecialsDefView { args: self@.args.push(ArgView { code: None, name: name@ }), ..self@ }),
    {
        let arg = spec_arg(name);
        SpecialsDef { args: pushed_arg(self.args, arg), ..self }
    }

    /// Render with `rule`.
    pub fn rule(self, rule: TextRule) -> (d: SpecialsDef)
        ensures
            d@ == (SpecialsDefView { rule: Some(rule@), ..self@ }),
    {
        SpecialsDef { rule: Some(rule), ..self }
    }

    /// Fire in text mode only.
    pub fn text_mode_only(self) -> (d: SpecialsDef)
        ensures
            d@ == (SpecialsDefView { modes: Some(seq![Mode::Text]), ..self@ }),
    {
        let modes = vec![Mode::Text];
        assert(modes@ =~= seq![Mode::Text]);
        SpecialsDef { modes: Some(modes), ..self }
    }

    /// Fire in math mode only.
    pub fn math_mode_only(self) -> (d: SpecialsDef)
        ensures
            d@ == (SpecialsDefView { modes: Some(seq![Mode::Math]), ..self@ }),
    {
        let modes = vec![Mode::Math];
        assert(modes@ =~= seq![Mode::Math]);
        SpecialsDef { modes: Some(modes), ..self }
    }

    /// The characters that trigger it.
    pub fn trigger(&self) -> (chars: &str)
        ensures
            chars@ == self@.chars,
    {
        self.chars.as_str()
    }

    /// How many arguments it declares.
    pub fn arity(&self) -> (n: usize)
        ensures
            n == self@.args.len(),
    {
        self.args.len()
    }

    /// Its rule, if it has one.
    pub fn text_rule(&self) -> (rule: Option<&TextRule>)
        ensures
            match rule {
                Some(r) => self@.rule == Some(r@),
                None => self@.rule is None,
            },
    {
        match &self.rule {
            Some(rule) => Some(rule),
            None => None,
        }
    }

    /// The modes it is restricted to, if any.
    pub fn modes(&self) -> (modes: Option<&[Mode]>)
        ensures
            match modes {
                Some(m) => self@.modes == Some(m@),
                None => self@.modes is None,
            },
    {
        match &self.modes {
            Some(modes) => Some(modes.as_slice()),
            None => None,
        }
    }
}

// ------------------------------------------------------------------ categories

/// A named group of definitions, in declaration order per kind.
pub struct Category {
    name: String,
    macros: Vec<MacroDef>,
    environments: Vec<EnvDef>,
    specials: Vec<SpecialsDef>,
}

/// A category, as a mathematical value.
pub struct CategoryView {
    pub name: Seq<char>,
    pub macros: Seq<MacroDefView>,
    pub environments: Seq<EnvDefView>,
    pub specials: Seq<SpecialsDefView>,
}

pub open spec fn macros_view(macros: Seq<MacroDef>) -> Seq<MacroDefView> {
    macros.map_values(|d: MacroDef| d@)
}

pub open spec fn environments_view(environments: Seq<EnvDef>) -> Seq<EnvDefView> {
    environments.map_values(|d: EnvDef| d@)
}

pub open spec fn specials_view(specials: Seq<SpecialsDef>) -> Seq<SpecialsDefView> {
    specials.map_values(|d: SpecialsDef| d@)
}

impl View for Category {
    type V = CategoryView;

    closed spec fn view(&self) -> CategoryView {
        CategoryView {
            name: self.name@,
            macros: macros_view(self.macros@),
            environments: environments_view(self.environments@),
            specials: specials_view(self.specials@),
        }
    }
}

impl Category {
    /// An empty category called `name`.
    pub fn new(name: &str) -> (c: Category)
        ensures
            c@ == (CategoryView {
                name: name@,
                macros: Seq::empty(),
                environments: Seq::empty(),
                specials: Seq::empty(),
            }),
    {
        let c = Category { name: name.to_owned(), macros: Vec::new(), environments: Vec::new(), specials: Vec::new() };
        assert(c@.macros =~= Seq::<MacroDefView>::empty());
        assert(c@.environments =~= Seq::<EnvDefView>::empty());
        assert(c@.specials =~= Seq::<SpecialsDefView>::empty());
        c
    }

    /// Add a macro after those already declared.
    pub fn add_macro(&mut self, definition: MacroDef)
        ensures
            final(self)@ == (CategoryView { macros: old(self)@.macros.push(definition@), ..old(self)@ }),
    {
        let ghost before = self.macros@;
        self.macros.push(definition);
        assert(macros_view(self.macros@) =~= macros_view(before).push(definition@));
    }

    /// Add an environment after those already declared.
    pub fn add_env(&mut self, definition: EnvDef)
        ensures
            final(self)@ == (CategoryView {
                environments: old(self)@.environments.push(definition@),
                ..old(self)@
            }),
    {
        let ghost before = self.environments@;
        self.environments.push(definition);
        assert(environments_view(self.environments@) =~= environments_view(before).push(definition@));
    }

    /// Add a specials after those already declared.
    pub fn add_specials(&mut self, definition: SpecialsDef)
        ensures
            final(self)@ == (CategoryView { specials: old(self)@.specials.push(definition@), ..old(self)@ }),
    {
        let ghost before = self.specials@;
        self.specials.push(definition);
        assert(specials_view(self.specials@) =~= specials_view(before).push(definition@));
    }

    /// [`add_macro`](Self::add_macro), builder style.
    pub fn with_macro(self, definition: MacroDef) -> (c: Category)
        ensures
            c@ == (CategoryView { macros: self@.macros.push(definition@), ..self@ }),
    {
        let mut c = self;
        c.add_macro(definition);
        c
    }

    /// [`add_env`](Self::add_env), builder style.
    pub fn with_env(self, definition: EnvDef) -> (c: Category)
        ensures
            c@ == (CategoryView { environments: self@.environments.push(definition@), ..self@ }),
    {
        let mut c = self;
        c.add_env(definition);
        c
    }

    /// [`add_specials`](Self::add_specials), builder style.
    pub fn with_specials(self, definition: SpecialsDef) -> (c: Category)
        ensures
            c@ == (CategoryView { specials: self@.specials.push(definition@), ..self@ }),
    {
        let mut c = self;
        c.add_specials(definition);
        c
    }

    /// The category's name.
    pub fn name(&self) -> (name: &str)
        ensures
            name@ == self@.name,
    {
        self.name.as_str()
    }

    /// Its macros, in declaration order.
    pub fn macros(&self) -> (macros: &[MacroDef])
        ensures
            macros_view(macros@) == self@.macros,
    {
        self.macros.as_slice()
    }

    /// Its environments, in declaration order.
    pub fn environments(&self) -> (environments: &[EnvDef])
        ensures
            environments_view(environments@) == self@.environments,
    {
        self.environments.as_slice()
    }

    /// Its specials, in declaration order.
    pub fn specials(&self) -> (specials: &[SpecialsDef])
        ensures
            specials_view(specials@) == self@.specials,
    {
        self.specials.as_slice()
    }
}


// ------------------------------------------------------------------ families

/// A macro whose arguments are read with the given codes and names, rendered through the
/// template `source`.
pub open spec fn template_macro(name: Seq<char>, args: Seq<ArgView>, source: Seq<char>) -> MacroDefView {
    MacroDefView {
        name,
        args,
        rule: Some(RuleView::Template(TemplateView { source, parsed: parse_template(source) })),
        modes: None,
    }
}



/// A rule written as a value, so that each definition of a family gets one of its own.
#[derive(Clone, Copy)]
pub enum RuleShape {
    Literal(&'static str),
    Skip,
    Content,
    Handler(&'static str),
}

/// The rule a shape stands for.
pub open spec fn shape_rule(shape: RuleShape) -> RuleView {
    match shape {
        RuleShape::Literal(text) => RuleView::Literal(text@),
        RuleShape::Skip => RuleView::Skip,
        RuleShape::Content => RuleView::Content,
        RuleShape::Handler(name) => RuleView::Handler(name@),
    }
}

fn make_rule(shape: RuleShape) -> (rule: TextRule)
    ensures
        rule@ == shape_rule(shape),
{
    match shape {
        RuleShape::Literal(text) => TextRule::Literal(text.to_owned()),
        RuleShape::Skip => TextRule::Skip,
        RuleShape::Content => TextRule::Content,
        RuleShape::Handler(name) => TextRule::Handler(name.to_owned()),
    }
}

/// Arguments written as (code, name) pairs.
pub open spec fn code_args(args: Seq<(&'static str, &'static str)>) -> Seq<ArgView> {
    args.map_values(|a: (&'static str, &'static str)| ArgView { code: Some(a.0@), name: a.1@ })
}

/// A macro with the given arguments and rule, visible in every mode.
pub open spec fn macro_shape(name: Seq<char>, args: Seq<(&'static str, &'static str)>, rule: RuleShape) -> MacroDefView {
    MacroDefView { name, args: code_args(args), rule: Some(shape_rule(rule)), modes: None }
}

/// One macro per name, all alike.
pub open spec fn macro_family(names: Seq<&'static str>, args: Seq<(&'static str, &'static str)>, rule: RuleShape) -> Seq<MacroDefView> {
    names.map_values(|n: &'static str| macro_shape(n@, args, rule))
}

/// An environment with the given arguments, body and rule.
pub open spec fn env_shape(
    name: Seq<char>,
    args: Seq<(&'static str, &'static str)>,
    body: EnvBodyKind,
    rule: RuleShape,
) -> EnvDefView {
    EnvDefView { name, args: code_args(args), body, rule: Some(shape_rule(rule)) }
}

/// One environment per name, all alike.
pub open spec fn env_family(
    names: Seq<&'static str>,
    args: Seq<(&'static str, &'static str)>,
    body: EnvBodyKind,
    rule: RuleShape,
) -> Seq<EnvDefView> {
    names.map_values(|n: &'static str| env_shape(n@, args, body, rule))
}

/// A macro called `name`, with the given arguments and rule, visible in every mode.
pub fn shaped_macro(name: &str, args: &[(&'static str, &'static str)], rule: RuleShape) -> (d: MacroDef)
    ensures
        d@ == macro_shape(name@, args@, rule),
{
    let mut d = MacroDef::new(name);
    let mut i: usize = 0;
    assert(code_args(args@.take(0)) =~= Seq::<ArgView>::empty());
    while i < args.len()
        invariant
            i <= args@.len(),
            d@ == (MacroDefView { name: name@, args: code_args(args@.take(i as int)), rule: None, modes: None }),
        decreases args@.len() - i,
    {
        let (code, arg_name) = args[i];
        d = d.arg(code, arg_name);
        assert(code_args(args@.take(i + 1)) =~= code_args(args@.take(i as int)).push(
            ArgView { code: Some(code@), name: arg_name@ },
        ));
        i = i + 1;
    }
    assert(args@.take(args@.len() as int) =~= args@);
    d.rule(make_rule(rule))
}

fn shaped_env(name: &str, args: &[(&'static str, &'static str)], body: EnvBodyKind, rule: RuleShape) -> (d: EnvDef)
    ensures
        d@ == env_shape(name@, args@, body, rule),
{
    let mut d = EnvDef::new(name);
    let mut i: usize = 0;
    assert(code_args(args@.take(0)) =~= Seq::<ArgView>::empty());
    while i < args.len()
        invariant
            i <= args@.len(),
            d@ == (EnvDefView { name: name@, args: code_args(args@.take(i as int)), body: EnvBodyKind::Normal, rule: None }),
        decreases args@.len() - i,
    {
        let (code, arg_name) = args[i];
        d = d.arg(code, arg_name);
        assert(code_args(args@.take(i + 1)) =~= code_args(args@.take(i as int)).push(
            ArgView { code: Some(code@), name: arg_name@ },
        ));
        i = i + 1;
    }
    assert(args@.take(args@.len() as int) =~= args@);
    let d = match body {
        EnvBodyKind::Normal => d,
        EnvBodyKind::Math => d.math_body(),
        EnvBodyKind::Verbatim => d.verbatim_body(),
        EnvBodyKind::List(kind) => d.list_body(kind),
    };
    d.rule(make_rule(rule))
}

/// Add one macro per name, each with the given arguments and rule, after what the
/// category already declares.
pub fn add_macro_family(
    category: &mut Category,
    names: &[&'static str],
    args: &[(&'static str, &'static str)],
    rule: RuleShape,
)
    ensures
        final(category)@ == (CategoryView {
            macros: old(category)@.macros + macro_family(names@, args@, rule),
            ..old(category)@
        }),
{
    let ghost start = category@;
    let ghost defs = macro_family(names@, args@, rule);
    let mut i: usize = 0;
    while i < names.len()
        invariant
            defs == macro_family(names@, args@, rule),
            i <= names@.len(),
            category@ == (CategoryView { macros: start.macros + defs.take(i as int), ..start }),
        decreases names@.len() - i,
    {
        category.add_macro(shaped_macro(names[i], args, rule));
        assert(defs.take(i + 1) =~= defs.take(i as int).push(defs[i as int]));
        assert(start.macros + defs.take(i + 1) =~= (start.macros + defs.take(i as int)).push(defs[i as int]));
        i = i + 1;
    }
    assert(defs.take(names@.len() as int) =~= defs);
}

/// Add one environment per name, each with the given arguments, body and rule.
pub fn add_env_family(
    category: &mut Category,
    names: &[&'static str],
    args: &[(&'static str, &'static str)],
    body: EnvBodyKind,
    rule: RuleShape,
)
    ensures
        final(category)@ == (CategoryView {
            environments: old(category)@.environments + env_family(names@, args@, body, rule),
            ..old(category)@
        }),
{
    let ghost start = category@;
    let ghost defs = env_family(names@, args@, body, rule);
    let mut i: usize = 0;
    while i < names.len()
        invariant
            defs == env_family(names@, args@, body, rule),
            i <= names@.len(),
            category@ == (CategoryView { environments: start.environments + defs.take(i as int), ..start }),
        decreases names@.len() - i,
    {
        category.add_env(shaped_env(names[i], args, body, rule));
        assert(defs.take(i + 1) =~= defs.take(i as int).push(defs[i as int]));
        assert(start.environments + defs.take(i + 1) =~= (start.environments + defs.take(i as int)).push(
            defs[i as int],
        ));
        i = i + 1;
    }
    assert(defs.take(names@.len() as int) =~= defs);
}


/// One environment per (name, handler) pair, each with the given arguments and body,
/// rendered by its own handler.
pub open spec fn env_table(
    entries: Seq<(&'static str, &'static str)>,
    args: Seq<(&'static str, &'static str)>,
    body: EnvBodyKind,
) -> Seq<EnvDefView> {
    entries.map_values(|e: (&'static str, &'static str)| env_shape(e.0@, args, body, RuleShape::Handler(e.1)))
}

/// Add one environment per (name, handler) pair.
pub fn add_env_table(
    category: &mut Category,
    entries: &[(&'static str, &'static str)],
    args: &[(&'static str, &'static str)],
    body: EnvBodyKind,
)
    ensures
        final(category)@ == (CategoryView {
            environments: old(category)@.environments + env_table(entries@, args@, body),
            ..old(category)@
        }),
{
    let ghost start = category@;
    let ghost defs = env_table(entries@, args@, body);
    let mut i: usize = 0;
    while i < entries.len()
        invariant
            defs == env_table(entries@, args@, body),
            i <= entries@.len(),
            category@ == (CategoryView { environments: start.environments + defs.take(i as int), ..start }),
        decreases entries@.len() - i,
    {
        let (name, handler) = entries[i];
        category.add_env(shaped_env(name, args, body, RuleShape::Handler(handler)));
        assert(defs.take(i + 1) =~= defs.take(i as int).push(defs[i as int]));
        assert(start.environments + defs.take(i + 1) =~= (start.environments + defs.take(i as int)).push(
            defs[i as int],
        ));
        i = i + 1;
    }
    assert(defs.take(entries@.len() as int) =~= defs);
}


/// One macro per (name, handler) pair, each with the given arguments, rendered by its
/// own handler.
pub open spec fn macro_table(entries: Seq<(&'static str, &'static str)>, args: Seq<(&'static str, &'static str)>) -> Seq<MacroDefView> {
    entries.map_values(|e: (&'static str, &'static str)| macro_shape(e.0@, args, RuleShape::Handler(e.1)))
}

/// Add one macro per (name, handler) pair.
pub fn add_macro_table(category: &mut Category, entries: &[(&'static str, &'static str)], args: &[(&'static str, &'static str)])
    ensures
        final(category)@ == (CategoryView { macros: old(category)@.macros + macro_table(entries@, args@), ..old(category)@ }),
{
    let ghost start = category@;
    let ghost defs = macro_table(entries@, args@);
    let mut i: usize = 0;
    while i < entries.len()
        invariant
            defs == macro_table(entries@, args@),
            i <= entries@.len(),
            category@ == (CategoryView { macros: start.macros + defs.take(i as int), ..start }),
        decreases entries@.len() - i,
    {
        let (name, handler) = entries[i];
        category.add_macro(shaped_macro(name, args, RuleShape::Handler(handler)));
        assert(defs.take(i + 1) =~= defs.take(i as int).push(defs[i as int]));
        assert(start.macros + defs.take(i + 1) =~= (start.macros + defs.take(i as int)).push(defs[i as int]));
        i = i + 1;
    }
    assert(defs.take(entries@.len() as int) =~= defs);
}

// ------------------------------------------------------------------ sets

/// Categories in the order they were pushed; a later one shadows an earlier one.
pub struct DefinitionSet {
    categories: Vec<Category>,
}

pub open spec fn categories_view(categories: Seq<Category>) -> Seq<CategoryView> {
    categories.map_values(|c: Category| c@)
}

impl View for DefinitionSet {
    type V = Seq<CategoryView>;

    closed spec fn view(&self) -> Seq<CategoryView> {
        categories_view(self.categories@)
    }
}

impl DefinitionSet {
    /// A set with no categories.
    pub fn new() -> (set: DefinitionSet)
        ensures
            set@ == Seq::<CategoryView>::empty(),
    {
        let set = DefinitionSet { categories: Vec::new() };
        assert(set@ =~= Seq::<CategoryView>::empty());
        set
    }

    /// Push a category after those already in the set.
    pub fn push(&mut self, category: Category)
        ensures
            final(self)@ == old(self)@.push(category@),
    {
        let ghost before = self.categories@;
        self.categories.push(category);
        assert(categories_view(self.categories@) =~= categories_view(before).push(category@));
    }

    /// [`push`](Self::push), builder style.
    pub fn with(self, category: Category) -> (set: DefinitionSet)
        ensures
            set@ == self@.push(category@),
    {
        let mut set = self;
        set.push(category);
        set
    }

    /// The categories, in push order.
    pub fn categories(&self) -> (categories: &[Category])
        ensures
            categories_view(categories@) == self@,
    {
        self.categories.as_slice()
    }

    /// Every name the set defines, as the set resolves it.
    pub fn symbols(&self) -> (index: SymbolIndex)
        ensures
            crate::symbols::resolves(index@, crate::symbols::set_entries(self@)),
    {
        SymbolIndex::build(self)
    }
}

} // verus!
