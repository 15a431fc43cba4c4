//! The base category's tables that declare rather than compute: the classic text
//! symbols, and the text macros that are neither symbols nor structure.

use vstd::prelude::*;

use crate::def::{
    add_macro_family, macro_family, star_arg, ArgView, Category, CategoryView, EnvDefView, MacroDef, MacroDefView, RuleShape,
    RuleView, SpecialsDef, SpecialsDefView, TextRule,
};
use crate::convert::FootnoteStyle;
use crate::flow::{Flow, FlowItem, ItemView};
use crate::symbols::Mode;
use crate::text::{decimal_text, push_char, push_decimal};
use crate::template::{parse_template, Template, TemplateView};

verus! {

/// A macro with no arguments that renders as `replacement`.
pub open spec fn symbol_def(name: Seq<char>, replacement: Seq<char>) -> MacroDefView {
    MacroDefView { name, args: Seq::empty(), rule: Some(RuleView::Literal(replacement)), modes: None }
}

/// The classic text symbols, (name, replacement), in declaration order: letters no ASCII
/// keyboard has, punctuation and marks, characters that would otherwise have to be
/// escaped, the quotation marks and dashes the ligatures also produce, and the logos.
pub open spec fn text_symbol_table() -> Seq<(&'static str, &'static str)> {
    seq![
        ("l", "\u{142}"),
        ("L", "\u{141}"),
        ("o", "\u{f8}"),
        ("O", "\u{d8}"),
        ("i", "\u{131}"),
        ("j", "\u{237}"),
        ("ss", "\u{df}"),
        ("SS", "\u{1e9e}"),
        ("aa", "\u{e5}"),
        ("AA", "\u{c5}"),
        ("ae", "\u{e6}"),
        ("AE", "\u{c6}"),
        ("oe", "\u{153}"),
        ("OE", "\u{152}"),
        ("dh", "\u{f0}"),
        ("DH", "\u{d0}"),
        ("th", "\u{fe}"),
        ("TH", "\u{de}"),
        ("dj", "\u{111}"),
        ("DJ", "\u{110}"),
        ("ng", "\u{14b}"),
        ("NG", "\u{14a}"),
        ("dots", "\u{2026}"),
        ("ldots", "\u{2026}"),
        ("textellipsis", "\u{2026}"),
        ("S", "\u{a7}"),
        ("P", "\u{b6}"),
        ("dag", "\u{2020}"),
        ("ddag", "\u{2021}"),
        ("textdagger", "\u{2020}"),
        ("textdaggerdbl", "\u{2021}"),
        ("copyright", "\u{a9}"),
        ("textcopyright", "\u{a9}"),
        ("pounds", "\u{a3}"),
        ("textsterling", "\u{a3}"),
        ("texteuro", "\u{20ac}"),
        ("textdegree", "\u{b0}"),
        ("textregistered", "\u{ae}"),
        ("texttrademark", "\u{2122}"),
        ("textbullet", "\u{2022}"),
        ("textperiodcentered", "\u{b7}"),
        ("textbackslash", "\\"),
        ("textasciitilde", "~"),
        ("textasciicircum", "^"),
        ("textbar", "|"),
        ("textless", "<"),
        ("textgreater", ">"),
        ("textunderscore", "_"),
        ("textbraceleft", "{"),
        ("textbraceright", "}"),
        ("textquoteleft", "\u{2018}"),
        ("textquoteright", "\u{2019}"),
        ("textquotedblleft", "\u{201c}"),
        ("textquotedblright", "\u{201d}"),
        ("textendash", "\u{2013}"),
        ("textemdash", "\u{2014}"),
        ("guillemotleft", "\u{ab}"),
        ("guillemotright", "\u{bb}"),
        ("TeX", "TeX"),
        ("LaTeX", "LaTeX"),
        ("LaTeXe", "LaTeX2e")
    ]
}

/// The definitions the text-symbol table declares.
pub open spec fn text_symbol_defs() -> Seq<MacroDefView> {
    text_symbol_table().map_values(|p: (&'static str, &'static str)| symbol_def(p.0@, p.1@))
}

/// Add the classic text symbols to `category`, after what it already declares.
pub fn text_symbols(category: &mut Category)
    ensures
        final(category)@ == (CategoryView { macros: old(category)@.macros + text_symbol_defs(), ..old(category)@ }),
{
    let table: [(&str, &str); 61] = [
        ("l", "\u{142}"),
        ("L", "\u{141}"),
        ("o", "\u{f8}"),
        ("O", "\u{d8}"),
        ("i", "\u{131}"),
        ("j", "\u{237}"),
        ("ss", "\u{df}"),
        ("SS", "\u{1e9e}"),
        ("aa", "\u{e5}"),
        ("AA", "\u{c5}"),
        ("ae", "\u{e6}"),
        ("AE", "\u{c6}"),
        ("oe", "\u{153}"),
        ("OE", "\u{152}"),
        ("dh", "\u{f0}"),
        ("DH", "\u{d0}"),
        ("th", "\u{fe}"),
        ("TH", "\u{de}"),
        ("dj", "\u{111}"),
        ("DJ", "\u{110}"),
        ("ng", "\u{14b}"),
        ("NG", "\u{14a}"),
        ("dots", "\u{2026}"),
        ("ldots", "\u{2026}"),
        ("textellipsis", "\u{2026}"),
        ("S", "\u{a7}"),
        ("P", "\u{b6}"),
        ("dag", "\u{2020}"),
        ("ddag", "\u{2021}"),
        ("textdagger", "\u{2020}"),
        ("textdaggerdbl", "\u{2021}"),
        ("copyright", "\u{a9}"),
        ("textcopyright", "\u{a9}"),
        ("pounds", "\u{a3}"),
        ("textsterling", "\u{a3}"),
        ("texteuro", "\u{20ac}"),
        ("textdegree", "\u{b0}"),
        ("textregistered", "\u{ae}"),
        ("texttrademark", "\u{2122}"),
        ("textbullet", "\u{2022}"),
        ("textperiodcentered", "\u{b7}"),
        ("textbackslash", "\\"),
        ("textasciitilde", "~"),
        ("textasciicircum", "^"),
        ("textbar", "|"),
        ("textless", "<"),
        ("textgreater", ">"),
        ("textunderscore", "_"),
        ("textbraceleft", "{"),
        ("textbraceright", "}"),
        ("textquoteleft", "\u{2018}"),
        ("textquoteright", "\u{2019}"),
        ("textquotedblleft", "\u{201c}"),
        ("textquotedblright", "\u{201d}"),
        ("textendash", "\u{2013}"),
        ("textemdash", "\u{2014}"),
        ("guillemotleft", "\u{ab}"),
        ("guillemotright", "\u{bb}"),
        ("TeX", "TeX"),
        ("LaTeX", "LaTeX"),
        ("LaTeXe", "LaTeX2e")
    ];
    assert(table@ =~= text_symbol_table());
    let ghost start = category@;
    let ghost defs = text_symbol_defs();
    let mut i: usize = 0;
    while i < table.len()
        invariant
            table@ == text_symbol_table(),
            defs == text_symbol_defs(),
            i <= table@.len(),
            category@ == (CategoryView { macros: start.macros + defs.take(i as int), ..start }),
        decreases table@.len() - i,
    {
        let (name, replacement) = table[i];
        category.add_macro(MacroDef::symbol(name, replacement));
        assert(defs.take(i + 1) =~= defs.take(i as int).push(defs[i as int]));
        assert(start.macros + defs.take(i + 1) =~= (start.macros + defs.take(i as int)).push(defs[i as int]));
        i = i + 1;
    }
    assert(defs.take(table@.len() as int) =~= defs);
}

// ------------------------------------------------------------------ misc

/// How the macros of one family of [`misc`] are declared.
#[derive(Clone, Copy)]
pub enum Shape {
    /// One argument, `content`, and nothing rendered: space reserved but not filled.
    Reserved,
    /// No arguments, and a paragraph break: vertical space.
    VerticalSkip,
    /// No arguments, and nothing rendered: a declaration plain text has no use for.
    Declaration,
    /// One argument parsed with math left behind, rendered in text mode.
    LeavesMath,
    /// One argument, `content`, rendered without the decoration around it.
    Decoration,
}

/// The argument `m`, called `content`.
pub open spec fn content_arg() -> ArgView {
    ArgView { code: Some(seq!['m']), name: seq!['c', 'o', 'n', 't', 'e', 'n', 't'] }
}

/// The name of the handler that emits a paragraph break.
pub open spec fn paragraph_handler() -> Seq<char> {
    "emit paragraph break"@
}

/// The definition a family gives a name.
pub open spec fn shape_def(name: Seq<char>, shape: Shape) -> MacroDefView {
    match shape {
        Shape::Reserved => MacroDefView { name, args: seq![content_arg()], rule: Some(RuleView::Skip), modes: None },
        Shape::VerticalSkip => MacroDefView {
            name,
            args: Seq::empty(),
            rule: Some(RuleView::Handler(paragraph_handler())),
            modes: None,
        },
        Shape::Declaration => MacroDefView { name, args: Seq::empty(), rule: Some(RuleView::Skip), modes: None },
        Shape::LeavesMath => MacroDefView {
            name,
            args: seq![ArgView { code: None, name: "text"@ }],
            rule: Some(RuleView::Handler("mode shift to text"@)),
            modes: None,
        },
        Shape::Decoration => MacroDefView { name, args: seq![content_arg()], rule: Some(RuleView::Content), modes: None },
    }
}

/// The definitions a family gives its names, in order.
pub open spec fn family(names: Seq<&'static str>, shape: Shape) -> Seq<MacroDefView> {
    names.map_values(|n: &'static str| shape_def(n@, shape))
}

/// A macro of the given family.
fn shaped(name: &str, shape: Shape) -> (d: MacroDef)
    ensures
        d@ == shape_def(name@, shape),
{
    proof {
        reveal_strlit("m");
        reveal_strlit("content");
        assert("m"@ =~= seq!['m']);
        assert("content"@ =~= seq!['c', 'o', 'n', 't', 'e', 'n', 't']);
    }
    match shape {
        Shape::Reserved => MacroDef::new(name).arg("m", "content").rule(TextRule::Skip),
        Shape::VerticalSkip => MacroDef::new(name).rule(TextRule::Handler("emit paragraph break".to_owned())),
        Shape::Declaration => MacroDef::new(name).rule(TextRule::Skip),
        Shape::LeavesMath => MacroDef::new(name).arg_spec("text").rule(
            TextRule::Handler("mode shift to text".to_owned()),
        ),
        Shape::Decoration => MacroDef::new(name).arg("m", "content").rule(TextRule::Content),
    }
}

/// Add one family's macros, in order.
fn add_family(category: &mut Category, names: &[&'static str], shape: Shape)
    ensures
        final(category)@ == (CategoryView { macros: old(category)@.macros + family(names@, shape), ..old(category)@ }),
{
    let ghost start = category@;
    let ghost defs = family(names@, shape);
    let mut i: usize = 0;
    while i < names.len()
        invariant
            defs == family(names@, shape),
            i <= names@.len(),
            category@ == (CategoryView { macros: start.macros + defs.take(i as int), ..start }),
        decreases names@.len() - i,
    {
        category.add_macro(shaped(names[i], shape));
        assert(defs.take(i + 1) =~= defs.take(i as int).push(defs[i as int]));
        assert(start.macros + defs.take(i + 1) =~= (start.macros + defs.take(i as int)).push(defs[i as int]));
        i = i + 1;
    }
    assert(defs.take(names@.len() as int) =~= defs);
}

pub open spec fn phantom_names() -> Seq<&'static str> {
    seq!["phantom", "hphantom", "vphantom"]
}

pub open spec fn skip_names() -> Seq<&'static str> {
    seq!["smallskip", "medskip", "bigskip"]
}

pub open spec fn declaration_names() -> Seq<&'static str> {
    seq!["noindent", "centering", "raggedright", "raggedleft"]
}

pub open spec fn mode_text_names() -> Seq<&'static str> {
    seq!["text", "mbox"]
}

pub open spec fn decoration_names() -> Seq<&'static str> {
    seq!["overline", "underline", "widehat", "widetilde", "wideparen", "overleftarrow", "overrightarrow", "overleftrightarrow", "underleftarrow", "underrightarrow", "underleftrightarrow", "overbrace", "underbrace", "overgroup", "undergroup", "overbracket", "underbracket", "overlinesegment", "underlinesegment", "overleftharpoon", "overrightharpoon"]
}

/// `\texorpdfstring{tex}{pdf}`: the TeX form.
pub open spec fn texorpdfstring_def() -> MacroDefView {
    MacroDefView {
        name: "texorpdfstring"@,
        args: seq![ArgView { code: Some("m"@), name: "tex"@ }, ArgView { code: Some("m"@), name: "pdf"@ }],
        rule: Some(RuleView::Template(TemplateView { source: "{tex}"@, parsed: parse_template("{tex}"@) })),
        modes: None,
    }
}

/// `\hspace`: the length is parsed and dropped; `\vspace` is a paragraph break.
pub open spec fn space_def(name: Seq<char>, rule: RuleView) -> MacroDefView {
    MacroDefView {
        name,
        args: seq![star_arg(), ArgView { code: Some("m"@), name: "length"@ }],
        rule: Some(rule),
        modes: None,
    }
}

/// `\ensuremath{…}`: its argument parsed as math.
pub open spec fn ensuremath_def() -> MacroDefView {
    MacroDefView {
        name: "ensuremath"@,
        args: seq![ArgView { code: None, name: "content"@ }],
        rule: Some(RuleView::Handler("mode shift to math"@)),
        modes: None,
    }
}

/// The misc macros, in declaration order.
pub open spec fn misc_defs() -> Seq<MacroDefView> {
    seq![texorpdfstring_def()] + family(phantom_names(), Shape::Reserved) + seq![
        space_def("hspace"@, RuleView::Skip),
        space_def("vspace"@, RuleView::Handler(paragraph_handler())),
    ] + family(skip_names(), Shape::VerticalSkip) + family(declaration_names(), Shape::Declaration) + family(
        mode_text_names(),
        Shape::LeavesMath,
    ) + seq![ensuremath_def()] + family(decoration_names(), Shape::Decoration)
}

/// Add the text macros that are neither symbols nor structure to `category`: the TeX
/// form of `\texorpdfstring`; reserved space and spacing declarations, dropped; vertical
/// space as a paragraph break; `\text`, `\mbox` and `\ensuremath`, which change the mode
/// and nothing else; and the decorations drawn over or under an expression, which plain
/// text cannot show — dropping the decoration is far better than dropping what it
/// decorates.
pub fn misc(category: &mut Category)
    ensures
        final(category)@ == (CategoryView { macros: old(category)@.macros + misc_defs(), ..old(category)@ }),
{
    let ghost start = category@;
    proof {
        reveal_strlit("m");
        reveal_strlit("length");
        reveal_strlit("s");
        reveal_strlit("star");
    }
    let texorpdfstring = MacroDef::new("texorpdfstring").arg("m", "tex").arg("m", "pdf").rule(
        TextRule::Template(Template::new("{tex}")),
    );
    assert(texorpdfstring@.args =~= texorpdfstring_def().args);
    assert(texorpdfstring@ == texorpdfstring_def());
    category.add_macro(texorpdfstring);
    let ghost m1 = category@.macros;
    let phantoms: [&'static str; 3] = ["phantom", "hphantom", "vphantom"];
    assert(phantoms@ =~= phantom_names());
    add_family(category, &phantoms, Shape::Reserved);
    let ghost m2 = category@.macros;
    let hspace = MacroDef::new("hspace").star().arg("m", "length").rule(TextRule::Skip);
    assert(hspace@.args =~= space_def("hspace"@, RuleView::Skip).args);
    assert(hspace@ == space_def("hspace"@, RuleView::Skip));
    category.add_macro(hspace);
    let vspace = MacroDef::new("vspace").star().arg("m", "length").rule(
        TextRule::Handler("emit paragraph break".to_owned()),
    );
    assert(vspace@.args =~= space_def("vspace"@, RuleView::Handler(paragraph_handler())).args);
    assert(vspace@ == space_def("vspace"@, RuleView::Handler(paragraph_handler())));
    category.add_macro(vspace);
    let ghost m3 = category@.macros;
    let skips: [&'static str; 3] = ["smallskip", "medskip", "bigskip"];
    assert(skips@ =~= skip_names());
    add_family(category, &skips, Shape::VerticalSkip);
    let ghost m4 = category@.macros;
    let declarations: [&'static str; 4] = ["noindent", "centering", "raggedright", "raggedleft"];
    assert(declarations@ =~= declaration_names());
    add_family(category, &declarations, Shape::Declaration);
    let ghost m5 = category@.macros;
    let mode_text: [&'static str; 2] = ["text", "mbox"];
    assert(mode_text@ =~= mode_text_names());
    add_family(category, &mode_text, Shape::LeavesMath);
    let ghost m6 = category@.macros;
    let ensuremath = MacroDef::new("ensuremath").arg_spec("content").rule(
        TextRule::Handler("mode shift to math".to_owned()),
    );
    assert(ensuremath@.args =~= ensuremath_def().args);
    assert(ensuremath@ == ensuremath_def());
    category.add_macro(ensuremath);
    let ghost m7 = category@.macros;
    let decorations: [&'static str; 21] = ["overline", "underline", "widehat", "widetilde", "wideparen", "overleftarrow", "overrightarrow", "overleftrightarrow", "underleftarrow", "underrightarrow", "underleftrightarrow", "overbrace", "underbrace", "overgroup", "undergroup", "overbracket", "underbracket", "overlinesegment", "underlinesegment", "overleftharpoon", "overrightharpoon"];
    assert(decorations@ =~= decoration_names());
    add_family(category, &decorations, Shape::Decoration);
    proof {
        assert(m1 =~= start.macros + seq![texorpdfstring_def()]);
        assert(m2 =~= m1 + family(phantom_names(), Shape::Reserved));
        assert(m3 =~= m2 + seq![
            space_def("hspace"@, RuleView::Skip),
            space_def("vspace"@, RuleView::Handler(paragraph_handler())),
        ]);
        assert(m7 =~= m6 + seq![ensuremath_def()]);
        assert(category@.macros =~= start.macros + misc_defs());
    }
}

// ------------------------------------------------------------------ the category

/// Symbols from a (name, replacement) table.
pub open spec fn symbol_defs(table: Seq<(&'static str, &'static str)>) -> Seq<MacroDefView> {
    table.map_values(|p: (&'static str, &'static str)| symbol_def(p.0@, p.1@))
}

/// Add a symbol per (name, replacement) pair.
pub(crate) fn add_symbols(category: &mut Category, table: &[(&'static str, &'static str)])
    ensures
        final(category)@ == (CategoryView { macros: old(category)@.macros + symbol_defs(table@), ..old(category)@ }),
{
    let ghost start = category@;
    let ghost defs = symbol_defs(table@);
    let mut i: usize = 0;
    while i < table.len()
        invariant
            defs == symbol_defs(table@),
            i <= table@.len(),
            category@ == (CategoryView { macros: start.macros + defs.take(i as int), ..start }),
        decreases table@.len() - i,
    {
        let (name, replacement) = table[i];
        category.add_macro(MacroDef::symbol(name, replacement));
        assert(defs.take(i + 1) =~= defs.take(i as int).push(defs[i as int]));
        assert(start.macros + defs.take(i + 1) =~= (start.macros + defs.take(i as int)).push(defs[i as int]));
        i = i + 1;
    }
    assert(defs.take(table@.len() as int) =~= defs);
}

/// The characters a backslash escapes, each rendering as itself.
pub open spec fn escape_table() -> Seq<(&'static str, &'static str)> {
    seq![("{", "{"), ("}", "}"), ("$", "$"), ("&", "&"), ("#", "#"), ("_", "_"), ("%", "%")]
}

/// The spacing macros: the small spaces and the control space as one space, `\!` as
/// nothing, `\quad` and `\qquad` as one and two em spaces.
pub open spec fn spacing_macros() -> Seq<MacroDefView> {
    macro_family(seq![",", ";", ":", " ", "\n"], Seq::empty(), RuleShape::Literal(" ")) + macro_family(
        seq!["!"],
        Seq::empty(),
        RuleShape::Skip,
    ) + macro_family(seq!["quad"], Seq::empty(), RuleShape::Handler("fixed text: one em space")) + macro_family(
        seq!["qquad"],
        Seq::empty(),
        RuleShape::Handler("fixed text: two em spaces"),
    )
}

/// The break macros: `\par`, `\newline`, `\\*[length]` and `\hline`.
pub open spec fn break_macros() -> Seq<MacroDefView> {
    seq![
        MacroDefView { name: "par"@, args: Seq::empty(), rule: Some(RuleView::Handler("emit paragraph break"@)), modes: None },
        MacroDefView { name: "newline"@, args: Seq::empty(), rule: Some(RuleView::Handler("emit hard break"@)), modes: None },
        MacroDefView {
            name: "\\"@,
            args: seq![star_arg(), ArgView { code: None, name: "length"@ }],
            rule: Some(RuleView::Handler("line break"@)),
            modes: None,
        },
        MacroDefView { name: "hline"@, args: Seq::empty(), rule: Some(RuleView::Handler("horizontal rule"@)), modes: None },
    ]
}

/// `\footnote[mark]{note}`.
pub open spec fn footnote_def() -> MacroDefView {
    MacroDefView {
        name: "footnote"@,
        args: seq![ArgView { code: Some("o"@), name: "mark"@ }, ArgView { code: Some("m"@), name: "note"@ }],
        rule: Some(RuleView::Handler("footnote"@)),
        modes: None,
    }
}

/// The ligatures, (trigger, replacement): quotation marks and dashes, in text mode only.
pub open spec fn ligature_table() -> Seq<(&'static str, &'static str)> {
    seq![
        ("``", "\u{201c}"), ("''", "\u{201d}"), ("`", "\u{2018}"), ("'", "\u{2019}"), ("---", "\u{2014}"), ("--", "\u{2013}"),
        ("!`", "\u{a1}"), ("?`", "\u{bf}"),
    ]
}

/// A specials with no arguments rendered by `rule`, in the given modes.
pub open spec fn specials_def(chars: Seq<char>, rule: RuleView, modes: Option<Seq<Mode>>) -> SpecialsDefView {
    SpecialsDefView { chars, args: Seq::empty(), rule: Some(rule), modes }
}

/// The specials of the base category: `~` as a no-break space, `&` as a column
/// separator, then the ligatures.
pub open spec fn base_specials() -> Seq<SpecialsDefView> {
    seq![
        specials_def("~"@, RuleView::Handler("fixed text: no-break space"@), None),
        specials_def("&"@, RuleView::Handler("alignment"@), None),
    ] + ligature_table().map_values(
        |p: (&'static str, &'static str)| specials_def(p.0@, RuleView::Literal(p.1@), Some(seq![Mode::Text])),
    )
}

/// The macros of the base category, in declaration order.
pub open spec fn base_macros() -> Seq<MacroDefView> {
    symbol_defs(escape_table()) + spacing_macros() + break_macros() + seq![footnote_def()] + misc_defs()
        + text_symbol_defs()
}

/// Add the ligatures: each trigger, in text mode only, renders as its replacement.
fn ligatures(category: &mut Category)
    ensures
        final(category)@ == (CategoryView {
            specials: old(category)@.specials + ligature_table().map_values(
                |p: (&'static str, &'static str)| specials_def(p.0@, RuleView::Literal(p.1@), Some(seq![Mode::Text])),
            ),
            ..old(category)@
        }),
{
    let table: [(&'static str, &'static str); 8] = [
        ("``", "\u{201c}"), ("''", "\u{201d}"), ("`", "\u{2018}"), ("'", "\u{2019}"), ("---", "\u{2014}"), ("--", "\u{2013}"),
        ("!`", "\u{a1}"), ("?`", "\u{bf}"),
    ];
    assert(table@ =~= ligature_table());
    let ghost start = category@;
    let ghost defs = ligature_table().map_values(
        |p: (&'static str, &'static str)| specials_def(p.0@, RuleView::Literal(p.1@), Some(seq![Mode::Text])),
    );
    let mut i: usize = 0;
    while i < table.len()
        invariant
            table@ == ligature_table(),
            defs == ligature_table().map_values(
                |p: (&'static str, &'static str)| specials_def(p.0@, RuleView::Literal(p.1@), Some(seq![Mode::Text])),
            ),
            i <= table@.len(),
            category@ == (CategoryView { specials: start.specials + defs.take(i as int), ..start }),
        decreases table@.len() - i,
    {
        let (trigger, replacement) = table[i];
        let d = SpecialsDef::new(trigger).text_mode_only().rule(TextRule::Literal(replacement.to_owned()));
        assert(d@ == defs[i as int]);
        category.add_specials(d);
        assert(defs.take(i + 1) =~= defs.take(i as int).push(defs[i as int]));
        assert(start.specials + defs.take(i + 1) =~= (start.specials + defs.take(i as int)).push(defs[i as int]));
        i = i + 1;
    }
    assert(defs.take(table@.len() as int) =~= defs);
}

/// The category [`category`] builds.
pub open spec fn category_view() -> CategoryView {
    CategoryView {
        name: "base"@,
        macros: base_macros(),
        environments: Seq::<EnvDefView>::empty(),
        specials: base_specials(),
    }
}

/// The base category: escaped characters, spacing, breaks, the ligatures, footnotes, the
/// misc macros and the text symbols.
pub fn category() -> (c: Category)
    ensures
        c@ == category_view(),
{
    let mut category = Category::new("base");
    let ghost start = category@;
    // escapes
    let escapes: [(&'static str, &'static str); 7] = [("{", "{"), ("}", "}"), ("$", "$"), ("&", "&"), ("#", "#"), ("_", "_"), ("%", "%")];
    assert(escapes@ =~= escape_table());
    add_symbols(&mut category, &escapes);
    let ghost m1 = category@.macros;
    // spacing
    let none: [(&'static str, &'static str); 0] = [];
    assert(none@ =~= Seq::<(&'static str, &'static str)>::empty());
    let small: [&'static str; 5] = [",", ";", ":", " ", "\n"];
    assert(small@ =~= seq![",", ";", ":", " ", "\n"]);
    add_macro_family(&mut category, &small, &none, RuleShape::Literal(" "));
    let ghost s1 = category@.macros;
    let negative: [&'static str; 1] = ["!"];
    assert(negative@ =~= seq!["!"]);
    add_macro_family(&mut category, &negative, &none, RuleShape::Skip);
    let ghost s2 = category@.macros;
    let quad: [&'static str; 1] = ["quad"];
    assert(quad@ =~= seq!["quad"]);
    add_macro_family(&mut category, &quad, &none, RuleShape::Handler("fixed text: one em space"));
    let ghost s3 = category@.macros;
    let qquad: [&'static str; 1] = ["qquad"];
    assert(qquad@ =~= seq!["qquad"]);
    add_macro_family(&mut category, &qquad, &none, RuleShape::Handler("fixed text: two em spaces"));
    let ghost m2 = category@.macros;
    let tilde = SpecialsDef::new("~").rule(TextRule::Handler("fixed text: no-break space".to_owned()));
    category.add_specials(tilde);
    // breaks
    category.add_macro(MacroDef::new("par").rule(TextRule::Handler("emit paragraph break".to_owned())));
    category.add_macro(MacroDef::new("newline").rule(TextRule::Handler("emit hard break".to_owned())));
    let line_break = MacroDef::new("\\").star().arg_spec("length").rule(TextRule::Handler("line break".to_owned()));
    assert(line_break@.args =~= break_macros()[2].args);
    category.add_macro(line_break);
    category.add_specials(SpecialsDef::new("&").rule(TextRule::Handler("alignment".to_owned())));
    category.add_macro(MacroDef::new("hline").rule(TextRule::Handler("horizontal rule".to_owned())));
    let ghost m3 = category@.macros;
    let ghost sp1 = category@.specials;
    ligatures(&mut category);
    // footnotes
    let footnote = MacroDef::new("footnote").arg("o", "mark").arg("m", "note").rule(TextRule::Handler("footnote".to_owned()));
    assert(footnote@.args =~= footnote_def().args);
    category.add_macro(footnote);
    let ghost m4 = category@.macros;
    misc(&mut category);
    let ghost m5 = category@.macros;
    text_symbols(&mut category);
    proof {
        assert(start.macros =~= Seq::<MacroDefView>::empty());
        assert(start.specials =~= Seq::<SpecialsDefView>::empty());
        assert(m2 =~= m1 + spacing_macros());
        assert(m3 =~= m2 + break_macros());
        assert(m4 =~= m3 + seq![footnote_def()]);
        assert(sp1 =~= seq![
            specials_def("~"@, RuleView::Handler("fixed text: no-break space"@), None),
            specials_def("&"@, RuleView::Handler("alignment"@), None),
        ]);
        assert(category@.specials =~= base_specials());
        assert(category@.macros =~= base_macros());
    }
    category
}

// ------------------------------------------------------------------ context-dependent constructs

/// The formula a construct stands in, if any: display or inline, and whether it is a
/// matrix body, whose rows and cells are separated like a table's.
#[derive(Clone, Copy, Debug, PartialEq, Eq, Structural)]
pub struct MathCtx {
    /// A display formula rather than an inline one.
    pub display: bool,
    /// Inside a matrix body.
    pub matrix: bool,
}

/// What `\\` means where it stands: a row separator in a table body or a matrix, a new
/// line in a display formula, a space in an inline one, and a forced line break in
/// running text.
pub open spec fn line_break_item(in_table: bool, math: Option<MathCtx>) -> ItemView {
    if in_table {
        ItemView::RowSep
    } else {
        match math {
            Some(m) => if m.matrix {
                ItemView::RowSep
            } else if m.display {
                ItemView::HardBreak
            } else {
                ItemView::Glue
            },
            None => ItemView::HardBreak,
        }
    }
}

/// What `\\` renders as where it stands. Its optional length is parsed and ignored:
/// plain text has no vertical measure.
pub fn line_break(in_table: bool, math: Option<MathCtx>) -> (flow: Flow)
    ensures
        flow@ == seq![line_break_item(in_table, math)],
{
    let item = if in_table {
        FlowItem::RowSep
    } else {
        match math {
            Some(m) => if m.matrix {
                FlowItem::RowSep
            } else if m.display {
                FlowItem::HardBreak
            } else {
                FlowItem::Glue
            },
            None => FlowItem::HardBreak,
        }
    };
    let mut flow = Flow::new();
    flow.push(item);
    flow
}

/// What `&` renders as where it stands, and whether it is misplaced: a cell separator
/// where there are cells, nothing in a formula without them (the joiner spaces what it
/// aligned), and in running text a space — the words on either side were meant to be
/// apart — that is reported as a mistake.
pub fn alignment(in_table: bool, math: Option<MathCtx>) -> (r: (Flow, bool))
    ensures
        r.0@ == (if in_table || (math matches Some(m) && m.matrix) {
            seq![ItemView::CellSep]
        } else if math is Some {
            Seq::<ItemView>::empty()
        } else {
            seq![ItemView::Glue]
        }),
        r.1 == (!in_table && math is None),
{
    let mut flow = Flow::new();
    let misplaced = if in_table {
        flow.push(FlowItem::CellSep);
        false
    } else {
        match math {
            Some(m) => {
                if m.matrix {
                    flow.push(FlowItem::CellSep);
                }
                false
            },
            None => {
                flow.push(FlowItem::Glue);
                true
            },
        }
    };
    (flow, misplaced)
}

/// What `\hline` renders as, and whether it is ignored: a rule marker inside a table,
/// and nothing — reported — anywhere else.
pub fn horizontal_rule(in_table: bool) -> (r: (Flow, bool))
    ensures
        r.0@ == (if in_table { seq![ItemView::RuleMark] } else { Seq::<ItemView>::empty() }),
        r.1 == !in_table,
{
    let mut flow = Flow::new();
    if in_table {
        flow.push(FlowItem::RuleMark);
    }
    (flow, !in_table)
}

/// A footnote's marker: its number in brackets.
pub open spec fn footnote_marker(number: nat) -> Seq<char> {
    seq!['['] + decimal_text(number) + seq![']']
}

/// What `\footnote{note}` renders as, given its rendered note. Collected, the note joins
/// `notes` and the marker, numbered in document order from 1, goes where the note was
/// written, as one text item that glues to the word it annotates (`Fact[1] holds.`);
/// inline, the note itself stands there in brackets; skipped, nothing is rendered and
/// nothing collected.
pub fn footnote(style: FootnoteStyle, note: Flow, notes: &mut Vec<Flow>) -> (flow: Flow)
    requires
        style == FootnoteStyle::Collected ==> old(notes)@.len() < u64::MAX,
    ensures
        match style {
            FootnoteStyle::Collected => {
                &&& final(notes)@ == old(notes)@.push(note)
                &&& flow@ == seq![ItemView::Text(footnote_marker(old(notes)@.len() + 1))]
            },
            FootnoteStyle::Inline => {
                &&& final(notes)@ == old(notes)@
                &&& flow@ == seq![ItemView::Text(seq!['['])] + note@ + seq![ItemView::Text(seq![']'])]
            },
            FootnoteStyle::Skip => {
                &&& final(notes)@ == old(notes)@
                &&& flow@ == Seq::<ItemView>::empty()
            },
        },
{
    match style {
        FootnoteStyle::Collected => {
            let number = notes.len() as u64 + 1;
            notes.push(note);
            let mut marker = String::new();
            push_char(&mut marker, '[');
            push_decimal(&mut marker, number);
            push_char(&mut marker, ']');
            assert(marker@ =~= footnote_marker(number as nat));
            let mut flow = Flow::new();
            flow.push(FlowItem::Text(marker));
            flow
        },
        FootnoteStyle::Inline => {
            let ghost inner = note@;
            let mut open = String::new();
            push_char(&mut open, '[');
            let mut close = String::new();
            push_char(&mut close, ']');
            let mut flow = Flow::new();
            flow.push(FlowItem::Text(open));
            flow.extend(note);
            flow.push(FlowItem::Text(close));
            assert(flow@ =~= seq![ItemView::Text(seq!['['])] + inner + seq![ItemView::Text(seq![']'])]);
            flow
        },
        FootnoteStyle::Skip => Flow::new(),
    }
}

} // verus!
