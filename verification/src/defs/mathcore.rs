//! Spelling helpers for the mathematical symbol tables.

use vstd::prelude::*;

use crate::def::{
    add_macro_family, add_macro_table, macro_family, macro_shape, macro_table, shaped_macro, star_arg,
    ArgView, Category, CategoryView, EnvDefView, MacroDef, MacroDefView, RuleShape, RuleView, SpecialsDefView, TextRule,
};
use crate::template::{parse_template, Template, TemplateView};
use crate::defs::base::{add_symbols, symbol_defs};
use crate::text::chars_of;

verus! {

/// The upper-case mapping of a character, which may be several characters long
/// (`char::to_uppercase`, the Unicode full case mapping).
pub uninterp spec fn uppercase_of(c: char) -> Seq<char>;

/// The upper-case form of `c`, appended (`char::to_uppercase`).
///
/// The standard library documents the mapping as Unicode's full upper-case mapping,
/// which is a function of the character alone; the contract names that result.
#[verifier::external_body]
fn push_uppercase_of(out: &mut String, c: char)
    ensures
        final(out)@ == old(out)@ + uppercase_of(c),
{
    out.extend(c.to_uppercase())
}

/// `name` with its first character in upper case.
pub open spec fn capitalized_text(name: Seq<char>) -> Seq<char> {
    if name.len() == 0 {
        Seq::empty()
    } else {
        uppercase_of(name[0]) + name.drop_first()
    }
}

/// `name` with its first character in upper case, which is how LaTeX spells the capital
/// of a Greek letter (`alpha` → `Alpha`).
pub fn capitalized(name: &str) -> (text: String)
    ensures
        text@ == capitalized_text(name@),
{
    let chars = chars_of(name);
    let mut out = String::new();
    if chars.len() == 0 {
        return out;
    }
    push_uppercase_of(&mut out, chars[0]);
    let mut i: usize = 1;
    while i < chars.len()
        invariant
            1 <= i <= chars@.len(),
            chars@ == name@,
            out@ == uppercase_of(chars@[0]) + chars@.subrange(1, i as int),
        decreases chars@.len() - i,
    {
        crate::text::push_char(&mut out, chars[i]);
        assert(chars@.subrange(1, i + 1) =~= chars@.subrange(1, i as int).push(chars@[i as int]));
        i = i + 1;
    }
    assert(chars@.subrange(1, chars@.len() as int) =~= name@.drop_first());
    out
}

// ------------------------------------------------------------------ tables

/// The Greek letters, (name, character): each letter as `\alpha` and `\Alpha`, and as
/// the `\upalpha`/`\Upalpha` forms `upgreek` defines for the upright shape, which plain
/// text cannot tell from the ordinary one; then the variant letters, plain and upright.
/// `\epsilon` is the lunate epsilon and `\varepsilon` the ordinary one, `\phi` the phi
/// symbol and `\varphi` the ordinary phi — LaTeX's own pairing.
pub open spec fn greek_table() -> Seq<(&'static str, &'static str)> {
    seq![("alpha", "\u{3b1}"), ("Alpha", "\u{391}"), ("upalpha", "\u{3b1}"), ("Upalpha", "\u{391}"), ("beta", "\u{3b2}"), ("Beta", "\u{392}"), ("upbeta", "\u{3b2}"), ("Upbeta", "\u{392}"), ("gamma", "\u{3b3}"), ("Gamma", "\u{393}"), ("upgamma", "\u{3b3}"), ("Upgamma", "\u{393}"), ("delta", "\u{3b4}"), ("Delta", "\u{394}"), ("updelta", "\u{3b4}"), ("Updelta", "\u{394}"), ("epsilon", "\u{3f5}"), ("Epsilon", "\u{395}"), ("upepsilon", "\u{3f5}"), ("Upepsilon", "\u{395}"), ("zeta", "\u{3b6}"), ("Zeta", "\u{396}"), ("upzeta", "\u{3b6}"), ("Upzeta", "\u{396}"), ("eta", "\u{3b7}"), ("Eta", "\u{397}"), ("upeta", "\u{3b7}"), ("Upeta", "\u{397}"), ("theta", "\u{3b8}"), ("Theta", "\u{398}"), ("uptheta", "\u{3b8}"), ("Uptheta", "\u{398}"), ("iota", "\u{3b9}"), ("Iota", "\u{399}"), ("upiota", "\u{3b9}"), ("Upiota", "\u{399}"), ("kappa", "\u{3ba}"), ("Kappa", "\u{39a}"), ("upkappa", "\u{3ba}"), ("Upkappa", "\u{39a}"), ("lambda", "\u{3bb}"), ("Lambda", "\u{39b}"), ("uplambda", "\u{3bb}"), ("Uplambda", "\u{39b}"), ("mu", "\u{3bc}"), ("Mu", "\u{39c}"), ("upmu", "\u{3bc}"), ("Upmu", "\u{39c}"), ("nu", "\u{3bd}"), ("Nu", "\u{39d}"), ("upnu", "\u{3bd}"), ("Upnu", "\u{39d}"), ("xi", "\u{3be}"), ("Xi", "\u{39e}"), ("upxi", "\u{3be}"), ("Upxi", "\u{39e}"), ("omicron", "\u{3bf}"), ("Omicron", "\u{39f}"), ("upomicron", "\u{3bf}"), ("Upomicron", "\u{39f}"), ("pi", "\u{3c0}"), ("Pi", "\u{3a0}"), ("uppi", "\u{3c0}"), ("Uppi", "\u{3a0}"), ("rho", "\u{3c1}"), ("Rho", "\u{3a1}"), ("uprho", "\u{3c1}"), ("Uprho", "\u{3a1}"), ("sigma", "\u{3c3}"), ("Sigma", "\u{3a3}"), ("upsigma", "\u{3c3}"), ("Upsigma", "\u{3a3}"), ("tau", "\u{3c4}"), ("Tau", "\u{3a4}"), ("uptau", "\u{3c4}"), ("Uptau", "\u{3a4}"), ("upsilon", "\u{3c5}"), ("Upsilon", "\u{3a5}"), ("upupsilon", "\u{3c5}"), ("Upupsilon", "\u{3a5}"), ("phi", "\u{3d5}"), ("Phi", "\u{3a6}"), ("upphi", "\u{3d5}"), ("Upphi", "\u{3a6}"), ("chi", "\u{3c7}"), ("Chi", "\u{3a7}"), ("upchi", "\u{3c7}"), ("Upchi", "\u{3a7}"), ("psi", "\u{3c8}"), ("Psi", "\u{3a8}"), ("uppsi", "\u{3c8}"), ("Uppsi", "\u{3a8}"), ("omega", "\u{3c9}"), ("Omega", "\u{3a9}"), ("upomega", "\u{3c9}"), ("Upomega", "\u{3a9}"), ("varepsilon", "\u{3b5}"), ("upvarepsilon", "\u{3b5}"), ("vartheta", "\u{3d1}"), ("upvartheta", "\u{3d1}"), ("varpi", "\u{3d6}"), ("upvarpi", "\u{3d6}"), ("varrho", "\u{3f1}"), ("upvarrho", "\u{3f1}"), ("varsigma", "\u{3c2}"), ("upvarsigma", "\u{3c2}"), ("varphi", "\u{3c6}"), ("upvarphi", "\u{3c6}")]
}

/// The curated math symbol table, (name, character).
pub open spec fn symbol_table() -> Seq<(&'static str, &'static str)> {
    seq![("pm", "\u{b1}"), ("mp", "\u{2213}"), ("times", "\u{d7}"), ("div", "\u{f7}"), ("cdot", "\u{b7}"), ("ast", "\u{2217}"), ("star", "\u{22c6}"), ("circ", "\u{2218}"), ("bullet", "\u{2219}"), ("diamond", "\u{22c4}"), ("cap", "\u{2229}"), ("cup", "\u{222a}"), ("sqcap", "\u{2293}"), ("sqcup", "\u{2294}"), ("vee", "\u{2228}"), ("lor", "\u{2228}"), ("wedge", "\u{2227}"), ("land", "\u{2227}"), ("setminus", "\u{2216}"), ("smallsetminus", "\u{2216}"), ("wr", "\u{2240}"), ("bigtriangleup", "\u{25b3}"), ("bigtriangledown", "\u{25bd}"), ("triangleleft", "\u{25c3}"), ("triangleright", "\u{25b9}"), ("oplus", "\u{2295}"), ("ominus", "\u{2296}"), ("otimes", "\u{2297}"), ("oslash", "\u{2298}"), ("odot", "\u{2299}"), ("dagger", "\u{2020}"), ("ddagger", "\u{2021}"), ("amalg", "\u{2a3f}"), ("uplus", "\u{228e}"), ("leq", "\u{2264}"), ("le", "\u{2264}"), ("geq", "\u{2265}"), ("ge", "\u{2265}"), ("neq", "\u{2260}"), ("ne", "\u{2260}"), ("equiv", "\u{2261}"), ("sim", "\u{223c}"), ("simeq", "\u{2243}"), ("asymp", "\u{224d}"), ("approx", "\u{2248}"), ("cong", "\u{2245}"), ("doteq", "\u{2250}"), ("propto", "\u{221d}"), ("models", "\u{22a8}"), ("prec", "\u{227a}"), ("succ", "\u{227b}"), ("preceq", "\u{227c}"), ("succeq", "\u{227d}"), ("ll", "\u{226a}"), ("gg", "\u{226b}"), ("subset", "\u{2282}"), ("supset", "\u{2283}"), ("subseteq", "\u{2286}"), ("supseteq", "\u{2287}"), ("sqsubset", "\u{228f}"), ("sqsupset", "\u{2290}"), ("sqsubseteq", "\u{2291}"), ("sqsupseteq", "\u{2292}"), ("in", "\u{2208}"), ("ni", "\u{220b}"), ("owns", "\u{220b}"), ("notin", "\u{2209}"), ("vdash", "\u{22a2}"), ("dashv", "\u{22a3}"), ("perp", "\u{22a5}"), ("mid", "\u{2223}"), ("parallel", "\u{2225}"), ("bowtie", "\u{22c8}"), ("smile", "\u{2323}"), ("frown", "\u{2322}"), ("subsetneq", "\u{228a}"), ("supsetneq", "\u{228b}"), ("nsubseteq", "\u{2288}"), ("nleq", "\u{2270}"), ("ngeq", "\u{2271}"), ("lesssim", "\u{2272}"), ("gtrsim", "\u{2273}"), ("colon", "\u{3a}"), ("sum", "\u{2211}"), ("prod", "\u{220f}"), ("coprod", "\u{2210}"), ("int", "\u{222b}"), ("iint", "\u{222c}"), ("iiint", "\u{222d}"), ("oint", "\u{222e}"), ("oiint", "\u{222f}"), ("bigcap", "\u{22c2}"), ("bigcup", "\u{22c3}"), ("bigsqcup", "\u{2a06}"), ("bigvee", "\u{22c1}"), ("bigwedge", "\u{22c0}"), ("bigoplus", "\u{2a01}"), ("bigotimes", "\u{2a02}"), ("bigodot", "\u{2a00}"), ("biguplus", "\u{2a04}"), ("to", "\u{2192}"), ("rightarrow", "\u{2192}"), ("gets", "\u{2190}"), ("leftarrow", "\u{2190}"), ("leftrightarrow", "\u{2194}"), ("Rightarrow", "\u{21d2}"), ("Leftarrow", "\u{21d0}"), ("Leftrightarrow", "\u{21d4}"), ("mapsto", "\u{21a6}"), ("longmapsto", "\u{27fc}"), ("longrightarrow", "\u{27f6}"), ("longleftarrow", "\u{27f5}"), ("longleftrightarrow", "\u{27f7}"), ("Longrightarrow", "\u{27f9}"), ("Longleftarrow", "\u{27f8}"), ("Longleftrightarrow", "\u{27fa}"), ("implies", "\u{27f9}"), ("impliedby", "\u{27f8}"), ("iff", "\u{27fa}"), ("uparrow", "\u{2191}"), ("downarrow", "\u{2193}"), ("updownarrow", "\u{2195}"), ("Uparrow", "\u{21d1}"), ("Downarrow", "\u{21d3}"), ("Updownarrow", "\u{21d5}"), ("nearrow", "\u{2197}"), ("searrow", "\u{2198}"), ("swarrow", "\u{2199}"), ("nwarrow", "\u{2196}"), ("hookleftarrow", "\u{21a9}"), ("hookrightarrow", "\u{21aa}"), ("rightharpoonup", "\u{21c0}"), ("rightharpoondown", "\u{21c1}"), ("leftharpoonup", "\u{21bc}"), ("leftharpoondown", "\u{21bd}"), ("rightleftharpoons", "\u{21cc}"), ("leadsto", "\u{21dd}"), ("infty", "\u{221e}"), ("partial", "\u{2202}"), ("nabla", "\u{2207}"), ("forall", "\u{2200}"), ("exists", "\u{2203}"), ("nexists", "\u{2204}"), ("neg", "\u{ac}"), ("lnot", "\u{ac}"), ("emptyset", "\u{2205}"), ("varnothing", "\u{2205}"), ("aleph", "\u{2135}"), ("hbar", "\u{210f}"), ("hslash", "\u{210f}"), ("ell", "\u{2113}"), ("Re", "\u{211c}"), ("Im", "\u{2111}"), ("wp", "\u{2118}"), ("prime", "\u{2032}"), ("angle", "\u{2220}"), ("measuredangle", "\u{2221}"), ("triangle", "\u{25b3}"), ("surd", "\u{221a}"), ("top", "\u{22a4}"), ("bot", "\u{22a5}"), ("flat", "\u{266d}"), ("natural", "\u{266e}"), ("sharp", "\u{266f}"), ("clubsuit", "\u{2663}"), ("diamondsuit", "\u{2662}"), ("heartsuit", "\u{2661}"), ("spadesuit", "\u{2660}"), ("imath", "\u{131}"), ("jmath", "\u{237}"), ("Box", "\u{25a1}"), ("square", "\u{25a1}"), ("Diamond", "\u{25ca}"), ("checkmark", "\u{2713}"), ("complement", "\u{2201}"), ("degree", "\u{b0}"), ("circledR", "\u{ae}"), ("therefore", "\u{2234}"), ("because", "\u{2235}"), ("cdots", "\u{22ef}"), ("vdots", "\u{22ee}"), ("ddots", "\u{22f1}"), ("langle", "\u{27e8}"), ("rangle", "\u{27e9}"), ("lfloor", "\u{230a}"), ("rfloor", "\u{230b}"), ("lceil", "\u{2308}"), ("rceil", "\u{2309}"), ("llbracket", "\u{27e6}"), ("rrbracket", "\u{27e7}"), ("Vert", "\u{2016}"), ("lVert", "\u{2016}"), ("rVert", "\u{2016}")]
}

/// Add the Greek letters to `category`.
pub fn greek(category: &mut Category)
    ensures
        final(category)@ == (CategoryView { macros: old(category)@.macros + symbol_defs(greek_table()), ..old(category)@ }),
{
    let table: [(&'static str, &'static str); 108] = [("alpha", "\u{3b1}"), ("Alpha", "\u{391}"), ("upalpha", "\u{3b1}"), ("Upalpha", "\u{391}"), ("beta", "\u{3b2}"), ("Beta", "\u{392}"), ("upbeta", "\u{3b2}"), ("Upbeta", "\u{392}"), ("gamma", "\u{3b3}"), ("Gamma", "\u{393}"), ("upgamma", "\u{3b3}"), ("Upgamma", "\u{393}"), ("delta", "\u{3b4}"), ("Delta", "\u{394}"), ("updelta", "\u{3b4}"), ("Updelta", "\u{394}"), ("epsilon", "\u{3f5}"), ("Epsilon", "\u{395}"), ("upepsilon", "\u{3f5}"), ("Upepsilon", "\u{395}"), ("zeta", "\u{3b6}"), ("Zeta", "\u{396}"), ("upzeta", "\u{3b6}"), ("Upzeta", "\u{396}"), ("eta", "\u{3b7}"), ("Eta", "\u{397}"), ("upeta", "\u{3b7}"), ("Upeta", "\u{397}"), ("theta", "\u{3b8}"), ("Theta", "\u{398}"), ("uptheta", "\u{3b8}"), ("Uptheta", "\u{398}"), ("iota", "\u{3b9}"), ("Iota", "\u{399}"), ("upiota", "\u{3b9}"), ("Upiota", "\u{399}"), ("kappa", "\u{3ba}"), ("Kappa", "\u{39a}"), ("upkappa", "\u{3ba}"), ("Upkappa", "\u{39a}"), ("lambda", "\u{3bb}"), ("Lambda", "\u{39b}"), ("uplambda", "\u{3bb}"), ("Uplambda", "\u{39b}"), ("mu", "\u{3bc}"), ("Mu", "\u{39c}"), ("upmu", "\u{3bc}"), ("Upmu", "\u{39c}"), ("nu", "\u{3bd}"), ("Nu", "\u{39d}"), ("upnu", "\u{3bd}"), ("Upnu", "\u{39d}"), ("xi", "\u{3be}"), ("Xi", "\u{39e}"), ("upxi", "\u{3be}"), ("Upxi", "\u{39e}"), ("omicron", "\u{3bf}"), ("Omicron", "\u{39f}"), ("upomicron", "\u{3bf}"), ("Upomicron", "\u{39f}"), ("pi", "\u{3c0}"), ("Pi", "\u{3a0}"), ("uppi", "\u{3c0}"), ("Uppi", "\u{3a0}"), ("rho", "\u{3c1}"), ("Rho", "\u{3a1}"), ("uprho", "\u{3c1}"), ("Uprho", "\u{3a1}"), ("sigma", "\u{3c3}"), ("Sigma", "\u{3a3}"), ("upsigma", "\u{3c3}"), ("Upsigma", "\u{3a3}"), ("tau", "\u{3c4}"), ("Tau", "\u{3a4}"), ("uptau", "\u{3c4}"), ("Uptau", "\u{3a4}"), ("upsilon", "\u{3c5}"), ("Upsilon", "\u{3a5}"), ("upupsilon", "\u{3c5}"), ("Upupsilon", "\u{3a5}"), ("phi", "\u{3d5}"), ("Phi", "\u{3a6}"), ("upphi", "\u{3d5}"), ("Upphi", "\u{3a6}"), ("chi", "\u{3c7}"), ("Chi", "\u{3a7}"), ("upchi", "\u{3c7}"), ("Upchi", "\u{3a7}"), ("psi", "\u{3c8}"), ("Psi", "\u{3a8}"), ("uppsi", "\u{3c8}"), ("Uppsi", "\u{3a8}"), ("omega", "\u{3c9}"), ("Omega", "\u{3a9}"), ("upomega", "\u{3c9}"), ("Upomega", "\u{3a9}"), ("varepsilon", "\u{3b5}"), ("upvarepsilon", "\u{3b5}"), ("vartheta", "\u{3d1}"), ("upvartheta", "\u{3d1}"), ("varpi", "\u{3d6}"), ("upvarpi", "\u{3d6}"), ("varrho", "\u{3f1}"), ("upvarrho", "\u{3f1}"), ("varsigma", "\u{3c2}"), ("upvarsigma", "\u{3c2}"), ("varphi", "\u{3c6}"), ("upvarphi", "\u{3c6}")];
    assert(table@ =~= greek_table());
    add_symbols(category, &table);
}

/// Add the math symbols to `category`.
pub fn symbols(category: &mut Category)
    ensures
        final(category)@ == (CategoryView { macros: old(category)@.macros + symbol_defs(symbol_table()), ..old(category)@ }),
{
    let table: [(&'static str, &'static str); 193] = [("pm", "\u{b1}"), ("mp", "\u{2213}"), ("times", "\u{d7}"), ("div", "\u{f7}"), ("cdot", "\u{b7}"), ("ast", "\u{2217}"), ("star", "\u{22c6}"), ("circ", "\u{2218}"), ("bullet", "\u{2219}"), ("diamond", "\u{22c4}"), ("cap", "\u{2229}"), ("cup", "\u{222a}"), ("sqcap", "\u{2293}"), ("sqcup", "\u{2294}"), ("vee", "\u{2228}"), ("lor", "\u{2228}"), ("wedge", "\u{2227}"), ("land", "\u{2227}"), ("setminus", "\u{2216}"), ("smallsetminus", "\u{2216}"), ("wr", "\u{2240}"), ("bigtriangleup", "\u{25b3}"), ("bigtriangledown", "\u{25bd}"), ("triangleleft", "\u{25c3}"), ("triangleright", "\u{25b9}"), ("oplus", "\u{2295}"), ("ominus", "\u{2296}"), ("otimes", "\u{2297}"), ("oslash", "\u{2298}"), ("odot", "\u{2299}"), ("dagger", "\u{2020}"), ("ddagger", "\u{2021}"), ("amalg", "\u{2a3f}"), ("uplus", "\u{228e}"), ("leq", "\u{2264}"), ("le", "\u{2264}"), ("geq", "\u{2265}"), ("ge", "\u{2265}"), ("neq", "\u{2260}"), ("ne", "\u{2260}"), ("equiv", "\u{2261}"), ("sim", "\u{223c}"), ("simeq", "\u{2243}"), ("asymp", "\u{224d}"), ("approx", "\u{2248}"), ("cong", "\u{2245}"), ("doteq", "\u{2250}"), ("propto", "\u{221d}"), ("models", "\u{22a8}"), ("prec", "\u{227a}"), ("succ", "\u{227b}"), ("preceq", "\u{227c}"), ("succeq", "\u{227d}"), ("ll", "\u{226a}"), ("gg", "\u{226b}"), ("subset", "\u{2282}"), ("supset", "\u{2283}"), ("subseteq", "\u{2286}"), ("supseteq", "\u{2287}"), ("sqsubset", "\u{228f}"), ("sqsupset", "\u{2290}"), ("sqsubseteq", "\u{2291}"), ("sqsupseteq", "\u{2292}"), ("in", "\u{2208}"), ("ni", "\u{220b}"), ("owns", "\u{220b}"), ("notin", "\u{2209}"), ("vdash", "\u{22a2}"), ("dashv", "\u{22a3}"), ("perp", "\u{22a5}"), ("mid", "\u{2223}"), ("parallel", "\u{2225}"), ("bowtie", "\u{22c8}"), ("smile", "\u{2323}"), ("frown", "\u{2322}"), ("subsetneq", "\u{228a}"), ("supsetneq", "\u{228b}"), ("nsubseteq", "\u{2288}"), ("nleq", "\u{2270}"), ("ngeq", "\u{2271}"), ("lesssim", "\u{2272}"), ("gtrsim", "\u{2273}"), ("colon", "\u{3a}"), ("sum", "\u{2211}"), ("prod", "\u{220f}"), ("coprod", "\u{2210}"), ("int", "\u{222b}"), ("iint", "\u{222c}"), ("iiint", "\u{222d}"), ("oint", "\u{222e}"), ("oiint", "\u{222f}"), ("bigcap", "\u{22c2}"), ("bigcup", "\u{22c3}"), ("bigsqcup", "\u{2a06}"), ("bigvee", "\u{22c1}"), ("bigwedge", "\u{22c0}"), ("bigoplus", "\u{2a01}"), ("bigotimes", "\u{2a02}"), ("bigodot", "\u{2a00}"), ("biguplus", "\u{2a04}"), ("to", "\u{2192}"), ("rightarrow", "\u{2192}"), ("gets", "\u{2190}"), ("leftarrow", "\u{2190}"), ("leftrightarrow", "\u{2194}"), ("Rightarrow", "\u{21d2}"), ("Leftarrow", "\u{21d0}"), ("Leftrightarrow", "\u{21d4}"), ("mapsto", "\u{21a6}"), ("longmapsto", "\u{27fc}"), ("longrightarrow", "\u{27f6}"), ("longleftarrow", "\u{27f5}"), ("longleftrightarrow", "\u{27f7}"), ("Longrightarrow", "\u{27f9}"), ("Longleftarrow", "\u{27f8}"), ("Longleftrightarrow", "\u{27fa}"), ("implies", "\u{27f9}"), ("impliedby", "\u{27f8}"), ("iff", "\u{27fa}"), ("uparrow", "\u{2191}"), ("downarrow", "\u{2193}"), ("updownarrow", "\u{2195}"), ("Uparrow", "\u{21d1}"), ("Downarrow", "\u{21d3}"), ("Updownarrow", "\u{21d5}"), ("nearrow", "\u{2197}"), ("searrow", "\u{2198}"), ("swarrow", "\u{2199}"), ("nwarrow", "\u{2196}"), ("hookleftarrow", "\u{21a9}"), ("hookrightarrow", "\u{21aa}"), ("rightharpoonup", "\u{21c0}"), ("rightharpoondown", "\u{21c1}"), ("leftharpoonup", "\u{21bc}"), ("leftharpoondown", "\u{21bd}"), ("rightleftharpoons", "\u{21cc}"), ("leadsto", "\u{21dd}"), ("infty", "\u{221e}"), ("partial", "\u{2202}"), ("nabla", "\u{2207}"), ("forall", "\u{2200}"), ("exists", "\u{2203}"), ("nexists", "\u{2204}"), ("neg", "\u{ac}"), ("lnot", "\u{ac}"), ("emptyset", "\u{2205}"), ("varnothing", "\u{2205}"), ("aleph", "\u{2135}"), ("hbar", "\u{210f}"), ("hslash", "\u{210f}"), ("ell", "\u{2113}"), ("Re", "\u{211c}"), ("Im", "\u{2111}"), ("wp", "\u{2118}"), ("prime", "\u{2032}"), ("angle", "\u{2220}"), ("measuredangle", "\u{2221}"), ("triangle", "\u{25b3}"), ("surd", "\u{221a}"), ("top", "\u{22a4}"), ("bot", "\u{22a5}"), ("flat", "\u{266d}"), ("natural", "\u{266e}"), ("sharp", "\u{266f}"), ("clubsuit", "\u{2663}"), ("diamondsuit", "\u{2662}"), ("heartsuit", "\u{2661}"), ("spadesuit", "\u{2660}"), ("imath", "\u{131}"), ("jmath", "\u{237}"), ("Box", "\u{25a1}"), ("square", "\u{25a1}"), ("Diamond", "\u{25ca}"), ("checkmark", "\u{2713}"), ("complement", "\u{2201}"), ("degree", "\u{b0}"), ("circledR", "\u{ae}"), ("therefore", "\u{2234}"), ("because", "\u{2235}"), ("cdots", "\u{22ef}"), ("vdots", "\u{22ee}"), ("ddots", "\u{22f1}"), ("langle", "\u{27e8}"), ("rangle", "\u{27e9}"), ("lfloor", "\u{230a}"), ("rfloor", "\u{230b}"), ("lceil", "\u{2308}"), ("rceil", "\u{2309}"), ("llbracket", "\u{27e6}"), ("rrbracket", "\u{27e7}"), ("Vert", "\u{2016}"), ("lVert", "\u{2016}"), ("rVert", "\u{2016}")];
    assert(table@ =~= symbol_table());
    add_symbols(category, &table);
}

// ------------------------------------------------------------------ operators

/// The named operators, (name, handler): each renders as an upright operator of its own
/// text, which keeps `\limsup`'s inner space inside one operator. The `\var…` forms
/// are typesetting variants plain text cannot show, so each is the operator it stands
/// for.
pub open spec fn operator_table() -> Seq<(&'static str, &'static str)> {
    seq![("cos", "operator: cos"), ("sin", "operator: sin"), ("tan", "operator: tan"), ("sec", "operator: sec"), ("csc", "operator: csc"), ("cot", "operator: cot"), ("arccos", "operator: arccos"), ("arcsin", "operator: arcsin"), ("arctan", "operator: arctan"), ("cosh", "operator: cosh"), ("sinh", "operator: sinh"), ("tanh", "operator: tanh"), ("coth", "operator: coth"), ("arccosh", "operator: arccosh"), ("arcsinh", "operator: arcsinh"), ("arctanh", "operator: arctanh"), ("ln", "operator: ln"), ("lg", "operator: lg"), ("log", "operator: log"), ("exp", "operator: exp"), ("max", "operator: max"), ("min", "operator: min"), ("sup", "operator: sup"), ("inf", "operator: inf"), ("lim", "operator: lim"), ("limsup", "operator: lim sup"), ("liminf", "operator: lim inf"), ("injlim", "operator: inj lim"), ("projlim", "operator: proj lim"), ("varlimsup", "operator: lim sup"), ("varliminf", "operator: lim inf"), ("varinjlim", "operator: inj lim"), ("varprojlim", "operator: proj lim"), ("arg", "operator: arg"), ("deg", "operator: deg"), ("det", "operator: det"), ("dim", "operator: dim"), ("gcd", "operator: gcd"), ("hom", "operator: hom"), ("ker", "operator: ker"), ("Pr", "operator: Pr")]
}

/// `\operatorname*{…}`: its argument, upright, as an operator.
pub open spec fn operatorname_def() -> MacroDefView {
    MacroDefView {
        name: "operatorname"@,
        args: seq![star_arg(), ArgView { code: Some("m"@), name: "text"@ }],
        rule: Some(RuleView::Handler("operator name"@)),
        modes: None,
    }
}

/// The named operators, `\operatorname`, and the modulo family: `\bmod` is infix, a
/// binary operator; `\pmod` and `\mod` open with the word `mod`.
pub open spec fn operator_defs() -> Seq<MacroDefView> {
    macro_table(operator_table(), Seq::empty()) + seq![
        operatorname_def(),
        macro_shape("bmod"@, Seq::empty(), RuleShape::Handler("binary operator: mod")),
        macro_shape("pmod"@, seq![("m", "modulus")], RuleShape::Handler("modulo, parenthesized")),
        macro_shape("mod"@, seq![("m", "modulus")], RuleShape::Handler("modulo")),
    ]
}

/// Add the operators to `category`.
pub fn operator_names(category: &mut Category)
    ensures
        final(category)@ == (CategoryView { macros: old(category)@.macros + operator_defs(), ..old(category)@ }),
{
    let ghost start = category@;
    let table: [(&'static str, &'static str); 41] = [("cos", "operator: cos"), ("sin", "operator: sin"), ("tan", "operator: tan"), ("sec", "operator: sec"), ("csc", "operator: csc"), ("cot", "operator: cot"), ("arccos", "operator: arccos"), ("arcsin", "operator: arcsin"), ("arctan", "operator: arctan"), ("cosh", "operator: cosh"), ("sinh", "operator: sinh"), ("tanh", "operator: tanh"), ("coth", "operator: coth"), ("arccosh", "operator: arccosh"), ("arcsinh", "operator: arcsinh"), ("arctanh", "operator: arctanh"), ("ln", "operator: ln"), ("lg", "operator: lg"), ("log", "operator: log"), ("exp", "operator: exp"), ("max", "operator: max"), ("min", "operator: min"), ("sup", "operator: sup"), ("inf", "operator: inf"), ("lim", "operator: lim"), ("limsup", "operator: lim sup"), ("liminf", "operator: lim inf"), ("injlim", "operator: inj lim"), ("projlim", "operator: proj lim"), ("varlimsup", "operator: lim sup"), ("varliminf", "operator: lim inf"), ("varinjlim", "operator: inj lim"), ("varprojlim", "operator: proj lim"), ("arg", "operator: arg"), ("deg", "operator: deg"), ("det", "operator: det"), ("dim", "operator: dim"), ("gcd", "operator: gcd"), ("hom", "operator: hom"), ("ker", "operator: ker"), ("Pr", "operator: Pr")];
    let none: [(&'static str, &'static str); 0] = [];
    let modulus: [(&'static str, &'static str); 1] = [("m", "modulus")];
    assert(table@ =~= operator_table());
    assert(none@ =~= Seq::<(&'static str, &'static str)>::empty());
    assert(modulus@ =~= seq![("m", "modulus")]);
    add_macro_table(category, &table, &none);
    let ghost m1 = category@.macros;
    proof {
        reveal_strlit("m");
        reveal_strlit("text");
    }
    let operatorname = MacroDef::new("operatorname").star().arg("m", "text").rule(
        TextRule::Handler("operator name".to_owned()),
    );
    assert(operatorname@.args =~= operatorname_def().args);
    category.add_macro(operatorname);
    category.add_macro(shaped_macro("bmod", &none, RuleShape::Handler("binary operator: mod")));
    category.add_macro(shaped_macro("pmod", &modulus, RuleShape::Handler("modulo, parenthesized")));
    category.add_macro(shaped_macro("mod", &modulus, RuleShape::Handler("modulo")));
    assert(category@.macros =~= start.macros + operator_defs());
}

// ------------------------------------------------------------------ fractions and roots

/// `\frac` and the aliases that render identically (plain text has one size and one
/// shape), then `\sqrt` with its optional index.
pub open spec fn fraction_defs() -> Seq<MacroDefView> {
    macro_family(
        seq!["frac", "dfrac", "tfrac", "cfrac", "nicefrac", "textfrac"],
        seq![("m", "numerator"), ("m", "denominator")],
        RuleShape::Handler("fraction"),
    ) + seq![macro_shape("sqrt"@, seq![("o", "index"), ("m", "radicand")], RuleShape::Handler("root"))]
}

/// Add the fractions and roots to `category`.
pub fn fractions_and_roots(category: &mut Category)
    ensures
        final(category)@ == (CategoryView { macros: old(category)@.macros + fraction_defs(), ..old(category)@ }),
{
    let ghost start = category@;
    let names: [&'static str; 6] = ["frac", "dfrac", "tfrac", "cfrac", "nicefrac", "textfrac"];
    let args: [(&'static str, &'static str); 2] = [("m", "numerator"), ("m", "denominator")];
    let root: [(&'static str, &'static str); 2] = [("o", "index"), ("m", "radicand")];
    assert(names@ =~= seq!["frac", "dfrac", "tfrac", "cfrac", "nicefrac", "textfrac"]);
    assert(args@ =~= seq![("m", "numerator"), ("m", "denominator")]);
    assert(root@ =~= seq![("o", "index"), ("m", "radicand")]);
    add_macro_family(category, &names, &args, RuleShape::Handler("fraction"));
    category.add_macro(shaped_macro("sqrt", &root, RuleShape::Handler("root")));
    assert(category@.macros =~= start.macros + fraction_defs());
}

// ------------------------------------------------------------------ stacking

/// A binomial coefficient, written with TeX's own word for it: `(𝑛 choose 𝑘)`.
pub open spec fn binom_def(name: Seq<char>) -> MacroDefView {
    MacroDefView {
        name,
        args: seq![ArgView { code: Some("m"@), name: "top"@ }, ArgView { code: Some("m"@), name: "bottom"@ }],
        rule: Some(RuleView::Template(TemplateView {
            source: "({top} choose {bottom})"@,
            parsed: parse_template("({top} choose {bottom})"@),
        })),
        modes: None,
    }
}

/// The binomials, then `\overset`, `\stackrel` and `\underset`, which set their
/// annotation as a script on the base, and `\substack`, whose lines are its content.
pub open spec fn stacked_defs() -> Seq<MacroDefView> {
    seq![binom_def("binom"@), binom_def("dbinom"@), binom_def("tbinom"@)] + seq![
        macro_shape("overset"@, seq![("m", "annotation"), ("m", "base")], RuleShape::Handler("stacked superscript")),
        macro_shape("stackrel"@, seq![("m", "annotation"), ("m", "base")], RuleShape::Handler("stacked superscript")),
        macro_shape("underset"@, seq![("m", "annotation"), ("m", "base")], RuleShape::Handler("stacked subscript")),
        macro_shape("substack"@, seq![("m", "lines")], RuleShape::Content),
    ]
}

fn binom(name: &str) -> (d: MacroDef)
    ensures
        d@ == binom_def(name@),
{
    proof {
        reveal_strlit("m");
        reveal_strlit("top");
        reveal_strlit("bottom");
    }
    let d = MacroDef::new(name).arg("m", "top").arg("m", "bottom").rule(
        TextRule::Template(Template::new("({top} choose {bottom})")),
    );
    assert(d@.args =~= binom_def(name@).args);
    d
}

/// Add the stacking macros to `category`.
pub fn stacked(category: &mut Category)
    ensures
        final(category)@ == (CategoryView { macros: old(category)@.macros + stacked_defs(), ..old(category)@ }),
{
    let ghost start = category@;
    category.add_macro(binom("binom"));
    category.add_macro(binom("dbinom"));
    category.add_macro(binom("tbinom"));
    let pair: [(&'static str, &'static str); 2] = [("m", "annotation"), ("m", "base")];
    let lines: [(&'static str, &'static str); 1] = [("m", "lines")];
    assert(pair@ =~= seq![("m", "annotation"), ("m", "base")]);
    assert(lines@ =~= seq![("m", "lines")]);
    category.add_macro(shaped_macro("overset", &pair, RuleShape::Handler("stacked superscript")));
    category.add_macro(shaped_macro("stackrel", &pair, RuleShape::Handler("stacked superscript")));
    category.add_macro(shaped_macro("underset", &pair, RuleShape::Handler("stacked subscript")));
    category.add_macro(shaped_macro("substack", &lines, RuleShape::Content));
    assert(category@.macros =~= start.macros + stacked_defs());
}

// ------------------------------------------------------------------ delimiters

/// The sizing macros, which render the delimiter they were pointed at (dropping `.`,
/// LaTeX's "no delimiter here"), then the bars, the backslash and the bracket macros.
pub open spec fn delimiter_defs() -> Seq<MacroDefView> {
    macro_family(seq!["left", "right", "middle", "big", "Big", "bigg", "Bigg", "bigl", "Bigl", "biggl", "Biggl", "bigr", "Bigr", "biggr", "Biggr", "bigm", "Bigm", "biggm", "Biggm"], seq![("m", "delimiter")], RuleShape::Handler("sized delimiter"))
        + symbol_defs(seq![("vert", "|"), ("lvert", "|"), ("rvert", "|"), ("|", "\u{2016}"), ("backslash", "\\"), ("lbrack", "["), ("rbrack", "]"), ("lbrace", "{"), ("rbrace", "}")])
}

/// Add the delimiters to `category`.
pub fn delimiters(category: &mut Category)
    ensures
        final(category)@ == (CategoryView { macros: old(category)@.macros + delimiter_defs(), ..old(category)@ }),
{
    let ghost start = category@;
    let names: [&'static str; 19] = ["left", "right", "middle", "big", "Big", "bigg", "Bigg", "bigl", "Bigl", "biggl", "Biggl", "bigr", "Bigr", "biggr", "Biggr", "bigm", "Bigm", "biggm", "Biggm"];
    let args: [(&'static str, &'static str); 1] = [("m", "delimiter")];
    let symbols: [(&'static str, &'static str); 9] = [("vert", "|"), ("lvert", "|"), ("rvert", "|"), ("|", "\u{2016}"), ("backslash", "\\"), ("lbrack", "["), ("rbrack", "]"), ("lbrace", "{"), ("rbrace", "}")];
    assert(names@ =~= seq!["left", "right", "middle", "big", "Big", "bigg", "Bigg", "bigl", "Bigl", "biggl", "Biggl", "bigr", "Bigr", "biggr", "Biggr", "bigm", "Bigm", "biggm", "Biggm"]);
    assert(args@ =~= seq![("m", "delimiter")]);
    assert(symbols@ =~= seq![("vert", "|"), ("lvert", "|"), ("rvert", "|"), ("|", "\u{2016}"), ("backslash", "\\"), ("lbrack", "["), ("rbrack", "]"), ("lbrace", "{"), ("rbrace", "}")]);
    add_macro_family(category, &names, &args, RuleShape::Handler("sized delimiter"));
    add_symbols(category, &symbols);
    assert(category@.macros =~= start.macros + delimiter_defs());
}

// ------------------------------------------------------------------ style declarations

/// The declarations that choose a size or a layout plain text does not have, which
/// render as nothing, and `\intertext`, whose prose is all that is left of it.
pub open spec fn style_defs() -> Seq<MacroDefView> {
    macro_family(seq!["displaystyle", "textstyle", "scriptstyle", "scriptscriptstyle", "limits", "nolimits", "nonumber", "notag"], Seq::empty(), RuleShape::Skip)
        + seq![macro_shape("intertext"@, seq![("m", "text")], RuleShape::Content)]
}

/// Add the style declarations to `category`.
pub fn styles(category: &mut Category)
    ensures
        final(category)@ == (CategoryView { macros: old(category)@.macros + style_defs(), ..old(category)@ }),
{
    let ghost start = category@;
    let names: [&'static str; 8] = ["displaystyle", "textstyle", "scriptstyle", "scriptscriptstyle", "limits", "nolimits", "nonumber", "notag"];
    let none: [(&'static str, &'static str); 0] = [];
    let text: [(&'static str, &'static str); 1] = [("m", "text")];
    assert(names@ =~= seq!["displaystyle", "textstyle", "scriptstyle", "scriptscriptstyle", "limits", "nolimits", "nonumber", "notag"]);
    assert(none@ =~= Seq::<(&'static str, &'static str)>::empty());
    assert(text@ =~= seq![("m", "text")]);
    add_macro_family(category, &names, &none, RuleShape::Skip);
    category.add_macro(shaped_macro("intertext", &text, RuleShape::Content));
    assert(category@.macros =~= start.macros + style_defs());
}

// ------------------------------------------------------------------ the category

/// The category [`category`] builds.
pub open spec fn category_view() -> CategoryView {
    CategoryView {
        name: "mathcore"@,
        macros: symbol_defs(greek_table()) + symbol_defs(symbol_table()) + operator_defs() + fraction_defs()
            + stacked_defs() + delimiter_defs() + style_defs(),
        environments: Seq::<EnvDefView>::empty(),
        specials: Seq::<SpecialsDefView>::empty(),
    }
}

/// The core of mathematical notation: Greek letters, operators and relations, named
/// operators, fractions and roots, stacking, delimiters and the style declarations.
pub fn category() -> (c: Category)
    ensures
        c@ == category_view(),
{
    let mut category = Category::new("mathcore");
    greek(&mut category);
    symbols(&mut category);
    operator_names(&mut category);
    fractions_and_roots(&mut category);
    stacked(&mut category);
    delimiters(&mut category);
    styles(&mut category);
    assert(category@.macros =~= category_view().macros);
    category
}

} // verus!
