//! Cross-references and citations. A converter resolves no label and reads no
//! bibliography database, so each reference renders as a fixed marker saying what stood
//! there, and the declarations that only feed those mechanisms render as nothing.

use vstd::prelude::*;

use crate::def::{
    add_env_family, add_macro_family, env_family, macro_family, Category, CategoryView, EnvDefView,
    MacroDefView, RuleShape, SpecialsDefView,
};
use crate::symbols::EnvBodyKind;

verus! {

/// The reference family: `\ref{label}` and its relatives.
pub open spec fn reference_names() -> Seq<&'static str> {
    seq!["ref", "autoref", "cref", "vref", "pageref"]
}

pub open spec fn label_arg() -> Seq<(&'static str, &'static str)> {
    seq![("m", "label")]
}

pub open spec fn citation_names() -> Seq<&'static str> {
    seq!["cite", "citet", "citep"]
}

pub open spec fn citation_args() -> Seq<(&'static str, &'static str)> {
    seq![("o", "note"), ("m", "keys")]
}

pub open spec fn declaration_names() -> Seq<&'static str> {
    seq!["label", "nocite"]
}

pub open spec fn key_arg() -> Seq<(&'static str, &'static str)> {
    seq![("m", "key")]
}

/// The macros of the refs category, in declaration order.
pub open spec fn refs_macros() -> Seq<MacroDefView> {
    macro_family(reference_names(), label_arg(), RuleShape::Literal("<ref>")) + macro_family(
        seq!["Cref"],
        label_arg(),
        RuleShape::Literal("<Ref>"),
    ) + macro_family(seq!["eqref"], label_arg(), RuleShape::Literal("(<ref>)")) + macro_family(
        citation_names(),
        citation_args(),
        RuleShape::Literal("<cit.>"),
    ) + macro_family(declaration_names(), key_arg(), RuleShape::Skip) + macro_family(
        seq!["bibitem"],
        seq![("o", "label"), ("m", "key")],
        RuleShape::Handler("bibliography entry break"),
    ) + macro_family(seq!["printbibliography"], seq![("o", "options")], RuleShape::Skip)
}

/// The environments of the refs category.
pub open spec fn refs_environments() -> Seq<EnvDefView> {
    env_family(seq!["thebibliography"], seq![("m", "widest")], EnvBodyKind::Normal, RuleShape::Content)
}

/// The category [`category`] builds.
pub open spec fn category_view() -> CategoryView {
    CategoryView {
        name: "refs"@,
        macros: refs_macros(),
        environments: refs_environments(),
        specials: Seq::<SpecialsDefView>::empty(),
    }
}

/// The refs category: references render as `<ref>` (`<Ref>` for `\Cref`, `(<ref>)` for
/// `\eqref`), citations as `<cit.>`, `\label` and `\nocite` as nothing; the bibliography
/// is its entries, each started on a line of its own by `\bibitem`, and
/// `\printbibliography` prints nothing.
pub fn category() -> (c: Category)
    ensures
        c@ == category_view(),
{
    let mut category = Category::new("refs");
    let ghost start = category@;
    let references: [&'static str; 5] = ["ref", "autoref", "cref", "vref", "pageref"];
    let label: [(&'static str, &'static str); 1] = [("m", "label")];
    assert(references@ =~= reference_names());
    assert(label@ =~= label_arg());
    add_macro_family(&mut category, &references, &label, RuleShape::Literal("<ref>"));
    let ghost m1 = category@.macros;
    let capital: [&'static str; 1] = ["Cref"];
    assert(capital@ =~= seq!["Cref"]);
    add_macro_family(&mut category, &capital, &label, RuleShape::Literal("<Ref>"));
    let ghost m2 = category@.macros;
    let equation: [&'static str; 1] = ["eqref"];
    assert(equation@ =~= seq!["eqref"]);
    add_macro_family(&mut category, &equation, &label, RuleShape::Literal("(<ref>)"));
    let ghost m3 = category@.macros;
    let citations: [&'static str; 3] = ["cite", "citet", "citep"];
    let citation: [(&'static str, &'static str); 2] = [("o", "note"), ("m", "keys")];
    assert(citations@ =~= citation_names());
    assert(citation@ =~= citation_args());
    add_macro_family(&mut category, &citations, &citation, RuleShape::Literal("<cit.>"));
    let ghost m4 = category@.macros;
    let declarations: [&'static str; 2] = ["label", "nocite"];
    let key: [(&'static str, &'static str); 1] = [("m", "key")];
    assert(declarations@ =~= declaration_names());
    assert(key@ =~= key_arg());
    add_macro_family(&mut category, &declarations, &key, RuleShape::Skip);
    let ghost m5 = category@.macros;
    let bibliography: [&'static str; 1] = ["thebibliography"];
    let widest: [(&'static str, &'static str); 1] = [("m", "widest")];
    assert(bibliography@ =~= seq!["thebibliography"]);
    assert(widest@ =~= seq![("m", "widest")]);
    add_env_family(&mut category, &bibliography, &widest, EnvBodyKind::Normal, RuleShape::Content);
    let bibitem: [&'static str; 1] = ["bibitem"];
    let item_args: [(&'static str, &'static str); 2] = [("o", "label"), ("m", "key")];
    assert(bibitem@ =~= seq!["bibitem"]);
    assert(item_args@ =~= seq![("o", "label"), ("m", "key")]);
    add_macro_family(&mut category, &bibitem, &item_args, RuleShape::Handler("bibliography entry break"));
    let ghost m6 = category@.macros;
    let print: [&'static str; 1] = ["printbibliography"];
    let options: [(&'static str, &'static str); 1] = [("o", "options")];
    assert(print@ =~= seq!["printbibliography"]);
    assert(options@ =~= seq![("o", "options")]);
    add_macro_family(&mut category, &print, &options, RuleShape::Skip);
    proof {
        assert(start.macros =~= Seq::<MacroDefView>::empty());
        assert(start.environments =~= Seq::<EnvDefView>::empty());
        assert(category@.macros =~= refs_macros());
        assert(category@.environments =~= refs_environments());
    }
    category
}

} // verus!
