//! Superscripts and subscripts: `^` and `_`, in math only.

use vstd::prelude::*;

use crate::def::{ArgView, Category, CategoryView, EnvDefView, MacroDefView, RuleView, SpecialsDef, SpecialsDefView, TextRule};
use crate::symbols::Mode;

verus! {

/// A script specials: triggered in math only, with one argument, `script`.
pub open spec fn script_def(trigger: Seq<char>, handler: Seq<char>) -> SpecialsDefView {
    SpecialsDefView {
        chars: trigger,
        args: seq![ArgView { code: Some("m"@), name: "script"@ }],
        rule: Some(RuleView::Handler(handler)),
        modes: Some(seq![Mode::Math]),
    }
}

/// The category [`category`] builds.
pub open spec fn category_view() -> CategoryView {
    CategoryView {
        name: "subsuperscripts"@,
        macros: Seq::<MacroDefView>::empty(),
        environments: Seq::<EnvDefView>::empty(),
        specials: seq![script_def("^"@, "superscript"@), script_def("_"@, "subscript"@)],
    }
}

/// The subsuperscripts category: `^` as a superscript and `_` as a subscript, neither of
/// which fires in a paragraph.
pub fn category() -> (c: Category)
    ensures
        c@ == category_view(),
{
    let superscript = SpecialsDef::new("^").math_mode_only().arg("m", "script").rule(
        TextRule::Handler("superscript".to_owned()),
    );
    let subscript = SpecialsDef::new("_").math_mode_only().arg("m", "script").rule(
        TextRule::Handler("subscript".to_owned()),
    );
    assert(superscript@.args =~= script_def("^"@, "superscript"@).args);
    assert(subscript@.args =~= script_def("_"@, "subscript"@).args);
    let c = Category::new("subsuperscripts").with_specials(superscript).with_specials(subscript);
    assert(c@.specials =~= seq![script_def("^"@, "superscript"@), script_def("_"@, "subscript"@)]);
    c
}

} // verus!
