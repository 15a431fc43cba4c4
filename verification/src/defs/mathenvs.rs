//! The environments whose body is a formula.

use vstd::prelude::*;

use crate::def::{add_env_family, env_family, Category, CategoryView, EnvDefView, MacroDefView, RuleShape, SpecialsDefView};
use crate::symbols::EnvBodyKind;

verus! {

/// The environments whose body is one displayed formula.
pub open spec fn display_names() -> Seq<&'static str> {
    seq![
        "equation", "equation*", "align", "align*", "gather", "gather*", "multline", "multline*",
        "eqnarray", "eqnarray*", "split", "dmath", "dmath*", "displaymath", "flalign", "flalign*",
        "aligned", "gathered",
    ]
}

/// The environments that also take a number of column pairs.
pub open spec fn alignat_names() -> Seq<&'static str> {
    seq!["alignat", "alignat*", "alignedat"]
}

/// The environments [`display_environments`] declares, in order.
pub open spec fn display_environment_defs() -> Seq<EnvDefView> {
    env_family(display_names(), Seq::empty(), EnvBodyKind::Math, RuleShape::Handler("display formula"))
        + env_family(alignat_names(), seq![("m", "columns")], EnvBodyKind::Math, RuleShape::Handler("display formula"))
        + env_family(seq!["math"], Seq::empty(), EnvBodyKind::Math, RuleShape::Handler("inline formula"))
        + env_family(seq!["subequations"], Seq::empty(), EnvBodyKind::Normal, RuleShape::Content)
}

/// Add the formula environments: every displayed one renders alike — plain text has no
/// equation numbers to place, no columns to align on and no page width to break a
/// `multline` across, so what is left is "a formula, displayed". `alignat`'s count of
/// column pairs is parsed and dropped; `\begin{math}` is a formula in running text; and
/// `subequations` only renumbers, so its body is ordinary content.
pub fn display_environments(category: &mut Category)
    ensures
        final(category)@ == (CategoryView {
            environments: old(category)@.environments + display_environment_defs(),
            ..old(category)@
        }),
{
    let ghost start = category@;
    let display: [&'static str; 18] = [
        "equation", "equation*", "align", "align*", "gather", "gather*", "multline", "multline*",
        "eqnarray", "eqnarray*", "split", "dmath", "dmath*", "displaymath", "flalign", "flalign*",
        "aligned", "gathered",
    ];
    let none: [(&'static str, &'static str); 0] = [];
    assert(display@ =~= display_names());
    assert(none@ =~= Seq::<(&'static str, &'static str)>::empty());
    add_env_family(category, &display, &none, EnvBodyKind::Math, RuleShape::Handler("display formula"));
    let ghost e1 = category@.environments;
    let alignat: [&'static str; 3] = ["alignat", "alignat*", "alignedat"];
    let columns: [(&'static str, &'static str); 1] = [("m", "columns")];
    assert(alignat@ =~= alignat_names());
    assert(columns@ =~= seq![("m", "columns")]);
    add_env_family(category, &alignat, &columns, EnvBodyKind::Math, RuleShape::Handler("display formula"));
    let ghost e2 = category@.environments;
    let math: [&'static str; 1] = ["math"];
    assert(math@ =~= seq!["math"]);
    add_env_family(category, &math, &none, EnvBodyKind::Math, RuleShape::Handler("inline formula"));
    let ghost e3 = category@.environments;
    let subequations: [&'static str; 1] = ["subequations"];
    assert(subequations@ =~= seq!["subequations"]);
    add_env_family(category, &subequations, &none, EnvBodyKind::Normal, RuleShape::Content);
    proof {
        assert(category@.environments =~= start.environments + display_environment_defs());
    }
}

/// The matrix-like environments: grids of cells, in math.
pub open spec fn matrix_names() -> Seq<&'static str> {
    seq![
        "matrix", "pmatrix", "bmatrix", "Bmatrix", "vmatrix", "Vmatrix", "smallmatrix", "psmallmatrix", "bsmallmatrix",
        "cases", "cases*", "dcases", "dcases*", "rcases", "rcases*", "drcases", "drcases*",
    ]
}

/// The environments [`matrices`] declares: the matrix family, and `array` with its
/// position and column specification.
pub open spec fn matrix_defs() -> Seq<EnvDefView> {
    env_family(matrix_names(), Seq::empty(), EnvBodyKind::Math, RuleShape::Handler("matrix")) + env_family(
        seq!["array"],
        seq![("o", "position"), ("m", "colspec")],
        EnvBodyKind::Math,
        RuleShape::Handler("matrix"),
    )
}

/// Add the matrix environments.
pub fn matrices(category: &mut Category)
    ensures
        final(category)@ == (CategoryView { environments: old(category)@.environments + matrix_defs(), ..old(category)@ }),
{
    let ghost start = category@;
    let names: [&'static str; 17] = [
        "matrix", "pmatrix", "bmatrix", "Bmatrix", "vmatrix", "Vmatrix", "smallmatrix", "psmallmatrix", "bsmallmatrix",
        "cases", "cases*", "dcases", "dcases*", "rcases", "rcases*", "drcases", "drcases*",
    ];
    let none: [(&'static str, &'static str); 0] = [];
    assert(names@ =~= matrix_names());
    assert(none@ =~= Seq::<(&'static str, &'static str)>::empty());
    add_env_family(category, &names, &none, EnvBodyKind::Math, RuleShape::Handler("matrix"));
    let ghost e1 = category@.environments;
    let array: [&'static str; 1] = ["array"];
    let array_args: [(&'static str, &'static str); 2] = [("o", "position"), ("m", "colspec")];
    assert(array@ =~= seq!["array"]);
    assert(array_args@ =~= seq![("o", "position"), ("m", "colspec")]);
    add_env_family(category, &array, &array_args, EnvBodyKind::Math, RuleShape::Handler("matrix"));
    assert(category@.environments =~= start.environments + matrix_defs());
}

/// The category [`category`] builds.
pub open spec fn category_view() -> CategoryView {
    CategoryView {
        name: "mathenvs"@,
        macros: Seq::<MacroDefView>::empty(),
        environments: display_environment_defs() + matrix_defs(),
        specials: Seq::<SpecialsDefView>::empty(),
    }
}

/// The mathenvs category: the formula environments, then the matrices.
pub fn category() -> (c: Category)
    ensures
        c@ == category_view(),
{
    let mut category = Category::new("mathenvs");
    display_environments(&mut category);
    matrices(&mut category);
    assert(category@.environments =~= display_environment_defs() + matrix_defs());
    category
}

} // verus!
