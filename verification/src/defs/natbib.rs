//! The natbib category: not yet populated.

use vstd::prelude::*;

use crate::def::{Category, CategoryView, EnvDefView, MacroDefView, SpecialsDefView};

verus! {

/// The category [`category`] builds.
pub open spec fn category_view() -> CategoryView {
    CategoryView {
        name: "natbib"@,
        macros: Seq::<MacroDefView>::empty(),
        environments: Seq::<EnvDefView>::empty(),
        specials: Seq::<SpecialsDefView>::empty(),
    }
}

/// The natbib category, which declares nothing yet: natbib's citation commands, each with
/// its two optional arguments, are still to come. It is pushed after the refs category,
/// so what it declares will shadow the plain citations there.
pub fn category() -> (c: Category)
    ensures
        c@ == category_view(),
{
    Category::new("natbib")
}

} // verus!
