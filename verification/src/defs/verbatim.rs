//! The verbatim category: not yet populated.

use vstd::prelude::*;

use crate::def::{Category, CategoryView, EnvDefView, MacroDefView, SpecialsDefView};

verus! {

/// The category [`category`] builds.
pub open spec fn category_view() -> CategoryView {
    CategoryView {
        name: "verbatim"@,
        macros: Seq::<MacroDefView>::empty(),
        environments: Seq::<EnvDefView>::empty(),
        specials: Seq::<SpecialsDefView>::empty(),
    }
}

/// The verbatim category, which declares nothing yet: `verbatim`, `lstlisting`, `alltt`
/// and `\verb` are still to come.
pub fn category() -> (c: Category)
    ensures
        c@ == category_view(),
{
    Category::new("verbatim")
}

} // verus!
