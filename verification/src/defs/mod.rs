//! The definitions library: the shipped categories — what each construct's arguments
//! are and how it renders — and the pieces that compute rather than declare: list
//! markers and counters, heading numbers, table columns, and font switching.

pub mod fontstyles;
pub mod lists;
pub mod mathcore;
pub mod sectioning;
pub mod tables;
pub mod theorems;
pub mod base;
pub mod refs;
pub mod mathenvs;
pub mod verbatim;
pub mod natbib;
pub mod graphics;
pub mod links;
pub mod subsuperscripts;
pub mod titling;

use vstd::prelude::*;
use crate::def::DefinitionSet;

verus! {

/// What [`standard`] holds: its categories, in push order.
pub open spec fn standard_view() -> Seq<crate::def::CategoryView> {
    seq![
        base::category_view(),
        fontstyles::category_view(),
        mathcore::category_view(),
        mathenvs::category_view(),
        subsuperscripts::category_view(),
        sectioning::category_view(),
        lists::category_view(),
        verbatim::category_view(),
        tables::category_view(),
        theorems::category_view(),
        refs::category_view(),
        links::category_view(),
        graphics::category_view(),
        titling::category_view(),
        natbib::category_view(),
    ]
}

/// Every category this crate ships, stacked in shadowing order: later categories win,
/// so the curated categories go after the generic ones and `natbib` goes last, where
/// its citation commands override the plain ones of `refs`.
pub fn standard() -> (set: DefinitionSet)
    ensures
        set@ == standard_view(),
{
    let set = DefinitionSet::new()
        .with(base::category())
        .with(fontstyles::category())
        .with(mathcore::category())
        .with(mathenvs::category())
        .with(subsuperscripts::category())
        .with(sectioning::category())
        .with(lists::category())
        .with(verbatim::category())
        .with(tables::category())
        .with(theorems::category())
        .with(refs::category())
        .with(links::category())
        .with(graphics::category())
        .with(titling::category())
        .with(natbib::category());
    set
}

} // verus!
