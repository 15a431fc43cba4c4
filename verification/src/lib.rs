//! Pieces of a converter from LaTeX-like markup to plain (unicode) text.
//!
//! The crate holds the parts that decide what the text looks like: the typed token flow
//! that handlers produce ([`flow`]), the single layout pass that turns a flow into lines
//! ([`layout`]), the template mini-language definitions are written in ([`template`]),
//! definitions and their categories ([`def`]) and the shipped tables ([`defs`]), the
//! symbol index a definition set is read back through ([`symbols`]), and the small
//! pieces of arithmetic the definitions rely on — list counters, heading numbers, table
//! columns, calendar dates — and the converter builder, which settles the definitions,
//! options and overrides a conversion uses and checks the overrides once ([`converter`]).

pub mod text;
pub mod template;
pub mod template_source;
pub mod symbols;
pub mod def;
pub mod mathfmt;
pub mod convert;
pub mod converter;
pub mod defs;
pub mod today;
pub mod resolve;
pub mod cli;
pub mod diag;
pub mod flow;
pub mod layout;
pub mod layout_shape;

pub use convert::Options;
pub use converter::{Converter, ConverterBuilder};
