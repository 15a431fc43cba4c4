use techxt::convert::{merge, Diagnostics};
use techy::error::Severity;

fn retained_len(diagnostics: &Diagnostics) -> usize {
    diagnostics.0.len()
}

fn suppressed(diagnostics: &Diagnostics) -> usize {
    diagnostics.0.suppressed()
}

fn error_count(diagnostics: &Diagnostics) -> usize {
    diagnostics.0.error_count()
}

fn severity_at(diagnostics: &Diagnostics, index: usize) -> Severity {
    diagnostics.0.as_slice()[index].severity()
}

/// The diagnostics a tolerant parse of `source` reports.
fn parsed(source: &str) -> techy::error::Diagnostics<Option<String>> {
    let language = techy_xp::presets::xp_language(techy::error::Recovery::Tolerant).expect("seed state");
    language.parse(source).expect("a tolerant parse succeeds").diagnostics
}

/// The first diagnostic a tolerant parse of `source` reports.
fn first_of(source: &str) -> techy::error::Diagnostic<Option<String>> {
    parsed(source).iter().next().expect("a diagnostic").clone()
}

/// A collection of at most `limit` diagnostics, given `count` copies of `diagnostic`.
fn filled(limit: usize, count: usize, diagnostic: &techy::error::Diagnostic<Option<String>>) -> Diagnostics {
    let mut diagnostics = techy::error::Diagnostics::with_limit(limit);
    for _ in 0..count {
        diagnostics.push(diagnostic.clone());
    }
    Diagnostics(diagnostics)
}

fn empty() -> Diagnostics {
    Diagnostics(techy::error::Diagnostics::new())
}

#[test]
fn two_empty_collections_merge_to_a_fresh_one() {
    let merged = merge(&empty(), &empty());
    assert_eq!(retained_len(&merged), 0);
    assert_eq!(suppressed(&merged), 0);
    assert_eq!(error_count(&merged), 0);
    assert_eq!(merged.0.limit(), 1000);
}

#[test]
fn a_refusal_is_reported_as_a_warning() {
    let first = Diagnostics(parsed(r"\expandafter ab"));
    assert_eq!(retained_len(&first), 1);
    assert_eq!(severity_at(&first, 0), Severity::Error);
    assert_eq!(error_count(&first), 1);
    let merged = merge(&first, &empty());
    assert_eq!(retained_len(&merged), 1);
    assert_eq!(severity_at(&merged, 0), Severity::Warning);
    assert_eq!(error_count(&merged), 0);
    assert_eq!(
        merged.0.iter().next().unwrap().identifier(),
        first.0.iter().next().unwrap().identifier(),
    );
}

#[test]
fn every_refusal_is_demoted_and_only_refusals_are() {
    let source = r"\catcode`\@=11 \expandafter ab \noexpand\x \csname x\endcsname \count0=1 \newcount\c \setcounter{x}{1} \ifx ab \fi \nosuchmacro";
    let first = Diagnostics(parsed(source));
    let merged = merge(&empty(), &first);
    assert_eq!(retained_len(&merged), retained_len(&first));
    let mut refusals = 0;
    for index in 0..retained_len(&first) {
        let identifier = first.0.as_slice()[index].identifier();
        let before = severity_at(&first, index);
        let after = severity_at(&merged, index);
        if identifier.starts_with("techy-xp.presets.") && identifier.ends_with("-unsupported") {
            refusals += 1;
            assert_eq!((before, after), (Severity::Error, Severity::Warning), "{identifier}");
        } else {
            assert_eq!(before, after, "{identifier}");
        }
    }
    assert!(refusals >= 1);
    assert_eq!(error_count(&merged), error_count(&first) - refusals);
}

#[test]
fn an_error_that_is_no_refusal_stays_an_error() {
    let first = Diagnostics(parsed(r"\nosuchmacro"));
    assert_eq!(severity_at(&first, 0), Severity::Error);
    let merged = merge(&first, &first);
    assert_eq!(retained_len(&merged), 2);
    assert_eq!(severity_at(&merged, 0), Severity::Error);
    assert_eq!(severity_at(&merged, 1), Severity::Error);
    assert_eq!(error_count(&merged), 2);
}

#[test]
fn the_first_stages_diagnostics_come_first() {
    let refusal = Diagnostics(parsed(r"\expandafter ab"));
    let error = Diagnostics(parsed(r"\nosuchmacro"));
    let merged = merge(&error, &refusal);
    assert_eq!(severity_at(&merged, 0), Severity::Error);
    assert_eq!(severity_at(&merged, 1), Severity::Warning);
    assert_eq!(error_count(&merged), 1);
}

#[test]
fn a_suppressed_surplus_is_carried_over() {
    let error = first_of(r"\nosuchmacro");
    let first = filled(1, 3, &error);
    assert_eq!((retained_len(&first), suppressed(&first), error_count(&first)), (1, 2, 3));
    let merged = merge(&first, &empty());
    assert_eq!(retained_len(&merged), 1);
    assert_eq!(suppressed(&merged), 2);
    assert_eq!(error_count(&merged), 3);
    assert_eq!(merged.0.limit(), 1);
    assert!(merged.0.has_errors());
}

#[test]
fn suppressed_refusals_are_still_counted_as_the_errors_they_were() {
    let refusal = first_of(r"\expandafter ab");
    let first = filled(1, 3, &refusal);
    let merged = merge(&first, &empty());
    assert_eq!(severity_at(&merged, 0), Severity::Warning);
    assert_eq!(suppressed(&merged), 2);
    assert_eq!(error_count(&merged), 2);
}

#[test]
fn surpluses_of_both_stages_add_up() {
    let error = first_of(r"\nosuchmacro");
    let refusal = first_of(r"\expandafter ab");
    let first = filled(2, 5, &error);
    let second = filled(1, 2, &refusal);
    let merged = merge(&first, &second);
    assert_eq!(retained_len(&merged), 3);
    assert_eq!(merged.0.limit(), 3);
    assert_eq!(suppressed(&merged), 4);
    assert_eq!(error_count(&merged), 5 + 2 - 1);
}

#[test]
fn a_surplus_with_nothing_stored_is_dropped() {
    let error = first_of(r"\nosuchmacro");
    let first = filled(0, 2, &error);
    assert_eq!((retained_len(&first), suppressed(&first), error_count(&first)), (0, 2, 2));
    let merged = merge(&first, &empty());
    assert_eq!(retained_len(&merged), 0);
    assert_eq!(suppressed(&merged), 0);
    assert_eq!(error_count(&merged), 0);
    assert_eq!(merged.0.limit(), 0);
}

#[test]
fn more_than_the_default_limit_stored_keeps_them_all() {
    let error = first_of(r"\nosuchmacro");
    let first = filled(1000, 600, &error);
    let second = filled(1000, 700, &error);
    let merged = merge(&first, &second);
    assert_eq!(retained_len(&merged), 1300);
    assert_eq!(merged.0.limit(), 1300);
    assert_eq!(suppressed(&merged), 0);
    assert_eq!(error_count(&merged), 1300);
}

#[test]
fn the_checked_merge_merges_what_fits() {
    let first = Diagnostics(parsed(r"\expandafter ab"));
    let merged = techxt::convert::merge_checked(&first, &empty()).expect("the counts fit");
    assert_eq!(retained_len(&merged), 1);
    assert_eq!(error_count(&merged), 0);
}
