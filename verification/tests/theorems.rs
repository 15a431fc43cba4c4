use techxt::defs::mathcore::capitalized;
use techxt::defs::theorems::{indented, render_abstract, render_caption, FloatKind, Theorem};
use techxt::flow::Flow;
use techxt::layout::{render, LayoutOptions};

fn text(flow: &Flow) -> String {
    render(flow, &LayoutOptions::default())
}

#[test]
fn an_indented_block_prefixes_every_line() {
    let body = Flow::from_plain_text("one\n\ntwo");
    assert_eq!(text(&indented(body, "    ")), "    one\n\n    two\n");
    assert_eq!(text(&indented(Flow::text("x"), "")), "x\n");
}

#[test]
fn a_theorem_reads_label_note_body_and_mark() {
    let theorem = Theorem { label: "Theorem", qed: false };
    let flow = theorem.render(Some(Flow::from_plain_text("Fermat")), Flow::from_plain_text("No solutions."));
    assert_eq!(text(&flow), "Theorem (Fermat). No solutions.\n");

    let proof = Theorem { label: "Proof", qed: true };
    let flow = proof.render(None, Flow::from_plain_text("Obvious."));
    assert_eq!(text(&flow), "Proof. Obvious. □\n");
}

#[test]
fn an_empty_note_is_no_note() {
    let theorem = Theorem { label: "Lemma", qed: false };
    let flow = theorem.render(Some(Flow::from_plain_text("  ")), Flow::from_plain_text("Body."));
    assert_eq!(text(&flow), "Lemma. Body.\n");
}

#[test]
fn an_abstract_and_a_caption_are_paragraphs_of_their_own() {
    assert_eq!(
        text(&render_abstract(Flow::from_plain_text("We show it."))),
        "Abstract\n\n    We show it.\n"
    );
    assert_eq!(
        text(&render_caption(Some(FloatKind::Figure), Flow::from_plain_text("A cat."))),
        "Figure: A cat.\n"
    );
    assert_eq!(
        text(&render_caption(None, Flow::from_plain_text("Loose."))),
        "Caption: Loose.\n"
    );
}

#[test]
fn a_capital_greek_letter_is_spelled_with_a_capital() {
    assert_eq!(capitalized("alpha"), "Alpha");
    assert_eq!(capitalized("ß"), "SS");
    assert_eq!(capitalized(""), "");
}
