use techxt::diag::{
    HandlerFailed, InputNotResolved, MisplacedAlignment, RenderAborted, Severity, StrayItem,
    UnknownEnvironment, UnknownMacro, UnknownSpecials, UnsupportedIgnored,
};

#[test]
fn identifiers_match_the_plan_table() {
    assert_eq!(UnknownMacro::IDENTIFIER, "techxt.unknown-macro");
    assert_eq!(UnknownEnvironment::IDENTIFIER, "techxt.unknown-environment");
    assert_eq!(UnknownSpecials::IDENTIFIER, "techxt.unknown-specials");
    assert_eq!(HandlerFailed::IDENTIFIER, "techxt.handler-failed");
    assert_eq!(UnsupportedIgnored::IDENTIFIER, "techxt.unsupported-ignored");
    assert_eq!(MisplacedAlignment::IDENTIFIER, "techxt.misplaced-alignment");
    assert_eq!(StrayItem::IDENTIFIER, "techxt.stray-item");
    assert_eq!(InputNotResolved::IDENTIFIER, "techxt.input-not-resolved");
    assert_eq!(RenderAborted::IDENTIFIER, "techxt.render-aborted");
}

#[test]
fn severities_match_the_plan_table() {
    assert_eq!(UnknownMacro::SEVERITY, Severity::Warning);
    assert_eq!(UnknownEnvironment::SEVERITY, Severity::Warning);
    assert_eq!(UnknownSpecials::SEVERITY, Severity::Warning);
    assert_eq!(HandlerFailed::SEVERITY, Severity::Error);
    assert_eq!(UnsupportedIgnored::SEVERITY, Severity::Warning);
    assert_eq!(MisplacedAlignment::SEVERITY, Severity::Warning);
    assert_eq!(StrayItem::SEVERITY, Severity::Warning);
    assert_eq!(InputNotResolved::SEVERITY, Severity::Note);
    assert_eq!(RenderAborted::SEVERITY, Severity::Error);
}

#[test]
fn conditions_are_displayable() {
    assert_eq!(
        UnsupportedIgnored::new("\\multicolumn", "the column span").message(),
        "‘\\multicolumn’: the column span is not supported and was ignored"
    );
    assert_eq!(StrayItem::new().message(), "‘\\item’ outside a list");
}

#[test]
fn every_message_quotes_its_payload() {
    assert_eq!(UnknownMacro::new("emph").message(), "no text rule for the macro ‘\\emph’");
    assert_eq!(UnknownEnvironment::new("myenv").message(), "no text rule for the environment ‘myenv’");
    assert_eq!(UnknownSpecials::new("~").message(), "no text rule for the specials ‘~’");
    assert_eq!(
        HandlerFailed::new("\\href", "no url").message(),
        "‘\\href’ could not be rendered: no url"
    );
    assert_eq!(MisplacedAlignment::new().message(), "‘&’ outside a table or matrix");
    assert_eq!(
        InputNotResolved::new("chapters/intro.tex").message(),
        "‘chapters/intro.tex’ was not resolved and could not be included"
    );
    assert_eq!(RenderAborted::new("too deep").message(), "rendering was aborted: too deep");
    assert_eq!(UnknownMacro::new("emph").name, "emph");
}
