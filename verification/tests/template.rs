use techxt::template::{ArgRef, Seg, Template, TemplateError, TemplateScope};

fn copy(seg: &Seg) -> Seg {
    match seg {
        Seg::Str(text) => Seg::Str(text.clone()),
        Seg::Arg(reference) => Seg::Arg(reference.clone()),
        Seg::Body => Seg::Body,
        Seg::IfPresent { arg, then, els } => Seg::IfPresent {
            arg: arg.clone(),
            then: then.iter().map(copy).collect(),
            els: els.iter().map(copy).collect(),
        },
    }
}

fn parse(source: &str) -> Result<Vec<Seg>, TemplateError> {
    let template = Template::new(source);
    match template.error() {
        Some(error) => Err(error.clone()),
        None => Ok(template.segments().iter().map(copy).collect()),
    }
}

fn name(text: &str) -> ArgRef {
    ArgRef::Name(text.into())
}

fn str_seg(text: &str) -> Seg {
    Seg::Str(text.into())
}

// ------------------------------------------------------------------ parsing

#[test]
fn plain_text_is_one_literal_segment() {
    assert_eq!(parse("hello"), Ok(vec![str_seg("hello")]));
}

#[test]
fn the_empty_template_has_no_segments() {
    assert_eq!(parse(""), Ok(Vec::new()));
}

#[test]
fn braces_are_escaped_by_doubling() {
    assert_eq!(parse("{{a}}"), Ok(vec![str_seg("{a}")]));
    assert_eq!(parse("{{{a}"), Ok(vec![str_seg("{"), Seg::Arg(name("a"))]));
}

#[test]
fn a_lone_closing_brace_is_text() {
    assert_eq!(parse("a}b"), Ok(vec![str_seg("a}b")]));
}

#[test]
fn references_come_out_typed() {
    assert_eq!(parse("{text}"), Ok(vec![Seg::Arg(name("text"))]));
    assert_eq!(parse("{2}"), Ok(vec![Seg::Arg(ArgRef::Index(2))]));
    assert_eq!(parse("{body}"), Ok(vec![Seg::Body]));
}

#[test]
fn a_reference_and_literals_interleave() {
    assert_eq!(
        parse("{text} <{url}>"),
        Ok(vec![
            Seg::Arg(name("text")),
            str_seg(" <"),
            Seg::Arg(name("url")),
            str_seg(">"),
        ])
    );
}

#[test]
fn a_conditional_has_two_branches() {
    assert_eq!(
        parse("{?star:s|p}"),
        Ok(vec![Seg::IfPresent {
            arg: name("star"),
            then: vec![str_seg("s")],
            els: vec![str_seg("p")],
        }])
    );
}

#[test]
fn a_conditional_may_omit_the_else_branch() {
    assert_eq!(
        parse("{?opt:[{opt}]}"),
        Ok(vec![Seg::IfPresent {
            arg: name("opt"),
            then: vec![str_seg("["), Seg::Arg(name("opt")), str_seg("]")],
            els: Vec::new(),
        }])
    );
}

#[test]
fn a_conditional_may_test_an_index() {
    assert_eq!(
        parse("{?1:yes}"),
        Ok(vec![Seg::IfPresent {
            arg: ArgRef::Index(1),
            then: vec![str_seg("yes")],
            els: Vec::new(),
        }])
    );
}

#[test]
fn a_branch_may_contain_escaped_braces() {
    assert_eq!(
        parse("{?a:{{|}}}"),
        Ok(vec![Seg::IfPresent {
            arg: name("a"),
            then: vec![str_seg("{")],
            els: vec![str_seg("}")],
        }])
    );
}

// ------------------------------------------------------------ syntax errors

#[test]
fn an_unterminated_reference_is_refused() {
    assert_eq!(parse("{text"), Err(TemplateError::UnterminatedConstruct));
    assert_eq!(parse("a{b{c}"), Err(TemplateError::UnterminatedConstruct));
}

#[test]
fn an_unterminated_conditional_is_refused() {
    assert_eq!(parse("{?a:x"), Err(TemplateError::UnterminatedConstruct));
    assert_eq!(parse("{?a:x|y"), Err(TemplateError::UnterminatedConstruct));
    assert_eq!(parse("{?a}"), Err(TemplateError::UnterminatedConstruct));
    assert_eq!(parse("{?a"), Err(TemplateError::UnterminatedConstruct));
}

#[test]
fn a_third_branch_is_refused() {
    assert_eq!(
        parse("{?a:x|y|z}"),
        Err(TemplateError::UnterminatedConstruct)
    );
}

#[test]
fn a_conditional_inside_a_branch_is_refused() {
    assert_eq!(parse("{?a:{?b:x}}"), Err(TemplateError::NestedConditional));
    assert_eq!(
        parse("{?a:x|{?b:y}}"),
        Err(TemplateError::NestedConditional)
    );
}

// -------------------------------------------------------------- validation

fn names(list: &[&str]) -> Vec<String> {
    list.iter().map(|name| String::from(*name)).collect()
}

fn check(source: &str, declared: &[&str], has_body: bool) -> Result<(), TemplateError> {
    let declared = names(declared);
    Template::new(source).validate(TemplateScope::declared(&declared, has_body))
}

#[test]
fn a_declared_name_validates() {
    assert_eq!(check("{a}-{b}", &["a", "b"], false), Ok(()));
}

#[test]
fn an_undeclared_name_is_refused() {
    assert_eq!(
        check("{c}", &["a", "b"], false),
        Err(TemplateError::UnknownArgumentName { name: "c".into() })
    );
}

#[test]
fn an_empty_name_is_refused_even_without_declared_names() {
    assert_eq!(
        Template::new("{}").validate(TemplateScope::unchecked(false)),
        Err(TemplateError::UnknownArgumentName { name: "".into() })
    );
}

#[test]
fn index_zero_is_refused() {
    assert_eq!(
        check("{0}", &["a"], false),
        Err(TemplateError::ArgumentIndexOutOfRange { index: 0, count: 1 })
    );
}

#[test]
fn an_index_past_the_last_argument_is_refused() {
    assert_eq!(
        check("{3}", &["a", "b"], false),
        Err(TemplateError::ArgumentIndexOutOfRange { index: 3, count: 2 })
    );
    assert_eq!(check("{2}", &["a", "b"], false), Ok(()));
}

#[test]
fn an_index_too_large_for_usize_is_out_of_range() {
    assert_eq!(
        check("{99999999999999999999999}", &["a"], false),
        Err(TemplateError::ArgumentIndexOutOfRange {
            index: usize::MAX,
            count: 1
        })
    );
}

#[test]
fn body_needs_an_environment() {
    assert_eq!(check("{body}", &[], true), Ok(()));
    assert_eq!(
        check("{body}", &[], false),
        Err(TemplateError::BodyOutsideEnvironment)
    );
}

#[test]
fn validation_reaches_inside_a_conditional() {
    assert_eq!(
        check("{?a:{c}}", &["a"], false),
        Err(TemplateError::UnknownArgumentName { name: "c".into() })
    );
    assert_eq!(
        check("{?a:x|{c}}", &["a"], false),
        Err(TemplateError::UnknownArgumentName { name: "c".into() })
    );
    assert_eq!(
        check("{?c:x}", &["a"], false),
        Err(TemplateError::UnknownArgumentName { name: "c".into() })
    );
}

#[test]
fn validation_re_reports_a_syntax_error() {
    assert_eq!(
        check("{a", &["a"], false),
        Err(TemplateError::UnterminatedConstruct)
    );
}

#[test]
fn an_unchecked_scope_accepts_names_it_cannot_know() {
    assert_eq!(
        Template::new("{whatever}{7}").validate(TemplateScope::unchecked(false)),
        Ok(())
    );
    // ... but never index 0, which no definition can have, nor a body where there is
    // none.
    assert_eq!(
        Template::new("{0}").validate(TemplateScope::unchecked(false)),
        Err(TemplateError::ArgumentIndexOutOfRange { index: 0, count: 0 })
    );
    assert_eq!(
        Template::new("{body}").validate(TemplateScope::unchecked(false)),
        Err(TemplateError::BodyOutsideEnvironment)
    );
}

// ------------------------------------------------------------- round trips

/// Write segments back out as template source.
fn unparse(segments: &[Seg]) -> String {
    let mut out = String::new();
    for segment in segments {
        match segment {
            Seg::Str(text) => {
                for ch in text.chars() {
                    match ch {
                        '{' => out.push_str("{{"),
                        '}' => out.push_str("}}"),
                        _ => out.push(ch),
                    }
                }
            }
            Seg::Arg(ArgRef::Name(name)) => {
                out.push('{');
                out.push_str(name);
                out.push('}');
            }
            Seg::Arg(ArgRef::Index(index)) => {
                out.push_str(&format!("{{{index}}}"));
            }
            Seg::Body => out.push_str("{body}"),
            Seg::IfPresent { arg, then, els } => {
                out.push_str("{?");
                match arg {
                    ArgRef::Name(name) => out.push_str(name),
                    ArgRef::Index(index) => out.push_str(&format!("{index}")),
                }
                out.push(':');
                out.push_str(&unparse(then));
                if !els.is_empty() {
                    out.push('|');
                    out.push_str(&unparse(els));
                }
                out.push('}');
            }
        }
    }
    out
}

#[test]
fn unparsing_a_parsed_template_reproduces_its_meaning() {
    for source in [
        "",
        "plain",
        "{{a}}",
        "{text} <{url}>",
        "{1}{2}",
        "{body} tail",
        "{?star:*|}",
        "{?opt:[{opt}] }rest",
    ] {
        let segments = parse(source).expect("well-formed");
        let round_tripped = parse(&unparse(&segments)).expect("unparse stays valid");
        assert_eq!(segments, round_tripped, "source: {source}");
    }
}

// ------------------------------------------------------------- of our own

#[test]
fn the_source_is_kept_as_written() {
    let template = Template::new("{text} <{url}>");
    assert_eq!(template.source(), "{text} <{url}>");
    assert!(template.error().is_none());
    assert_eq!(Template::new("{unterminated").error(), Some(&TemplateError::UnterminatedConstruct));
}

#[test]
fn an_uncompiled_template_has_no_segments() {
    assert!(Template::new("{?a:{?b:c}}").segments().is_empty());
}

#[test]
fn non_ascii_text_survives_compilation() {
    assert_eq!(parse("«{a}»"), Ok(vec![str_seg("«"), Seg::Arg(name("a")), str_seg("»")]));
}

#[test]
fn digits_mixed_with_letters_are_a_name() {
    assert_eq!(parse("{1a}"), Ok(vec![Seg::Arg(name("1a"))]));
    assert_eq!(parse("{007}"), Ok(vec![Seg::Arg(ArgRef::Index(7))]));
}

#[test]
fn errors_say_what_is_wrong() {
    assert_eq!(
        TemplateError::UnknownArgumentName { name: "c".into() }.message(),
        "no argument named ‘c’"
    );
    assert_eq!(
        TemplateError::ArgumentIndexOutOfRange { index: 3, count: 2 }.message(),
        "argument index 3 is out of range (1..=2; indices are 1-based)"
    );
    assert_eq!(
        TemplateError::BodyOutsideEnvironment.message(),
        "‘{body}’ is only available in an environment's template"
    );
    assert_eq!(
        TemplateError::NestedConditional.message(),
        "a conditional may not contain another conditional"
    );
    assert_eq!(
        TemplateError::UnterminatedConstruct.message(),
        "unterminated ‘{…}’ construct"
    );
}

#[test]
fn validation_reads_as_its_rules_say() {
    let declared = vec![String::from("a"), String::from("b")];
    let scope = TemplateScope::declared(&declared, false);
    assert!(Template::new("{a}{?b:{2}|{1}}").validate(scope).is_ok());
    assert!(Template::new("{?c:x}").validate(scope).is_err());
    assert!(Template::new("{?a:{3}}").validate(scope).is_err());
    assert!(Template::new("{?a:x|{body}}").validate(scope).is_err());
    assert!(Template::new("{?a:x|{body}}")
        .validate(TemplateScope::declared(&declared, true))
        .is_ok());
}
