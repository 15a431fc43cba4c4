//! The links category: URLs in angle brackets, link text before its target.

use vstd::prelude::*;

use crate::def::{template_macro, ArgView, Category, CategoryView, EnvDefView, MacroDef, MacroDefView, SpecialsDefView, TextRule};
use crate::template::Template;

verus! {

/// techy's argument code for "verbatim, delimited by braces": a URL must never swallow a
/// following expression, and its `%` and `#` are characters, not markup.
pub open spec fn verbatim_braces() -> Seq<char> {
    "v{}"@
}

/// The links macros, in declaration order: `\url` and `\nolinkurl` as `<url>`, `\href` as
/// `text <url>`, and `\path` as the path itself — a file name, not a link.
pub open spec fn links_macros() -> Seq<MacroDefView> {
    seq![
        template_macro("url"@, seq![ArgView { code: Some(verbatim_braces()), name: "url"@ }], "<{url}>"@),
        template_macro(
            "href"@,
            seq![ArgView { code: Some(verbatim_braces()), name: "url"@ }, ArgView { code: Some("m"@), name: "text"@ }],
            "{text} <{url}>"@,
        ),
        template_macro("nolinkurl"@, seq![ArgView { code: Some(verbatim_braces()), name: "url"@ }], "<{url}>"@),
        template_macro("path"@, seq![ArgView { code: Some(verbatim_braces()), name: "path"@ }], "{path}"@),
    ]
}

/// The category [`category`] builds.
pub open spec fn category_view() -> CategoryView {
    CategoryView {
        name: "links"@,
        macros: links_macros(),
        environments: Seq::<EnvDefView>::empty(),
        specials: Seq::<SpecialsDefView>::empty(),
    }
}

/// The links category.
pub fn category() -> (c: Category)
    ensures
        c@ == category_view(),
{
    let url = MacroDef::new("url").arg("v{}", "url").rule(TextRule::Template(Template::new("<{url}>")));
    let href = MacroDef::new("href").arg("v{}", "url").arg("m", "text").rule(
        TextRule::Template(Template::new("{text} <{url}>")),
    );
    let nolinkurl = MacroDef::new("nolinkurl").arg("v{}", "url").rule(TextRule::Template(Template::new("<{url}>")));
    let path = MacroDef::new("path").arg("v{}", "path").rule(TextRule::Template(Template::new("{path}")));
    proof {
        let l = links_macros();
        assert(url@.args =~= l[0].args);
        assert(href@.args =~= l[1].args);
        assert(nolinkurl@.args =~= l[2].args);
        assert(path@.args =~= l[3].args);
    }
    let c = Category::new("links").with_macro(url).with_macro(href).with_macro(nolinkurl).with_macro(path);
    assert(c@.macros =~= links_macros());
    c
}

} // verus!
