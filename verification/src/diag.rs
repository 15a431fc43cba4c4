//! The diagnostic conditions a conversion raises: a construct it does not know, an
//! effect it cannot reproduce, a handler that failed.
//!
//! Conversion always continues; a diagnostic is a report, not a control-flow device.
//! Each condition carries a stable identifier for machine-readable output, and is always
//! raised at one severity:
//!
//! | condition | identifier | severity |
//! |---|---|---|
//! | [`UnknownMacro`] | `techxt.unknown-macro` | warning |
//! | [`UnknownEnvironment`] | `techxt.unknown-environment` | warning |
//! | [`UnknownSpecials`] | `techxt.unknown-specials` | warning |
//! | [`HandlerFailed`] | `techxt.handler-failed` | error |
//! | [`UnsupportedIgnored`] | `techxt.unsupported-ignored` | warning |
//! | [`MisplacedAlignment`] | `techxt.misplaced-alignment` | warning |
//! | [`StrayItem`] | `techxt.stray-item` | warning |
//! | [`InputNotResolved`] | `techxt.input-not-resolved` | note |
//! | [`RenderAborted`] | `techxt.render-aborted` | error |

use vstd::prelude::*;

use vstd::string::StringExecFns;

verus! {

/// How serious a diagnostic is.
#[derive(Clone, Copy, Debug, PartialEq, Eq, Structural, Hash)]
pub enum Severity {
    /// Worth knowing, not a problem: running without a resolver is ordinary.
    Note,
    /// The document converted; one construct in it did not.
    Warning,
    /// The library's own definitions and code disagreed, or the document was cut off.
    Error,
}

/// A message built from fixed text with the given pieces in between.
pub(crate) fn message_of(pieces: &[&str], values: &[&str]) -> (text: String)
    requires
        pieces@.len() == values@.len() + 1,
    ensures
        text@ == interleaved(pieces@.map_values(|p: &str| p@), values@.map_values(|v: &str| v@)),
{
    let ghost ps = pieces@.map_values(|p: &str| p@);
    let ghost vs = values@.map_values(|v: &str| v@);
    let mut text = String::from_str(pieces[0]);
    let mut i: usize = 0;
    while i < values.len()
        invariant
            pieces@.len() == values@.len() + 1,
            ps == pieces@.map_values(|p: &str| p@),
            vs == values@.map_values(|v: &str| v@),
            i <= values@.len(),
            text@ == interleaved(ps.take(i + 1), vs.take(i as int)),
        decreases values@.len() - i,
    {
        text.append(values[i]);
        text.append(pieces[i + 1]);
        proof {
            assert(ps.take(i + 2).drop_last() =~= ps.take(i + 1));
            assert(vs.take(i + 1).drop_last() =~= vs.take(i as int));
        }
        i = i + 1;
    }
    proof {
        assert(ps.take(i + 1) =~= ps);
        assert(vs.take(i as int) =~= vs);
    }
    text
}

/// Fixed pieces with values between them: `p0 v0 p1 v1 … pn`.
pub open spec fn interleaved(pieces: Seq<Seq<char>>, values: Seq<Seq<char>>) -> Seq<char>
    decreases values.len(),
{
    if values.len() == 0 || pieces.len() == 0 {
        if pieces.len() > 0 { pieces[0] } else { Seq::empty() }
    } else {
        interleaved(pieces.drop_last(), values.drop_last()) + values.last() + pieces.last()
    }
}

/// A macro was invoked that no rule renders.
///
/// How the invocation is rendered is the unknown-macro policy's choice; the diagnostic is
/// raised whatever the policy says.
#[derive(Debug, Clone, PartialEq, Eq)]
#[non_exhaustive]
pub struct UnknownMacro {
    /// The macro's name, without the escape character (`emph`).
    pub name: String,
}

impl UnknownMacro {
    /// The identifier this condition is reported under.
    pub const IDENTIFIER: &'static str = "techxt.unknown-macro";

    /// The severity this condition is always raised at.
    pub const SEVERITY: Severity = Severity::Warning;

    /// The condition for the macro `name`.
    pub fn new(name: &str) -> (c: UnknownMacro)
        ensures
            c.name@ == name@,
    {
        UnknownMacro { name: name.to_owned() }
    }

    /// What the condition says: `no text rule for the macro ‘\name’`.
    pub fn message(&self) -> (text: String)
        ensures
            text@ == interleaved(seq!["no text rule for the macro \u{2018}\\"@, "\u{2019}"@], seq![self.name@]),
    {
        let pieces = ["no text rule for the macro \u{2018}\\", "\u{2019}"];
        let values = [self.name.as_str()];
        let text = message_of(&pieces, &values);
        assert(pieces@.map_values(|p: &str| p@) =~= seq!["no text rule for the macro \u{2018}\\"@, "\u{2019}"@]);
        assert(values@.map_values(|v: &str| v@) =~= seq![self.name@]);
        text
    }
}

/// An environment was used that no rule renders.
///
/// By default the body is still rendered, since an unknown wrapper rarely means the text
/// inside it is unwanted. The diagnostic is raised whatever the policy says.
#[derive(Debug, Clone, PartialEq, Eq)]
#[non_exhaustive]
pub struct UnknownEnvironment {
    /// The environment's name, as written in `\begin{…}` (`itemize`).
    pub name: String,
}

impl UnknownEnvironment {
    /// The identifier this condition is reported under.
    pub const IDENTIFIER: &'static str = "techxt.unknown-environment";

    /// The severity this condition is always raised at.
    pub const SEVERITY: Severity = Severity::Warning;

    /// The condition for the environment `name`.
    pub fn new(name: &str) -> (c: UnknownEnvironment)
        ensures
            c.name@ == name@,
    {
        UnknownEnvironment { name: name.to_owned() }
    }

    /// What the condition says: `no text rule for the environment ‘name’`.
    pub fn message(&self) -> (text: String)
        ensures
            text@ == interleaved(seq!["no text rule for the environment \u{2018}"@, "\u{2019}"@], seq![self.name@]),
    {
        let pieces = ["no text rule for the environment \u{2018}", "\u{2019}"];
        let values = [self.name.as_str()];
        let text = message_of(&pieces, &values);
        assert(pieces@.map_values(|p: &str| p@) =~= seq!["no text rule for the environment \u{2018}"@, "\u{2019}"@]);
        assert(values@.map_values(|v: &str| v@) =~= seq![self.name@]);
        text
    }
}

/// A specials construct was parsed that no rule renders.
///
/// Specials are keyed by the characters that trigger them (`~`, `---`, `&`).
#[derive(Debug, Clone, PartialEq, Eq)]
#[non_exhaustive]
pub struct UnknownSpecials {
    /// The trigger characters, as written.
    pub chars: String,
}

impl UnknownSpecials {
    /// The identifier this condition is reported under.
    pub const IDENTIFIER: &'static str = "techxt.unknown-specials";

    /// The severity this condition is always raised at.
    pub const SEVERITY: Severity = Severity::Warning;

    /// The condition for the trigger characters `chars`.
    pub fn new(chars: &str) -> (c: UnknownSpecials)
        ensures
            c.chars@ == chars@,
    {
        UnknownSpecials { chars: chars.to_owned() }
    }

    /// What the condition says: `no text rule for the specials ‘chars’`.
    pub fn message(&self) -> (text: String)
        ensures
            text@ == interleaved(seq!["no text rule for the specials \u{2018}"@, "\u{2019}"@], seq![self.chars@]),
    {
        let pieces = ["no text rule for the specials \u{2018}", "\u{2019}"];
        let values = [self.chars.as_str()];
        let text = message_of(&pieces, &values);
        assert(pieces@.map_values(|p: &str| p@) =~= seq!["no text rule for the specials \u{2018}"@, "\u{2019}"@]);
        assert(values@.map_values(|v: &str| v@) =~= seq![self.chars@]);
        text
    }
}

/// A handler returned an error.
///
/// The construct renders as nothing and the conversion continues. This is an error rather
/// than a warning because, unlike an unknown construct, it means the library's own
/// definitions and its own code disagreed.
#[derive(Debug, Clone, PartialEq, Eq)]
#[non_exhaustive]
pub struct HandlerFailed {
    /// The construct as written (`\href`, `tabular`).
    pub construct: String,
    /// What went wrong, in human-readable form.
    pub detail: String,
}

impl HandlerFailed {
    /// The identifier this condition is reported under.
    pub const IDENTIFIER: &'static str = "techxt.handler-failed";

    /// The severity this condition is always raised at.
    pub const SEVERITY: Severity = Severity::Error;

    /// The condition for `construct`, failed for the reason `detail`.
    pub fn new(construct: &str, detail: &str) -> (c: HandlerFailed)
        ensures
            c.construct@ == construct@,
            c.detail@ == detail@,
    {
        HandlerFailed { construct: construct.to_owned(), detail: detail.to_owned() }
    }

    /// What the condition says: `‘construct’ could not be rendered: detail`.
    pub fn message(&self) -> (text: String)
        ensures
            text@ == interleaved(
                seq!["\u{2018}"@, "\u{2019} could not be rendered: "@, ""@],
                seq![self.construct@, self.detail@],
            ),
    {
        let pieces = ["\u{2018}", "\u{2019} could not be rendered: ", ""];
        let values = [self.construct.as_str(), self.detail.as_str()];
        let text = message_of(&pieces, &values);
        assert(pieces@.map_values(|p: &str| p@) =~= seq!["\u{2018}"@, "\u{2019} could not be rendered: "@, ""@]);
        assert(values@.map_values(|v: &str| v@) =~= seq![self.construct@, self.detail@]);
        text
    }
}

/// A construct was understood, but part of what it asks for cannot be expressed in plain
/// text and was dropped: a `\multicolumn` span, a list package's options.
#[derive(Debug, Clone, PartialEq, Eq)]
#[non_exhaustive]
pub struct UnsupportedIgnored {
    /// The construct as written (`\multicolumn`, `tabular`).
    pub construct: String,
    /// What exactly was dropped (`the column span`).
    pub what: String,
}

impl UnsupportedIgnored {
    /// The identifier this condition is reported under.
    pub const IDENTIFIER: &'static str = "techxt.unsupported-ignored";

    /// The severity this condition is always raised at.
    pub const SEVERITY: Severity = Severity::Warning;

    /// The condition for `construct`, of which `what` was dropped.
    pub fn new(construct: &str, what: &str) -> (c: UnsupportedIgnored)
        ensures
            c.construct@ == construct@,
            c.what@ == what@,
    {
        UnsupportedIgnored { construct: construct.to_owned(), what: what.to_owned() }
    }

    /// What the condition says: `‘construct’: what is not supported and was ignored`.
    pub fn message(&self) -> (text: String)
        ensures
            text@ == interleaved(
                seq!["\u{2018}"@, "\u{2019}: "@, " is not supported and was ignored"@],
                seq![self.construct@, self.what@],
            ),
    {
        let pieces = ["\u{2018}", "\u{2019}: ", " is not supported and was ignored"];
        let values = [self.construct.as_str(), self.what.as_str()];
        let text = message_of(&pieces, &values);
        assert(pieces@.map_values(|p: &str| p@) =~= seq!["\u{2018}"@, "\u{2019}: "@, " is not supported and was ignored"@]);
        assert(values@.map_values(|v: &str| v@) =~= seq![self.construct@, self.what@]);
        text
    }
}

/// An alignment character (`&`) appeared outside any table or matrix, and was dropped.
#[derive(Debug, Clone, Copy, PartialEq, Eq)]
#[non_exhaustive]
pub struct MisplacedAlignment;

impl MisplacedAlignment {
    /// The identifier this condition is reported under.
    pub const IDENTIFIER: &'static str = "techxt.misplaced-alignment";

    /// The severity this condition is always raised at.
    pub const SEVERITY: Severity = Severity::Warning;

    /// The condition.
    pub fn new() -> (c: MisplacedAlignment) {
        MisplacedAlignment
    }

    /// What the condition says: `‘&’ outside a table or matrix`.
    pub fn message(&self) -> (text: String)
        ensures
            text@ == "\u{2018}&\u{2019} outside a table or matrix"@,
    {
        String::from_str("\u{2018}&\u{2019} outside a table or matrix")
    }
}

/// An `\item` appeared outside any list environment. The item is still rendered, with a
/// generic marker, because dropping it would lose the text that follows it.
#[derive(Debug, Clone, Copy, PartialEq, Eq)]
#[non_exhaustive]
pub struct StrayItem;

impl StrayItem {
    /// The identifier this condition is reported under.
    pub const IDENTIFIER: &'static str = "techxt.stray-item";

    /// The severity this condition is always raised at.
    pub const SEVERITY: Severity = Severity::Warning;

    /// The condition.
    pub fn new() -> (c: StrayItem) {
        StrayItem
    }

    /// What the condition says: `‘\item’ outside a list`.
    pub fn message(&self) -> (text: String)
        ensures
            text@ == "\u{2018}\\item\u{2019} outside a list"@,
    {
        String::from_str("\u{2018}\\item\u{2019} outside a list")
    }
}

/// An `\input`-like macro had no resolved content attached to it. A note rather than a
/// warning: running without a resolver is a perfectly ordinary configuration.
#[derive(Debug, Clone, PartialEq, Eq)]
#[non_exhaustive]
pub struct InputNotResolved {
    /// The reference as written in the document (`chapters/intro.tex`).
    pub target: String,
}

impl InputNotResolved {
    /// The identifier this condition is reported under.
    pub const IDENTIFIER: &'static str = "techxt.input-not-resolved";

    /// The severity this condition is always raised at.
    pub const SEVERITY: Severity = Severity::Note;

    /// The condition for the reference `target`.
    pub fn new(target: &str) -> (c: InputNotResolved)
        ensures
            c.target@ == target@,
    {
        InputNotResolved { target: target.to_owned() }
    }

    /// What the condition says: `‘target’ was not resolved and could not be included`.
    pub fn message(&self) -> (text: String)
        ensures
            text@ == interleaved(
                seq!["\u{2018}"@, "\u{2019} was not resolved and could not be included"@],
                seq![self.target@],
            ),
    {
        let pieces = ["\u{2018}", "\u{2019} was not resolved and could not be included"];
        let values = [self.target.as_str()];
        let text = message_of(&pieces, &values);
        assert(pieces@.map_values(|p: &str| p@) =~= seq!["\u{2018}"@, "\u{2019} was not resolved and could not be included"@]);
        assert(values@.map_values(|v: &str| v@) =~= seq![self.target@]);
        text
    }
}

/// The renderer gave up on the document: the tree nests further than the configured
/// limit. The conversion returns empty text plus this diagnostic.
#[derive(Debug, Clone, PartialEq, Eq)]
#[non_exhaustive]
pub struct RenderAborted {
    /// What the descent guard reported.
    pub detail: String,
}

impl RenderAborted {
    /// The identifier this condition is reported under.
    pub const IDENTIFIER: &'static str = "techxt.render-aborted";

    /// The severity this condition is always raised at.
    pub const SEVERITY: Severity = Severity::Error;

    /// The condition for the reason `detail`.
    pub fn new(detail: &str) -> (c: RenderAborted)
        ensures
            c.detail@ == detail@,
    {
        RenderAborted { detail: detail.to_owned() }
    }

    /// What the condition says: `rendering was aborted: detail`.
    pub fn message(&self) -> (text: String)
        ensures
            text@ == interleaved(seq!["rendering was aborted: "@, ""@], seq![self.detail@]),
    {
        let pieces = ["rendering was aborted: ", ""];
        let values = [self.detail.as_str()];
        let text = message_of(&pieces, &values);
        assert(pieces@.map_values(|p: &str| p@) =~= seq!["rendering was aborted: "@, ""@]);
        assert(values@.map_values(|v: &str| v@) =~= seq![self.detail@]);
        text
    }
}

} // verus!
