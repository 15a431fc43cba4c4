//! The template mini-language: its source syntax, its parser, and the typed form a
//! renderer executes.
//!
//! A template is replacement text with holes for a construct's arguments:
//! `\href{url}{text}` is `"{text} <{url}>"`.
//!
//! ```text
//! template   := ( literal | escape | ref | cond )*
//! escape     := "{{" | "}}"                      # a literal brace
//! ref        := "{" name "}" | "{" integer "}"   # named argument | 1-based index
//!                                                # "{body}" — environments only
//! cond       := "{?" name ":" branch ( "|" branch )? "}"
//! branch     := ( literal | escape | ref )*      # no nested conditionals, no "|" literal
//! ```
//!
//! An argument that was not written renders as nothing; `{?name:then|else}` chooses by
//! whether it was. A reference by index counts from **one**. A `}` that closes nothing
//! is an ordinary character.
//!
//! [`Template::new`] never fails: a syntax error is kept and reported by
//! [`Template::error`] and by [`Template::validate`], which also checks the names a
//! template uses against the definition it belongs to.

use vstd::prelude::*;

use crate::text::{chars_of, decimal_text, push_char, push_decimal};
use vstd::string::StringExecFns;

verus! {

// ------------------------------------------------------------------ the typed form

/// How a [`Seg`] names an argument.
#[derive(Clone, Debug, PartialEq, Eq)]
pub enum ArgRef {
    /// By the name the definition gave it.
    Name(String),
    /// By 1-based position in the declaration order.
    Index(usize),
}

/// One piece of a [`Template`].
#[derive(Debug, PartialEq, Eq)]
pub enum Seg {
    /// Literal text.
    Str(String),
    /// The content of one argument, empty when the argument is absent.
    Arg(ArgRef),
    /// The environment's body (refused by validation for macros and specials).
    Body,
    /// `{?name:then|else}`: one branch or the other, depending on whether the argument
    /// was written. Branches hold no conditionals of their own.
    IfPresent {
        /// The argument whose presence decides.
        arg: ArgRef,
        /// Rendered when the argument was written.
        then: Vec<Seg>,
        /// Rendered when it was not; empty when the template gave no else branch.
        els: Vec<Seg>,
    },
}

/// Why a template could not be compiled, or does not fit its definition.
#[non_exhaustive]
#[derive(Clone, Debug, PartialEq, Eq)]
pub enum TemplateError {
    /// `{foo}`, where the definition declares no argument named `foo`.
    UnknownArgumentName {
        /// The name the template used.
        name: String,
    },
    /// `{0}`, or `{3}` on a two-argument definition. Indices are 1-based.
    ArgumentIndexOutOfRange {
        /// The index the template used.
        index: usize,
        /// How many arguments the definition declares.
        count: usize,
    },
    /// `{body}` in a macro's or a specials' template: only environments have a body.
    BodyOutsideEnvironment,
    /// A conditional inside a conditional's branch, which the grammar does not allow.
    NestedConditional,
    /// A `{…}` reference or a `{?…}` conditional that never closes — or that closes
    /// somewhere the grammar does not allow, such as a conditional with a third branch.
    UnterminatedConstruct,
}

/// An argument reference, as a mathematical value.
pub enum ArgRefView {
    Name(Seq<char>),
    Index(usize),
}

/// A template segment, as a mathematical value.
pub enum SegView {
    Str(Seq<char>),
    Arg(ArgRefView),
    Body,
    IfPresent { arg: ArgRefView, then: Seq<SegView>, els: Seq<SegView> },
}

/// A template error, as a mathematical value.
pub enum TemplateErrorView {
    UnknownArgumentName { name: Seq<char> },
    ArgumentIndexOutOfRange { index: usize, count: usize },
    BodyOutsideEnvironment,
    NestedConditional,
    UnterminatedConstruct,
}

impl View for ArgRef {
    type V = ArgRefView;

    open spec fn view(&self) -> ArgRefView {
        match self {
            ArgRef::Name(name) => ArgRefView::Name(name@),
            ArgRef::Index(index) => ArgRefView::Index(*index),
        }
    }
}

impl View for TemplateError {
    type V = TemplateErrorView;

    open spec fn view(&self) -> TemplateErrorView {
        match self {
            TemplateError::UnknownArgumentName { name } => TemplateErrorView::UnknownArgumentName {
                name: name@,
            },
            TemplateError::ArgumentIndexOutOfRange { index, count } => {
                TemplateErrorView::ArgumentIndexOutOfRange { index: *index, count: *count }
            },
            TemplateError::BodyOutsideEnvironment => TemplateErrorView::BodyOutsideEnvironment,
            TemplateError::NestedConditional => TemplateErrorView::NestedConditional,
            TemplateError::UnterminatedConstruct => TemplateErrorView::UnterminatedConstruct,
        }
    }
}

/// The mathematical value of one segment.
pub open spec fn seg_view(seg: Seg) -> SegView
    decreases seg,
{
    match seg {
        Seg::Str(text) => SegView::Str(text@),
        Seg::Arg(reference) => SegView::Arg(reference@),
        Seg::Body => SegView::Body,
        Seg::IfPresent { arg, then, els } => SegView::IfPresent {
            arg: arg@,
            then: segs_view(then@),
            els: segs_view(els@),
        },
    }
}

/// The mathematical value of a segment list.
pub open spec fn segs_view(segs: Seq<Seg>) -> Seq<SegView>
    decreases segs,
{
    if segs.len() == 0 {
        Seq::empty()
    } else {
        segs_view(segs.drop_last()).push(seg_view(segs.last()))
    }
}

impl View for Seg {
    type V = SegView;

    open spec fn view(&self) -> SegView {
        seg_view(*self)
    }
}

pub proof fn lemma_segs_view_push(segs: Seq<Seg>, seg: Seg)
    ensures
        segs_view(segs.push(seg)) == segs_view(segs).push(seg_view(seg)),
{
    assert(segs.push(seg).drop_last() =~= segs);
}

pub proof fn lemma_segs_view_index(segs: Seq<Seg>)
    ensures
        segs_view(segs).len() == segs.len(),
        forall|i: int| 0 <= i < segs.len() ==> #[trigger] segs_view(segs)[i] == seg_view(segs[i]),
    decreases segs.len(),
{
    if segs.len() > 0 {
        lemma_segs_view_index(segs.drop_last());
    }
}

// ------------------------------------------------------------------ the grammar, as a function

/// Why a segment list stopped.
#[derive(PartialEq, Eq, Structural, Clone, Copy, Debug)]
pub enum Stop {
    /// The source ran out.
    End,
    /// A `|` ended a conditional's first branch.
    Pipe,
    /// A `}` closed the conditional.
    Close,
}

/// The character at `pos`, if there is one.
pub open spec fn char_at(s: Seq<char>, pos: int) -> Option<char> {
    if 0 <= pos < s.len() {
        Some(s[pos])
    } else {
        None
    }
}

/// The characters `b`, `o`, `d`, `y`.
pub open spec fn body_name() -> Seq<char> {
    seq!['b', 'o', 'd', 'y']
}

/// Whether every character of `name` is an ASCII digit.
pub open spec fn all_digits(name: Seq<char>) -> bool {
    forall|i: int| 0 <= i < name.len() ==> '0' <= #[trigger] name[i] <= '9'
}

/// The number a run of ASCII digits spells in decimal.
pub open spec fn decimal_value(digits: Seq<char>) -> nat
    decreases digits.len(),
{
    if digits.len() == 0 {
        0
    } else {
        decimal_value(digits.drop_last()) * 10 + ((digits.last() as u32) - ('0' as u32)) as nat
    }
}

/// What `{name}` or `{?name:…}` refers to: an index when the name is written as digits
/// (saturating at `usize::MAX`, which is out of range for every definition), a name
/// otherwise.
pub open spec fn arg_ref_of(name: Seq<char>) -> ArgRefView {
    if name.len() > 0 && all_digits(name) {
        let value = decimal_value(name);
        ArgRefView::Index(if value <= usize::MAX { value as usize } else { usize::MAX })
    } else {
        ArgRefView::Name(name)
    }
}

/// What a `{name}` reference compiles to.
pub open spec fn segment_of(name: Seq<char>) -> SegView {
    if name == body_name() {
        SegView::Body
    } else {
        SegView::Arg(arg_ref_of(name))
    }
}

/// Pending literal text becomes one `Str` segment, unless there is none.
pub open spec fn flush_literal(literal: Seq<char>, segs: Seq<SegView>) -> Seq<SegView> {
    if literal.len() == 0 {
        segs
    } else {
        segs.push(SegView::Str(literal))
    }
}

/// Where a reference's name ends (the position of its `}`), scanning from `pos`; `None`
/// when the reference never closes where a close is possible.
pub open spec fn reference_end(s: Seq<char>, pos: int, in_branch: bool) -> Option<int>
    decreases s.len() - pos,
{
    if pos < 0 || pos >= s.len() {
        None
    } else if s[pos] == '}' {
        Some(pos)
    } else if s[pos] == '{' || (s[pos] == '|' && in_branch) {
        None
    } else {
        reference_end(s, pos + 1, in_branch)
    }
}

/// Where a conditional's tested name ends (the position of its `:`), scanning from
/// `pos`; `None` when something that could end the construct comes first.
pub open spec fn condition_end(s: Seq<char>, pos: int) -> Option<int>
    decreases s.len() - pos,
{
    if pos < 0 || pos >= s.len() {
        None
    } else if s[pos] == ':' {
        Some(pos)
    } else if s[pos] == '}' || s[pos] == '|' || s[pos] == '{' {
        None
    } else {
        condition_end(s, pos + 1)
    }
}

/// A reference whose `{` was just consumed: the segment and the position after its `}`.
pub open spec fn reference_at(s: Seq<char>, pos: int, in_branch: bool) -> Result<
    (SegView, int),
    TemplateErrorView,
> {
    match reference_end(s, pos, in_branch) {
        None => Err(TemplateErrorView::UnterminatedConstruct),
        Some(end) => Ok((segment_of(s.subrange(pos, end)), end + 1)),
    }
}

/// A run of segments from `pos`, with `literal` and `segs` accumulated so far: the
/// segments, why the run stopped, and where. Inside a branch `|` and `}` end the run and
/// a conditional is refused; at the top level they are ordinary characters.
pub open spec fn segments_from(
    s: Seq<char>,
    pos: int,
    in_branch: bool,
    literal: Seq<char>,
    segs: Seq<SegView>,
) -> Result<(Seq<SegView>, Stop, int), TemplateErrorView>
    decreases (if in_branch { 0int } else { 2int }), s.len() - pos,
{
    if pos < 0 || pos >= s.len() {
        Ok((flush_literal(literal, segs), Stop::End, pos))
    } else {
        let ch = s[pos];
        let second = char_at(s, pos + 1);
        if ch == '{' && second == Some('{') {
            segments_from(s, pos + 2, in_branch, literal.push('{'), segs)
        } else if ch == '{' {
            let flushed = flush_literal(literal, segs);
            let inner = if second == Some('?') {
                if in_branch {
                    Err(TemplateErrorView::NestedConditional)
                } else {
                    conditional_at(s, pos + 2)
                }
            } else {
                reference_at(s, pos + 1, in_branch)
            };
            match inner {
                Err(e) => Err(e),
                Ok((seg, next)) => if pos < next <= s.len() {
                    segments_from(s, next, in_branch, Seq::empty(), flushed.push(seg))
                } else {
                    Err(TemplateErrorView::UnterminatedConstruct)
                },
            }
        } else if ch == '}' && second == Some('}') {
            segments_from(s, pos + 2, in_branch, literal.push('}'), segs)
        } else if ch == '}' && in_branch {
            Ok((flush_literal(literal, segs), Stop::Close, pos + 1))
        } else if ch == '|' && in_branch {
            Ok((flush_literal(literal, segs), Stop::Pipe, pos + 1))
        } else {
            segments_from(s, pos + 1, in_branch, literal.push(ch), segs)
        }
    }
}

/// A conditional whose `{?` was just consumed: the segment and the position after its
/// closing `}`.
pub open spec fn conditional_at(s: Seq<char>, pos: int) -> Result<(SegView, int), TemplateErrorView>
    decreases 1int, 0int,
{
    match condition_end(s, pos) {
        None => Err(TemplateErrorView::UnterminatedConstruct),
        Some(end) => {
            let arg = arg_ref_of(s.subrange(pos, end));
            match segments_from(s, end + 1, true, Seq::empty(), Seq::empty()) {
                Err(e) => Err(e),
                Ok((then, stop, next)) => match stop {
                    Stop::Close => Ok((SegView::IfPresent { arg, then, els: Seq::empty() }, next)),
                    Stop::Pipe => match segments_from(s, next, true, Seq::empty(), Seq::empty()) {
                        Err(e) => Err(e),
                        Ok((els, stop2, after)) => if stop2 == Stop::Close {
                            Ok((SegView::IfPresent { arg, then, els }, after))
                        } else {
                            Err(TemplateErrorView::UnterminatedConstruct)
                        },
                    },
                    Stop::End => Err(TemplateErrorView::UnterminatedConstruct),
                },
            }
        },
    }
}

/// What a template's source compiles to.
pub open spec fn parse_template(s: Seq<char>) -> Result<Seq<SegView>, TemplateErrorView> {
    match segments_from(s, 0, false, Seq::empty(), Seq::empty()) {
        Err(e) => Err(e),
        Ok((segs, stop, _)) => if stop == Stop::End {
            Ok(segs)
        } else {
            Err(TemplateErrorView::UnterminatedConstruct)
        },
    }
}

// ------------------------------------------------------------------ the parser

/// A recursive-descent parser over a template's characters.
///
/// It descends exactly one level — a conditional's branches, which may not nest — so no
/// input can make it recurse deeply.
struct Parser<'a> {
    source: &'a [char],
    /// Index of the next character.
    pos: usize,
}

/// The value a run of segments has: what [`segments_from`] says it is.
pub open spec fn run_view(r: Result<(Vec<Seg>, Stop), TemplateError>, pos: usize) -> Result<
    (Seq<SegView>, Stop, int),
    TemplateErrorView,
> {
    match r {
        Ok((segs, stop)) => Ok((segs_view(segs@), stop, pos as int)),
        Err(e) => Err(e@),
    }
}

/// The value one parsed segment has, with the position after it.
pub open spec fn seg_result_view(r: Result<Seg, TemplateError>, pos: usize) -> Result<
    (SegView, int),
    TemplateErrorView,
> {
    match r {
        Ok(seg) => Ok((seg_view(seg), pos as int)),
        Err(e) => Err(e@),
    }
}

impl<'a> Parser<'a> {
    fn new(source: &'a [char]) -> (p: Parser<'a>)
        ensures
            p.source@ == source@,
            p.pos == 0,
    {
        Parser { source, pos: 0 }
    }

    /// The whole template: segments up to the end of the source.
    fn template(self) -> (r: Result<Vec<Seg>, TemplateError>)
        requires
            self.pos == 0,
        ensures
            match r {
                Ok(segs) => parse_template(self.source@) == Ok::<Seq<SegView>, TemplateErrorView>(segs_view(segs@)),
                Err(e) => parse_template(self.source@) == Err::<Seq<SegView>, TemplateErrorView>(e@),
            },
    {
        let mut parser = self;
        let r = parser.segments(false);
        match r {
            Ok((segments, stop)) => {
                match stop {
                    Stop::End => Ok(segments),
                    // Only a branch stops on `|` or `}`.
                    Stop::Pipe | Stop::Close => Err(TemplateError::UnterminatedConstruct),
                }
            },
            Err(e) => Err(e),
        }
    }

    /// The character at the cursor.
    fn peek(&self) -> (c: Option<char>)
        ensures
            c == char_at(self.source@, self.pos as int),
    {
        if self.pos < self.source.len() {
            Some(self.source[self.pos])
        } else {
            None
        }
    }

    /// The character just after the one at the cursor.
    fn peek_second(&self) -> (c: Option<char>)
        requires
            self.pos <= self.source@.len(),
        ensures
            c == char_at(self.source@, self.pos + 1),
    {
        if self.pos < self.source.len() && self.pos + 1 < self.source.len() {
            Some(self.source[self.pos + 1])
        } else {
            None
        }
    }

    /// Step over the character at the cursor.
    fn bump(&mut self)
        requires
            old(self).pos <= old(self).source@.len(),
        ensures
            final(self).source == old(self).source,
            final(self).pos == if old(self).pos < old(self).source@.len() {
                old(self).pos + 1
            } else {
                old(self).pos as int
            },
    {
        if self.pos < self.source.len() {
            self.pos = self.pos + 1;
        }
    }

    /// A run of segments. Inside a branch (`in_branch`), `|` and `}` end the run and a
    /// conditional is refused; at the top level they are ordinary characters.
    fn segments(&mut self, in_branch: bool) -> (r: Result<(Vec<Seg>, Stop), TemplateError>)
        requires
            old(self).pos <= old(self).source@.len(),
        ensures
            final(self).source == old(self).source,
            old(self).pos <= final(self).pos <= final(self).source@.len(),
            run_view(r, final(self).pos) == segments_from(
                old(self).source@,
                old(self).pos as int,
                in_branch,
                Seq::empty(),
                Seq::empty(),
            ),
        decreases (if in_branch { 0int } else { 2int }), old(self).source@.len() - old(self).pos,
    {
        let ghost s = self.source@;
        let ghost start = self.pos as int;
        let mut segments: Vec<Seg> = Vec::new();
        let mut literal = String::new();
        loop
            invariant
                self.source@ == s,
                start <= self.pos <= s.len(),
                s == old(self).source@,
                start == old(self).pos,
                segments_from(s, start, in_branch, Seq::empty(), Seq::empty()) == segments_from(
                    s,
                    self.pos as int,
                    in_branch,
                    literal@,
                    segs_view(segments@),
                ),
            decreases s.len() - self.pos,
        {
            let peeked = self.peek();
            let ch = match peeked {
                None => {
                    flush(&mut literal, &mut segments);
                    return Ok((segments, Stop::End));
                },
                Some(ch) => ch,
            };
            let second = self.peek_second();
            if ch == '{' && second == Some('{') {
                push_char(&mut literal, '{');
                self.bump();
                self.bump();
            } else if ch == '{' {
                flush(&mut literal, &mut segments);
                let ghost here = self.pos as int;
                self.bump();
                let inner = if self.peek() == Some('?') {
                    if in_branch {
                        return Err(TemplateError::NestedConditional);
                    }
                    self.bump();
                    self.conditional()
                } else {
                    self.reference(in_branch)
                };
                match inner {
                    Err(e) => {
                        return Err(e);
                    },
                    Ok(seg) => {
                        proof {
                            lemma_segs_view_push(segments@, seg);
                        }
                        segments.push(seg);
                        assert(here < self.pos);
                    },
                }
            } else if ch == '}' && second == Some('}') {
                push_char(&mut literal, '}');
                self.bump();
                self.bump();
            } else if ch == '}' && in_branch {
                flush(&mut literal, &mut segments);
                self.bump();
                return Ok((segments, Stop::Close));
            } else if ch == '|' && in_branch {
                flush(&mut literal, &mut segments);
                self.bump();
                return Ok((segments, Stop::Pipe));
            } else {
                push_char(&mut literal, ch);
                self.bump();
            }
        }
    }

    /// A `{name}` / `{index}` / `{body}` reference; the `{` is already consumed.
    fn reference(&mut self, in_branch: bool) -> (r: Result<Seg, TemplateError>)
        requires
            old(self).pos <= old(self).source@.len(),
        ensures
            final(self).source == old(self).source,
            old(self).pos <= final(self).pos <= final(self).source@.len(),
            r is Ok ==> old(self).pos < final(self).pos,
            seg_result_view(r, final(self).pos) == reference_at(
                old(self).source@,
                old(self).pos as int,
                in_branch,
            ),
    {
        let ghost s = self.source@;
        let start = self.pos;
        let mut name: Vec<char> = Vec::new();
        loop
            invariant
                self.source@ == s,
                s == old(self).source@,
                start == old(self).pos,
                start <= self.pos <= s.len(),
                name@ == s.subrange(start as int, self.pos as int),
                reference_end(s, start as int, in_branch) == reference_end(s, self.pos as int, in_branch),
            decreases s.len() - self.pos,
        {
            match self.peek() {
                None => {
                    return Err(TemplateError::UnterminatedConstruct);
                },
                Some('}') => {
                    self.bump();
                    return Ok(segment_for(&name));
                },
                // A `{` inside a reference, or a branch separator: the reference has no
                // closing brace where one is possible.
                Some('{') => {
                    return Err(TemplateError::UnterminatedConstruct);
                },
                Some(c) => {
                    if c == '|' && in_branch {
                        return Err(TemplateError::UnterminatedConstruct);
                    }
                    name.push(c);
                    proof {
                        assert(s.subrange(start as int, self.pos + 1) =~= s.subrange(start as int, self.pos as int).push(c));
                    }
                    self.bump();
                },
            }
        }
    }

    /// A `{?name:then|else}` conditional; the `{?` is already consumed.
    fn conditional(&mut self) -> (r: Result<Seg, TemplateError>)
        requires
            old(self).pos <= old(self).source@.len(),
        ensures
            final(self).source == old(self).source,
            old(self).pos <= final(self).pos <= final(self).source@.len(),
            r is Ok ==> old(self).pos < final(self).pos,
            seg_result_view(r, final(self).pos) == conditional_at(old(self).source@, old(self).pos as int),
        decreases 1int, 0int,
    {
        let ghost s = self.source@;
        let start = self.pos;
        let mut name: Vec<char> = Vec::new();
        loop
            invariant
                self.source@ == s,
                s == old(self).source@,
                start == old(self).pos,
                start <= self.pos <= s.len(),
                name@ == s.subrange(start as int, self.pos as int),
                condition_end(s, start as int) == condition_end(s, self.pos as int),
            ensures
                self.pos < s.len(),
                s[self.pos as int] == ':',
            decreases s.len() - self.pos,
        {
            match self.peek() {
                Some(':') => {
                    break;
                },
                // Anything else that could end the construct means there is no
                // condition to test.
                None | Some('}') | Some('|') | Some('{') => {
                    return Err(TemplateError::UnterminatedConstruct);
                },
                Some(c) => {
                    name.push(c);
                    proof {
                        assert(s.subrange(start as int, self.pos + 1) =~= s.subrange(start as int, self.pos as int).push(c));
                    }
                    self.bump();
                },
            }
        }
        self.bump();
        let arg = arg_ref(&name);
        let first = self.segments(true);
        let (then, stop) = match first {
            Err(e) => {
                return Err(e);
            },
            Ok(pair) => pair,
        };
        let els = match stop {
            Stop::Close => Vec::new(),
            Stop::Pipe => {
                let second = self.segments(true);
                match second {
                    Err(e) => {
                        return Err(e);
                    },
                    Ok((els, stop2)) => {
                        if stop2 != Stop::Close {
                            // Either the source ran out, or a second `|` appeared where
                            // the grammar allows at most one.
                            return Err(TemplateError::UnterminatedConstruct);
                        }
                        els
                    },
                }
            },
            Stop::End => {
                return Err(TemplateError::UnterminatedConstruct);
            },
        };
        Ok(Seg::IfPresent { arg, then, els })
    }
}

/// Move the accumulated literal text into the segment list.
fn flush(literal: &mut String, segments: &mut Vec<Seg>)
    ensures
        final(literal)@ == Seq::<char>::empty(),
        segs_view(final(segments)@) == flush_literal(old(literal)@, segs_view(old(segments)@)),
{
    if !literal.as_str().is_empty() {
        let mut text = String::new();
        core::mem::swap(literal, &mut text);
        proof {
            lemma_segs_view_push(segments@, Seg::Str(text));
        }
        segments.push(Seg::Str(text));
    }
}

/// Whether `name` is the word `body`.
fn is_body(name: &[char]) -> (b: bool)
    ensures
        b == (name@ == body_name()),
{
    if name.len() == 4 && name[0] == 'b' && name[1] == 'o' && name[2] == 'd' && name[3] == 'y' {
        assert(name@ =~= body_name());
        true
    } else {
        false
    }
}

/// The characters of `name` as a string.
fn string_of(name: &[char]) -> (text: String)
    ensures
        text@ == name@,
{
    let mut text = String::new();
    let mut i: usize = 0;
    while i < name.len()
        invariant
            i <= name@.len(),
            text@ == name@.take(i as int),
        decreases name@.len() - i,
    {
        proof {
            assert(name@.take(i + 1) =~= name@.take(i as int).push(name@[i as int]));
        }
        push_char(&mut text, name[i]);
        i = i + 1;
    }
    proof {
        assert(name@.take(name@.len() as int) =~= name@);
    }
    text
}

/// What `{name}` refers to.
fn segment_for(name: &[char]) -> (seg: Seg)
    ensures
        seg_view(seg) == segment_of(name@),
{
    if is_body(name) {
        Seg::Body
    } else {
        Seg::Arg(arg_ref(name))
    }
}

/// A reference by name, or by index when the name is written as digits.
///
/// An index too large for `usize` is out of range for every definition, so saturating
/// loses nothing: validation refuses it either way.
fn arg_ref(name: &[char]) -> (r: ArgRef)
    ensures
        r@ == arg_ref_of(name@),
{
    let mut digits = name.len() > 0;
    let mut value: usize = 0;
    let mut saturated = false;
    let mut i: usize = 0;
    while i < name.len()
        invariant
            i <= name@.len(),
            digits == (name@.len() > 0 && all_digits(name@.take(i as int))),
            digits ==> (saturated <==> decimal_value(name@.take(i as int)) > usize::MAX),
            digits && !saturated ==> value == decimal_value(name@.take(i as int)),
        decreases name@.len() - i,
    {
        let c = name[i];
        proof {
            assert(name@.take(i + 1).drop_last() =~= name@.take(i as int));
            assert(name@.take(i + 1).last() == c);
        }
        if digits {
            if '0' <= c && c <= '9' {
                let d = (c as u32 - '0' as u32) as usize;
                if !saturated {
                    match value.checked_mul(10) {
                        Some(tens) => match tens.checked_add(d) {
                            Some(next) => {
                                value = next;
                            },
                            None => {
                                saturated = true;
                            },
                        },
                        None => {
                            saturated = true;
                        },
                    }
                }
                proof {
                    assert(all_digits(name@.take(i + 1)));
                }
            } else {
                digits = false;
                proof {
                    assert(!all_digits(name@.take(i + 1)));
                }
            }
        } else {
            proof {
                if all_digits(name@.take(i + 1)) {
                    assert(all_digits(name@.take(i as int))) by {
                        assert forall|j: int| 0 <= j < i implies '0' <= #[trigger] name@.take(i as int)[j] <= '9' by {
                            assert(name@.take(i as int)[j] == name@.take(i + 1)[j]);
                        }
                    }
                }
            }
        }
        i = i + 1;
    }
    proof {
        assert(name@.take(name@.len() as int) =~= name@);
    }
    if digits {
        ArgRef::Index(if saturated { usize::MAX } else { value })
    } else {
        ArgRef::Name(string_of(name))
    }
}

// ------------------------------------------------------------------ templates

/// Replacement text with holes for a construct's arguments.
///
/// Templates are what keeps a definitions table a *table* rather than code: a rule that
/// only rearranges its arguments never needs a handler.
#[derive(Debug, PartialEq, Eq)]
pub struct Template {
    /// The source text, kept so that an error report can quote what was written.
    source: String,
    /// The compiled form, or the syntax error that stopped it being compiled. Holding
    /// the error rather than returning it is what makes [`Template::new`] infallible.
    parsed: Result<Vec<Seg>, TemplateError>,
}

/// A template, as a mathematical value: its source and what the source compiles to.
pub struct TemplateView {
    pub source: Seq<char>,
    pub parsed: Result<Seq<SegView>, TemplateErrorView>,
}

impl View for Template {
    type V = TemplateView;

    closed spec fn view(&self) -> TemplateView {
        TemplateView {
            source: self.source@,
            parsed: match self.parsed {
                Ok(segs) => Ok(segs_view(segs@)),
                Err(e) => Err(e@),
            },
        }
    }
}

impl Template {
    /// Compile a template from its source text.
    ///
    /// Never fails: a malformed template is reported by [`error`](Self::error) and by
    /// [`validate`](Self::validate).
    pub fn new(source: &str) -> (t: Template)
        ensures
            t@.source == source@,
            t@.parsed == parse_template(source@),
    {
        let chars = chars_of(source);
        let parsed = Parser::new(chars.as_slice()).template();
        Template { source: source.to_owned(), parsed }
    }

    /// The source text this template was written as.
    pub fn source(&self) -> (text: &str)
        ensures
            text@ == self@.source,
    {
        self.source.as_str()
    }

    /// The syntax error in this template's source, if it has one.
    ///
    /// Only the errors that can be seen without knowing the definition — a construct
    /// that is never closed, a conditional inside a conditional.
    pub fn error(&self) -> (e: Option<&TemplateError>)
        ensures
            match self@.parsed {
                Ok(_) => e is None,
                Err(err) => e is Some && e->0@ == err,
            },
    {
        match &self.parsed {
            Ok(_) => None,
            Err(error) => Some(error),
        }
    }

    /// The compiled segments, in order; empty for a template that did not compile.
    ///
    /// Rendering an uncompiled template as nothing is deliberate: a renderer must not be
    /// able to fail on a template nobody validated.
    pub fn segments(&self) -> (segs: &[Seg])
        ensures
            segs_view(segs@) == match self@.parsed {
                Ok(segs) => segs,
                Err(_) => Seq::empty(),
            },
    {
        match &self.parsed {
            Ok(segments) => segments.as_slice(),
            Err(_) => {
                let empty: &[Seg] = &[];
                assert(empty@ =~= Seq::<Seg>::empty());
                empty
            },
        }
    }

    /// Check this template against the definition it belongs to: which argument names
    /// exist, how many arguments there are, and whether there is a body to refer to. It
    /// also re-reports the syntax error of a template that never compiled, so that one
    /// call surfaces everything.
    pub fn validate(&self, scope: TemplateScope<'_>) -> (r: Result<(), TemplateError>)
        ensures
            match r {
                Ok(()) => validation(self@.parsed, scope@) == Ok::<(), TemplateErrorView>(()),
                Err(e) => validation(self@.parsed, scope@) == Err::<(), TemplateErrorView>(e@),
            },
    {
        match &self.parsed {
            Ok(segments) => validate_segments(segments.as_slice(), scope, true),
            Err(error) => Err(error.duplicate()),
        }
    }
}

/// What a template error says.
pub open spec fn error_message(e: TemplateErrorView) -> Seq<char> {
    match e {
        TemplateErrorView::UnknownArgumentName { name } => "no argument named \u{2018}"@ + name
            + "\u{2019}"@,
        TemplateErrorView::ArgumentIndexOutOfRange { index, count } => "argument index "@
            + decimal_text(index as nat) + " is out of range (1..="@ + decimal_text(count as nat)
            + "; indices are 1-based)"@,
        TemplateErrorView::BodyOutsideEnvironment => "\u{2018}{body}\u{2019} is only available in an environment's template"@,
        TemplateErrorView::NestedConditional => "a conditional may not contain another conditional"@,
        TemplateErrorView::UnterminatedConstruct => "unterminated \u{2018}{\u{2026}}\u{2019} construct"@,
    }
}

impl TemplateError {
    /// What the error says, for a report that quotes the template.
    pub fn message(&self) -> (text: String)
        ensures
            text@ == error_message(self@),
    {
        match self {
            TemplateError::UnknownArgumentName { name } => {
                let mut text = String::from_str("no argument named \u{2018}");
                text.append(name.as_str());
                text.append("\u{2019}");
                text
            },
            TemplateError::ArgumentIndexOutOfRange { index, count } => {
                let mut text = String::from_str("argument index ");
                push_decimal(&mut text, *index as u64);
                text.append(" is out of range (1..=");
                push_decimal(&mut text, *count as u64);
                text.append("; indices are 1-based)");
                text
            },
            TemplateError::BodyOutsideEnvironment => String::from_str(
                "\u{2018}{body}\u{2019} is only available in an environment's template",
            ),
            TemplateError::NestedConditional => String::from_str(
                "a conditional may not contain another conditional",
            ),
            TemplateError::UnterminatedConstruct => String::from_str(
                "unterminated \u{2018}{\u{2026}}\u{2019} construct",
            ),
        }
    }

    /// A copy of this error.
    pub fn duplicate(&self) -> (e: TemplateError)
        ensures
            e@ == self@,
    {
        match self {
            TemplateError::UnknownArgumentName { name } => TemplateError::UnknownArgumentName {
                name: name.clone(),
            },
            TemplateError::ArgumentIndexOutOfRange { index, count } => {
                TemplateError::ArgumentIndexOutOfRange { index: *index, count: *count }
            },
            TemplateError::BodyOutsideEnvironment => TemplateError::BodyOutsideEnvironment,
            TemplateError::NestedConditional => TemplateError::NestedConditional,
            TemplateError::UnterminatedConstruct => TemplateError::UnterminatedConstruct,
        }
    }
}

// ------------------------------------------------------------------ validation

/// What a template is allowed to refer to: the definition's side of validation.
#[derive(Clone, Copy, Debug)]
pub struct TemplateScope<'a> {
    /// The definition's argument names, in declaration order — or `None` when they are
    /// not known, as for a rule written against whichever definition it lands on.
    names: Option<&'a [String]>,
    /// Whether `{body}` means anything here — environments only.
    has_body: bool,
}

/// A scope, as a mathematical value.
pub struct ScopeView {
    pub names: Option<Seq<Seq<char>>>,
    pub has_body: bool,
}

impl<'a> View for TemplateScope<'a> {
    type V = ScopeView;

    closed spec fn view(&self) -> ScopeView {
        ScopeView {
            names: match self.names {
                Some(names) => Some(names@.map_values(|name: String| name@)),
                None => None,
            },
            has_body: self.has_body,
        }
    }
}

impl<'a> TemplateScope<'a> {
    /// A scope for a definition whose arguments are known.
    pub fn declared(names: &'a [String], has_body: bool) -> (scope: TemplateScope<'a>)
        ensures
            scope@.names == Some(names@.map_values(|name: String| name@)),
            scope@.has_body == has_body,
    {
        TemplateScope { names: Some(names), has_body }
    }

    /// A scope for a rule that is not attached to one definition: references are not
    /// checked, only the shape of the template is.
    pub fn unchecked(has_body: bool) -> (scope: TemplateScope<'a>)
        ensures
            scope@.names is None,
            scope@.has_body == has_body,
    {
        TemplateScope { names: None, has_body }
    }
}

/// Whether one argument reference fits the definition's arguments.
///
/// An empty name is refused whatever the scope, and so is index 0: no definition can
/// declare either.
pub open spec fn check_ref(r: ArgRefView, names: Option<Seq<Seq<char>>>) -> Result<(), TemplateErrorView> {
    match r {
        ArgRefView::Name(name) => if name.len() == 0 {
            Err(TemplateErrorView::UnknownArgumentName { name })
        } else {
            match names {
                Some(declared) => if declared.contains(name) {
                    Ok(())
                } else {
                    Err(TemplateErrorView::UnknownArgumentName { name })
                },
                None => Ok(()),
            }
        },
        ArgRefView::Index(index) => {
            let limit: int = match names {
                Some(declared) => declared.len() as int,
                None => usize::MAX as int,
            };
            if index == 0 || index > limit {
                Err(
                    TemplateErrorView::ArgumentIndexOutOfRange {
                        index,
                        count: match names {
                            Some(declared) => declared.len() as usize,
                            None => 0usize,
                        },
                    },
                )
            } else {
                Ok(())
            }
        },
    }
}

/// The first problem in a segment list, in order; `top` is false inside a conditional's
/// branches.
pub open spec fn check_segs(segs: Seq<SegView>, scope: ScopeView, top: bool) -> Result<(), TemplateErrorView>
    decreases segs,
{
    if segs.len() == 0 {
        Ok(())
    } else {
        match check_seg(segs[0], scope, top) {
            Err(e) => Err(e),
            Ok(()) => check_segs(segs.drop_first(), scope, top),
        }
    }
}

/// The first problem in one segment.
pub open spec fn check_seg(seg: SegView, scope: ScopeView, top: bool) -> Result<(), TemplateErrorView>
    decreases seg,
{
    match seg {
        SegView::Str(_) => Ok(()),
        SegView::Arg(r) => check_ref(r, scope.names),
        SegView::Body => if scope.has_body {
            Ok(())
        } else {
            Err(TemplateErrorView::BodyOutsideEnvironment)
        },
        SegView::IfPresent { arg, then, els } => if !top {
            Err(TemplateErrorView::NestedConditional)
        } else {
            match check_ref(arg, scope.names) {
                Err(e) => Err(e),
                Ok(()) => match check_segs(then, scope, false) {
                    Err(e) => Err(e),
                    Ok(()) => check_segs(els, scope, false),
                },
            }
        },
    }
}

/// What validating a compiled template against a scope answers.
pub open spec fn validation(
    parsed: Result<Seq<SegView>, TemplateErrorView>,
    scope: ScopeView,
) -> Result<(), TemplateErrorView> {
    match parsed {
        Ok(segs) => check_segs(segs, scope, true),
        Err(e) => Err(e),
    }
}

/// Validate one segment list; `top_level` is false inside a conditional's branches.
fn validate_segments(segments: &[Seg], scope: TemplateScope<'_>, top_level: bool) -> (r: Result<(), TemplateError>)
    ensures
        match r {
            Ok(()) => check_segs(segs_view(segments@), scope@, top_level) == Ok::<(), TemplateErrorView>(()),
            Err(e) => check_segs(segs_view(segments@), scope@, top_level) == Err::<(), TemplateErrorView>(e@),
        },
    decreases (if top_level { 1int } else { 0int }),
{
    let ghost all = segs_view(segments@);
    proof {
        lemma_segs_view_index(segments@);
    }
    let mut i: usize = 0;
    assert(all.skip(0) =~= all);
    while i < segments.len()
        invariant
            i <= segments@.len(),
            all == segs_view(segments@),
            all.len() == segments@.len(),
            forall|j: int| 0 <= j < segments@.len() ==> #[trigger] all[j] == seg_view(segments@[j]),
            check_segs(all, scope@, top_level) == check_segs(all.skip(i as int), scope@, top_level),
        decreases segments@.len() - i,
    {
        let segment = &segments[i];
        proof {
            let rest = all.skip(i as int);
            assert(rest[0] == seg_view(*segment));
            assert(rest.drop_first() =~= all.skip(i + 1));
            assert(check_segs(rest, scope@, top_level) == match check_seg(seg_view(*segment), scope@, top_level) {
                Err(e) => Err(e),
                Ok(()) => check_segs(all.skip(i + 1), scope@, top_level),
            });
        }
        match segment {
            Seg::Str(_) => {},
            Seg::Arg(reference) => {
                let checked = validate_ref(reference, scope);
                if let Err(e) = checked {
                    return Err(e);
                }
            },
            Seg::Body => {
                if !scope.has_body {
                    return Err(TemplateError::BodyOutsideEnvironment);
                }
            },
            Seg::IfPresent { arg, then, els } => {
                // The parser already refuses a conditional inside a branch; the check is
                // repeated here so that it holds for any segment list, however built.
                if !top_level {
                    return Err(TemplateError::NestedConditional);
                }
                let checked = validate_ref(arg, scope);
                if let Err(e) = checked {
                    return Err(e);
                }
                let checked = validate_segments(then.as_slice(), scope, false);
                if let Err(e) = checked {
                    return Err(e);
                }
                let checked = validate_segments(els.as_slice(), scope, false);
                if let Err(e) = checked {
                    return Err(e);
                }
            },
        }
        i = i + 1;
    }
    proof {
        assert(all.skip(i as int) =~= Seq::<SegView>::empty());
    }
    Ok(())
}

/// Validate one argument reference against the definition's arguments.
fn validate_ref(reference: &ArgRef, scope: TemplateScope<'_>) -> (r: Result<(), TemplateError>)
    ensures
        match r {
            Ok(()) => check_ref(reference@, scope@.names) == Ok::<(), TemplateErrorView>(()),
            Err(e) => check_ref(reference@, scope@.names) == Err::<(), TemplateErrorView>(e@),
        },
{
    match reference {
        ArgRef::Name(name) => {
            if name.as_str().is_empty() {
                return Err(TemplateError::UnknownArgumentName { name: name.clone() });
            }
            match scope.names {
                Some(names) => {
                    let ghost declared = names@.map_values(|n: String| n@);
                    let mut found = false;
                    let mut i: usize = 0;
                    while i < names.len()
                        invariant
                            i <= names@.len(),
                            declared == names@.map_values(|n: String| n@),
                            found <==> exists|j: int| 0 <= j < i && declared[j] == name@,
                        decreases names@.len() - i,
                    {
                        proof {
                            assert(declared[i as int] == names@[i as int]@);
                        }
                        if names[i] == *name {
                            found = true;
                        }
                        i = i + 1;
                    }
                    if found {
                        Ok(())
                    } else {
                        proof {
                            assert(!declared.contains(name@));
                        }
                        Err(TemplateError::UnknownArgumentName { name: name.clone() })
                    }
                },
                None => Ok(()),
            }
        },
        ArgRef::Index(index) => {
            let (limit, count) = match scope.names {
                Some(names) => (names.len(), names.len()),
                None => (usize::MAX, 0),
            };
            // Indices count from one, so 0 is out of range for every definition —
            // including one whose argument count is not known.
            if *index == 0 || *index > limit {
                return Err(TemplateError::ArgumentIndexOutOfRange { index: *index, count });
            }
            Ok(())
        },
    }
}

// ------------------------------------------------------------------ validation, in words

/// Whether a scope can answer a reference: a non-empty name among the declared ones (any
/// non-empty name when none are declared), or an index from 1 to the argument count (to
/// `usize::MAX` when the count is not known).
pub open spec fn reference_fits(r: ArgRefView, names: Option<Seq<Seq<char>>>) -> bool {
    match r {
        ArgRefView::Name(name) => name.len() > 0 && match names {
            Some(declared) => declared.contains(name),
            None => true,
        },
        ArgRefView::Index(index) => 1 <= index && index <= match names {
            Some(declared) => declared.len() as int,
            None => usize::MAX as int,
        },
    }
}

/// Whether a segment inside a conditional's branch fits the scope: its reference fits,
/// `{body}` only where there is a body, and no conditional.
pub open spec fn branch_segment_fits(seg: SegView, scope: ScopeView) -> bool {
    match seg {
        SegView::Str(_) => true,
        SegView::Arg(r) => reference_fits(r, scope.names),
        SegView::Body => scope.has_body,
        SegView::IfPresent { .. } => false,
    }
}

/// Whether a top-level segment fits the scope: a conditional's tested reference fits and
/// every segment of both its branches does.
pub open spec fn segment_fits(seg: SegView, scope: ScopeView) -> bool {
    match seg {
        SegView::IfPresent { arg, then, els } => {
            &&& reference_fits(arg, scope.names)
            &&& forall|j: int| 0 <= j < then.len() ==> branch_segment_fits(#[trigger] then[j], scope)
            &&& forall|j: int| 0 <= j < els.len() ==> branch_segment_fits(#[trigger] els[j], scope)
        },
        _ => branch_segment_fits(seg, scope),
    }
}

proof fn lemma_check_ref_in_words(r: ArgRefView, names: Option<Seq<Seq<char>>>)
    ensures
        check_ref(r, names) is Ok <==> reference_fits(r, names),
{
}

proof fn lemma_check_branch_in_words(segs: Seq<SegView>, scope: ScopeView)
    ensures
        check_segs(segs, scope, false) is Ok
            <==> forall|j: int| 0 <= j < segs.len() ==> branch_segment_fits(#[trigger] segs[j], scope),
    decreases segs.len(),
{
    if segs.len() > 0 {
        let rest = segs.drop_first();
        lemma_check_branch_in_words(rest, scope);
        match segs[0] {
            SegView::Arg(r) => lemma_check_ref_in_words(r, scope.names),
            _ => {},
        }
        assert(check_seg(segs[0], scope, false) is Ok <==> branch_segment_fits(segs[0], scope));
        assert(check_segs(segs, scope, false) is Ok <==> (check_seg(segs[0], scope, false) is Ok
            && check_segs(rest, scope, false) is Ok));
        if check_segs(segs, scope, false) is Ok {
            assert forall|j: int| 0 <= j < segs.len() implies branch_segment_fits(#[trigger] segs[j], scope) by {
                if j > 0 {
                    assert(segs[j] == rest[j - 1]);
                }
            }
        }
        if forall|j: int| 0 <= j < segs.len() ==> branch_segment_fits(#[trigger] segs[j], scope) {
            assert(branch_segment_fits(segs[0], scope));
            assert forall|j: int| 0 <= j < rest.len() implies branch_segment_fits(#[trigger] rest[j], scope) by {
                assert(rest[j] == segs[j + 1]);
            }
        }
    }
}

proof fn lemma_check_top_in_words(segs: Seq<SegView>, scope: ScopeView)
    ensures
        check_segs(segs, scope, true) is Ok
            <==> forall|j: int| 0 <= j < segs.len() ==> segment_fits(#[trigger] segs[j], scope),
    decreases segs.len(),
{
    if segs.len() > 0 {
        let rest = segs.drop_first();
        lemma_check_top_in_words(rest, scope);
        match segs[0] {
            SegView::Arg(r) => lemma_check_ref_in_words(r, scope.names),
            SegView::IfPresent { arg, then, els } => {
                lemma_check_ref_in_words(arg, scope.names);
                lemma_check_branch_in_words(then, scope);
                lemma_check_branch_in_words(els, scope);
            },
            _ => {},
        }
        assert(check_seg(segs[0], scope, true) is Ok <==> segment_fits(segs[0], scope));
        assert(check_segs(segs, scope, true) is Ok <==> (check_seg(segs[0], scope, true) is Ok
            && check_segs(rest, scope, true) is Ok));
        if check_segs(segs, scope, true) is Ok {
            assert forall|j: int| 0 <= j < segs.len() implies segment_fits(#[trigger] segs[j], scope) by {
                if j > 0 {
                    assert(segs[j] == rest[j - 1]);
                }
            }
        }
        if forall|j: int| 0 <= j < segs.len() ==> segment_fits(#[trigger] segs[j], scope) {
            assert(segment_fits(segs[0], scope));
            assert forall|j: int| 0 <= j < rest.len() implies segment_fits(#[trigger] rest[j], scope) by {
                assert(rest[j] == segs[j + 1]);
            }
        }
    }
}

/// What validation answers, in words: a template that did not compile is refused with
/// its syntax error; one that did passes exactly when every reference it makes — at the
/// top level, in a conditional's test, and inside both branches — names a declared
/// argument or counts from 1 up to the argument count, `{body}` appears only where there
/// is a body, and no conditional sits inside another's branch.
pub proof fn lemma_validation_in_words(template: TemplateView, scope: ScopeView)
    ensures
        template.parsed matches Err(e) ==> validation(template.parsed, scope) == Err::<(), TemplateErrorView>(e),
        template.parsed matches Ok(segs) ==> (validation(template.parsed, scope) is Ok
            <==> forall|j: int| 0 <= j < segs.len() ==> segment_fits(#[trigger] segs[j], scope)),
{
    if let Ok(segs) = template.parsed {
        lemma_check_top_in_words(segs, scope);
    }
}

} // verus!
