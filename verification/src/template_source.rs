//! Writing compiled templates back out as source, and why that is faithful.
//!
//! [`source_of`] is the source form of a segment list: braces in literal text doubled,
//! references and conditionals in their braces. It is exact for everything the parser
//! produces, which is the round trip [`lemma_parsing_round_trips`] proves: whatever a
//! source compiles to, writing the compiled form back out and compiling that again gives
//! the same segments.

use vstd::prelude::*;

use crate::template::{
    all_digits, arg_ref_of, body_name, char_at, condition_end, conditional_at, decimal_value,
    flush_literal, parse_template, reference_at, reference_end, segment_of, segments_from,
    ArgRefView, SegView, Stop, TemplateErrorView,
};
use crate::text::{decimal_text, digit_char};

verus! {

// ------------------------------------------------------------------ the source form

/// How one literal character is written: a brace doubled, anything else as itself.
pub open spec fn escape_char(c: char) -> Seq<char> {
    if c == '{' {
        seq!['{', '{']
    } else if c == '}' {
        seq!['}', '}']
    } else {
        seq![c]
    }
}

/// How literal text is written.
pub open spec fn escape_text(text: Seq<char>) -> Seq<char>
    decreases text.len(),
{
    if text.len() == 0 {
        Seq::empty()
    } else {
        escape_text(text.drop_last()) + escape_char(text.last())
    }
}

/// How an argument reference is written inside its braces: the name, or the index in
/// decimal.
pub open spec fn arg_source(r: ArgRefView) -> Seq<char> {
    match r {
        ArgRefView::Name(name) => name,
        ArgRefView::Index(index) => decimal_text(index as nat),
    }
}

/// The source form of one segment.
pub open spec fn seg_source(seg: SegView) -> Seq<char>
    decreases seg,
{
    match seg {
        SegView::Str(text) => escape_text(text),
        SegView::Arg(r) => seq!['{'] + arg_source(r) + seq!['}'],
        SegView::Body => seq!['{'] + body_name() + seq!['}'],
        SegView::IfPresent { arg, then, els } => {
            let rest = if els.len() > 0 {
                seq!['|'] + source_of(els)
            } else {
                Seq::empty()
            };
            seq!['{', '?'] + arg_source(arg) + seq![':'] + source_of(then) + rest + seq!['}']
        },
    }
}

/// The source form of a segment list.
pub open spec fn source_of(segs: Seq<SegView>) -> Seq<char>
    decreases segs,
{
    if segs.len() == 0 {
        Seq::empty()
    } else {
        source_of(segs.drop_last()) + seg_source(segs.last())
    }
}

// ------------------------------------------------------------------ what parsing produces

/// A name that a `{name}` reference can stand for: no braces (and, inside a branch, no
/// `|`), not `body`, not all digits, and not starting with `?`.
pub open spec fn reference_name_ok(name: Seq<char>, in_branch: bool) -> bool {
    &&& forall|i: int|
        0 <= i < name.len() ==> #[trigger] name[i] != '{' && name[i] != '}' && (in_branch ==> name[i]
            != '|')
    &&& name != body_name()
    &&& !(name.len() > 0 && all_digits(name))
    &&& !(name.len() > 0 && name[0] == '?')
}

/// An argument a `{?name:…}` conditional can test.
pub open spec fn condition_ok(r: ArgRefView) -> bool {
    match r {
        ArgRefView::Name(name) => {
            &&& forall|i: int|
                0 <= i < name.len() ==> #[trigger] name[i] != ':' && name[i] != '}' && name[i] != '|'
                    && name[i] != '{'
            &&& !(name.len() > 0 && all_digits(name))
        },
        ArgRefView::Index(_) => true,
    }
}

/// One segment of the shape parsing produces, at the top level or inside a branch.
pub open spec fn seg_ok(seg: SegView, in_branch: bool) -> bool
    decreases seg,
{
    match seg {
        SegView::Str(text) => text.len() > 0 && (in_branch ==> forall|i: int|
            0 <= i < text.len() ==> #[trigger] text[i] != '|'),
        SegView::Arg(ArgRefView::Name(name)) => reference_name_ok(name, in_branch),
        SegView::Arg(ArgRefView::Index(_)) => true,
        SegView::Body => true,
        SegView::IfPresent { arg, then, els } => !in_branch && condition_ok(arg) && segs_ok(then, true)
            && segs_ok(els, true),
    }
}

/// Whether `seg` is literal text that starts with `}`.
pub open spec fn starts_with_close(seg: SegView) -> bool {
    match seg {
        SegView::Str(text) => text.len() > 0 && text[0] == '}',
        _ => false,
    }
}

/// Whether `next` may follow `prev`: never two literal segments in a row, and no literal
/// starting with `}` right after a conditional (that `}` would have closed it).
pub open spec fn neighbours_ok(prev: SegView, next: SegView) -> bool {
    &&& !(prev is Str && next is Str)
    &&& !(prev is IfPresent && starts_with_close(next))
}

/// A segment list of the shape parsing produces.
pub open spec fn segs_ok(segs: Seq<SegView>, in_branch: bool) -> bool
    decreases segs,
{
    if segs.len() == 0 {
        true
    } else {
        &&& segs_ok(segs.drop_last(), in_branch)
        &&& seg_ok(segs.last(), in_branch)
        &&& (segs.len() >= 2 ==> neighbours_ok(segs[segs.len() - 2], segs.last()))
    }
}

// ------------------------------------------------------------------ decimal spellings

pub proof fn lemma_decimal_round_trip(n: nat)
    ensures
        decimal_text(n).len() > 0,
        all_digits(decimal_text(n)),
        decimal_value(decimal_text(n)) == n,
    decreases n,
{
    let d = decimal_text(n);
    assert((digit_char(n % 10) as u32) == 48 + n % 10) by {
        let k = n % 10;
        assert(k < 10);
        assert(((48 + k) as u8) as u32 == 48 + k);
    }
    assert(('0' as u32) == 48);
    if n < 10 {
        assert(d =~= seq![digit_char(n)]);
        assert(d.drop_last() =~= Seq::<char>::empty());
        assert(n % 10 == n);
        assert(decimal_value(d) == decimal_value(d.drop_last()) * 10 + ((d.last() as u32) - ('0' as u32)) as nat);
    } else {
        lemma_decimal_round_trip(n / 10);
        assert(d.drop_last() =~= decimal_text(n / 10));
        assert(d.last() == digit_char(n % 10));
        assert(decimal_value(d) == decimal_value(d.drop_last()) * 10 + ((d.last() as u32) - ('0' as u32)) as nat);
        assert((n / 10) * 10 + n % 10 == n) by (nonlinear_arith);
        assert forall|i: int| 0 <= i < d.len() implies '0' <= #[trigger] d[i] <= '9' by {
            if i < d.len() - 1 {
                assert(d[i] == decimal_text(n / 10)[i]);
            }
        }
    }
}

// ------------------------------------------------------------------ scanning lemmas

/// A name followed by `}` is scanned as a reference up to that `}`.
proof fn lemma_reference_end(s: Seq<char>, q: int, name: Seq<char>, in_branch: bool)
    requires
        0 <= q,
        q + name.len() < s.len(),
        s.subrange(q, q + name.len()) == name,
        s[q + name.len()] == '}',
        forall|i: int|
            0 <= i < name.len() ==> #[trigger] name[i] != '{' && name[i] != '}' && (in_branch
                ==> name[i] != '|'),
    ensures
        reference_end(s, q, in_branch) == Some(q + name.len()),
    decreases name.len(),
{
    if name.len() > 0 {
        assert(s[q] == name[0]);
        let rest = name.drop_first();
        assert(s.subrange(q + 1, q + 1 + rest.len()) =~= rest) by {
            assert forall|i: int| 0 <= i < rest.len() implies s.subrange(q + 1, q + 1 + rest.len())[i]
                == rest[i] by {
                assert(s[q + 1 + i] == s.subrange(q, q + name.len())[i + 1]);
            }
        }
        assert forall|i: int|
            0 <= i < rest.len() implies #[trigger] rest[i] != '{' && rest[i] != '}' && (in_branch
                ==> rest[i] != '|') by {
            assert(rest[i] == name[i + 1]);
        }
        lemma_reference_end(s, q + 1, rest, in_branch);
    }
}

/// A name followed by `:` is scanned as a condition up to that `:`.
proof fn lemma_condition_end(s: Seq<char>, q: int, name: Seq<char>)
    requires
        0 <= q,
        q + name.len() < s.len(),
        s.subrange(q, q + name.len()) == name,
        s[q + name.len()] == ':',
        forall|i: int|
            0 <= i < name.len() ==> #[trigger] name[i] != ':' && name[i] != '}' && name[i] != '|'
                && name[i] != '{',
    ensures
        condition_end(s, q) == Some(q + name.len()),
    decreases name.len(),
{
    if name.len() > 0 {
        assert(s[q] == name[0]);
        let rest = name.drop_first();
        assert(s.subrange(q + 1, q + 1 + rest.len()) =~= rest) by {
            assert forall|i: int| 0 <= i < rest.len() implies s.subrange(q + 1, q + 1 + rest.len())[i]
                == rest[i] by {
                assert(s[q + 1 + i] == s.subrange(q, q + name.len())[i + 1]);
            }
        }
        assert forall|i: int|
            0 <= i < rest.len() implies #[trigger] rest[i] != ':' && rest[i] != '}' && rest[i] != '|'
                && rest[i] != '{' by {
            assert(rest[i] == name[i + 1]);
        }
        lemma_condition_end(s, q + 1, rest);
    }
}

proof fn lemma_digits_are_plain(digits: Seq<char>)
    requires
        all_digits(digits),
    ensures
        forall|i: int|
            0 <= i < digits.len() ==> #[trigger] digits[i] != '{' && digits[i] != '}' && digits[i]
                != '|' && digits[i] != ':' && digits[i] != '?',
        digits != body_name(),
{
    assert forall|i: int| 0 <= i < digits.len() implies #[trigger] digits[i] != '{' && digits[i] != '}'
        && digits[i] != '|' && digits[i] != ':' && digits[i] != '?' by {
        assert('0' <= digits[i] <= '9');
    }
    if digits == body_name() {
        assert('0' <= digits[0] <= '9');
    }
}

// ------------------------------------------------------------------ writing parses back

/// Where `part` sits in `s`, starting at `p`.
pub open spec fn placed(s: Seq<char>, p: int, part: Seq<char>) -> bool {
    0 <= p && p + part.len() <= s.len() && s.subrange(p, p + part.len()) == part
}

proof fn lemma_placed_index(s: Seq<char>, p: int, part: Seq<char>)
    requires
        placed(s, p, part),
    ensures
        forall|i: int| 0 <= i < part.len() ==> s[p + i] == #[trigger] part[i],
{
    assert forall|i: int| 0 <= i < part.len() implies s[p + i] == #[trigger] part[i] by {
        assert(s.subrange(p, p + part.len())[i] == s[p + i]);
    }
}

proof fn lemma_placed_split(s: Seq<char>, p: int, a: Seq<char>, b: Seq<char>)
    requires
        placed(s, p, a + b),
    ensures
        placed(s, p, a),
        placed(s, p + a.len(), b),
{
    lemma_placed_index(s, p, a + b);
    assert(s.subrange(p, p + a.len()) =~= a) by {
        assert forall|i: int| 0 <= i < a.len() implies s.subrange(p, p + a.len())[i] == a[i] by {
            assert((a + b)[i] == a[i]);
        }
    }
    assert(s.subrange(p + a.len(), p + a.len() + b.len()) =~= b) by {
        assert forall|i: int| 0 <= i < b.len() implies s.subrange(p + a.len(), p + a.len() + b.len())[i] == b[i] by {
            assert((a + b)[a.len() + i] == b[i]);
        }
    }
}

/// Reading escaped literal text adds it to the pending literal.
proof fn lemma_escaped_run(s: Seq<char>, p: int, in_branch: bool, literal: Seq<char>, acc: Seq<SegView>, text: Seq<char>)
    requires
        placed(s, p, escape_text(text)),
        in_branch ==> forall|i: int| 0 <= i < text.len() ==> #[trigger] text[i] != '|',
    ensures
        segments_from(s, p, in_branch, literal, acc) == segments_from(
            s,
            p + escape_text(text).len(),
            in_branch,
            literal + text,
            acc,
        ),
    decreases text.len(),
{
    if text.len() == 0 {
        assert(literal + text =~= literal);
    } else {
        let front = text.drop_last();
        let c = text.last();
        assert(escape_text(text) == escape_text(front) + escape_char(c));
        lemma_placed_split(s, p, escape_text(front), escape_char(c));
        assert forall|i: int| 0 <= i < front.len() implies #[trigger] front[i] != '|' || !in_branch by {
            assert(front[i] == text[i]);
        }
        lemma_escaped_run(s, p, in_branch, literal, acc, front);
        let q = p + escape_text(front).len();
        assert(s[q] == escape_char(c)[0]);
        if c == '{' || c == '}' {
            assert(s[q + 1] == escape_char(c)[1]);
        }
        assert(literal + front + seq![c] =~= literal + text);
        assert((literal + front).push(c) =~= literal + text);
        assert(c != '|' || !in_branch);
    }
}

/// The pending literal and segments once a run of well-formed segments has been read:
/// a trailing literal segment is still pending.
pub open spec fn after_run(acc: Seq<SegView>, segs: Seq<SegView>) -> (Seq<char>, Seq<SegView>) {
    if segs.len() > 0 && segs.last() is Str {
        (segs.last()->Str_0, acc + segs.drop_last())
    } else {
        (Seq::empty(), acc + segs)
    }
}

/// Reading a construct's source closes the pending literal and adds the construct.
proof fn lemma_construct_step(s: Seq<char>, p: int, in_branch: bool, literal: Seq<char>, acc: Seq<SegView>, seg: SegView)
    requires
        seg_ok(seg, in_branch),
        !(seg is Str),
        placed(s, p, seg_source(seg)),
        seg is IfPresent ==> p + seg_source(seg).len() >= s.len() || s[p + seg_source(seg).len()] != '}',
    ensures
        segments_from(s, p, in_branch, literal, acc) == segments_from(
            s,
            p + seg_source(seg).len(),
            in_branch,
            Seq::empty(),
            flush_literal(literal, acc).push(seg),
        ),
    decreases seg, 2int,
{
    let u = seg_source(seg);
    let end = p + u.len();
    let flushed = flush_literal(literal, acc);
    assert(s[p] == u[0]);
    match seg {
        SegView::Arg(r) => {
            let name = arg_source(r);
            assert(u == seq!['{'] + name + seq!['}']);
            lemma_placed_split(s, p, seq!['{'] + name, seq!['}']);
            lemma_placed_split(s, p, seq!['{'], name);
            match r {
                ArgRefView::Name(n) => {},
                ArgRefView::Index(i) => {
                    lemma_decimal_round_trip(i as nat);
                    lemma_digits_are_plain(name);
                },
            }
            lemma_placed_index(s, p + 1 + name.len(), seq!['}']);
            assert(seq!['}'][0] == '}');
            assert(s[p + 1 + name.len()] == '}');
            assert(forall|i: int|
                0 <= i < name.len() ==> #[trigger] name[i] != '{' && name[i] != '}' && (in_branch
                    ==> name[i] != '|'));
            lemma_reference_end(s, p + 1, name, in_branch);
            assert(s.subrange(p + 1, p + 1 + name.len()) == name);
            lemma_placed_index(s, p + 1, name);
            if name.len() > 0 {
                assert(s[p + 1] == name[0]);
            } else {
                assert(s[p + 1] == '}');
            }
            assert(char_at(s, p + 1) != Some('{'));
            assert(char_at(s, p + 1) != Some('?'));
            assert(segment_of(name) == seg);
            assert(reference_at(s, p + 1, in_branch) == Ok::<(SegView, int), TemplateErrorView>((seg, end)));
        },
        SegView::Body => {
            let name = body_name();
            assert(u == seq!['{'] + name + seq!['}']);
            lemma_placed_split(s, p, seq!['{'] + name, seq!['}']);
            lemma_placed_split(s, p, seq!['{'], name);
            lemma_placed_index(s, p + 1 + name.len(), seq!['}']);
            lemma_placed_index(s, p + 1, name);
            assert(seq!['}'][0] == '}');
            assert(s[p + 1 + name.len()] == '}');
            lemma_reference_end(s, p + 1, name, in_branch);
            assert(s.subrange(p + 1, p + 1 + name.len()) == name);
            assert(s[p + 1] == name[0]);
            assert(s[p + 1] == 'b');
            assert(segment_of(name) == seg);
            assert(reference_at(s, p + 1, in_branch) == Ok::<(SegView, int), TemplateErrorView>((seg, end)));
        },
        SegView::IfPresent { .. } => {
            lemma_conditional_source(s, p, seg);
        },
        SegView::Str(_) => {},
    }
}

/// A conditional's source, in place, reads back as the conditional, ending just past its
/// closing `}`.
proof fn lemma_conditional_source(s: Seq<char>, p: int, seg: SegView)
    requires
        seg is IfPresent,
        seg_ok(seg, false),
        placed(s, p, seg_source(seg)),
        p + seg_source(seg).len() >= s.len() || s[p + seg_source(seg).len()] != '}',
    ensures
        s[p] == '{',
        char_at(s, p + 1) == Some('?'),
        conditional_at(s, p + 2) == Ok::<(SegView, int), TemplateErrorView>(
            (seg, p + seg_source(seg).len()),
        ),
    decreases seg, 1int,
{
    let (arg, then, els) = match seg {
        SegView::IfPresent { arg, then, els } => (arg, then, els),
        _ => (ArgRefView::Index(0), Seq::empty(), Seq::empty()),
    };
    let u = seg_source(seg);
    let end = p + u.len();
    let a = arg_source(arg);
    let rest = if els.len() > 0 {
        seq!['|'] + source_of(els)
    } else {
        Seq::empty()
    };
    assert(u =~= seq!['{', '?'] + a + seq![':'] + source_of(then) + rest + seq!['}']);
    lemma_placed_split(s, p, seq!['{', '?'] + a + seq![':'] + source_of(then) + rest, seq!['}']);
    lemma_placed_split(s, p, seq!['{', '?'] + a + seq![':'] + source_of(then), rest);
    lemma_placed_split(s, p, seq!['{', '?'] + a + seq![':'], source_of(then));
    lemma_placed_split(s, p, seq!['{', '?'] + a, seq![':']);
    lemma_placed_split(s, p, seq!['{', '?'], a);
    lemma_placed_index(s, p, seq!['{', '?']);
    lemma_placed_index(s, p + 2 + a.len(), seq![':']);
    assert(seq!['{', '?'][0] == '{' && seq!['{', '?'][1] == '?');
    assert(s[p] == '{');
    assert(s[p + 1] == '?');
    // The tested name.
    match arg {
        ArgRefView::Name(n) => {},
        ArgRefView::Index(i) => {
            lemma_decimal_round_trip(i as nat);
            lemma_digits_are_plain(a);
        },
    }
    assert(seq![':'][0] == ':');
    assert(s[p + 2 + a.len()] == ':');
    lemma_condition_end(s, p + 2, a);
    assert(s.subrange(p + 2, p + 2 + a.len()) == a);
    assert(arg_ref_of(a) == arg);
    // The first branch.
    let q = p + 3 + a.len();
    let r = q + source_of(then).len();
    assert(segs_ok(then, true) && segs_ok(els, true));
    if then.len() > 0 {
        assert(seg_ok(then.last(), true));
    }
    if els.len() > 0 {
        assert(seg_ok(els.last(), true));
    }
    lemma_segs_run(s, q, true, Seq::empty(), then);
    let (lit1, acc1) = after_run(Seq::empty(), then);
    assert(flush_literal(lit1, acc1) =~= then) by {
        lemma_after_run_flush(Seq::empty(), then);
    }
    if els.len() > 0 {
        lemma_placed_split(s, r, seq!['|'], source_of(els));
        lemma_placed_index(s, r, seq!['|']);
        assert(seq!['|'][0] == '|');
        assert(s[r] == '|');
        let q2 = r + 1;
        let r2 = q2 + source_of(els).len();
        assert(r2 == end - 1);
        lemma_placed_index(s, end - 1, seq!['}']);
        lemma_segs_run(s, q2, true, Seq::empty(), els);
        let (lit2, acc2) = after_run(Seq::empty(), els);
        assert(flush_literal(lit2, acc2) =~= els) by {
            lemma_after_run_flush(Seq::empty(), els);
        }
        assert(seq!['}'][0] == '}');
        assert(s[r2] == '}');
        assert(char_at(s, r2 + 1) != Some('}'));
    } else {
        assert(rest =~= Seq::<char>::empty());
        assert(r == end - 1);
        lemma_placed_index(s, end - 1, seq!['}']);
        assert(seq!['}'][0] == '}');
        assert(s[r] == '}');
        assert(char_at(s, r + 1) != Some('}'));
    }
}

proof fn lemma_after_run_flush(acc: Seq<SegView>, segs: Seq<SegView>)
    requires
        segs.len() > 0 && segs.last() is Str ==> segs.last()->Str_0.len() > 0,
    ensures
        flush_literal(after_run(acc, segs).0, after_run(acc, segs).1) == acc + segs,
{
    if segs.len() > 0 && segs.last() is Str {
        assert(acc + segs.drop_last() + seq![segs.last()] =~= acc + segs);
        assert((acc + segs.drop_last()).push(segs.last()) =~= acc + segs);
    } else {
        assert(after_run(acc, segs).0.len() == 0);
    }
}

/// Reading the source of a run of well-formed segments reaches its end with the run read:
/// every segment added, a trailing literal still pending.
proof fn lemma_segs_run(s: Seq<char>, p: int, in_branch: bool, acc: Seq<SegView>, segs: Seq<SegView>)
    requires
        segs_ok(segs, in_branch),
        placed(s, p, source_of(segs)),
        segs.len() > 0 && segs.last() is IfPresent ==> p + source_of(segs).len() >= s.len() || s[p
            + source_of(segs).len()] != '}',
    ensures
        segments_from(s, p, in_branch, Seq::empty(), acc) == segments_from(
            s,
            p + source_of(segs).len(),
            in_branch,
            after_run(acc, segs).0,
            after_run(acc, segs).1,
        ),
        segs.len() > 0 && segs.last() is Str ==> segs.last()->Str_0.len() > 0,
    decreases segs, 0int,
{
    if segs.len() == 0 {
        assert(acc + segs =~= acc);
    } else {
        let front = segs.drop_last();
        let x = segs.last();
        assert(seg_ok(x, in_branch));
        assert(segs_ok(front, in_branch));
        assert(source_of(segs) == source_of(front) + seg_source(x));
        lemma_placed_split(s, p, source_of(front), seg_source(x));
        let mid = p + source_of(front).len();
        // The segment after the front begins with a character that cannot close a
        // conditional before it.
        if front.len() > 0 && front.last() is IfPresent {
            assert(front.last() == segs[segs.len() - 2]);
            lemma_source_starts(x, in_branch);
            lemma_placed_index(s, mid, seg_source(x));
            assert(s[mid] == seg_source(x)[0]);
            assert(neighbours_ok(front.last(), x));
        }
        lemma_segs_run(s, p, in_branch, acc, front);
        let (lit1, acc1) = after_run(acc, front);
        match x {
            SegView::Str(text) => {
                if front.len() > 0 {
                    assert(front.last() == segs[segs.len() - 2]);
                }
                assert(lit1 =~= Seq::<char>::empty());
                assert(acc1 =~= acc + front);
                lemma_escaped_run(s, mid, in_branch, lit1, acc1, text);
                assert(lit1 + text =~= text);
                assert(segs.drop_last() =~= front);
            },
            _ => {
                lemma_construct_step(s, mid, in_branch, lit1, acc1, x);
                lemma_after_run_flush(acc, front);
                assert(flush_literal(lit1, acc1).push(x) =~= acc + segs);
            },
        }
    }
}

/// What the source of a well-formed segment starts with: never a `}` when the segment
/// could follow a conditional.
proof fn lemma_source_starts(x: SegView, in_branch: bool)
    requires
        seg_ok(x, in_branch),
    ensures
        seg_source(x).len() > 0,
        (x matches SegView::Str(text) ==> seg_source(x)[0] == escape_char(text[0])[0]),
        !(x is Str) ==> seg_source(x)[0] == '{',
{
    match x {
        SegView::Str(text) => {
            lemma_escape_front(text);
        },
        SegView::IfPresent { arg, then, els } => {
            let rest = if els.len() > 0 {
                seq!['|'] + source_of(els)
            } else {
                Seq::empty()
            };
            assert(seg_source(x) == seq!['{', '?'] + arg_source(arg) + seq![':'] + source_of(then) + rest
                + seq!['}']);
        },
        _ => {},
    }
}

proof fn lemma_escape_front(text: Seq<char>)
    requires
        text.len() > 0,
    ensures
        escape_text(text).len() > 0,
        escape_text(text)[0] == escape_char(text[0])[0],
    decreases text.len(),
{
    if text.len() == 1 {
        assert(text.drop_last() =~= Seq::<char>::empty());
        assert(escape_text(Seq::<char>::empty()) =~= Seq::<char>::empty());
        assert(text.last() == text[0]);
        assert(escape_text(text) =~= escape_char(text[0]));
    } else {
        lemma_escape_front(text.drop_last());
        assert(text.drop_last()[0] == text[0]);
    }
}

/// Writing a well-formed top-level segment list out and parsing it gives it back.
pub proof fn lemma_source_parses_back(segs: Seq<SegView>)
    requires
        segs_ok(segs, false),
    ensures
        parse_template(source_of(segs)) == Ok::<Seq<SegView>, TemplateErrorView>(segs),
{
    let s = source_of(segs);
    assert(s.subrange(0, s.len() as int) =~= s);
    lemma_segs_run(s, 0, false, Seq::empty(), segs);
    let (lit, acc) = after_run(Seq::empty(), segs);
    lemma_after_run_flush(Seq::empty(), segs);
    assert(Seq::<SegView>::empty() + segs =~= segs);
}

// ------------------------------------------------------------------ parses are well formed

/// A run that has produced only well-formed output so far, in a state the parser can be
/// in: the segments so far well formed and not ending in literal text (that is still
/// pending), no `|` pending inside a branch, and nothing pending — or about to be read —
/// that starts with `}` right after a conditional.
pub open spec fn run_state_ok(s: Seq<char>, pos: int, in_branch: bool, literal: Seq<char>, acc: Seq<SegView>) -> bool {
    &&& 0 <= pos
    &&& segs_ok(acc, in_branch)
    &&& (acc.len() > 0 ==> !(acc.last() is Str))
    &&& (in_branch ==> forall|i: int| 0 <= i < literal.len() ==> #[trigger] literal[i] != '|')
    &&& (acc.len() > 0 && acc.last() is IfPresent ==> if literal.len() > 0 {
        literal[0] != '}'
    } else {
        char_at(s, pos) != Some('}')
    })
}

proof fn lemma_flush_ok(s: Seq<char>, pos: int, in_branch: bool, literal: Seq<char>, acc: Seq<SegView>)
    requires
        run_state_ok(s, pos, in_branch, literal, acc),
    ensures
        segs_ok(flush_literal(literal, acc), in_branch),
{
    if literal.len() > 0 {
        let f = acc.push(SegView::Str(literal));
        assert(f.drop_last() =~= acc);
        assert(f.last() == SegView::Str(literal));
        assert(seg_ok(SegView::Str(literal), in_branch));
        if acc.len() > 0 {
            assert(f[f.len() - 2] == acc.last());
            assert(neighbours_ok(acc.last(), SegView::Str(literal)));
        }
        assert(segs_ok(f, in_branch));
    }
}

/// What a reference scan passes over: no braces, and no `|` inside a branch.
proof fn lemma_reference_scan(s: Seq<char>, q: int, in_branch: bool)
    ensures
        match reference_end(s, q, in_branch) {
            Some(e) => 0 <= q <= e < s.len() && s[e] == '}' && forall|k: int|
                q <= k < e ==> #[trigger] s[k] != '{' && s[k] != '}' && (in_branch ==> s[k] != '|'),
            None => true,
        },
    decreases s.len() - q,
{
    if 0 <= q < s.len() && s[q] != '}' && s[q] != '{' && !(s[q] == '|' && in_branch) {
        lemma_reference_scan(s, q + 1, in_branch);
    }
}

/// What a condition scan passes over: no `:`, braces or `|`.
proof fn lemma_condition_scan(s: Seq<char>, q: int)
    ensures
        match condition_end(s, q) {
            Some(e) => 0 <= q <= e < s.len() && s[e] == ':' && forall|k: int|
                q <= k < e ==> #[trigger] s[k] != ':' && s[k] != '}' && s[k] != '|' && s[k] != '{',
            None => true,
        },
    decreases s.len() - q,
{
    if 0 <= q < s.len() && s[q] != ':' && s[q] != '}' && s[q] != '|' && s[q] != '{' {
        lemma_condition_scan(s, q + 1);
    }
}

/// A reference the parser reads is well formed.
proof fn lemma_reference_shape(s: Seq<char>, pos: int, in_branch: bool)
    requires
        0 <= pos,
        char_at(s, pos) != Some('?'),
    ensures
        match reference_at(s, pos, in_branch) {
            Ok((seg, next)) => seg_ok(seg, in_branch) && !(seg is Str) && !(seg is IfPresent) && pos < next <= s.len(),
            Err(_) => true,
        },
{
    lemma_reference_scan(s, pos, in_branch);
    match reference_end(s, pos, in_branch) {
        Some(e) => {
            let name = s.subrange(pos, e);
            assert forall|i: int|
                0 <= i < name.len() implies #[trigger] name[i] != '{' && name[i] != '}' && (in_branch
                    ==> name[i] != '|') by {
                assert(name[i] == s[pos + i]);
            }
            if name.len() > 0 {
                assert(name[0] == s[pos]);
            }
        },
        None => {},
    }
}

/// Everything a run of the parser produces is well formed, and a branch closed by `}` is
/// never followed by another `}` (that pair would have been an escaped brace).
proof fn lemma_run_shape(s: Seq<char>, pos: int, in_branch: bool, literal: Seq<char>, acc: Seq<SegView>)
    requires
        run_state_ok(s, pos, in_branch, literal, acc),
    ensures
        match segments_from(s, pos, in_branch, literal, acc) {
            Ok((segs, stop, p)) => segs_ok(segs, in_branch) && pos <= p && (stop == Stop::Close
                ==> char_at(s, p) != Some('}')),
            Err(_) => true,
        },
    decreases (if in_branch { 0int } else { 2int }), s.len() - pos,
{
    if pos < 0 || pos >= s.len() {
        lemma_flush_ok(s, pos, in_branch, literal, acc);
    } else {
        let ch = s[pos];
        let second = char_at(s, pos + 1);
        if ch == '{' && second == Some('{') {
            let lit2 = literal.push('{');
            assert(run_state_ok(s, pos + 2, in_branch, lit2, acc)) by {
                if literal.len() > 0 {
                    assert(lit2[0] == literal[0]);
                }
                assert forall|i: int| 0 <= i < lit2.len() implies #[trigger] lit2[i] != '|' || !in_branch by {
                    if i < literal.len() {
                        assert(lit2[i] == literal[i]);
                    }
                }
            }
            lemma_run_shape(s, pos + 2, in_branch, lit2, acc);
        } else if ch == '{' {
            let flushed = flush_literal(literal, acc);
            lemma_flush_ok(s, pos, in_branch, literal, acc);
            let inner = if second == Some('?') {
                if in_branch {
                    Err(TemplateErrorView::NestedConditional)
                } else {
                    conditional_at(s, pos + 2)
                }
            } else {
                reference_at(s, pos + 1, in_branch)
            };
            if second == Some('?') {
                if !in_branch {
                    lemma_conditional_shape(s, pos + 2);
                }
            } else {
                lemma_reference_shape(s, pos + 1, in_branch);
            }
            match inner {
                Err(_) => {},
                Ok((seg, next)) => {
                    if pos < next <= s.len() {
                        let acc2 = flushed.push(seg);
                        assert(run_state_ok(s, next, in_branch, Seq::empty(), acc2)) by {
                            assert(acc2.drop_last() =~= flushed);
                            assert(acc2.last() == seg);
                            if flushed.len() > 0 {
                                assert(acc2[acc2.len() - 2] == flushed.last());
                            }
                        }
                        lemma_run_shape(s, next, in_branch, Seq::empty(), acc2);
                    }
                },
            }
        } else if ch == '}' && second == Some('}') {
            let lit2 = literal.push('}');
            assert(run_state_ok(s, pos + 2, in_branch, lit2, acc)) by {
                if literal.len() > 0 {
                    assert(lit2[0] == literal[0]);
                }
                assert forall|i: int| 0 <= i < lit2.len() implies #[trigger] lit2[i] != '|' || !in_branch by {
                    if i < literal.len() {
                        assert(lit2[i] == literal[i]);
                    }
                }
            }
            lemma_run_shape(s, pos + 2, in_branch, lit2, acc);
        } else if ch == '}' && in_branch {
            lemma_flush_ok(s, pos, in_branch, literal, acc);
        } else if ch == '|' && in_branch {
            lemma_flush_ok(s, pos, in_branch, literal, acc);
        } else {
            let lit2 = literal.push(ch);
            assert(run_state_ok(s, pos + 1, in_branch, lit2, acc)) by {
                if literal.len() > 0 {
                    assert(lit2[0] == literal[0]);
                }
                assert forall|i: int| 0 <= i < lit2.len() implies #[trigger] lit2[i] != '|' || !in_branch by {
                    if i < literal.len() {
                        assert(lit2[i] == literal[i]);
                    }
                }
            }
            lemma_run_shape(s, pos + 1, in_branch, lit2, acc);
        }
    }
}

/// A conditional the parser reads is well formed, and is not followed by a `}`.
proof fn lemma_conditional_shape(s: Seq<char>, pos: int)
    requires
        0 <= pos,
    ensures
        match conditional_at(s, pos) {
            Ok((seg, next)) => seg_ok(seg, false) && seg is IfPresent && char_at(s, next) != Some('}'),
            Err(_) => true,
        },
    decreases 1int, 0int,
{
    lemma_condition_scan(s, pos);
    match condition_end(s, pos) {
        None => {},
        Some(end) => {
            let name = s.subrange(pos, end);
            assert forall|i: int|
                0 <= i < name.len() implies #[trigger] name[i] != ':' && name[i] != '}' && name[i] != '|'
                    && name[i] != '{' by {
                assert(name[i] == s[pos + i]);
            }
            assert(condition_ok(arg_ref_of(name)));
            lemma_run_shape(s, end + 1, true, Seq::empty(), Seq::empty());
            match segments_from(s, end + 1, true, Seq::empty(), Seq::empty()) {
                Err(_) => {},
                Ok((then, stop, next)) => {
                    if stop == Stop::Pipe {
                        lemma_run_shape(s, next, true, Seq::empty(), Seq::empty());
                    }
                },
            }
        },
    }
}

/// Parsing is stable under writing the parse back out: whatever a source compiles to,
/// writing the compiled segments out as source and compiling that gives the same
/// segments.
pub proof fn lemma_parsing_round_trips(source: Seq<char>)
    ensures
        match parse_template(source) {
            Ok(segs) => parse_template(source_of(segs)) == Ok::<Seq<SegView>, TemplateErrorView>(segs),
            Err(_) => true,
        },
{
    lemma_run_shape(source, 0, false, Seq::empty(), Seq::empty());
    match parse_template(source) {
        Ok(segs) => {
            lemma_source_parses_back(segs);
        },
        Err(_) => {},
    }
}

} // verus!
