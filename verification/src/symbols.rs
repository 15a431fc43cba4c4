//! Reading a definition set back: every name it defines, one answer per name.
//!
//! A definition set resolves a name innermost-first, and later categories sit further
//! in, so a later category's `\ldots` shadows an earlier one's and a later entry within a
//! category shadows an earlier entry of the same name. [`SymbolIndex::build`] applies
//! that rule to the declarations in the order they were made and holds **one entry per
//! (kind, name) pair**, sorted by kind and then by name, so the entries of one kind are
//! contiguous, a prefix scan is a subslice, and every question is a binary search.

use vstd::prelude::*;

use crate::def::{
    literal_of, macros_view, environments_view, specials_view, categories_view, Category, CategoryView,
    DefinitionSet, EnvDef, EnvDefView, MacroDef, MacroDefView, SpecialsDef, SpecialsDefView, TextRule,
};
use crate::defs::lists::ListKind;
use crate::text::chars_of;

verus! {

/// Which of the three kinds of callable a definition or a rule is about.
///
/// Macros and environments are keyed by name and specials by their trigger characters,
/// in three separate stores; a name therefore means nothing on its own, and every lookup
/// is keyed by the pair.
#[derive(Clone, Copy, Debug, PartialEq, Eq, Structural, PartialOrd, Ord, Hash)]
pub enum CallableKind {
    /// `\emph`, `\textbf`: a macro, named without its escape character.
    Macro,
    /// `\begin{itemize}…\end{itemize}`: an environment, named as in `\begin{…}`.
    Environment,
    /// `~`, `&`, `---`: a construct triggered by the characters themselves.
    Specials,
}

/// The position of a kind in the index's order: macros, then environments, then
/// specials — the order the kinds are declared in.
pub open spec fn kind_rank(kind: CallableKind) -> int {
    match kind {
        CallableKind::Macro => 0,
        CallableKind::Environment => 1,
        CallableKind::Specials => 2,
    }
}

/// How a construct is written in a diagnostic: `\name` for a macro, the bare name for an
/// environment or specials.
pub open spec fn construct_text(kind: CallableKind, name: Seq<char>) -> Seq<char> {
    match kind {
        CallableKind::Macro => seq!['\\'] + name,
        _ => name,
    }
}

impl CallableKind {
    /// This kind's position in the index's order.
    pub fn rank(self) -> (r: u8)
        ensures
            r as int == kind_rank(self),
    {
        match self {
            CallableKind::Macro => 0,
            CallableKind::Environment => 1,
            CallableKind::Specials => 2,
        }
    }

    /// How a construct of this kind is written, for diagnostic messages: `\name` for a
    /// macro, the bare name for an environment or specials.
    pub fn write_construct(self, name: &str) -> (text: String)
        ensures
            text@ == construct_text(self, name@),
    {
        match self {
            CallableKind::Macro => {
                let mut text = String::new();
                crate::text::push_char(&mut text, '\\');
                text.append(name);
                assert(text@ =~= seq!['\\'] + name@);
                text
            },
            CallableKind::Environment | CallableKind::Specials => name.to_owned(),
        }
    }
}

/// What an environment's body is, syntactically.
///
/// Recording this in the definition is what keeps the renderer from having to guess:
/// "characters in a verbatim body are emitted verbatim" is answered by asking the
/// environment, not by inspecting the text.
#[non_exhaustive]
#[derive(Clone, Copy, Debug, PartialEq, Eq, Structural, Hash)]
pub enum EnvBodyKind {
    /// An ordinary body, parsed in the enclosing mode.
    Normal,
    /// A body parsed in math mode (`equation`, `align`).
    Math,
    /// A raw body: one characters node, no markup (`verbatim`).
    Verbatim,
    /// A list body (`itemize`, `enumerate`, `description`): parsed in the enclosing mode,
    /// with `\item` brought into scope for its extent.
    List(ListKind),
}

/// A parsing mode: ordinary text, or a formula.
#[derive(Clone, Copy, Debug, PartialEq, Eq, Structural, Hash)]
pub enum Mode {
    /// Ordinary text content.
    Text,
    /// Math content (inside `$…$`, `\[…\]`, a math environment).
    Math,
}

/// Which parsing modes a definition is visible in.
///
/// It is the honest answer to "where may I write this?", which is what a caller listing
/// the table wants: offering `^` in a paragraph is offering something that will not fire
/// there.
#[derive(Clone, Copy, Debug, PartialEq, Eq, Structural, PartialOrd, Ord, Hash)]
pub enum ModeVisibility {
    /// Visible in every mode, which is what almost every definition is.
    Anywhere,
    /// Text mode only: the ligatures, and anything that would be nonsense in a formula.
    TextOnly,
    /// Math mode only: `^` and `_`, and the symbols that mean nothing in a paragraph.
    MathOnly,
}

/// The visibility a mode restriction describes. No restriction, and a restriction naming
/// both modes, are both [`ModeVisibility::Anywhere`].
pub open spec fn visibility_of(restriction: Option<Seq<Mode>>) -> ModeVisibility {
    match restriction {
        None => ModeVisibility::Anywhere,
        Some(modes) => if modes.contains(Mode::Text) && !modes.contains(Mode::Math) {
            ModeVisibility::TextOnly
        } else if !modes.contains(Mode::Text) && modes.contains(Mode::Math) {
            ModeVisibility::MathOnly
        } else {
            ModeVisibility::Anywhere
        },
    }
}

impl ModeVisibility {
    /// The visibility a definition's mode restriction describes.
    ///
    /// `None` — no restriction at all — is [`Anywhere`](Self::Anywhere), and so is a
    /// restriction naming both modes: a definition visible in text *and* in math is
    /// visible in every mode there is.
    pub fn of(restriction: Option<&[Mode]>) -> (v: ModeVisibility)
        ensures
            v == visibility_of(
                match restriction {
                    Some(modes) => Some(modes@),
                    None => None,
                },
            ),
    {
        let modes = match restriction {
            None => {
                return ModeVisibility::Anywhere;
            },
            Some(modes) => modes,
        };
        let mut text = false;
        let mut math = false;
        let mut i: usize = 0;
        while i < modes.len()
            invariant
                i <= modes@.len(),
                text <==> exists|j: int| 0 <= j < i && modes@[j] == Mode::Text,
                math <==> exists|j: int| 0 <= j < i && modes@[j] == Mode::Math,
            decreases modes@.len() - i,
        {
            match modes[i] {
                Mode::Text => {
                    text = true;
                },
                Mode::Math => {
                    math = true;
                },
            }
            i = i + 1;
        }
        proof {
            if modes@.contains(Mode::Text) {
                let j = choose|j: int| 0 <= j < modes@.len() && modes@[j] == Mode::Text;
                assert(text);
            }
            if modes@.contains(Mode::Math) {
                let j = choose|j: int| 0 <= j < modes@.len() && modes@[j] == Mode::Math;
                assert(math);
            }
            if text {
                assert(modes@.contains(Mode::Text));
            }
            if math {
                assert(modes@.contains(Mode::Math));
            }
        }
        if text && !math {
            ModeVisibility::TextOnly
        } else if !text && math {
            ModeVisibility::MathOnly
        } else {
            ModeVisibility::Anywhere
        }
    }
}

/// One name a definition set defines, as the set resolves it.
#[derive(Clone, Debug, PartialEq, Eq)]
pub struct SymbolEntry {
    /// The name, written as the definition writes it: without the escape character for a
    /// macro (`"alpha"`, not `"\\alpha"`), as in `\begin{…}` for an environment, and as
    /// the trigger characters themselves for a specials.
    pub name: String,
    /// Which of the three kinds of callable this is — the other half of the key, since
    /// a macro and an environment may share a name and mean different things.
    pub kind: CallableKind,
    /// The name of the category the winning definition came from.
    pub category: String,
    /// What the construct renders as when its rule is a plain literal (`\alpha` → `α`),
    /// and `None` for every rule that has to be executed to find out.
    pub replacement: Option<String>,
    /// How many arguments the definition declares.
    pub arity: usize,
    /// Which modes the definition is visible in.
    pub modes: ModeVisibility,
}

/// A symbol entry, as a mathematical value.
pub struct EntryView {
    pub name: Seq<char>,
    pub kind: CallableKind,
    pub category: Seq<char>,
    pub replacement: Option<Seq<char>>,
    pub arity: usize,
    pub modes: ModeVisibility,
}

impl View for SymbolEntry {
    type V = EntryView;

    open spec fn view(&self) -> EntryView {
        EntryView {
            name: self.name@,
            kind: self.kind,
            category: self.category@,
            replacement: match self.replacement {
                Some(text) => Some(text@),
                None => None,
            },
            arity: self.arity,
            modes: self.modes,
        }
    }
}

// ------------------------------------------------------------------ the order

/// Code-point lexicographic order on character sequences — the order `str`'s own
/// comparison gives, since UTF-8 preserves code-point order.
pub open spec fn text_lt(a: Seq<char>, b: Seq<char>) -> bool
    decreases a.len(),
{
    if a.len() == 0 {
        b.len() > 0
    } else if b.len() == 0 {
        false
    } else if a[0] != b[0] {
        (a[0] as int) < (b[0] as int)
    } else {
        text_lt(a.drop_first(), b.drop_first())
    }
}

/// Whether `text` begins with `prefix`.
pub open spec fn has_prefix(text: Seq<char>, prefix: Seq<char>) -> bool {
    prefix.len() <= text.len() && text.take(prefix.len() as int) == prefix
}

/// An index key: the kind and the name.
pub open spec fn key_lt(k1: CallableKind, n1: Seq<char>, k2: CallableKind, n2: Seq<char>) -> bool {
    kind_rank(k1) < kind_rank(k2) || (k1 == k2 && text_lt(n1, n2))
}

/// Whether entry `a` sorts strictly before entry `b`.
pub open spec fn entry_lt(a: EntryView, b: EntryView) -> bool {
    key_lt(a.kind, a.name, b.kind, b.name)
}

/// Strictly sorted by (kind, name), so one entry per key.
pub open spec fn strictly_sorted(entries: Seq<EntryView>) -> bool {
    forall|i: int, j: int| 0 <= i < j < entries.len() ==> #[trigger] entry_lt(entries[i], entries[j])
}

/// What the declarations resolve to: each (kind, name) key mapped to the entry declared
/// last under it.
pub open spec fn resolved(declared: Seq<EntryView>) -> Map<(CallableKind, Seq<char>), EntryView>
    decreases declared.len(),
{
    if declared.len() == 0 {
        Map::empty()
    } else {
        let last = declared.last();
        resolved(declared.drop_last()).insert((last.kind, last.name), last)
    }
}

/// The table is exactly what `declared` resolves to: sorted, every entry the winner for
/// its key, and every declared key present.
pub open spec fn resolves(entries: Seq<EntryView>, declared: Seq<EntryView>) -> bool {
    let winners = resolved(declared);
    &&& strictly_sorted(entries)
    &&& forall|i: int|
        0 <= i < entries.len() ==> winners.contains_key((#[trigger] entries[i].kind, entries[i].name))
            && winners[(entries[i].kind, entries[i].name)] == entries[i]
    &&& forall|k: (CallableKind, Seq<char>)|
        #[trigger] winners.contains_key(k) ==> exists|i: int|
            0 <= i < entries.len() && entries[i].kind == k.0 && entries[i].name == k.1
}

/// The entry a table holds under a key, if any.
pub open spec fn lookup(entries: Seq<EntryView>, kind: CallableKind, name: Seq<char>) -> Option<EntryView> {
    if exists|i: int| 0 <= i < entries.len() && entries[i].kind == kind && entries[i].name == name {
        let i = choose|i: int| 0 <= i < entries.len() && entries[i].kind == kind && entries[i].name == name;
        Some(entries[i])
    } else {
        None
    }
}

pub proof fn lemma_text_lt_irreflexive(a: Seq<char>)
    ensures
        !text_lt(a, a),
    decreases a.len(),
{
    if a.len() > 0 {
        lemma_text_lt_irreflexive(a.drop_first());
    }
}

pub proof fn lemma_text_lt_transitive(a: Seq<char>, b: Seq<char>, c: Seq<char>)
    requires
        text_lt(a, b),
        text_lt(b, c),
    ensures
        text_lt(a, c),
    decreases a.len(),
{
    if a.len() > 0 && b.len() > 0 && c.len() > 0 && a[0] == b[0] && b[0] == c[0] {
        lemma_text_lt_transitive(a.drop_first(), b.drop_first(), c.drop_first());
    }
}

pub proof fn lemma_text_lt_asymmetric(a: Seq<char>, b: Seq<char>)
    requires
        text_lt(a, b),
    ensures
        !text_lt(b, a),
    decreases a.len(),
{
    if a.len() > 0 && b.len() > 0 && a[0] == b[0] {
        lemma_text_lt_asymmetric(a.drop_first(), b.drop_first());
    }
}

pub proof fn lemma_text_lt_total(a: Seq<char>, b: Seq<char>)
    requires
        a != b,
    ensures
        text_lt(a, b) || text_lt(b, a),
    decreases a.len(),
{
    if a.len() > 0 && b.len() > 0 && a[0] == b[0] {
        if a.drop_first() == b.drop_first() {
            assert(a =~= seq![a[0]] + a.drop_first());
            assert(b =~= seq![b[0]] + b.drop_first());
        }
        lemma_text_lt_total(a.drop_first(), b.drop_first());
    } else if a.len() > 0 && b.len() > 0 {
        assert((a[0] as int) != (b[0] as int));
    } else if a.len() == 0 && b.len() == 0 {
        assert(a =~= b);
    }
}

proof fn lemma_has_prefix_step(text: Seq<char>, prefix: Seq<char>)
    requires
        prefix.len() > 0,
    ensures
        has_prefix(text, prefix) <==> (text.len() > 0 && text[0] == prefix[0] && has_prefix(
            text.drop_first(),
            prefix.drop_first(),
        )),
{
    if has_prefix(text, prefix) {
        assert(text[0] == text.take(prefix.len() as int)[0]);
        assert(text.drop_first().take(prefix.len() - 1) =~= prefix.drop_first());
    }
    if text.len() > 0 && text[0] == prefix[0] && has_prefix(text.drop_first(), prefix.drop_first()) {
        assert(text.take(prefix.len() as int) =~= prefix) by {
            assert forall|i: int| 0 <= i < prefix.len() implies text.take(prefix.len() as int)[i]
                == prefix[i] by {
                if i > 0 {
                    assert(text.drop_first().take(prefix.len() - 1)[i - 1] == prefix.drop_first()[i - 1]);
                }
            }
        }
    }
}

/// A text that begins with `prefix` never sorts before `prefix`.
pub proof fn lemma_prefix_not_below(text: Seq<char>, prefix: Seq<char>)
    requires
        has_prefix(text, prefix),
    ensures
        !text_lt(text, prefix),
    decreases prefix.len(),
{
    if prefix.len() > 0 {
        lemma_has_prefix_step(text, prefix);
        lemma_prefix_not_below(text.drop_first(), prefix.drop_first());
    }
}

/// Among the texts at or after `prefix`, those that begin with it come first: they sort
/// before every text at or after `prefix` that does not.
pub proof fn lemma_prefix_run_first(x: Seq<char>, y: Seq<char>, prefix: Seq<char>)
    requires
        has_prefix(x, prefix),
        !has_prefix(y, prefix),
        !text_lt(y, prefix),
    ensures
        text_lt(x, y),
    decreases prefix.len(),
{
    if prefix.len() == 0 {
        assert(y.take(0) =~= prefix);
        return;
    }
    lemma_has_prefix_step(x, prefix);
    lemma_has_prefix_step(y, prefix);
    if y.len() == 0 {
    } else if y[0] != prefix[0] {
    } else {
        lemma_prefix_run_first(x.drop_first(), y.drop_first(), prefix.drop_first());
    }
}

pub proof fn lemma_entry_lt_transitive(a: EntryView, b: EntryView, c: EntryView)
    requires
        entry_lt(a, b),
        entry_lt(b, c),
    ensures
        entry_lt(a, c),
{
    if a.kind == b.kind && b.kind == c.kind {
        lemma_text_lt_transitive(a.name, b.name, c.name);
    }
}

/// No entry comes before itself.
pub proof fn lemma_entry_lt_irreflexive(a: EntryView)
    ensures
        !entry_lt(a, a),
{
    lemma_text_lt_irreflexive(a.name);
}

/// Filtering a sequence by a predicate that holds on one run of it and nowhere else
/// leaves exactly that run.
proof fn lemma_filter_is_run(s: Seq<EntryView>, p: spec_fn(EntryView) -> bool, a: int, b: int)
    requires
        0 <= a <= b <= s.len(),
        forall|i: int| a <= i < b ==> p(#[trigger] s[i]),
        forall|i: int| 0 <= i < s.len() && !(a <= i < b) ==> !p(#[trigger] s[i]),
    ensures
        s.filter(p) == s.subrange(a, b),
    decreases s.len(),
{
    reveal(Seq::filter);
    if s.len() == 0 {
        assert(s.subrange(a, b) =~= s);
    } else {
        let n = s.len() - 1;
        let shorter = s.drop_last();
        assert(s.last() == s[n]);
        if a <= n < b {
            assert(b == s.len());
            lemma_filter_is_run(shorter, p, a, n);
            assert(shorter.subrange(a, n).push(s[n]) =~= s.subrange(a, b));
        } else {
            let b2 = if b > n { n } else { b };
            let a2 = if a > b2 { b2 } else { a };
            assert(a2 == a && b2 == b || a == b);
            lemma_filter_is_run(shorter, p, a2, b2);
            assert(shorter.subrange(a2, b2) =~= s.subrange(a, b));
        }
    }
}

/// A run of a strictly sorted sequence holding exactly the elements a predicate accepts
/// is what filtering by that predicate leaves.
proof fn lemma_block_is_filter(s: Seq<EntryView>, p: spec_fn(EntryView) -> bool, a: int, b: int)
    requires
        strictly_sorted(s),
        0 <= a <= b <= s.len(),
        forall|x: EntryView| #[trigger] s.subrange(a, b).contains(x) <==> (s.contains(x) && p(x)),
    ensures
        s.filter(p) == s.subrange(a, b),
{
    let block = s.subrange(a, b);
    assert forall|i: int| a <= i < b implies p(#[trigger] s[i]) by {
        assert(block[i - a] == s[i]);
        assert(block.contains(s[i]));
    }
    assert forall|i: int| 0 <= i < s.len() && !(a <= i < b) implies !p(#[trigger] s[i]) by {
        if p(s[i]) {
            assert(s.contains(s[i]));
            assert(block.contains(s[i]));
            let k = choose|k: int| 0 <= k < block.len() && block[k] == s[i];
            assert(s[a + k] == s[i]);
            lemma_entry_lt_irreflexive(s[i]);
            if a + k < i {
                assert(entry_lt(s[a + k], s[i]));
            } else {
                assert(entry_lt(s[i], s[a + k]));
            }
        }
    }
    lemma_filter_is_run(s, p, a, b);
}

/// Two distinct keys are ordered one way or the other.
pub proof fn lemma_key_total(k1: CallableKind, n1: Seq<char>, k2: CallableKind, n2: Seq<char>)
    requires
        !(k1 == k2 && n1 == n2),
    ensures
        key_lt(k1, n1, k2, n2) || key_lt(k2, n2, k1, n1),
{
    if k1 == k2 {
        lemma_text_lt_total(n1, n2);
    }
}

// ------------------------------------------------------------------ comparing names

/// Whether `a` sorts strictly before `b`.
fn text_less(a: &[char], b: &[char]) -> (r: bool)
    ensures
        r == text_lt(a@, b@),
{
    let mut i: usize = 0;
    assert(a@.skip(0) =~= a@ && b@.skip(0) =~= b@);
    while i < a.len() && i < b.len() && a[i] == b[i]
        invariant
            i <= a@.len(),
            i <= b@.len(),
            text_lt(a@, b@) == text_lt(a@.skip(i as int), b@.skip(i as int)),
        decreases a@.len() - i,
    {
        proof {
            assert(a@.skip(i as int).drop_first() =~= a@.skip(i + 1));
            assert(b@.skip(i as int).drop_first() =~= b@.skip(i + 1));
        }
        i = i + 1;
    }
    if i < a.len() && i < b.len() {
        proof {
            assert(a@.skip(i as int)[0] == a@[i as int] && b@.skip(i as int)[0] == b@[i as int]);
        }
        a[i] < b[i]
    } else {
        i < b.len()
    }
}

/// Whether `text` begins with `prefix`.
fn text_has_prefix(text: &[char], prefix: &[char]) -> (r: bool)
    ensures
        r == has_prefix(text@, prefix@),
{
    if prefix.len() > text.len() {
        return false;
    }
    let mut i: usize = 0;
    while i < prefix.len()
        invariant
            prefix@.len() <= text@.len(),
            i <= prefix@.len(),
            forall|j: int| 0 <= j < i ==> text@[j] == prefix@[j],
        decreases prefix@.len() - i,
    {
        if text[i] != prefix[i] {
            proof {
                assert(text@.take(prefix@.len() as int)[i as int] != prefix@[i as int]);
            }
            return false;
        }
        i = i + 1;
    }
    assert(text@.take(prefix@.len() as int) =~= prefix@);
    true
}

/// Whether `entry` sorts strictly before the key (`kind`, `name`).
fn entry_before(entry: &SymbolEntry, kind: CallableKind, name: &[char]) -> (r: bool)
    ensures
        r == key_lt(entry.kind, entry.name@, kind, name@),
{
    let (a, b) = (entry.kind.rank(), kind.rank());
    if a != b {
        a < b
    } else {
        let entry_name = chars_of(entry.name.as_str());
        text_less(entry_name.as_slice(), name)
    }
}

/// Whether `entry` is keyed (`kind`, `name`).
fn entry_is(entry: &SymbolEntry, kind: CallableKind, name: &[char]) -> (r: bool)
    ensures
        r == (entry.kind == kind && entry.name@ == name@),
{
    if entry.kind != kind {
        return false;
    }
    let entry_name = chars_of(entry.name.as_str());
    if entry_name.len() != name.len() {
        return false;
    }
    let mut i: usize = 0;
    while i < name.len()
        invariant
            entry_name@ == entry.name@,
            entry_name@.len() == name@.len(),
            i <= name@.len(),
            forall|j: int| 0 <= j < i ==> entry_name@[j] == name@[j],
        decreases name@.len() - i,
    {
        if entry_name[i] != name[i] {
            return false;
        }
        i = i + 1;
    }
    assert(entry_name@ =~= name@);
    true
}

// ------------------------------------------------------------------ the index

/// The mathematical value of a run of entries.
pub open spec fn entries_view(entries: Seq<SymbolEntry>) -> Seq<EntryView> {
    entries.map_values(|entry: SymbolEntry| entry@)
}

/// Every name a definition set defines, later declarations shadowing earlier ones.
///
/// The entry builders are how a definitions library is *written*; this is how it is
/// *read*: an editor offering completions as the author types a command name, a
/// `--list-symbols` flag, a reference page generated from the table rather than
/// maintained beside it. Build one and keep it for as long as the set lives.
#[derive(Debug)]
pub struct SymbolIndex {
    /// Sorted by `(kind, name)`, one entry per key.
    entries: Vec<SymbolEntry>,
}

impl View for SymbolIndex {
    type V = Seq<EntryView>;

    closed spec fn view(&self) -> Seq<EntryView> {
        entries_view(self.entries@)
    }
}

impl SymbolIndex {
    #[verifier::type_invariant]
    closed spec fn sorted(self) -> bool {
        strictly_sorted(entries_view(self.entries@))
    }
}

/// A copy of an entry.
fn copy_entry(entry: &SymbolEntry) -> (copy: SymbolEntry)
    ensures
        copy@ == entry@,
{
    SymbolEntry {
        name: entry.name.clone(),
        kind: entry.kind,
        category: entry.category.clone(),
        replacement: match &entry.replacement {
            Some(text) => Some(text.clone()),
            None => None,
        },
        arity: entry.arity,
        modes: entry.modes,
    }
}

proof fn lemma_key_lt_transitive(
    k1: CallableKind,
    n1: Seq<char>,
    k2: CallableKind,
    n2: Seq<char>,
    k3: CallableKind,
    n3: Seq<char>,
)
    requires
        key_lt(k1, n1, k2, n2),
        key_lt(k2, n2, k3, n3),
    ensures
        key_lt(k1, n1, k3, n3),
{
    if k1 == k2 && k2 == k3 {
        lemma_text_lt_transitive(n1, n2, n3);
    }
}

proof fn lemma_key_lt_asymmetric(k1: CallableKind, n1: Seq<char>, k2: CallableKind, n2: Seq<char>)
    requires
        key_lt(k1, n1, k2, n2),
    ensures
        !key_lt(k2, n2, k1, n1),
{
    if k1 == k2 {
        lemma_text_lt_asymmetric(n1, n2);
    }
}

/// In a strictly sorted table, two positions holding the same key are the same position.
proof fn lemma_sorted_keys_unique(entries: Seq<EntryView>, i: int, j: int)
    requires
        strictly_sorted(entries),
        0 <= i < entries.len(),
        0 <= j < entries.len(),
        entries[i].kind == entries[j].kind,
        entries[i].name == entries[j].name,
    ensures
        i == j,
{
    if i < j {
        assert(entry_lt(entries[i], entries[j]));
        lemma_text_lt_irreflexive(entries[i].name);
    } else if j < i {
        assert(entry_lt(entries[j], entries[i]));
        lemma_text_lt_irreflexive(entries[i].name);
    }
}

proof fn lemma_resolved_push(declared: Seq<EntryView>, entry: EntryView)
    ensures
        resolved(declared.push(entry)) == resolved(declared).insert((entry.kind, entry.name), entry),
{
    assert(declared.push(entry).drop_last() =~= declared);
}

/// A new key, put where it sorts, keeps the table the resolution of the declarations.
proof fn lemma_resolves_insert(entries: Seq<EntryView>, declared: Seq<EntryView>, p: int, entry: EntryView)
    requires
        resolves(entries, declared),
        0 <= p <= entries.len(),
        forall|j: int| 0 <= j < p ==> entry_lt(#[trigger] entries[j], entry),
        forall|j: int| p <= j < entries.len() ==> !entry_lt(#[trigger] entries[j], entry),
        !(p < entries.len() && entries[p].kind == entry.kind && entries[p].name == entry.name),
    ensures
        resolves(entries.insert(p, entry), declared.push(entry)),
{
    let n = entries.insert(p, entry);
    lemma_resolved_push(declared, entry);
    let winners = resolved(declared.push(entry));
    // Everything at or after `p` sorts strictly after the new entry.
    assert forall|j: int| p <= j < entries.len() implies entry_lt(entry, #[trigger] entries[j]) by {
        if entries[j].kind == entry.kind && entries[j].name == entry.name {
            if j > p {
                assert(entry_lt(entries[p], entries[j]));
            }
        } else {
            lemma_key_total(entries[j].kind, entries[j].name, entry.kind, entry.name);
        }
    }
    assert forall|i: int, j: int| 0 <= i < j < n.len() implies #[trigger] entry_lt(n[i], n[j]) by {
        if j < p {
            assert(n[i] == entries[i] && n[j] == entries[j]);
        } else if j == p {
            assert(n[i] == entries[i]);
        } else if i == p {
            assert(n[j] == entries[j - 1]);
        } else if i < p {
            assert(n[i] == entries[i] && n[j] == entries[j - 1]);
            assert(entry_lt(entries[i], entry));
            assert(entry_lt(entry, entries[j - 1]));
            lemma_entry_lt_transitive(entries[i], entry, entries[j - 1]);
        } else {
            assert(n[i] == entries[i - 1] && n[j] == entries[j - 1]);
        }
    }
    assert forall|i: int| 0 <= i < n.len() implies winners.contains_key((#[trigger] n[i].kind, n[i].name))
        && winners[(n[i].kind, n[i].name)] == n[i] by {
        if i != p {
            let k = if i < p { i } else { i - 1 };
            assert(n[i] == entries[k]);
            if i < p {
                assert(entry_lt(entries[k], entry));
            } else {
                assert(entry_lt(entry, entries[k]));
            }
            if entries[k].kind == entry.kind && entries[k].name == entry.name {
                lemma_text_lt_irreflexive(entry.name);
            }
        }
    }
    assert forall|k: (CallableKind, Seq<char>)| #[trigger] winners.contains_key(k) implies exists|i: int|
        0 <= i < n.len() && n[i].kind == k.0 && n[i].name == k.1 by {
        if k == (entry.kind, entry.name) {
            assert(n[p].kind == k.0 && n[p].name == k.1);
        } else {
            assert(resolved(declared).contains_key(k));
            let i = choose|i: int| 0 <= i < entries.len() && entries[i].kind == k.0 && entries[i].name == k.1;
            let m = if i < p { i } else { i + 1 };
            assert(n[m] == entries[i]);
        }
    }
}

/// A key already present takes the new declaration in place.
proof fn lemma_resolves_replace(entries: Seq<EntryView>, declared: Seq<EntryView>, p: int, entry: EntryView)
    requires
        resolves(entries, declared),
        0 <= p < entries.len(),
        entries[p].kind == entry.kind,
        entries[p].name == entry.name,
    ensures
        resolves(entries.update(p, entry), declared.push(entry)),
{
    let n = entries.update(p, entry);
    lemma_resolved_push(declared, entry);
    let winners = resolved(declared.push(entry));
    assert forall|i: int, j: int| 0 <= i < j < n.len() implies #[trigger] entry_lt(n[i], n[j]) by {
        assert(entry_lt(entries[i], entries[j]));
    }
    assert forall|i: int| 0 <= i < n.len() implies winners.contains_key((#[trigger] n[i].kind, n[i].name))
        && winners[(n[i].kind, n[i].name)] == n[i] by {
        if i != p {
            assert(n[i] == entries[i]);
            if entries[i].kind == entry.kind && entries[i].name == entry.name {
                lemma_sorted_keys_unique(entries, i, p);
            }
        }
    }
    assert forall|k: (CallableKind, Seq<char>)| #[trigger] winners.contains_key(k) implies exists|i: int|
        0 <= i < n.len() && n[i].kind == k.0 && n[i].name == k.1 by {
        if k == (entry.kind, entry.name) {
            assert(n[p].kind == k.0 && n[p].name == k.1);
        } else {
            assert(resolved(declared).contains_key(k));
            let i = choose|i: int| 0 <= i < entries.len() && entries[i].kind == k.0 && entries[i].name == k.1;
            assert(n[i] == entries[i]);
        }
    }
}

/// The first position whose entry does not sort before (`kind`, `name`), in a sorted run
/// between `lo` and `hi`.
fn lower_bound(entries: &[SymbolEntry], lo: usize, hi: usize, kind: CallableKind, name: &[char]) -> (p: usize)
    requires
        strictly_sorted(entries_view(entries@)),
        lo <= hi <= entries@.len(),
    ensures
        lo <= p <= hi,
        forall|j: int| lo <= j < p ==> key_lt(#[trigger] entries@[j].kind, entries@[j].name@, kind, name@),
        forall|j: int| p <= j < hi ==> !key_lt(#[trigger] entries@[j].kind, entries@[j].name@, kind, name@),
{
    let ghost view = entries_view(entries@);
    let mut low = lo;
    let mut high = hi;
    while low < high
        invariant
            lo <= low <= high <= hi,
            hi <= entries@.len(),
            view == entries_view(entries@),
            strictly_sorted(view),
            forall|j: int| lo <= j < low ==> key_lt(#[trigger] entries@[j].kind, entries@[j].name@, kind, name@),
            forall|j: int| high <= j < hi ==> !key_lt(#[trigger] entries@[j].kind, entries@[j].name@, kind, name@),
        decreases high - low,
    {
        let mid = low + (high - low) / 2;
        let before = entry_before(&entries[mid], kind, name);
        proof {
            assert(view[mid as int] == entries@[mid as int]@);
            if before {
                assert forall|j: int| lo <= j < mid + 1 implies key_lt(#[trigger] entries@[j].kind, entries@[j].name@, kind, name@) by {
                    if j < mid {
                        assert(view[j] == entries@[j]@);
                        assert(entry_lt(view[j], view[mid as int]));
                        lemma_key_lt_transitive(entries@[j].kind, entries@[j].name@, entries@[mid as int].kind, entries@[mid as int].name@, kind, name@);
                    }
                }
            } else {
                assert forall|j: int| mid <= j < hi implies !key_lt(#[trigger] entries@[j].kind, entries@[j].name@, kind, name@) by {
                    if mid < j < high {
                        assert(view[j] == entries@[j]@);
                        assert(entry_lt(view[mid as int], view[j]));
                        if key_lt(entries@[j].kind, entries@[j].name@, kind, name@) {
                            lemma_key_lt_transitive(entries@[mid as int].kind, entries@[mid as int].name@, entries@[j].kind, entries@[j].name@, kind, name@);
                        }
                    }
                }
            }
        }
        if before {
            low = mid + 1;
        } else {
            high = mid;
        }
    }
    low
}



/// The key an entry is filed under.
pub open spec fn key_of(entry: EntryView) -> (CallableKind, Seq<char>) {
    (entry.kind, entry.name)
}

/// Two strictly sorted tables holding the same entries are the same table: a table is
/// determined by what it holds, order and all.
pub proof fn lemma_sorted_tables_are_equal(a: Seq<EntryView>, b: Seq<EntryView>)
    requires
        strictly_sorted(a),
        strictly_sorted(b),
        forall|x: EntryView| a.contains(x) <==> b.contains(x),
    ensures
        a == b,
    decreases a.len(),
{
    if a.len() == 0 {
        if b.len() > 0 {
            assert(b.contains(b[0]));
        }
        assert(a =~= b);
    } else {
        assert(a.contains(a[0]));
        assert(b.len() > 0);
        assert(b.contains(b[0]));
        let j = choose|j: int| 0 <= j < b.len() && b[j] == a[0];
        let i = choose|i: int| 0 <= i < a.len() && a[i] == b[0];
        if j > 0 {
            assert(entry_lt(b[0], b[j]));
            if i > 0 {
                assert(entry_lt(a[0], a[i]));
                lemma_entry_lt_transitive(a[0], a[i], a[0]);
            }
            lemma_entry_lt_irreflexive(a[0]);
        }
        assert(a[0] == b[0]);
        let a1 = a.drop_first();
        let b1 = b.drop_first();
        assert forall|x: EntryView| a1.contains(x) <==> b1.contains(x) by {
            if a1.contains(x) {
                let k = choose|k: int| 0 <= k < a1.len() && a1[k] == x;
                assert(a.contains(x));
                assert(entry_lt(a[0], a[k + 1]));
                let m = choose|m: int| 0 <= m < b.len() && b[m] == x;
                if m == 0 {
                    lemma_entry_lt_irreflexive(x);
                }
                assert(b1[m - 1] == x);
            }
            if b1.contains(x) {
                let k = choose|k: int| 0 <= k < b1.len() && b1[k] == x;
                assert(b.contains(x));
                assert(entry_lt(b[0], b[k + 1]));
                let m = choose|m: int| 0 <= m < a.len() && a[m] == x;
                if m == 0 {
                    lemma_entry_lt_irreflexive(x);
                }
                assert(a1[m - 1] == x);
            }
        }
        assert forall|p: int, q: int| 0 <= p < q < a1.len() implies #[trigger] entry_lt(a1[p], a1[q]) by {
            assert(entry_lt(a[p + 1], a[q + 1]));
        }
        assert forall|p: int, q: int| 0 <= p < q < b1.len() implies #[trigger] entry_lt(b1[p], b1[q]) by {
            assert(entry_lt(b[p + 1], b[q + 1]));
        }
        lemma_sorted_tables_are_equal(a1, b1);
        assert(a =~= seq![a[0]] + a1);
        assert(b =~= seq![b[0]] + b1);
    }
}

/// A table that resolves the declarations holds one entry per distinct key declared:
/// a shadowed declaration is not counted.
pub proof fn lemma_one_entry_per_declared_key(entries: Seq<EntryView>, declared: Seq<EntryView>)
    requires
        resolves(entries, declared),
    ensures
        entries.len() == resolved(declared).dom().len(),
{
    let winners = resolved(declared);
    let keys = entries.map_values(|e: EntryView| key_of(e));
    assert(keys.no_duplicates()) by {
        assert forall|i: int, j: int| 0 <= i < keys.len() && 0 <= j < keys.len() && i != j implies keys[i] != keys[j] by {
            if i < j {
                assert(entry_lt(entries[i], entries[j]));
            } else {
                assert(entry_lt(entries[j], entries[i]));
            }
            lemma_text_lt_irreflexive(entries[i].name);
            lemma_text_lt_irreflexive(entries[j].name);
        }
    }
    keys.unique_seq_to_set();
    assert(keys.to_set() =~= winners.dom()) by {
        assert forall|k: (CallableKind, Seq<char>)| keys.to_set().contains(k) <==> winners.dom().contains(k) by {
            if keys.to_set().contains(k) {
                let i = choose|i: int| 0 <= i < keys.len() && keys[i] == k;
                assert(winners.contains_key((entries[i].kind, entries[i].name)));
            }
            if winners.dom().contains(k) {
                let i = choose|i: int| 0 <= i < entries.len() && entries[i].kind == k.0 && entries[i].name == k.1;
                assert(keys[i] == k);
            }
        }
    }
}


/// The entries of a kind are the entries filed under the empty prefix: both queries give
/// the same table, and a prefix nothing starts with gives none.
pub proof fn lemma_empty_prefix_is_the_whole_kind(index: Seq<EntryView>, by_kind: Seq<EntryView>, by_prefix: Seq<EntryView>, kind: CallableKind)
    requires
        strictly_sorted(by_kind),
        strictly_sorted(by_prefix),
        forall|x: EntryView| by_kind.contains(x) <==> (index.contains(x) && x.kind == kind),
        forall|x: EntryView| by_prefix.contains(x) <==> (index.contains(x) && x.kind == kind && has_prefix(x.name, Seq::empty())),
    ensures
        by_prefix == by_kind,
{
    assert forall|x: EntryView| by_prefix.contains(x) <==> by_kind.contains(x) by {
        assert(x.name.take(0) =~= Seq::<char>::empty());
    }
    lemma_sorted_tables_are_equal(by_prefix, by_kind);
}

// ------------------------------------------------------------------ from definitions

/// The entry a macro definition of category `category` gives: its name, the category's
/// name, a replacement only for a literal rule, its arity and the modes it is visible in.
pub open spec fn macro_entry(category: Seq<char>, d: MacroDefView) -> EntryView {
    EntryView {
        name: d.name,
        kind: CallableKind::Macro,
        category,
        replacement: literal_of(d.rule),
        arity: d.args.len() as usize,
        modes: visibility_of(d.modes),
    }
}

/// The entry an environment definition gives: an environment is never mode-restricted,
/// since `\begin` resolves the name in both modes.
pub open spec fn env_entry(category: Seq<char>, d: EnvDefView) -> EntryView {
    EntryView {
        name: d.name,
        kind: CallableKind::Environment,
        category,
        replacement: literal_of(d.rule),
        arity: d.args.len() as usize,
        modes: ModeVisibility::Anywhere,
    }
}

/// The entry a specials definition gives, keyed by its trigger characters.
pub open spec fn specials_entry(category: Seq<char>, d: SpecialsDefView) -> EntryView {
    EntryView {
        name: d.chars,
        kind: CallableKind::Specials,
        category,
        replacement: literal_of(d.rule),
        arity: d.args.len() as usize,
        modes: visibility_of(d.modes),
    }
}

/// The entries of one category in declaration order: its macros, its environments, its
/// specials.
pub open spec fn category_entries(c: CategoryView) -> Seq<EntryView> {
    c.macros.map_values(|d: MacroDefView| macro_entry(c.name, d)) + c.environments.map_values(
        |d: EnvDefView| env_entry(c.name, d),
    ) + c.specials.map_values(|d: SpecialsDefView| specials_entry(c.name, d))
}

/// The entries of a set's categories, in push order.
pub open spec fn set_entries(categories: Seq<CategoryView>) -> Seq<EntryView>
    decreases categories.len(),
{
    if categories.len() == 0 {
        Seq::empty()
    } else {
        set_entries(categories.drop_last()) + category_entries(categories.last())
    }
}

/// The entry a macro definition gives.
fn entry_of_macro(category: &str, d: &MacroDef) -> (entry: SymbolEntry)
    ensures
        entry@ == macro_entry(category@, d@),
{
    let replacement = match d.text_rule() {
        Some(TextRule::Literal(text)) => Some(text.clone()),
        _ => None,
    };
    SymbolEntry {
        name: d.name().to_owned(),
        kind: CallableKind::Macro,
        category: category.to_owned(),
        replacement,
        arity: d.arity(),
        modes: ModeVisibility::of(d.modes()),
    }
}

/// The entry an environment definition gives.
fn entry_of_env(category: &str, d: &EnvDef) -> (entry: SymbolEntry)
    ensures
        entry@ == env_entry(category@, d@),
{
    let replacement = match d.text_rule() {
        Some(TextRule::Literal(text)) => Some(text.clone()),
        _ => None,
    };
    SymbolEntry {
        name: d.name().to_owned(),
        kind: CallableKind::Environment,
        category: category.to_owned(),
        replacement,
        arity: d.arity(),
        modes: ModeVisibility::Anywhere,
    }
}

/// The entry a specials definition gives.
fn entry_of_specials(category: &str, d: &SpecialsDef) -> (entry: SymbolEntry)
    ensures
        entry@ == specials_entry(category@, d@),
{
    let replacement = match d.text_rule() {
        Some(TextRule::Literal(text)) => Some(text.clone()),
        _ => None,
    };
    SymbolEntry {
        name: d.trigger().to_owned(),
        kind: CallableKind::Specials,
        category: category.to_owned(),
        replacement,
        arity: d.arity(),
        modes: ModeVisibility::of(d.modes()),
    }
}

/// Append the entries of one category to `declared`, in declaration order.
fn push_category_entries(declared: &mut Vec<SymbolEntry>, c: &Category)
    ensures
        entries_view(final(declared)@) == entries_view(old(declared)@) + category_entries(c@),
{
    let name = c.name();
    let macros = c.macros();
    let environments = c.environments();
    let specials = c.specials();
    let ghost start = entries_view(declared@);
    let ghost cv = c@;
    let ghost mentries = cv.macros.map_values(|d: MacroDefView| macro_entry(cv.name, d));
    let ghost eentries = cv.environments.map_values(|d: EnvDefView| env_entry(cv.name, d));
    let ghost sentries = cv.specials.map_values(|d: SpecialsDefView| specials_entry(cv.name, d));
    let mut j: usize = 0;
    while j < macros.len()
        invariant
            name@ == cv.name,
            macros_view(macros@) == cv.macros,
            mentries == cv.macros.map_values(|d: MacroDefView| macro_entry(cv.name, d)),
            j <= macros@.len(),
            entries_view(declared@) == start + mentries.take(j as int),
        decreases macros@.len() - j,
    {
        let entry = entry_of_macro(name, &macros[j]);
        let ghost before = declared@;
        declared.push(entry);
        proof {
            assert(macros@[j as int]@ == cv.macros[j as int]);
            assert(mentries.take(j + 1) =~= mentries.take(j as int).push(mentries[j as int]));
            assert(entries_view(declared@) =~= entries_view(before).push(entry@));
        }
        j = j + 1;
    }
    assert(mentries.take(macros@.len() as int) =~= mentries);
    let ghost after_macros = entries_view(declared@);
    let mut j: usize = 0;
    while j < environments.len()
        invariant
            name@ == cv.name,
            environments_view(environments@) == cv.environments,
            eentries == cv.environments.map_values(|d: EnvDefView| env_entry(cv.name, d)),
            j <= environments@.len(),
            entries_view(declared@) == after_macros + eentries.take(j as int),
        decreases environments@.len() - j,
    {
        let entry = entry_of_env(name, &environments[j]);
        let ghost before = declared@;
        declared.push(entry);
        proof {
            assert(environments@[j as int]@ == cv.environments[j as int]);
            assert(eentries.take(j + 1) =~= eentries.take(j as int).push(eentries[j as int]));
            assert(entries_view(declared@) =~= entries_view(before).push(entry@));
        }
        j = j + 1;
    }
    assert(eentries.take(environments@.len() as int) =~= eentries);
    let ghost after_envs = entries_view(declared@);
    let mut j: usize = 0;
    while j < specials.len()
        invariant
            name@ == cv.name,
            specials_view(specials@) == cv.specials,
            sentries == cv.specials.map_values(|d: SpecialsDefView| specials_entry(cv.name, d)),
            j <= specials@.len(),
            entries_view(declared@) == after_envs + sentries.take(j as int),
        decreases specials@.len() - j,
    {
        let entry = entry_of_specials(name, &specials[j]);
        let ghost before = declared@;
        declared.push(entry);
        proof {
            assert(specials@[j as int]@ == cv.specials[j as int]);
            assert(sentries.take(j + 1) =~= sentries.take(j as int).push(sentries[j as int]));
            assert(entries_view(declared@) =~= entries_view(before).push(entry@));
        }
        j = j + 1;
    }
    assert(sentries.take(specials@.len() as int) =~= sentries);
    assert(entries_view(declared@) =~= start + category_entries(cv));
}

impl SymbolIndex {
    /// Resolve every name `set` defines, applying the set's own shadowing rule: each
    /// definition gives an entry (see [`macro_entry`], [`env_entry`], [`specials_entry`]),
    /// visited categories in push order and definitions in declaration order, and a later
    /// entry replaces an earlier one keyed the same way.
    pub fn build(set: &DefinitionSet) -> (index: SymbolIndex)
        ensures
            resolves(index@, set_entries(set@)),
            index@.len() == resolved(set_entries(set@)).dom().len(),
    {
        let categories = set.categories();
        let ghost cats = set@;
        let mut declared: Vec<SymbolEntry> = Vec::new();
        let mut i: usize = 0;
        proof {
            assert(entries_view(declared@) =~= Seq::<EntryView>::empty());
            assert(cats.take(0) =~= Seq::<CategoryView>::empty());
        }
        while i < categories.len()
            invariant
                categories_view(categories@) == cats,
                i <= categories@.len(),
                entries_view(declared@) == set_entries(cats.take(i as int)),
            decreases categories@.len() - i,
        {
            push_category_entries(&mut declared, &categories[i]);
            proof {
                assert(categories@[i as int]@ == cats[i as int]);
                assert(cats.take(i + 1).drop_last() =~= cats.take(i as int));
                assert(cats.take(i + 1).last() == cats[i as int]);
            }
            i = i + 1;
        }
        assert(cats.take(categories@.len() as int) =~= cats);
        let index = SymbolIndex::from_entries(declared);
        proof {
            lemma_one_entry_per_declared_key(index@, set_entries(cats));
        }
        index
    }

    /// Resolve every name the given entries define, applying the shadowing rule: the
    /// entries are visited in the order they were declared — categories in push order,
    /// definitions in declaration order — and a later one simply replaces the entry
    /// already keyed the same way, which is what innermost-first resolution would have
    /// found. The table comes out sorted by kind and then by name.
    pub fn from_entries(declared: Vec<SymbolEntry>) -> (index: SymbolIndex)
        ensures
            resolves(index@, entries_view(declared@)),
    {
        let ghost all = entries_view(declared@);
        let mut entries: Vec<SymbolEntry> = Vec::new();
        let mut i: usize = 0;
        proof {
            assert(all.take(0) =~= Seq::<EntryView>::empty());
            assert(entries_view(entries@) =~= Seq::<EntryView>::empty());
        }
        while i < declared.len()
            invariant
                i <= declared@.len(),
                all == entries_view(declared@),
                resolves(entries_view(entries@), all.take(i as int)),
            decreases declared@.len() - i,
        {
            let entry = copy_entry(&declared[i]);
            let name = chars_of(entry.name.as_str());
            let ghost before = entries_view(entries@);
            let p = lower_bound(entries.as_slice(), 0, entries.len(), entry.kind, name.as_slice());
            proof {
                assert(all.take(i + 1) =~= all.take(i as int).push(entry@));
                assert forall|j: int| 0 <= j < p implies entry_lt(#[trigger] before[j], entry@) by {
                    assert(before[j] == entries@[j]@);
                }
                assert forall|j: int| p <= j < before.len() implies !entry_lt(#[trigger] before[j], entry@) by {
                    assert(before[j] == entries@[j]@);
                }
            }
            if p < entries.len() && entry_is(&entries[p], entry.kind, name.as_slice()) {
                proof {
                    assert(before[p as int] == entries@[p as int]@);
                    lemma_resolves_replace(before, all.take(i as int), p as int, entry@);
                }
                let ghost e = entry@;
                entries.set(p, entry);
                proof {
                    assert(entries_view(entries@) =~= before.update(p as int, e));
                }
            } else {
                proof {
                    if p < before.len() {
                        assert(before[p as int] == entries@[p as int]@);
                    }
                    lemma_resolves_insert(before, all.take(i as int), p as int, entry@);
                }
                let ghost e = entry@;
                entries.insert(p, entry);
                proof {
                    assert(entries_view(entries@) =~= before.insert(p as int, e));
                }
            }
            i = i + 1;
        }
        proof {
            assert(all.take(declared@.len() as int) =~= all);
        }
        SymbolIndex { entries }
    }

    /// Every name the set defines, sorted by kind and then by name.
    pub fn entries(&self) -> (entries: &[SymbolEntry])
        ensures
            entries_view(entries@) == self@,
    {
        self.entries.as_slice()
    }

    /// How many names the set defines, after shadowing.
    pub fn len(&self) -> (n: usize)
        ensures
            n == self@.len(),
    {
        self.entries.len()
    }

    /// Whether the set defines nothing at all.
    pub fn is_empty(&self) -> (b: bool)
        ensures
            b == (self@.len() == 0),
    {
        self.entries.len() == 0
    }

    /// Where the entries of one kind start and end; they are contiguous.
    fn kind_bounds(&self, kind: CallableKind) -> (bounds: (usize, usize))
        ensures
            bounds.0 <= bounds.1 <= self@.len(),
            forall|j: int| 0 <= j < bounds.0 ==> kind_rank(#[trigger] self@[j].kind) < kind_rank(kind),
            forall|j: int| bounds.0 <= j < bounds.1 ==> #[trigger] self@[j].kind == kind,
            forall|j: int| bounds.1 <= j < self@.len() ==> kind_rank(#[trigger] self@[j].kind) > kind_rank(kind),
    {
        proof {
            use_type_invariant(self);
        }
        let r = kind.rank();
        let start = self.first_rank_from(r);
        let end = self.first_rank_from(r + 1);
        proof {
            assert forall|j: int| start <= j < end implies #[trigger] self@[j].kind == kind by {
                assert(kind_rank(self@[j].kind) >= kind_rank(kind));
                assert(kind_rank(self@[j].kind) < kind_rank(kind) + 1);
            }
            if end < start {
                assert(kind_rank(self@[end as int].kind) >= kind_rank(kind) + 1);
            }
        }
        (start, end)
    }

    /// The first position whose kind ranks at least `r`.
    fn first_rank_from(&self, r: u8) -> (p: usize)
        ensures
            p <= self@.len(),
            forall|j: int| 0 <= j < p ==> kind_rank(#[trigger] self@[j].kind) < r,
            forall|j: int| p <= j < self@.len() ==> kind_rank(#[trigger] self@[j].kind) >= r,
    {
        proof {
            use_type_invariant(self);
        }
        let ghost view = self@;
        let mut low: usize = 0;
        let mut high: usize = self.entries.len();
        while low < high
            invariant
                low <= high <= self.entries@.len(),
                view == self@,
                view == entries_view(self.entries@),
                strictly_sorted(view),
                forall|j: int| 0 <= j < low ==> kind_rank(#[trigger] view[j].kind) < r,
                forall|j: int| high <= j < view.len() ==> kind_rank(#[trigger] view[j].kind) >= r,
            decreases high - low,
        {
            let mid = low + (high - low) / 2;
            let below = self.entries[mid].kind.rank() < r;
            proof {
                assert(view[mid as int] == self.entries@[mid as int]@);
                assert forall|j: int| 0 <= j < view.len() && j != mid implies (j < mid ==> kind_rank(#[trigger] view[j].kind) <= kind_rank(view[mid as int].kind)) && (j > mid ==> kind_rank(view[j].kind) >= kind_rank(view[mid as int].kind)) by {
                    if j < mid {
                        assert(entry_lt(view[j], view[mid as int]));
                    } else {
                        assert(entry_lt(view[mid as int], view[j]));
                    }
                }
            }
            if below {
                low = mid + 1;
            } else {
                high = mid;
            }
        }
        low
    }

    /// The entries of one kind, sorted by name.
    ///
    /// They are contiguous in the table, so this costs two binary searches and borrows
    /// rather than collecting.
    pub fn of_kind(&self, kind: CallableKind) -> (block: &[SymbolEntry])
        ensures
            strictly_sorted(entries_view(block@)),
            forall|x: EntryView| entries_view(block@).contains(x) <==> (self@.contains(x) && x.kind == kind),
            exists|s: int, e: int| 0 <= s <= e <= self@.len() && entries_view(block@) == self@.subrange(s, e),
            entries_view(block@) == self@.filter(|x: EntryView| x.kind == kind),
    {
        proof {
            use_type_invariant(self);
        }
        let (start, end) = self.kind_bounds(kind);
        let block = vstd::slice::slice_subrange(self.entries.as_slice(), start, end);
        proof {
            let bv = entries_view(block@);
            assert(bv =~= self@.subrange(start as int, end as int));
            self.lemma_block_contents(start as int, end as int, kind);
            lemma_block_is_filter(self@, |x: EntryView| x.kind == kind, start as int, end as int);
        }
        block
    }

    proof fn lemma_block_contents(&self, start: int, end: int, kind: CallableKind)
        requires
            strictly_sorted(self@),
            0 <= start <= end <= self@.len(),
            forall|j: int| 0 <= j < start ==> kind_rank(#[trigger] self@[j].kind) < kind_rank(kind),
            forall|j: int| start <= j < end ==> #[trigger] self@[j].kind == kind,
            forall|j: int| end <= j < self@.len() ==> kind_rank(#[trigger] self@[j].kind) > kind_rank(kind),
        ensures
            strictly_sorted(self@.subrange(start, end)),
            forall|x: EntryView| self@.subrange(start, end).contains(x) <==> (self@.contains(x) && x.kind == kind),
    {
        let b = self@.subrange(start, end);
        assert forall|i: int, j: int| 0 <= i < j < b.len() implies #[trigger] entry_lt(b[i], b[j]) by {
            assert(entry_lt(self@[start + i], self@[start + j]));
        }
        assert forall|x: EntryView| b.contains(x) <==> (self@.contains(x) && x.kind == kind) by {
            if b.contains(x) {
                let i = choose|i: int| 0 <= i < b.len() && b[i] == x;
                assert(self@[start + i] == x);
            }
            if self@.contains(x) && x.kind == kind {
                let j = choose|j: int| 0 <= j < self@.len() && self@[j] == x;
                assert(start <= j < end);
                assert(b[j - start] == x);
            }
        }
    }

    /// What the set resolves this name to, or `None` if it defines it in no category.
    pub fn get(&self, kind: CallableKind, name: &str) -> (found: Option<&SymbolEntry>)
        ensures
            match found {
                Some(entry) => lookup(self@, kind, name@) == Some(entry@),
                None => lookup(self@, kind, name@) is None,
            },
    {
        proof {
            use_type_invariant(self);
        }
        let ghost view = self@;
        let wanted = chars_of(name);
        let (start, end) = self.kind_bounds(kind);
        let p = lower_bound(self.entries.as_slice(), start, end, kind, wanted.as_slice());
        if p < end && entry_is(&self.entries[p], kind, wanted.as_slice()) {
            proof {
                assert(view[p as int] == self.entries@[p as int]@);
                assert(exists|i: int| 0 <= i < view.len() && view[i].kind == kind && view[i].name == name@);
                let i = choose|i: int| 0 <= i < view.len() && view[i].kind == kind && view[i].name == name@;
                lemma_sorted_keys_unique(view, i, p as int);
            }
            Some(&self.entries[p])
        } else {
            proof {
                if exists|i: int| 0 <= i < view.len() && view[i].kind == kind && view[i].name == name@ {
                    let i = choose|i: int| 0 <= i < view.len() && view[i].kind == kind && view[i].name == name@;
                    assert(view[i] == self.entries@[i]@);
                    assert(start <= i < end);
                    if i < p {
                        lemma_text_lt_irreflexive(name@);
                    } else if i > p {
                        assert(view[p as int] == self.entries@[p as int]@);
                        assert(entry_lt(view[p as int], view[i]));
                        lemma_key_total(view[p as int].kind, view[p as int].name, kind, name@);
                        lemma_key_lt_asymmetric(view[p as int].kind, view[p as int].name, kind, name@);
                    }
                }
            }
            None
        }
    }

    /// Every name of this kind starting with `prefix`, sorted — the completion query.
    ///
    /// Names that share a prefix are adjacent in a sorted table, so the answer is a
    /// subslice found by binary search: an empty prefix is the whole kind, and a prefix
    /// nothing starts with is empty.
    pub fn starts_with(&self, kind: CallableKind, prefix: &str) -> (block: &[SymbolEntry])
        ensures
            strictly_sorted(entries_view(block@)),
            forall|x: EntryView|
                entries_view(block@).contains(x) <==> (self@.contains(x) && x.kind == kind && has_prefix(x.name, prefix@)),
            exists|s: int, e: int| 0 <= s <= e <= self@.len() && entries_view(block@) == self@.subrange(s, e),
            entries_view(block@) == self@.filter(|x: EntryView| x.kind == kind && has_prefix(x.name, prefix@)),
    {
        proof {
            use_type_invariant(self);
        }
        let ghost view = self@;
        let wanted = chars_of(prefix);
        let (start, end) = self.kind_bounds(kind);
        let first = lower_bound(self.entries.as_slice(), start, end, kind, wanted.as_slice());
        // Past `first`, the names that begin with the prefix come first.
        let mut low = first;
        let mut high = end;
        while low < high
            invariant
                start <= first <= low <= high <= end <= view.len(),
                view == self@,
                view == entries_view(self.entries@),
                strictly_sorted(view),
                wanted@ == prefix@,
                forall|j: int| start <= j < end ==> #[trigger] view[j].kind == kind,
                forall|j: int| first <= j < end ==> !key_lt(#[trigger] self.entries@[j].kind, self.entries@[j].name@, kind, wanted@),
                forall|j: int| first <= j < low ==> has_prefix(#[trigger] view[j].name, wanted@),
                forall|j: int| high <= j < end ==> !has_prefix(#[trigger] view[j].name, wanted@),
            decreases high - low,
        {
            let mid = low + (high - low) / 2;
            let name = chars_of(self.entries[mid].name.as_str());
            let inside = text_has_prefix(name.as_slice(), wanted.as_slice());
            proof {
                assert(view[mid as int] == self.entries@[mid as int]@);
                if inside {
                    assert forall|j: int| first <= j < mid + 1 implies has_prefix(#[trigger] view[j].name, wanted@) by {
                        if j < mid && !has_prefix(view[j].name, wanted@) {
                            assert(view[j] == self.entries@[j]@);
                            assert(view[j].kind == kind);
                            assert(!key_lt(self.entries@[j].kind, self.entries@[j].name@, kind, wanted@));
                            assert(!text_lt(view[j].name, wanted@));
                            lemma_prefix_run_first(view[mid as int].name, view[j].name, wanted@);
                            assert(entry_lt(view[j], view[mid as int]));
                            lemma_text_lt_asymmetric(view[j].name, view[mid as int].name);
                        }
                    }
                } else {
                    assert forall|j: int| mid <= j < end implies !has_prefix(#[trigger] view[j].name, wanted@) by {
                        if mid < j && has_prefix(view[j].name, wanted@) {
                            assert(!key_lt(self.entries@[mid as int].kind, self.entries@[mid as int].name@, kind, wanted@));
                            lemma_prefix_run_first(view[j].name, view[mid as int].name, wanted@);
                            assert(entry_lt(view[mid as int], view[j]));
                            lemma_text_lt_asymmetric(view[mid as int].name, view[j].name);
                        }
                    }
                }
            }
            if inside {
                low = mid + 1;
            } else {
                high = mid;
            }
        }
        let block = vstd::slice::slice_subrange(self.entries.as_slice(), first, low);
        proof {
            let b = entries_view(block@);
            assert(b =~= view.subrange(first as int, low as int));
            assert forall|i: int, j: int| 0 <= i < j < b.len() implies #[trigger] entry_lt(b[i], b[j]) by {
                assert(entry_lt(view[first + i], view[first + j]));
            }
            assert forall|x: EntryView|
                b.contains(x) <==> (view.contains(x) && x.kind == kind && has_prefix(x.name, prefix@)) by {
                if b.contains(x) {
                    let i = choose|i: int| 0 <= i < b.len() && b[i] == x;
                    assert(view[first + i] == x);
                }
                if view.contains(x) && x.kind == kind && has_prefix(x.name, prefix@) {
                    let j = choose|j: int| 0 <= j < view.len() && view[j] == x;
                    assert(start <= j < end) by {
                        if j < start || j >= end {
                            assert(kind_rank(view[j].kind) != kind_rank(kind));
                        }
                    }
                    assert(view[j] == self.entries@[j]@);
                    if j < first {
                        lemma_prefix_not_below(x.name, wanted@);
                    }
                    assert(j < low);
                    assert(b[j - first] == x);
                }
            }
            lemma_block_is_filter(
                view,
                |x: EntryView| x.kind == kind && has_prefix(x.name, prefix@),
                first as int,
                low as int,
            );
        }
        block
    }
}

/// Looking a name up in an index built from a sequence of declarations answers the
/// winning declaration for that name, and nothing when no declaration made it.
pub proof fn lemma_lookup_answers_the_winner(
    entries: Seq<EntryView>,
    declared: Seq<EntryView>,
    kind: CallableKind,
    name: Seq<char>,
)
    requires
        resolves(entries, declared),
    ensures
        resolved(declared).contains_key((kind, name)) ==> lookup(entries, kind, name) == Some(
            resolved(declared)[(kind, name)],
        ),
        !resolved(declared).contains_key((kind, name)) ==> lookup(entries, kind, name) is None,
{
    let winners = resolved(declared);
    if winners.contains_key((kind, name)) {
        assert(exists|i: int| 0 <= i < entries.len() && entries[i].kind == kind && entries[i].name == name);
        let i = choose|i: int| 0 <= i < entries.len() && entries[i].kind == kind && entries[i].name == name;
        assert(winners.contains_key((entries[i].kind, entries[i].name)));
    } else {
        if exists|i: int| 0 <= i < entries.len() && entries[i].kind == kind && entries[i].name == name {
            let i = choose|i: int| 0 <= i < entries.len() && entries[i].kind == kind && entries[i].name == name;
            assert(winners.contains_key((entries[i].kind, entries[i].name)));
        }
    }
}

/// Later declarations shadow earlier ones: the winner for a name is the last declaration
/// made under it, whatever came before.
pub proof fn lemma_last_declaration_wins(declared: Seq<EntryView>, i: int)
    requires
        0 <= i < declared.len(),
        forall|j: int|
            i < j < declared.len() ==> !(#[trigger] declared[j].kind == declared[i].kind
                && declared[j].name == declared[i].name),
    ensures
        resolved(declared).contains_key((declared[i].kind, declared[i].name)),
        resolved(declared)[(declared[i].kind, declared[i].name)] == declared[i],
    decreases declared.len(),
{
    if i < declared.len() - 1 {
        let shorter = declared.drop_last();
        assert forall|j: int| i < j < shorter.len() implies !(#[trigger] shorter[j].kind == shorter[i].kind
            && shorter[j].name == shorter[i].name) by {
            assert(shorter[j] == declared[j]);
        }
        lemma_last_declaration_wins(shorter, i);
        assert(declared[declared.len() - 1] == declared.last());
    }
}

/// Only what was declared is resolved: a name no declaration made has no winner.
pub proof fn lemma_undeclared_names_have_no_winner(declared: Seq<EntryView>, kind: CallableKind, name: Seq<char>)
    requires
        forall|j: int| 0 <= j < declared.len() ==> !(#[trigger] declared[j].kind == kind && declared[j].name == name),
    ensures
        !resolved(declared).contains_key((kind, name)),
    decreases declared.len(),
{
    if declared.len() > 0 {
        let shorter = declared.drop_last();
        assert forall|j: int| 0 <= j < shorter.len() implies !(#[trigger] shorter[j].kind == kind && shorter[j].name == name) by {
            assert(shorter[j] == declared[j]);
        }
        lemma_undeclared_names_have_no_winner(shorter, kind, name);
        assert(declared.last() == declared[declared.len() - 1]);
    }
}

} // verus!
