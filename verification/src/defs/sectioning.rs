//! Headings: how the seven heading commands number themselves and what line of text
//! they become.
//!
//! The run carries one counter per level. Incrementing level *L* raises `counters[L]`
//! and zeroes every deeper counter, so a new section restarts its subsections. Two
//! levels are special:
//!
//! - **`\part`** (level 0) has its own counter, rendered in uppercase Roman, and resets
//!   nothing — parts group chapters, they do not renumber them.
//! - **`\chapter`** (level 1) decides where a section number starts. The dotted number
//!   joins `counters[first..=L]`, where `first` is the chapter level once any
//!   `\chapter` has appeared in the run and the section level otherwise. So `\section`
//!   is `1` in an article and `3.1` in the third chapter of a book.
//!
//! A **starred** heading neither increments a counter nor shows a number, and levels 5
//! and 6 (`\paragraph`, `\subparagraph`) are never numbered. Nothing is ever
//! uppercased: case is content.

use vstd::prelude::*;

use crate::def::{add_macro_family, macro_family, Category, CategoryView, EnvDefView, MacroDefView, RuleShape, SpecialsDefView};
use crate::convert::HeadingStyle;
use crate::defs::lists::{roman as lower_roman, roman_text};
use crate::flow::{display_width, str_width, Flow, FlowItem, ItemView};
use crate::text::{ascii_uppercase, decimal_text, push_char, push_decimal, push_uppercase};

verus! {

/// Level 0: `\part`, which counts in Roman numerals and resets nothing.
pub const PART: usize = 0;

/// Level 1: `\chapter`, the level whose presence decides where a section number starts.
pub const CHAPTER: usize = 1;

/// Level 2: `\section`, the shallowest level of an article.
pub const SECTION: usize = 2;

/// Level 4: `\subsubsection`, the deepest level that is ever numbered.
pub const DEEPEST_NUMBERED: usize = 4;

/// How many heading levels there are, `\part` to `\subparagraph`.
pub const LEVELS: usize = 7;

/// One heading command, identified by its level: 0 for `\part`, 6 for `\subparagraph`.
#[derive(Clone, Copy, Debug, PartialEq, Eq, Structural)]
pub struct Heading {
    /// 0 for `\part`, 6 for `\subparagraph`.
    pub level: usize,
}

/// The numbering state a run carries from heading to heading: one counter per level,
/// and whether any `\chapter` has appeared.
#[derive(Debug)]
pub struct HeadingNumbers {
    chapter_seen: bool,
    counters: Vec<u32>,
}

/// The numbering state, as a mathematical value.
pub struct NumbersView {
    pub chapter_seen: bool,
    pub counters: Seq<u32>,
}

impl View for HeadingNumbers {
    type V = NumbersView;

    closed spec fn view(&self) -> NumbersView {
        NumbersView { chapter_seen: self.chapter_seen, counters: self.counters@ }
    }
}

impl HeadingNumbers {
    /// The state at the start of a document: every counter at zero, no chapter seen.
    pub fn new() -> (numbers: HeadingNumbers)
        ensures
            numbers@.chapter_seen == false,
            numbers@.counters == Seq::new(LEVELS as nat, |i: int| 0u32),
    {
        let counters = vec![0u32, 0, 0, 0, 0, 0, 0];
        let numbers = HeadingNumbers { chapter_seen: false, counters };
        assert(numbers@.counters =~= Seq::new(LEVELS as nat, |i: int| 0u32));
        numbers
    }

    /// Whether any `\chapter` has appeared.
    pub fn chapter_seen(&self) -> (seen: bool)
        ensures
            seen == self@.chapter_seen,
    {
        self.chapter_seen
    }

    /// The counter of one level.
    pub fn counter(&self, level: usize) -> (value: u32)
        requires
            level < self@.counters.len(),
        ensures
            value == self@.counters[level as int],
    {
        self.counters[level]
    }
}

/// Numbers joined with dots: `3.1.2`.
pub open spec fn dotted(numbers: Seq<u32>) -> Seq<char>
    decreases numbers.len(),
{
    if numbers.len() == 0 {
        Seq::empty()
    } else if numbers.len() == 1 {
        decimal_text(numbers[0] as nat)
    } else {
        dotted(numbers.drop_last()).push('.') + decimal_text(numbers.last() as nat)
    }
}

/// `value` in uppercase Roman numerals; zero, which has none, is `0`.
pub open spec fn upper_roman_text(value: u32) -> Seq<char> {
    if value == 0 {
        seq!['0']
    } else {
        ascii_uppercase(roman_text(value as nat))
    }
}

/// What counting a heading does: whether a chapter has now been seen, the counters
/// afterwards, and the number to display.
pub open spec fn counted(level: usize, numbers: NumbersView, numbered: bool) -> (bool, Seq<u32>, Option<Seq<char>>) {
    let seen = numbers.chapter_seen || level == CHAPTER;
    if !numbered {
        (seen, numbers.counters, None)
    } else {
        let bumped = numbers.counters.update(level as int, (numbers.counters[level as int] + 1) as u32);
        let reset = if level == PART {
            bumped
        } else {
            Seq::new(bumped.len(), |i: int| if i > level { 0u32 } else { bumped[i] })
        };
        if level == PART {
            (seen, reset, Some(upper_roman_text(reset[PART as int])))
        } else {
            let first: int = if seen { CHAPTER as int } else { SECTION as int };
            (seen, reset, Some(dotted(reset.subrange(first, level + 1))))
        }
    }
}

/// The heading's one line of text: the number (`Part IV:` for a part) or the prefix
/// label, then the title.
pub open spec fn heading_text(level: usize, style: HeadingStyle, number: Option<Seq<char>>, title: Seq<char>) -> Seq<char> {
    let lead = match style {
        HeadingStyle::NumberedUnderlined => match number {
            Some(n) => if level == PART {
                seq!['P', 'a', 'r', 't', ' '] + n + seq![':', ' ']
            } else {
                n.push(' ')
            },
            None => Seq::empty(),
        },
        HeadingStyle::Prefix => prefix_chars(level),
        _ => Seq::empty(),
    };
    lead + title
}

/// The fixed label the `Prefix` style writes instead of a number: one section sign per
/// level below the chapter.
pub open spec fn prefix_chars(level: usize) -> Seq<char> {
    if level == PART {
        seq!['P', 'a', 'r', 't', ':', ' ']
    } else if level == CHAPTER {
        seq!['C', 'h', 'a', 'p', 't', 'e', 'r', ':', ' ']
    } else if level == SECTION {
        seq!['\u{a7}', ' ']
    } else if level == 3 {
        seq!['\u{a7}', '.', '\u{a7}', ' ']
    } else if level == DEEPEST_NUMBERED {
        seq!['\u{a7}', '.', '\u{a7}', '.', '\u{a7}', ' ']
    } else {
        Seq::empty()
    }
}

/// The character a heading is underlined with, if it is underlined at all.
pub open spec fn underline_of(level: usize, style: HeadingStyle) -> Option<char> {
    match style {
        HeadingStyle::NumberedUnderlined | HeadingStyle::Underlined => if level == PART || level
            == CHAPTER {
            Some('=')
        } else if level == SECTION {
            Some('-')
        } else if level == 3 {
            Some('~')
        } else {
            None
        },
        _ => None,
    }
}

/// A heading as flow: a blank line, the line of text, its rule if it has one, and a blank
/// line; the rule is as wide as the line displays.
pub open spec fn heading_items(line: Seq<char>, underline: Option<char>) -> Seq<ItemView> {
    let rule = match underline {
        Some(c) => seq![ItemView::HardBreak, ItemView::Text(Seq::new(str_width(line) as nat, |i: int| c))],
        None => Seq::empty(),
    };
    seq![ItemView::ParagraphBreak, ItemView::Text(line)] + rule + seq![ItemView::ParagraphBreak]
}

/// `value` in uppercase Roman numerals, as `\part` is numbered.
///
/// Zero has no Roman numeral; it cannot occur here (a part is numbered only after its
/// counter has been incremented), and `0` is the honest answer if it ever does. Values
/// past 3999 simply accumulate `M`s, which is the classical convention.
pub fn roman(value: u32) -> (text: String)
    ensures
        text@ == upper_roman_text(value),
{
    let mut out = String::new();
    if value == 0 {
        push_char(&mut out, '0');
        assert(out@ =~= seq!['0']);
        return out;
    }
    let lower = lower_roman(value);
    push_uppercase(&mut out, lower.as_str());
    assert(out@ =~= ascii_uppercase(roman_text(value as nat)));
    out
}

impl Heading {
    /// Whether this level can carry a number at all: levels 5 and 6 never do.
    pub fn numberable(&self) -> (b: bool)
        ensures
            b == (self.level <= DEEPEST_NUMBERED),
    {
        self.level <= DEEPEST_NUMBERED
    }

    /// Update the run's counters and hand back the number to display, if any.
    ///
    /// A `\chapter*` is still a chapter: it says the document is organized in chapters,
    /// which is the question being asked, so it is recorded even when nothing is
    /// counted. A section following an unnumbered opening chapter numbers as `0.1`,
    /// which is what LaTeX itself produces.
    pub fn count(&self, numbers: &mut HeadingNumbers, numbered: bool) -> (number: Option<String>)
        requires
            self.level < LEVELS,
            old(numbers)@.counters.len() == LEVELS,
            numbered ==> old(numbers)@.counters[self.level as int] < u32::MAX,
        ensures
            ({
                let (seen, counters, shown) = counted(self.level, old(numbers)@, numbered);
                &&& final(numbers)@.chapter_seen == seen
                &&& final(numbers)@.counters == counters
                &&& match number {
                    Some(n) => shown == Some(n@),
                    None => shown is None,
                }
            }),
    {
        let level = self.level;
        if level == CHAPTER {
            numbers.chapter_seen = true;
        }
        if !numbered {
            return None;
        }
        let ghost before = numbers.counters@;
        let chapters = numbers.chapter_seen;
        let bumped_value = numbers.counters[level] + 1;
        numbers.counters.set(level, bumped_value);
        let ghost bumped = numbers.counters@;
        if level != PART {
            // A part groups what follows; it does not renumber it.
            let mut deeper = level + 1;
            while deeper < numbers.counters.len()
                invariant
                    numbers.chapter_seen == chapters,
                    numbers.counters@.len() == LEVELS,
                    bumped.len() == LEVELS,
                    level < deeper <= LEVELS,
                    forall|i: int| 0 <= i < LEVELS ==> #[trigger] numbers.counters@[i] == if i > level && i < deeper {
                        0u32
                    } else {
                        bumped[i]
                    },
                decreases LEVELS - deeper,
            {
                numbers.counters.set(deeper, 0);
                deeper = deeper + 1;
            }
        }
        let ghost reset = numbers.counters@;
        proof {
            if level != PART {
                assert(reset =~= Seq::new(bumped.len(), |i: int| if i > level { 0u32 } else { bumped[i] }));
            }
        }
        let number = if level == PART {
            roman(numbers.counters[PART])
        } else {
            let first = if chapters { CHAPTER } else { SECTION };
            let mut number = String::new();
            let mut i = first;
            assert(reset.subrange(first as int, first as int) =~= Seq::<u32>::empty());
            while i <= level
                invariant
                    numbers.chapter_seen == chapters,
                    numbers.counters@ == reset,
                    reset.len() == LEVELS,
                    level < LEVELS,
                    first <= i <= level + 1,
                    first <= level,
                    number@ == dotted(reset.subrange(first as int, i as int)),
                decreases level + 1 - i,
            {
                let ghost prev = number@;
                if i > first {
                    push_char(&mut number, '.');
                }
                push_decimal(&mut number, numbers.counters[i] as u64);
                proof {
                    let s = reset.subrange(first as int, i + 1);
                    assert(s.drop_last() =~= reset.subrange(first as int, i as int));
                    assert(s.last() == reset[i as int]);
                    if i > first {
                        assert(number@ =~= dotted(s.drop_last()).push('.') + decimal_text(s.last() as nat));
                    } else {
                        assert(prev =~= Seq::<char>::empty());
                        assert(number@ =~= decimal_text(s[0] as nat));
                    }
                }
                i = i + 1;
            }
            proof {
                assert(i == level + 1);
            }
            number
        };
        proof {
            let (seen, cs, shown) = counted(level, old(numbers)@, numbered);
            assert(seen == chapters);
            assert(bumped =~= old(numbers)@.counters.update(level as int, (old(numbers)@.counters[level as int] + 1) as u32));
            assert(cs =~= reset);
            if level == PART {
                assert(shown == Some(upper_roman_text(reset[PART as int])));
            } else {
                let first: int = if seen { CHAPTER as int } else { SECTION as int };
                assert(shown == Some(dotted(reset.subrange(first, level + 1))));
            }
        }
        Some(number)
    }

    /// The heading's one line of text.
    ///
    /// A starred heading reaches here with no number, and then renders exactly as the
    /// `Underlined` style would: the title alone.
    pub fn heading_line(&self, style: HeadingStyle, number: Option<&str>, title: &str) -> (line: String)
        ensures
            line@ == heading_text(
                self.level,
                style,
                match number {
                    Some(n) => Some(n@),
                    None => None,
                },
                title@,
            ),
    {
        let mut line = String::new();
        match style {
            HeadingStyle::NumberedUnderlined => {
                if let Some(number) = number {
                    if self.level == PART {
                        push_char(&mut line, 'P');
                        push_char(&mut line, 'a');
                        push_char(&mut line, 'r');
                        push_char(&mut line, 't');
                        push_char(&mut line, ' ');
                    }
                    line.append(number);
                    if self.level == PART {
                        push_char(&mut line, ':');
                    }
                    push_char(&mut line, ' ');
                }
            },
            HeadingStyle::Prefix => {
                let label = self.prefix();
                line.append(label);
            },
            HeadingStyle::Underlined | HeadingStyle::Plain => {},
        }
        let ghost lead = line@;
        line.append(title);
        proof {
            let expected = match style {
                HeadingStyle::NumberedUnderlined => match number {
                    Some(n) => if self.level == PART {
                        seq!['P', 'a', 'r', 't', ' '] + n@ + seq![':', ' ']
                    } else {
                        n@.push(' ')
                    },
                    None => Seq::empty(),
                },
                HeadingStyle::Prefix => prefix_chars(self.level),
                _ => Seq::empty(),
            };
            assert(lead =~= expected);
        }
        line
    }

    /// The fixed label the `Prefix` style writes instead of a number.
    pub fn prefix(&self) -> (label: &'static str)
        ensures
            label@ == prefix_chars(self.level),
    {
        match self.level {
            PART => {
                proof {
                    reveal_strlit("Part: ");
                }
                "Part: "
            },
            CHAPTER => {
                proof {
                    reveal_strlit("Chapter: ");
                }
                "Chapter: "
            },
            SECTION => {
                proof {
                    reveal_strlit("\u{a7} ");
                }
                "\u{a7} "
            },
            3 => {
                proof {
                    reveal_strlit("\u{a7}.\u{a7} ");
                }
                "\u{a7}.\u{a7} "
            },
            DEEPEST_NUMBERED => {
                proof {
                    reveal_strlit("\u{a7}.\u{a7}.\u{a7} ");
                }
                "\u{a7}.\u{a7}.\u{a7} "
            },
            // `\paragraph` and `\subparagraph` are run-in headings in LaTeX; a plain
            // line of their own is as much as plain text can say about them.
            _ => {
                proof {
                    reveal_strlit("");
                }
                ""
            },
        }
    }

    /// The character this heading is underlined with, if it is underlined at all.
    pub fn underline_char(&self, style: HeadingStyle) -> (c: Option<char>)
        ensures
            c == underline_of(self.level, style),
    {
        match style {
            HeadingStyle::NumberedUnderlined | HeadingStyle::Underlined => match self.level {
                PART | CHAPTER => Some('='),
                SECTION => Some('-'),
                3 => Some('~'),
                _ => None,
            },
            HeadingStyle::Prefix | HeadingStyle::Plain => None,
        }
    }

    /// Render a heading: count it, then lay its line out as a block of its own — a blank
    /// line on either side — underlined to the line's display width when the style
    /// underlines.
    ///
    /// Only the numbered style counts. Under the others no number is ever shown, so
    /// there is nothing for a counter to be.
    pub fn render(&self, starred: bool, style: HeadingStyle, title: &str, numbers: &mut HeadingNumbers) -> (flow: Flow)
        requires
            self.level < LEVELS,
            old(numbers)@.counters.len() == LEVELS,
            !starred && style == HeadingStyle::NumberedUnderlined && self.level <= DEEPEST_NUMBERED
                ==> old(numbers)@.counters[self.level as int] < u32::MAX,
        ensures
            ({
                let numbered = !starred && style == HeadingStyle::NumberedUnderlined && self.level
                    <= DEEPEST_NUMBERED;
                let (seen, counters, shown) = counted(self.level, old(numbers)@, numbered);
                &&& final(numbers)@.chapter_seen == seen
                &&& final(numbers)@.counters == counters
                &&& flow@ == heading_items(heading_text(self.level, style, shown, title@), underline_of(self.level, style))
            }),
    {
        let numbered = !starred && style == HeadingStyle::NumberedUnderlined && self.numberable();
        let number = self.count(numbers, numbered);
        let line = match &number {
            Some(n) => self.heading_line(style, Some(n.as_str()), title),
            None => self.heading_line(style, None, title),
        };
        let width = display_width(line.as_str());
        let underline = self.underline_char(style);
        let mut flow = Flow::new();
        flow.push(FlowItem::ParagraphBreak);
        let ghost line_view = line@;
        // One text item, not a word sequence: the underline below is measured from this
        // exact string, and a line break inside the heading would make the two disagree.
        flow.push(FlowItem::Text(line));
        if let Some(character) = underline {
            flow.push(FlowItem::HardBreak);
            let mut rule = String::new();
            let mut i: usize = 0;
            while i < width
                invariant
                    i <= width,
                    rule@ == Seq::new(i as nat, |j: int| character),
                decreases width - i,
            {
                push_char(&mut rule, character);
                i = i + 1;
                assert(rule@ =~= Seq::new(i as nat, |j: int| character));
            }
            flow.push(FlowItem::Text(rule));
        }
        flow.push(FlowItem::ParagraphBreak);
        proof {
            assert(flow@ =~= heading_items(line_view, underline));
        }
        flow
    }
}

// ------------------------------------------------------------------ the category

/// A heading command's arguments: an optional `*`, an optional table-of-contents title,
/// and the title.
pub open spec fn heading_args() -> Seq<(&'static str, &'static str)> {
    seq![("s", "star"), ("o", "toctitle"), ("m", "title")]
}

/// The document-structure commands that print nothing a converter can produce.
pub open spec fn structure_names() -> Seq<&'static str> {
    seq!["tableofcontents", "listoffigures", "listoftables", "appendix", "frontmatter", "mainmatter", "backmatter"]
}

/// The structure commands [`structure`] declares, in order: a table of contents, the lists
/// of figures and tables and the running heads are generated from a numbered and
/// paginated document, so each is declared — its arguments cannot leak — and renders as
/// nothing.
pub open spec fn structure_defs() -> Seq<MacroDefView> {
    macro_family(structure_names(), Seq::empty(), RuleShape::Skip) + macro_family(
        seq!["markboth"],
        seq![("m", "left"), ("m", "right")],
        RuleShape::Skip,
    ) + macro_family(seq!["markright"], seq![("m", "right")], RuleShape::Skip) + macro_family(
        seq!["addcontentsline"],
        seq![("m", "file"), ("m", "level"), ("m", "entry")],
        RuleShape::Skip,
    ) + macro_family(seq!["addtocontents"], seq![("m", "file"), ("m", "content")], RuleShape::Skip)
}

/// The sectioning macros, in declaration order: the seven heading levels, then the
/// structure commands.
pub open spec fn sectioning_macros() -> Seq<MacroDefView> {
    macro_family(seq!["part"], heading_args(), RuleShape::Handler("heading level 0")) + macro_family(seq!["chapter"], heading_args(), RuleShape::Handler("heading level 1")) + macro_family(seq!["section"], heading_args(), RuleShape::Handler("heading level 2")) + macro_family(seq!["subsection"], heading_args(), RuleShape::Handler("heading level 3")) + macro_family(seq!["subsubsection"], heading_args(), RuleShape::Handler("heading level 4")) + macro_family(seq!["paragraph"], heading_args(), RuleShape::Handler("heading level 5")) + macro_family(seq!["subparagraph"], heading_args(), RuleShape::Handler("heading level 6")) + structure_defs()
}

/// Add the structure commands to `category`.
pub fn structure(category: &mut Category)
    ensures
        final(category)@ == (CategoryView { macros: old(category)@.macros + structure_defs(), ..old(category)@ }),
{
    let ghost start = category@;
    let names: [&'static str; 7] = [
        "tableofcontents", "listoffigures", "listoftables", "appendix", "frontmatter", "mainmatter", "backmatter",
    ];
    let none: [(&'static str, &'static str); 0] = [];
    assert(names@ =~= structure_names());
    assert(none@ =~= Seq::<(&'static str, &'static str)>::empty());
    add_macro_family(category, &names, &none, RuleShape::Skip);
    let ghost s1 = category@.macros;
    let markboth: [&'static str; 1] = ["markboth"];
    let both: [(&'static str, &'static str); 2] = [("m", "left"), ("m", "right")];
    assert(markboth@ =~= seq!["markboth"]);
    assert(both@ =~= seq![("m", "left"), ("m", "right")]);
    add_macro_family(category, &markboth, &both, RuleShape::Skip);
    let ghost s2 = category@.macros;
    let markright: [&'static str; 1] = ["markright"];
    let right: [(&'static str, &'static str); 1] = [("m", "right")];
    assert(markright@ =~= seq!["markright"]);
    assert(right@ =~= seq![("m", "right")]);
    add_macro_family(category, &markright, &right, RuleShape::Skip);
    let ghost s3 = category@.macros;
    let line: [&'static str; 1] = ["addcontentsline"];
    let line_args: [(&'static str, &'static str); 3] = [("m", "file"), ("m", "level"), ("m", "entry")];
    assert(line@ =~= seq!["addcontentsline"]);
    assert(line_args@ =~= seq![("m", "file"), ("m", "level"), ("m", "entry")]);
    add_macro_family(category, &line, &line_args, RuleShape::Skip);
    let ghost s4 = category@.macros;
    let contents: [&'static str; 1] = ["addtocontents"];
    let contents_args: [(&'static str, &'static str); 2] = [("m", "file"), ("m", "content")];
    assert(contents@ =~= seq!["addtocontents"]);
    assert(contents_args@ =~= seq![("m", "file"), ("m", "content")]);
    add_macro_family(category, &contents, &contents_args, RuleShape::Skip);
    proof {
        assert(category@.macros =~= start.macros + structure_defs());
    }
}

/// The category [`category`] builds.
pub open spec fn category_view() -> CategoryView {
    CategoryView {
        name: "sectioning"@,
        macros: sectioning_macros(),
        environments: Seq::<EnvDefView>::empty(),
        specials: Seq::<SpecialsDefView>::empty(),
    }
}

/// The sectioning category: the seven heading commands from `\part` (level 0) to
/// `\subparagraph` (level 6), each rendered by the heading handler of its level, and the
/// structure commands.
pub fn category() -> (c: Category)
    ensures
        c@ == category_view(),
{
    let mut category = Category::new("sectioning");
    let ghost start = category@;
    let args: [(&'static str, &'static str); 3] = [("s", "star"), ("o", "toctitle"), ("m", "title")];
    assert(args@ =~= heading_args());
    let name: [&'static str; 1] = ["part"];
    assert(name@ =~= seq!["part"]);
    add_macro_family(&mut category, &name, &args, RuleShape::Handler("heading level 0"));
    let ghost m0 = category@.macros;
    let name: [&'static str; 1] = ["chapter"];
    assert(name@ =~= seq!["chapter"]);
    add_macro_family(&mut category, &name, &args, RuleShape::Handler("heading level 1"));
    let ghost m1 = category@.macros;
    let name: [&'static str; 1] = ["section"];
    assert(name@ =~= seq!["section"]);
    add_macro_family(&mut category, &name, &args, RuleShape::Handler("heading level 2"));
    let ghost m2 = category@.macros;
    let name: [&'static str; 1] = ["subsection"];
    assert(name@ =~= seq!["subsection"]);
    add_macro_family(&mut category, &name, &args, RuleShape::Handler("heading level 3"));
    let ghost m3 = category@.macros;
    let name: [&'static str; 1] = ["subsubsection"];
    assert(name@ =~= seq!["subsubsection"]);
    add_macro_family(&mut category, &name, &args, RuleShape::Handler("heading level 4"));
    let ghost m4 = category@.macros;
    let name: [&'static str; 1] = ["paragraph"];
    assert(name@ =~= seq!["paragraph"]);
    add_macro_family(&mut category, &name, &args, RuleShape::Handler("heading level 5"));
    let ghost m5 = category@.macros;
    let name: [&'static str; 1] = ["subparagraph"];
    assert(name@ =~= seq!["subparagraph"]);
    add_macro_family(&mut category, &name, &args, RuleShape::Handler("heading level 6"));
    let ghost m6 = category@.macros;
    structure(&mut category);
    proof {
        assert(start.macros =~= Seq::<MacroDefView>::empty());
        assert(category@.macros =~= sectioning_macros());
    }
    category
}

// ------------------------------------------------------------------ numbering laws

/// Counting a numbered heading raises its own level's counter by one and leaves the
/// shallower levels alone; every level but `\part` restarts every deeper counter at
/// zero, and a part renumbers nothing below it.
pub proof fn lemma_counting_restarts_deeper_levels(level: usize, numbers: NumbersView)
    requires
        level < LEVELS,
        numbers.counters.len() == LEVELS,
        numbers.counters[level as int] < u32::MAX,
    ensures
        ({
            let after = counted(level, numbers, true).1;
            &&& after.len() == LEVELS
            &&& after[level as int] == numbers.counters[level as int] + 1
            &&& forall|i: int| 0 <= i < level ==> #[trigger] after[i] == numbers.counters[i]
            &&& forall|i: int|
                level < i < LEVELS ==> #[trigger] after[i] == (if level == PART {
                    numbers.counters[i]
                } else {
                    0
                })
        }),
{
}

/// In a book, a section counted after a chapter is that chapter's first: whatever was
/// counted before, `\chapter` then `\section` numbers the section `c.1`, where `c` is
/// the number the chapter just got.
pub proof fn lemma_section_after_chapter_is_its_first(numbers: NumbersView)
    requires
        numbers.counters.len() == LEVELS,
        numbers.counters[CHAPTER as int] < u32::MAX,
    ensures
        ({
            let (seen, counters, chapter_number) = counted(CHAPTER, numbers, true);
            let c = counters[CHAPTER as int];
            let section_number = counted(SECTION, NumbersView { chapter_seen: seen, counters }, true).2;
            &&& chapter_number == Some(decimal_text(c as nat))
            &&& section_number == Some(decimal_text(c as nat) + seq!['.'] + decimal_text(1))
        }),
{
    let (seen, counters, _) = counted(CHAPTER, numbers, true);
    lemma_counting_restarts_deeper_levels(CHAPTER, numbers);
    let c = counters[CHAPTER as int];
    assert(counters.subrange(CHAPTER as int, CHAPTER + 1) =~= seq![c]);
    assert(counters[SECTION as int] == 0);
    let after = counted(SECTION, NumbersView { chapter_seen: seen, counters }, true).1;
    lemma_counting_restarts_deeper_levels(SECTION, NumbersView { chapter_seen: seen, counters });
    assert(after[CHAPTER as int] == c);
    assert(after[SECTION as int] == 1);
    let both = after.subrange(CHAPTER as int, SECTION + 1);
    assert(both =~= seq![c, 1u32]);
    assert(both.drop_last() =~= seq![c]);
    assert(dotted(seq![c]) == decimal_text(c as nat));
    assert(dotted(both) == dotted(both.drop_last()).push('.') + decimal_text(1));
    assert(dotted(both.drop_last()).push('.') =~= decimal_text(c as nat) + seq!['.']);
}

} // verus!
