//! The vocabulary of formula formatting that the options speak: font alphabets, the
//! delimiters a sub-expression is wrapped in, and how a matrix is bracketed.

use vstd::prelude::*;

verus! {

/// One of the unicode mathematical alphabets, or the upright letters themselves.
///
/// Upright is a style like the others: it maps letters to themselves, but a nested
/// bold still overrides it.
#[derive(Clone, Copy, Debug, PartialEq, Eq, Structural, Hash)]
pub enum FontStyleKind {
    /// The letters as they are.
    Upright,
    /// 𝑖𝑡𝑎𝑙𝑖𝑐.
    Italic,
    /// 𝐛𝐨𝐥𝐝.
    Bold,
    /// 𝒃𝒐𝒍𝒅 𝒊𝒕𝒂𝒍𝒊𝒄.
    BoldItalic,
    /// 𝒮𝒸𝓇𝒾𝓅𝓉.
    Script,
    /// 𝓑𝓸𝓵𝓭 𝓼𝓬𝓻𝓲𝓹𝓽.
    BoldScript,
    /// 𝔉𝔯𝔞𝔨𝔱𝔲𝔯.
    Fraktur,
    /// 𝕭𝖔𝖑𝖉 𝖋𝖗𝖆𝖐𝖙𝖚𝖗.
    BoldFraktur,
    /// 𝔻𝕠𝕦𝕓𝕝𝕖-𝕤𝕥𝕣𝕦𝕔𝕜.
    DoubleStruck,
    /// 𝖲𝖺𝗇𝗌-𝗌𝖾𝗋𝗂𝖿.
    SansSerif,
    /// 𝗦𝗮𝗻𝘀-𝘀𝗲𝗿𝗶𝗳 𝗯𝗼𝗹𝗱.
    SansSerifBold,
    /// 𝘚𝘢𝘯𝘴-𝘴𝘦𝘳𝘪𝘧 𝘪𝘵𝘢𝘭𝘪𝘤.
    SansSerifItalic,
    /// 𝙎𝙖𝙣𝙨-𝙨𝙚𝙧𝙞𝙛 𝙗𝙤𝙡𝙙 𝙞𝙩𝙖𝙡𝙞𝙘.
    SansSerifBoldItalic,
    /// 𝙼𝚘𝚗𝚘𝚜𝚙𝚊𝚌𝚎.
    Monospace,
}

/// The font a stack of text or math starts in.
#[derive(Clone, Copy, Debug, PartialEq, Eq, Structural, Hash)]
pub enum FontStyle {
    /// No alphabet chosen: the letters as they are.
    Default,
    /// Alphabet mapping switched off; no macro may turn it back on.
    Disabled,
    /// One alphabet.
    Style(FontStyleKind),
}

/// What a sub-expression is wrapped in when its extent would otherwise be unclear.
#[derive(Clone, Debug, PartialEq, Eq)]
pub enum MathWrapDelims {
    /// `(a+b)/2`.
    Parens,
    /// `{a+b}/2`.
    Braces,
    /// `a+b/2` — nothing at all, even where the extent is then unclear.
    Bare,
    /// A pair of delimiters of the caller's choosing.
    Custom {
        /// What opens the wrapped expression.
        open: String,
        /// What closes it.
        close: String,
    },
}

/// How the delimiters of a display matrix are drawn.
#[derive(Clone, Copy, Debug, PartialEq, Eq, Structural, Hash)]
pub enum MatrixDelims {
    /// Multi-line box-drawing brackets, assembled from the unicode extension pieces.
    Unicode,
    /// One-character ASCII brackets on every row.
    Ascii,
}

} // verus!
