//! The symbols that the repair scanner gives a meaning to, for the two
//! alphabets it runs over: raw bytes and Unicode scalar values.
use vstd::prelude::*;

verus! {

/// An alphabet in which the JSON punctuation can be recognised.
///
/// The scanner and the output lexer are written once over any such alphabet;
/// `u8` (UTF-8 bytes) and `char` are the two instances.
pub trait Symbol: Sized {
    spec fn single_quote() -> Self;

    spec fn double_quote() -> Self;

    spec fn backslash() -> Self;

    spec fn open_bracket() -> Self;

    spec fn close_bracket() -> Self;

    spec fn open_brace() -> Self;

    spec fn close_brace() -> Self;

    spec fn comma() -> Self;

    spec fn colon() -> Self;

    /// Whitespace that may stand between a trailing comma and the closer it precedes.
    spec fn is_space(self) -> bool;

    /// The punctuation symbols are pairwise distinct and none of them is whitespace.
    proof fn lemma_punctuation_distinct()
        ensures
            Self::single_quote() != Self::double_quote(),
            Self::single_quote() != Self::backslash(),
            Self::single_quote() != Self::open_bracket(),
            Self::single_quote() != Self::close_bracket(),
            Self::single_quote() != Self::open_brace(),
            Self::single_quote() != Self::close_brace(),
            Self::single_quote() != Self::comma(),
            Self::single_quote() != Self::colon(),
            Self::double_quote() != Self::backslash(),
            Self::double_quote() != Self::open_bracket(),
            Self::double_quote() != Self::close_bracket(),
            Self::double_quote() != Self::open_brace(),
            Self::double_quote() != Self::close_brace(),
            Self::double_quote() != Self::comma(),
            Self::double_quote() != Self::colon(),
            Self::backslash() != Self::open_bracket(),
            Self::backslash() != Self::close_bracket(),
            Self::backslash() != Self::open_brace(),
            Self::backslash() != Self::close_brace(),
            Self::backslash() != Self::comma(),
            Self::backslash() != Self::colon(),
            Self::open_bracket() != Self::close_bracket(),
            Self::open_bracket() != Self::open_brace(),
            Self::open_bracket() != Self::close_brace(),
            Self::open_bracket() != Self::comma(),
            Self::open_bracket() != Self::colon(),
            Self::close_bracket() != Self::open_brace(),
            Self::close_bracket() != Self::close_brace(),
            Self::close_bracket() != Self::comma(),
            Self::close_bracket() != Self::colon(),
            Self::open_brace() != Self::close_brace(),
            Self::open_brace() != Self::comma(),
            Self::open_brace() != Self::colon(),
            Self::close_brace() != Self::comma(),
            Self::close_brace() != Self::colon(),
            Self::comma() != Self::colon(),
            !Self::single_quote().is_space(),
            !Self::double_quote().is_space(),
            !Self::backslash().is_space(),
            !Self::open_bracket().is_space(),
            !Self::close_bracket().is_space(),
            !Self::open_brace().is_space(),
            !Self::close_brace().is_space(),
            !Self::comma().is_space(),
            !Self::colon().is_space(),
    ;
}

/// ASCII whitespace as `u8::is_ascii_whitespace` documents it: space, tab,
/// line feed, form feed and carriage return (not the vertical tab).
pub open spec fn is_ascii_space(b: u8) -> bool {
    b == 0x20u8 || b == 0x09u8 || b == 0x0Au8 || b == 0x0Cu8 || b == 0x0Du8
}

/// Unicode whitespace: the scalar values with the `White_Space` property,
/// which is what `char::is_whitespace` tests.
pub open spec fn is_unicode_space(c: char) -> bool {
    let v = c as u32;
    ||| 0x09 <= v <= 0x0D
    ||| v == 0x20
    ||| v == 0x85
    ||| v == 0xA0
    ||| v == 0x1680
    ||| 0x2000 <= v <= 0x200A
    ||| v == 0x2028
    ||| v == 0x2029
    ||| v == 0x202F
    ||| v == 0x205F
    ||| v == 0x3000
}

impl Symbol for u8 {
    open spec fn single_quote() -> u8 {
        0x27u8
    }

    open spec fn double_quote() -> u8 {
        0x22u8
    }

    open spec fn backslash() -> u8 {
        0x5Cu8
    }

    open spec fn open_bracket() -> u8 {
        0x5Bu8
    }

    open spec fn close_bracket() -> u8 {
        0x5Du8
    }

    open spec fn open_brace() -> u8 {
        0x7Bu8
    }

    open spec fn close_brace() -> u8 {
        0x7Du8
    }

    open spec fn comma() -> u8 {
        0x2Cu8
    }

    open spec fn colon() -> u8 {
        0x3Au8
    }

    open spec fn is_space(self) -> bool {
        is_ascii_space(self)
    }

    proof fn lemma_punctuation_distinct() {
    }
}

impl Symbol for char {
    open spec fn single_quote() -> char {
        '\''
    }

    open spec fn double_quote() -> char {
        '"'
    }

    open spec fn backslash() -> char {
        '\\'
    }

    open spec fn open_bracket() -> char {
        '['
    }

    open spec fn close_bracket() -> char {
        ']'
    }

    open spec fn open_brace() -> char {
        '{'
    }

    open spec fn close_brace() -> char {
        '}'
    }

    open spec fn comma() -> char {
        ','
    }

    open spec fn colon() -> char {
        ':'
    }

    open spec fn is_space(self) -> bool {
        is_unicode_space(self)
    }

    proof fn lemma_punctuation_distinct() {
    }
}

/// Whether `b` is ASCII whitespace (the test `u8::is_ascii_whitespace` makes).
pub fn ascii_space(b: u8) -> (r: bool)
    ensures
        r == is_ascii_space(b),
{
    b == 0x20u8 || b == 0x09u8 || b == 0x0Au8 || b == 0x0Cu8 || b == 0x0Du8
}

/// Whether `c` has the Unicode `White_Space` property (the test `char::is_whitespace` makes).
pub fn unicode_space(c: char) -> (r: bool)
    ensures
        r == is_unicode_space(c),
{
    ('\u{9}' <= c && c <= '\u{D}') || c == ' ' || c == '\u{85}' || c == '\u{A0}' || c == '\u{1680}'
        || ('\u{2000}' <= c && c <= '\u{200A}') || c == '\u{2028}' || c == '\u{2029}' || c
        == '\u{202F}' || c == '\u{205F}' || c == '\u{3000}'
}

} // verus!
