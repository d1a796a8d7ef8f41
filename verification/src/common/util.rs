use vstd::prelude::*;

verus! {

/// `+` or `-`.
pub open spec fn num_sign(c: char) -> bool {
    c == '+' || c == '-'
}

/// A decimal digit, or the separator `_`.
pub open spec fn num_char(c: char) -> bool {
    c == '_' || ('0' <= c && c <= '9')
}

/// A character with the Unicode property `White_Space`.
pub open spec fn white_space(c: char) -> bool {
    ('\u{9}' <= c && c <= '\u{d}') || c == ' ' || c == '\u{85}' || c == '\u{a0}' || c == '\u{1680}'
        || ('\u{2000}' <= c && c <= '\u{200a}') || c == '\u{2028}' || c == '\u{2029}' || c
        == '\u{202f}' || c == '\u{205f}' || c == '\u{3000}'
}

/// White space, or one of the delimiters `# ; { } ,`: what ends a number.
pub open spec fn other_char(c: char) -> bool {
    white_space(c) || c == '#' || c == ';' || c == '{' || c == '}' || c == ','
}

/// An ASCII letter.
pub open spec fn letter(c: char) -> bool {
    ('a' <= c && c <= 'z') || ('A' <= c && c <= 'Z')
}

/// A character that may continue an identifier.
pub open spec fn ident_char(c: char) -> bool {
    letter(c) || ('0' <= c && c <= '9') || c == '-' || c == '_'
}

pub fn is_white_space(c: char) -> (r: bool)
    ensures
        r == white_space(c),
{
    ('\u{9}' <= c && c <= '\u{d}') || c == ' ' || c == '\u{85}' || c == '\u{a0}' || c == '\u{1680}'
        || ('\u{2000}' <= c && c <= '\u{200a}') || c == '\u{2028}' || c == '\u{2029}' || c
        == '\u{202f}' || c == '\u{205f}' || c == '\u{3000}'
}

pub fn is_letter(c: char) -> (r: bool)
    ensures
        r == letter(c),
{
    ('a' <= c && c <= 'z') || ('A' <= c && c <= 'Z')
}

pub fn is_ident_char(c: char) -> (r: bool)
    ensures
        r == ident_char(c),
{
    is_letter(c) || ('0' <= c && c <= '9') || c == '-' || c == '_'
}

/// The character classes that the number scanner tells apart.
pub trait CharExtensions {
    fn is_num_sign(&self) -> bool;

    fn is_num_char(&self) -> bool;

    fn is_other_char(&self) -> bool;
}

impl CharExtensions for char {
    fn is_num_sign(&self) -> (r: bool)
        ensures
            r == num_sign(*self),
    {
        *self == '+' || *self == '-'
    }

    fn is_other_char(&self) -> (r: bool)
        ensures
            r == other_char(*self),
    {
        let c: char = *self;
        is_white_space(c) || c == '#' || c == ';' || c == '{' || c == '}' || c == ','
    }

    fn is_num_char(&self) -> (r: bool)
        ensures
            r == num_char(*self),
    {
        *self == '_' || ('0' <= *self && *self <= '9')
    }
}

} // verus!
