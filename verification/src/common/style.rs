//! Terminal styling of diagnostic text, done by the crate `colored`.

use vstd::prelude::*;

verus! {

/// A text with the colour and weight in which `colored` will show it.
#[verifier::external_type_specification]
#[verifier::external_body]
pub struct ExColoredString(colored::ColoredString);

/// The colours that diagnostics use.
#[derive(Debug, Clone, Copy, PartialEq, Eq, Structural)]
pub enum Tint {
    Red,
    Green,
    Yellow,
    Blue,
    Cyan,
    White,
    BrightRed,
    BrightYellow,
    BrightMagenta,
    BrightCyan,
}

/// How strongly a text is shown.
#[derive(Debug, Clone, Copy, PartialEq, Eq, Structural)]
pub enum Weight {
    Normal,
    Bold,
    Dimmed,
}

/// `ColoredString::from`: the text with no colour and no style yet. What it
/// holds is not stated.
#[verifier::external_body]
fn unstyled(text: &str) -> colored::ColoredString {
    colored::ColoredString::from(text)
}

/// `Colorize::color` on a `ColoredString`: the same text with the foreground
/// colour that stands for `tint`. What it holds is not stated.
#[verifier::external_body]
fn with_color(text: colored::ColoredString, tint: Tint) -> colored::ColoredString {
    let color = match tint {
        Tint::Red => colored::Color::Red,
        Tint::Green => colored::Color::Green,
        Tint::Yellow => colored::Color::Yellow,
        Tint::Blue => colored::Color::Blue,
        Tint::Cyan => colored::Color::Cyan,
        Tint::White => colored::Color::White,
        Tint::BrightRed => colored::Color::BrightRed,
        Tint::BrightYellow => colored::Color::BrightYellow,
        Tint::BrightMagenta => colored::Color::BrightMagenta,
        Tint::BrightCyan => colored::Color::BrightCyan,
    };
    colored::Colorize::color(text, color)
}

/// `Colorize::bold` on a `ColoredString`. What it holds is not stated.
#[verifier::external_body]
fn with_bold(text: colored::ColoredString) -> colored::ColoredString {
    colored::Colorize::bold(text)
}

/// `Colorize::dimmed` on a `ColoredString`. What it holds is not stated.
#[verifier::external_body]
fn with_dimmed(text: colored::ColoredString) -> colored::ColoredString {
    colored::Colorize::dimmed(text)
}

/// `ColoredString`'s `Display`: the text, between escape sequences where
/// `colored` finds that the terminal takes colours. Whether it does depends
/// on the terminal and on variables of the process, so nothing is stated of
/// the result.
#[verifier::external_body]
fn shown(text: &colored::ColoredString) -> String {
    text.to_string()
}

/// `text` in the given weight, and in the given colour if there is one. A
/// text that is not to be styled comes back as it is.
pub fn styled_text(text: &str, tint: Option<Tint>, weight: Weight, styled: bool) -> (r: String)
    ensures
        !styled ==> r@ == text@,
{
    if !styled {
        return text.to_owned();
    }
    let plain = unstyled(text);
    let tinted = match tint {
        Some(t) => with_color(plain, t),
        None => plain,
    };
    let weighted = match weight {
        Weight::Normal => tinted,
        Weight::Bold => with_bold(tinted),
        Weight::Dimmed => with_dimmed(tinted),
    };
    shown(&weighted)
}

/// `text` in the colour `tint`.
pub fn tinted(text: &str, tint: Tint, styled: bool) -> (r: String)
    ensures
        !styled ==> r@ == text@,
{
    styled_text(text, Some(tint), Weight::Normal, styled)
}

} // verus!
