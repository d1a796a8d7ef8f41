//! The lexical grammar, as mathematical functions on a sequence of
//! characters. A position is an index into the text; `line` is the number of
//! the line that holds it, and `ls` the index at which that line starts, so
//! that the 1-based column of index `k` is `k - ls + 1`.

use crate::common::errors::{LocView, SyntaxErrorView};
use crate::common::tokens::{TokenKind, TokenView};
use crate::common::util::{ident_char, letter, num_char, num_sign, other_char};
use vstd::prelude::*;

verus! {

/// A token together with the index just behind its last character.
pub struct Lexed {
    pub tok: TokenView,
    pub end: int,
}

/// The number of the line that holds index `i`: one more than the newlines before it.
pub open spec fn line_of(s: Seq<char>, i: int) -> int
    decreases i,
{
    if i <= 0 {
        1
    } else {
        line_of(s, i - 1) + if s[i - 1] == '\n' {
            1int
        } else {
            0int
        }
    }
}

/// The index at which the line that holds index `i` starts: just behind the
/// last newline before `i`.
pub open spec fn line_start(s: Seq<char>, i: int) -> int
    decreases i,
{
    if i <= 0 {
        0
    } else if s[i - 1] == '\n' {
        i
    } else {
        line_start(s, i - 1)
    }
}

/// No newline in `s[a..b]`.
pub open spec fn one_line(s: Seq<char>, a: int, b: int) -> bool {
    forall|k: int| a <= k < b ==> #[trigger] s[k] != '\n'
}

/// A line starts at or before each of its indices, and its number is at most
/// one more than the index.
pub proof fn lemma_line_bounds(s: Seq<char>, i: int)
    requires
        0 <= i,
    ensures
        0 <= line_start(s, i) <= i,
        1 <= line_of(s, i) <= i + 1,
    decreases i,
{
    if i > 0 {
        lemma_line_bounds(s, i - 1);
    }
}

/// A newline-free stretch of text lies in one line.
pub proof fn lemma_same_line(s: Seq<char>, a: int, b: int)
    requires
        0 <= a <= b,
        one_line(s, a, b),
    ensures
        line_of(s, b) == line_of(s, a),
        line_start(s, b) == line_start(s, a),
    decreases b - a,
{
    if a < b {
        assert(s[b - 1] != '\n');
        lemma_same_line(s, a, b - 1);
    }
}

/// Space, tab or newline.
pub open spec fn blank(c: char) -> bool {
    c == ' ' || c == '\t' || c == '\n'
}

/// The first index from `i` on that holds neither white space nor a part of
/// a comment. A comment runs from `#` to the end of its line; `in_comment`
/// says that `i` lies in one.
pub open spec fn skip(s: Seq<char>, i: int, in_comment: bool) -> int
    decreases s.len() - i,
{
    if i < 0 || i >= s.len() {
        i
    } else if in_comment {
        skip(s, i + 1, s[i] != '\n')
    } else if blank(s[i]) {
        skip(s, i + 1, false)
    } else if s[i] == '#' {
        skip(s, i + 1, true)
    } else {
        i
    }
}

/// The end of the line that holds index `i`: the index of the next newline,
/// or the end of the text.
pub open spec fn line_end(s: Seq<char>, i: int) -> int
    decreases s.len() - i,
{
    if 0 <= i < s.len() && s[i] != '\n' {
        line_end(s, i + 1)
    } else {
        i
    }
}

/// The kind of a token of one character.
pub open spec fn symbol_kind(c: char) -> Option<TokenKind> {
    if c == ';' {
        Some(TokenKind::SemiColon)
    } else if c == '=' {
        Some(TokenKind::Eq)
    } else if c == '{' {
        Some(TokenKind::OpenBrace)
    } else if c == '}' {
        Some(TokenKind::CloseBrace)
    } else if c == '/' {
        Some(TokenKind::Alt)
    } else if c == ',' {
        Some(TokenKind::Comma)
    } else if c == '-' {
        Some(TokenKind::Minus)
    } else if c == '+' {
        Some(TokenKind::Plus)
    } else if c == '*' {
        Some(TokenKind::Wildcard)
    } else {
        None
    }
}

/// The token of one character at `i`.
pub open spec fn scan_symbol(s: Seq<char>, i: int, line: int, ls: int) -> Lexed {
    Lexed {
        tok: TokenView {
            kind: symbol_kind(s[i]).unwrap(),
            lexeme: s.subrange(i, i + 1),
            line,
            col: i - ls + 1,
        },
        end: i + 1,
    }
}

/// The end of the run of identifier characters that starts at `i`.
pub open spec fn ident_end(s: Seq<char>, i: int) -> int
    decreases s.len() - i,
{
    if 0 <= i < s.len() && ident_char(s[i]) {
        ident_end(s, i + 1)
    } else {
        i
    }
}

/// The kind of a reserved word, `None` for any other word.
pub open spec fn word_kind(w: Seq<char>) -> Option<TokenKind> {
    if w == "!version"@ || w == "!program"@ {
        Some(TokenKind::Directive)
    } else if w == "show_version"@ || w == "show_help"@ {
        Some(TokenKind::Action)
    } else if w == "true"@ || w == "false"@ {
        Some(TokenKind::Boolean)
    } else if w == "int"@ || w == "float"@ || w == "uint"@ || w == "path"@ || w == "bool"@ {
        Some(TokenKind::Type)
    } else if w == "command"@ || w == "flag"@ || w == "pos"@ || w == "named"@ {
        Some(TokenKind::Keyword)
    } else {
        None
    }
}

/// The word that starts at `i` with a letter, `_` or `!`: a reserved word, a
/// directive or an identifier. An error is placed at the word's last character.
pub open spec fn scan_ident(s: Seq<char>, i: int, line: int, ls: int, path: Seq<char>) -> Result<
    Lexed,
    SyntaxErrorView,
> {
    let directive = s[i] == '!';
    let end = ident_end(
        s,
        if directive {
            i + 1
        } else {
            i
        },
    );
    let lexeme = s.subrange(i, end);
    let at_end = LocView { path, line, col: end - ls };
    if lexeme.len() > 0 && lexeme.last() == '-' {
        Err(SyntaxErrorView::InvalidIdent(at_end, lexeme))
    } else {
        match word_kind(lexeme) {
            Some(kind) => Ok(Lexed { tok: TokenView { kind, lexeme, line, col: i - ls + 1 }, end }),
            None => if directive {
                Err(SyntaxErrorView::InvalidDirective(at_end, lexeme))
            } else {
                Ok(
                    Lexed {
                        tok: TokenView { kind: TokenKind::Identifier, lexeme, line, col: i - ls + 1 },
                        end,
                    },
                )
            },
        }
    }
}

/// The character that an escape stands for, `None` for an unknown escape.
pub open spec fn escaped(c: char) -> Option<char> {
    if c == '"' {
        Some('"')
    } else if c == '\\' {
        Some('\\')
    } else if c == 't' {
        Some('\t')
    } else if c == 'b' {
        Some('\u{8}')
    } else if c == 'e' {
        Some('\u{1b}')
    } else {
        None
    }
}

/// The rest of a string literal from index `k` on: `acc` holds the characters
/// read so far, `esc` says that a backslash came just before, and `open` is the
/// index of the opening quote. The literal ends behind the closing quote, or
/// at the end of the text.
pub open spec fn scan_str_body(
    s: Seq<char>,
    k: int,
    acc: Seq<char>,
    esc: bool,
    open: int,
    line: int,
    ls: int,
    path: Seq<char>,
) -> Result<Lexed, SyntaxErrorView>
    decreases s.len() - k,
{
    if k < 0 || k >= s.len() {
        Ok(
            Lexed {
                tok: TokenView { kind: TokenKind::String, lexeme: acc, line, col: open - ls + 1 },
                end: k,
            },
        )
    } else if s[k] == '\n' {
        Err(SyntaxErrorView::UnterminatedStr(LocView { path, line, col: k - ls }, acc))
    } else if esc {
        match escaped(s[k]) {
            Some(c) => scan_str_body(s, k + 1, acc.push(c), false, open, line, ls, path),
            None => Err(SyntaxErrorView::InvalidStrEsc(LocView { path, line, col: k - ls }, s[k])),
        }
    } else if s[k] == '"' {
        Ok(
            Lexed {
                tok: TokenView { kind: TokenKind::String, lexeme: acc, line, col: open - ls + 1 },
                end: k + 1,
            },
        )
    } else if s[k] == '\\' {
        scan_str_body(s, k + 1, acc, true, open, line, ls, path)
    } else {
        scan_str_body(s, k + 1, acc.push(s[k]), false, open, line, ls, path)
    }
}

/// The string literal whose opening quote is at `i`.
pub open spec fn scan_str(s: Seq<char>, i: int, line: int, ls: int, path: Seq<char>) -> Result<
    Lexed,
    SyntaxErrorView,
> {
    scan_str_body(s, i + 1, Seq::empty(), false, i, line, ls, path)
}

/// The end of the run of signs that starts at `i`.
pub open spec fn signs_end(s: Seq<char>, i: int) -> int
    decreases s.len() - i,
{
    if 0 <= i < s.len() && num_sign(s[i]) {
        signs_end(s, i + 1)
    } else {
        i
    }
}

/// What the scan of a number's digits and decimal points has seen.
pub struct Body {
    /// The index at which the scan stopped.
    pub end: int,
    /// A decimal point was read.
    pub is_float: bool,
    /// A digit or `_` was read.
    pub digit_found: bool,
    /// A digit or `_` stands before the first decimal point.
    pub lead_digit: bool,
    /// The last character read is a digit or `_`.
    pub trail_digit: bool,
    /// The index of the last decimal point after the first, -1 if there is none.
    pub extra_dot: int,
    /// Two decimal points in a row that begin no range.
    pub invalid_range: bool,
    /// The characters read that no number holds.
    pub unrec: Seq<char>,
}

/// The state before anything is read.
pub open spec fn body_start() -> Body {
    Body {
        end: 0,
        is_float: false,
        digit_found: false,
        lead_digit: false,
        trail_digit: false,
        extra_dot: -1,
        invalid_range: false,
        unrec: Seq::empty(),
    }
}

/// Two decimal points at `k` that begin a range: the number so far has no
/// decimal point, and no third one follows.
pub open spec fn range_ahead(s: Seq<char>, k: int, is_float: bool) -> bool {
    k + 1 < s.len() && s[k] == '.' && s[k + 1] == '.' && !is_float && !(k + 2 < s.len() && s[k + 2]
        == '.')
}

/// What ends the digits of a number: a delimiter, a sign or an exponent marker.
pub open spec fn body_stop(c: char) -> bool {
    other_char(c) || num_sign(c) || c == 'e' || c == 'E'
}

/// Reads digits, `_` and decimal points from `k` on. It stops at the end of
/// the text, before a delimiter, a sign, an exponent marker or the two points
/// of a range, and gathers any other character as unrecognised.
pub open spec fn scan_body(s: Seq<char>, k: int, st: Body) -> Body
    decreases s.len() - k,
{
    if k < 0 || k >= s.len() {
        Body { end: k, ..st }
    } else if num_char(s[k]) {
        scan_body(
            s,
            k + 1,
            Body {
                digit_found: true,
                lead_digit: st.lead_digit || !st.is_float,
                trail_digit: true,
                ..st
            },
        )
    } else if s[k] == '.' {
        if range_ahead(s, k, st.is_float) {
            Body { end: k, ..st }
        } else {
            scan_body(
                s,
                k + 1,
                Body {
                    is_float: true,
                    trail_digit: false,
                    extra_dot: if st.is_float {
                        k
                    } else {
                        st.extra_dot
                    },
                    invalid_range: st.invalid_range || (k + 1 < s.len() && s[k + 1] == '.'),
                    ..st
                },
            )
        }
    } else if body_stop(s[k]) {
        Body { end: k, ..st }
    } else {
        scan_body(s, k + 1, Body { trail_digit: false, unrec: st.unrec.push(s[k]), ..st })
    }
}

/// What the scan of an exponent's digits has seen.
pub struct Exponent {
    pub end: int,
    pub digit_found: bool,
    pub unrec: Seq<char>,
}

/// Reads the digits of an exponent from `k` on, up to the end of the text or
/// a delimiter, and gathers any other character as unrecognised.
pub open spec fn scan_exp(s: Seq<char>, k: int, st: Exponent) -> Exponent
    decreases s.len() - k,
{
    if k < 0 || k >= s.len() || other_char(s[k]) {
        Exponent { end: k, ..st }
    } else if num_char(s[k]) {
        scan_exp(s, k + 1, Exponent { digit_found: true, ..st })
    } else {
        scan_exp(s, k + 1, Exponent { unrec: st.unrec.push(s[k]), ..st })
    }
}

/// A decimal point with no digit on one side of it, or no digit at all.
pub open spec fn stands_alone(b: Body) -> bool {
    !b.digit_found || (b.is_float && b.extra_dot < 0 && !(b.lead_digit && b.trail_digit))
}

/// The number that starts at `i`: signs, digits with at most one decimal
/// point, and an optional exponent. A scan that reads nothing gives
/// `InvalidStandaloneSymbol` with an empty lexeme.
pub open spec fn scan_number(s: Seq<char>, i: int, line: int, ls: int, path: Seq<char>) -> Result<
    Lexed,
    SyntaxErrorView,
> {
    let at_start = LocView { path, line, col: i - ls + 1 };
    let digits = signs_end(s, i);
    let b = scan_body(s, digits, body_start());
    let lexeme = s.subrange(i, b.end);
    if digits - i > 1 {
        Err(SyntaxErrorView::InvalidNumberSign(at_start, s.subrange(i, digits)))
    } else if b.unrec.len() > 0 {
        Err(
            SyntaxErrorView::InvalidNumChars(
                if b.is_float {
                    "Float"@
                } else {
                    "Integer"@
                },
                b.unrec,
                LocView { path, line, col: b.end - ls },
                lexeme,
            ),
        )
    } else if b.invalid_range {
        Err(SyntaxErrorView::InvalidRange(at_start, lexeme))
    } else if stands_alone(b) {
        Err(SyntaxErrorView::InvalidStandaloneSymbol(at_start, lexeme))
    } else if b.end < s.len() && (s[b.end] == 'e' || s[b.end] == 'E') {
        let signed = b.end + 1 < s.len() && num_sign(s[b.end + 1]);
        let from = if signed {
            b.end + 2
        } else {
            b.end + 1
        };
        let x = scan_exp(s, from, Exponent { end: 0, digit_found: false, unrec: Seq::empty() });
        if signed && from < s.len() && num_sign(s[from]) {
            Err(
                SyntaxErrorView::InvalidNumberSign(
                    LocView { path, line, col: from - ls + 1 },
                    s.subrange(i, from),
                ),
            )
        } else if !x.digit_found {
            Err(
                SyntaxErrorView::NoFloatExp(
                    LocView { path, line, col: x.end - ls },
                    s.subrange(i, x.end),
                ),
            )
        } else if x.unrec.len() > 0 {
            Err(
                SyntaxErrorView::InvalidFloatExpChars(
                    x.unrec,
                    LocView { path, line, col: x.end - ls },
                    s.subrange(i, x.end),
                ),
            )
        } else if b.extra_dot >= 0 {
            Err(
                SyntaxErrorView::ExtraDecimalPoint(
                    LocView { path, line, col: b.extra_dot - ls + 1 },
                    s.subrange(i, x.end),
                ),
            )
        } else {
            Ok(
                Lexed {
                    tok: TokenView {
                        kind: TokenKind::Float,
                        lexeme: s.subrange(i, x.end),
                        line,
                        col: i - ls + 1,
                    },
                    end: x.end,
                },
            )
        }
    } else if b.extra_dot >= 0 {
        Err(
            SyntaxErrorView::ExtraDecimalPoint(
                LocView { path, line, col: b.extra_dot - ls + 1 },
                lexeme,
            ),
        )
    } else {
        Ok(
            Lexed {
                tok: TokenView {
                    kind: if b.is_float {
                        TokenKind::Float
                    } else {
                        TokenKind::Int
                    },
                    lexeme,
                    line,
                    col: i - ls + 1,
                },
                end: b.end,
            },
        )
    }
}

/// The scan of a number found nothing to read: a side of a range that is left out.
pub open spec fn nothing_read(r: Result<Lexed, SyntaxErrorView>) -> bool {
    r matches Err(SyntaxErrorView::InvalidStandaloneSymbol(_, lexeme)) && lexeme.len() == 0
}

/// The end of one side of a range, where `r` is the scan of a number at `at`.
pub open spec fn side_end(r: Result<Lexed, SyntaxErrorView>, at: int) -> int {
    match r {
        Ok(l) => l.end,
        Err(_) => at,
    }
}

/// The number or range that starts at `i`. A range is `..` or `..=` between
/// two numbers, each of which may be left out; its lexeme is all of its text.
pub open spec fn scan_range_or_number(
    s: Seq<char>,
    i: int,
    line: int,
    ls: int,
    path: Seq<char>,
) -> Result<Lexed, SyntaxErrorView> {
    let first = scan_number(s, i, line, ls, path);
    let mid = side_end(first, i);
    if first is Err && !nothing_read(first) {
        first
    } else if mid + 1 < s.len() && s[mid] == '.' && s[mid + 1] == '.' {
        let inclusive = mid + 2 < s.len() && s[mid + 2] == '=';
        let from = if inclusive {
            mid + 3
        } else {
            mid + 2
        };
        let second = scan_number(s, from, line, ls, path);
        let end = side_end(second, from);
        if second is Err && !nothing_read(second) {
            second
        } else {
            Ok(
                Lexed {
                    tok: TokenView {
                        kind: if inclusive {
                            TokenKind::InclusiveRange
                        } else {
                            TokenKind::ExclusiveRange
                        },
                        lexeme: s.subrange(i, end),
                        line,
                        col: i - ls + 1,
                    },
                    end,
                },
            )
        }
    } else {
        first
    }
}

/// The token that starts at `i`, where `s[i]` is neither blank nor `#`. A
/// sign, a digit or a decimal point starts a number or a range, so a sign
/// that stands alone is an error, and `*` is always a wildcard of its own.
#[verifier::opaque]
pub open spec fn scan_token(s: Seq<char>, i: int, line: int, ls: int, path: Seq<char>) -> Result<
    Lexed,
    SyntaxErrorView,
> {
    let c = s[i];
    if c == ';' || c == '=' || c == '{' || c == '}' || c == '/' || c == ',' || c == '*' {
        Ok(scan_symbol(s, i, line, ls))
    } else if letter(c) || c == '_' || c == '!' {
        scan_ident(s, i, line, ls, path)
    } else if c == '-' || c == '+' || c == '.' || ('0' <= c && c <= '9') {
        scan_range_or_number(s, i, line, ls, path)
    } else if c == '"' {
        scan_str(s, i, line, ls, path)
    } else {
        Err(SyntaxErrorView::InvalidChar(LocView { path, line, col: i - ls + 1 }, c))
    }
}

/// The token that starts at index `i` of the text `s`, with its line and column.
pub open spec fn token_at(s: Seq<char>, path: Seq<char>, i: int) -> Result<Lexed, SyntaxErrorView> {
    scan_token(s, i, line_of(s, i), line_start(s, i), path)
}

/// `toks` are the tokens of the text up to `upto`, and token `k` takes
/// `s[cuts[k].0 .. cuts[k].1]`: each starts where the white space and comments
/// behind its predecessor end.
pub open spec fn lexed(
    s: Seq<char>,
    path: Seq<char>,
    toks: Seq<TokenView>,
    cuts: Seq<(int, int)>,
    upto: int,
) -> bool {
    &&& cuts.len() == toks.len()
    &&& upto == if cuts.len() == 0 {
        0
    } else {
        cuts.last().1
    }
    &&& forall|k: int|
        #![trigger cuts[k], toks[k]]
        0 <= k < cuts.len() ==> {
            &&& cuts[k].0 == skip(
                s,
                if k == 0 {
                    0
                } else {
                    cuts[k - 1].1
                },
                false,
            )
            &&& 0 <= cuts[k].0 < cuts[k].1 <= s.len()
            &&& token_at(s, path, cuts[k].0) == Ok::<Lexed, SyntaxErrorView>(
                Lexed { tok: toks[k], end: cuts[k].1 },
            )
        }
}

/// `toks` are the tokens of the whole text `s`: behind the last of them
/// nothing but white space and comments is left.
pub open spec fn tokens_of(s: Seq<char>, path: Seq<char>, toks: Seq<TokenView>) -> bool {
    exists|cuts: Seq<(int, int)>, upto: int|
        #![auto]
        lexed(s, path, toks, cuts, upto) && skip(s, upto, false) == s.len()
}

/// The text `s` has the lexical error `e`: behind the tokens before it, the
/// next token cannot be read.
pub open spec fn fails_with(s: Seq<char>, path: Seq<char>, e: SyntaxErrorView) -> bool {
    exists|toks: Seq<TokenView>, cuts: Seq<(int, int)>, upto: int|
        #![auto]
        lexed(s, path, toks, cuts, upto) && skip(s, upto, false) < s.len() && token_at(
            s,
            path,
            skip(s, upto, false),
        ) == Err::<Lexed, SyntaxErrorView>(e)
}

/// The text for which token `tok` stands in the source: its lexeme, and for
/// a string literal, whose lexeme has the escapes resolved, the literal as written.
pub open spec fn spelling(s: Seq<char>, tok: TokenView, cut: (int, int)) -> Seq<char> {
    if tok.kind == TokenKind::String {
        s.subrange(cut.0, cut.1)
    } else {
        tok.lexeme
    }
}

/// The white space and comments between token `k` and the token before it.
pub open spec fn gap_before(s: Seq<char>, cuts: Seq<(int, int)>, k: int) -> Seq<char> {
    s.subrange(
        if k == 0 {
            0
        } else {
            cuts[k - 1].1
        },
        cuts[k].0,
    )
}

/// The first `n` tokens written out again, each behind the white space and
/// comments that stand before it in the source.
pub open spec fn rejoined(s: Seq<char>, toks: Seq<TokenView>, cuts: Seq<(int, int)>, n: int)
    -> Seq<char>
    decreases n,
{
    if n <= 0 {
        Seq::empty()
    } else {
        rejoined(s, toks, cuts, n - 1) + gap_before(s, cuts, n - 1) + spelling(
            s,
            toks[n - 1],
            cuts[n - 1],
        )
    }
}

/// Skipping white space and comments moves forward, and stays inside the text.
pub proof fn lemma_skip_bounds(s: Seq<char>, i: int, in_comment: bool)
    requires
        0 <= i <= s.len(),
    ensures
        i <= skip(s, i, in_comment) <= s.len(),
    decreases s.len() - i,
{
    if i < s.len() {
        if in_comment {
            lemma_skip_bounds(s, i + 1, s[i] != '\n');
        } else if blank(s[i]) {
            lemma_skip_bounds(s, i + 1, false);
        } else if s[i] == '#' {
            lemma_skip_bounds(s, i + 1, true);
        }
    }
}

/// A string literal is a token of kind `String` at the place of its opening quote.
pub proof fn lemma_str_token(
    s: Seq<char>,
    k: int,
    acc: Seq<char>,
    esc: bool,
    open: int,
    line: int,
    ls: int,
    path: Seq<char>,
)
    ensures
        scan_str_body(s, k, acc, esc, open, line, ls, path) matches Ok(l) ==> l.tok.kind
            == TokenKind::String && l.tok.line == line && l.tok.col == open - ls + 1,
    decreases s.len() - k,
{
    if 0 <= k < s.len() && s[k] != '\n' {
        if esc {
            if escaped(s[k]) is Some {
                lemma_str_token(s, k + 1, acc.push(escaped(s[k]).unwrap()), false, open, line, ls, path);
            }
        } else if s[k] == '"' {
        } else if s[k] == '\\' {
            lemma_str_token(s, k + 1, acc, true, open, line, ls, path);
        } else {
            lemma_str_token(s, k + 1, acc.push(s[k]), false, open, line, ls, path);
        }
    }
}

/// A token carries the line and column at which it starts. Unless it is a
/// string literal, its lexeme is the text that it takes in the source; a
/// string literal starts with a double quote.
pub proof fn lemma_token_faithful(s: Seq<char>, i: int, line: int, ls: int, path: Seq<char>)
    ensures
        scan_token(s, i, line, ls, path) matches Ok(l) ==> l.tok.line == line && l.tok.col == i
            - ls + 1 && (l.tok.kind != TokenKind::String ==> l.tok.lexeme == s.subrange(i, l.end))
            && (l.tok.kind == TokenKind::String ==> s[i] == '"'),
{
    reveal(scan_token);
    lemma_str_token(s, i + 1, Seq::empty(), false, i, line, ls, path);
}

/// The words of the language have their kinds: a token of a reserved kind
/// is one of the words of that kind, and no token is a sign of its own.
pub proof fn lemma_token_words(s: Seq<char>, i: int, line: int, ls: int, path: Seq<char>)
    ensures
        scan_token(s, i, line, ls, path) matches Ok(l) ==> {
            let w = l.tok.lexeme;
            &&& l.tok.kind == TokenKind::Keyword ==> w == "command"@ || w == "flag"@ || w == "pos"@
                || w == "named"@
            &&& l.tok.kind == TokenKind::Type ==> w == "int"@ || w == "float"@ || w == "uint"@ || w
                == "path"@ || w == "bool"@
            &&& l.tok.kind == TokenKind::Action ==> w == "show_version"@ || w == "show_help"@
            &&& l.tok.kind == TokenKind::Boolean ==> w == "true"@ || w == "false"@
            &&& l.tok.kind == TokenKind::Directive ==> w == "!version"@ || w == "!program"@
            &&& l.tok.kind != TokenKind::Minus && l.tok.kind != TokenKind::Plus
        },
{
    reveal(scan_token);
    lemma_str_token(s, i + 1, Seq::empty(), false, i, line, ls, path);
}

/// Every token stands at the line and column of its first character: its
/// line is one more than the number of newlines before it, and its column
/// one more than the number of characters between the start of its line and it.
pub proof fn lemma_token_places(
    s: Seq<char>,
    path: Seq<char>,
    toks: Seq<TokenView>,
    cuts: Seq<(int, int)>,
    upto: int,
)
    requires
        lexed(s, path, toks, cuts, upto),
    ensures
        forall|k: int|
            0 <= k < toks.len() ==> (#[trigger] toks[k]).line == line_of(s, cuts[k].0) && toks[k].col
                == cuts[k].0 - line_start(s, cuts[k].0) + 1,
{
    assert forall|k: int| 0 <= k < toks.len() implies (#[trigger] toks[k]).line == line_of(
        s,
        cuts[k].0,
    ) && toks[k].col == cuts[k].0 - line_start(s, cuts[k].0) + 1 by {
        let c = cuts[k];
        let t = toks[k];
        lemma_token_faithful(s, c.0, line_of(s, c.0), line_start(s, c.0), path);
    }
}

/// Line numbers do not go down along the text, and two indices in one line
/// share the start of that line.
pub proof fn lemma_lines_ordered(s: Seq<char>, a: int, b: int)
    requires
        0 <= a <= b,
    ensures
        line_of(s, a) <= line_of(s, b),
        line_of(s, a) == line_of(s, b) ==> line_start(s, a) == line_start(s, b),
    decreases b - a,
{
    if a < b {
        lemma_lines_ordered(s, a, b - 1);
    }
}

/// Tokens come in the order of the text: a later token stands in a later
/// line, or in the same line at a greater column.
pub proof fn lemma_places_ordered(
    s: Seq<char>,
    path: Seq<char>,
    toks: Seq<TokenView>,
    cuts: Seq<(int, int)>,
    upto: int,
    j: int,
    k: int,
)
    requires
        lexed(s, path, toks, cuts, upto),
        0 <= j < k < toks.len(),
    ensures
        cuts[j].1 <= cuts[k].0,
        toks[j].line < toks[k].line || (toks[j].line == toks[k].line && toks[j].col < toks[k].col),
    decreases k - j,
{
    lemma_token_places(s, path, toks, cuts, upto);
    let before = (cuts[k - 1], toks[k - 1]);
    let here = (cuts[k], toks[k]);
    let first = (cuts[j], toks[j]);
    lemma_skip_bounds(s, before.0.1, false);
    if j < k - 1 {
        lemma_places_ordered(s, path, toks, cuts, upto, j, k - 1);
    }
    lemma_lines_ordered(s, cuts[j].0, cuts[k].0);
}

/// Writing the tokens out again, each behind the white space and comments
/// that stand before it, gives back the text up to the end of the last token.
pub proof fn lemma_rejoined_prefix(
    s: Seq<char>,
    path: Seq<char>,
    toks: Seq<TokenView>,
    cuts: Seq<(int, int)>,
    upto: int,
    n: int,
)
    requires
        lexed(s, path, toks, cuts, upto),
        0 <= n <= toks.len(),
    ensures
        n > 0 ==> 0 <= cuts[n - 1].1 <= s.len(),
        rejoined(s, toks, cuts, n) == s.subrange(
            0,
            if n == 0 {
                0
            } else {
                cuts[n - 1].1
            },
        ),
    decreases n,
{
    if n > 0 {
        lemma_rejoined_prefix(s, path, toks, cuts, upto, n - 1);
        let from = if n == 1 {
            0
        } else {
            cuts[n - 2].1
        };
        let c = cuts[n - 1];
        let t = toks[n - 1];
        if n > 1 {
            let before = (cuts[n - 2], toks[n - 2]);
        }
        lemma_skip_bounds(s, from, false);
        assert(c.0 == skip(s, from, false));
        lemma_token_faithful(s, c.0, line_of(s, c.0), line_start(s, c.0), path);
        assert(spelling(s, toks[n - 1], c) == s.subrange(c.0, c.1));
        assert(s.subrange(0, from) + s.subrange(from, c.0) + s.subrange(c.0, c.1) =~= s.subrange(
            0,
            c.1,
        ));
    } else {
        assert(s.subrange(0, 0) =~= Seq::<char>::empty());
    }
}

/// The round trip: the tokens of a text, written out again with the white
/// space and comments that stand between them and behind the last of them,
/// give back the text.
pub proof fn lemma_round_trip(
    s: Seq<char>,
    path: Seq<char>,
    toks: Seq<TokenView>,
    cuts: Seq<(int, int)>,
    upto: int,
)
    requires
        lexed(s, path, toks, cuts, upto),
    ensures
        0 <= upto <= s.len(),
        rejoined(s, toks, cuts, toks.len() as int) + s.subrange(upto, s.len() as int) == s,
{
    lemma_rejoined_prefix(s, path, toks, cuts, upto, toks.len() as int);
    if toks.len() > 0 {
        let last = (cuts[toks.len() - 1], toks[toks.len() - 1]);
    }
    assert(s.subrange(0, upto) + s.subrange(upto, s.len() as int) =~= s);
}

/// The tokens `toks`, taking `s[cuts[k].0 .. cuts[k].1]` each, are faithful to
/// the text `s`: each carries the line and column of its first character,
/// they stand in the order of the text, and written out again with what
/// stands between and behind them they give back the text.
pub open spec fn faithful(s: Seq<char>, toks: Seq<TokenView>, cuts: Seq<(int, int)>) -> bool {
    &&& cuts.len() == toks.len()
    &&& forall|k: int|
        #![trigger cuts[k], toks[k]]
        0 <= k < toks.len() ==> toks[k].line == line_of(s, cuts[k].0) && toks[k].col == cuts[k].0
            - line_start(s, cuts[k].0) + 1
    &&& forall|j: int, k: int|
        #![trigger toks[j], toks[k]]
        0 <= j < k < toks.len() ==> toks[j].line < toks[k].line || (toks[j].line == toks[k].line
            && toks[j].col < toks[k].col)
    &&& rejoined(s, toks, cuts, toks.len() as int) + s.subrange(
        if cuts.len() == 0 {
            0
        } else {
            cuts.last().1
        },
        s.len() as int,
    ) == s
}

/// The tokens of a text are faithful to it.
pub proof fn lemma_tokens_faithful(s: Seq<char>, path: Seq<char>, toks: Seq<TokenView>)
    requires
        tokens_of(s, path, toks),
    ensures
        exists|cuts: Seq<(int, int)>| faithful(s, toks, cuts),
{
    let (cuts, upto) = choose|cuts: Seq<(int, int)>, upto: int|
        #![auto]
        lexed(s, path, toks, cuts, upto) && skip(s, upto, false) == s.len();
    lemma_token_places(s, path, toks, cuts, upto);
    lemma_round_trip(s, path, toks, cuts, upto);
    assert forall|j: int, k: int| 0 <= j < k < toks.len() implies toks[j].line < toks[k].line || (
    toks[j].line == toks[k].line && toks[j].col < toks[k].col) by {
        lemma_places_ordered(s, path, toks, cuts, upto, j, k);
    }
    assert(faithful(s, toks, cuts));
}

/// Two ways to cut one text into tokens agree on every token that both hold.
pub proof fn lemma_lexed_agree(
    s: Seq<char>,
    path: Seq<char>,
    toks1: Seq<TokenView>,
    cuts1: Seq<(int, int)>,
    upto1: int,
    toks2: Seq<TokenView>,
    cuts2: Seq<(int, int)>,
    upto2: int,
    k: int,
)
    requires
        lexed(s, path, toks1, cuts1, upto1),
        lexed(s, path, toks2, cuts2, upto2),
        0 <= k < toks1.len(),
        k < toks2.len(),
    ensures
        cuts1[k] == cuts2[k],
        toks1[k] == toks2[k],
    decreases k,
{
    let here1 = (cuts1[k], toks1[k]);
    let here2 = (cuts2[k], toks2[k]);
    if k > 0 {
        lemma_lexed_agree(s, path, toks1, cuts1, upto1, toks2, cuts2, upto2, k - 1);
    }
}

/// Where the next token would start behind the tokens cut so far.
pub open spec fn next_start(s: Seq<char>, upto: int) -> int {
    skip(s, upto, false)
}

/// Of two ways to cut one text into tokens, one that goes up to the end of
/// the text, or up to an error, holds no fewer tokens than the other.
pub proof fn lemma_lexed_longest(
    s: Seq<char>,
    path: Seq<char>,
    toks1: Seq<TokenView>,
    cuts1: Seq<(int, int)>,
    upto1: int,
    toks2: Seq<TokenView>,
    cuts2: Seq<(int, int)>,
    upto2: int,
)
    requires
        lexed(s, path, toks1, cuts1, upto1),
        lexed(s, path, toks2, cuts2, upto2),
        next_start(s, upto1) == s.len() || token_at(s, path, next_start(s, upto1)) is Err,
    ensures
        toks2.len() <= toks1.len(),
{
    if toks1.len() < toks2.len() {
        let n = toks1.len() as int;
        let further = (cuts2[n], toks2[n]);
        if n > 0 {
            lemma_lexed_agree(s, path, toks1, cuts1, upto1, toks2, cuts2, upto2, n - 1);
        }
        assert(cuts2[n].0 == next_start(s, upto1));
    }
}

/// A text has at most one sequence of tokens.
pub proof fn lemma_tokens_unique(s: Seq<char>, path: Seq<char>, a: Seq<TokenView>, b: Seq<TokenView>)
    requires
        tokens_of(s, path, a),
        tokens_of(s, path, b),
    ensures
        a == b,
{
    let (cuts1, upto1) = choose|cuts: Seq<(int, int)>, upto: int|
        #![auto]
        lexed(s, path, a, cuts, upto) && skip(s, upto, false) == s.len();
    let (cuts2, upto2) = choose|cuts: Seq<(int, int)>, upto: int|
        #![auto]
        lexed(s, path, b, cuts, upto) && skip(s, upto, false) == s.len();
    lemma_lexed_longest(s, path, a, cuts1, upto1, b, cuts2, upto2);
    lemma_lexed_longest(s, path, b, cuts2, upto2, a, cuts1, upto1);
    assert forall|k: int| 0 <= k < a.len() implies a[k] == b[k] by {
        lemma_lexed_agree(s, path, a, cuts1, upto1, b, cuts2, upto2, k);
    }
    assert(a =~= b);
}

/// A text that has a lexical error has no sequence of tokens, and no other
/// lexical error.
pub proof fn lemma_error_unique(
    s: Seq<char>,
    path: Seq<char>,
    e: SyntaxErrorView,
    other: SyntaxErrorView,
    toks: Seq<TokenView>,
)
    requires
        fails_with(s, path, e),
    ensures
        !tokens_of(s, path, toks),
        fails_with(s, path, other) ==> other == e,
{
    let (toks1, cuts1, upto1) = choose|toks: Seq<TokenView>, cuts: Seq<(int, int)>, upto: int|
        #![auto]
        lexed(s, path, toks, cuts, upto) && skip(s, upto, false) < s.len() && token_at(
            s,
            path,
            skip(s, upto, false),
        ) == Err::<Lexed, SyntaxErrorView>(e);
    if tokens_of(s, path, toks) {
        let (cuts2, upto2) = choose|cuts: Seq<(int, int)>, upto: int|
            #![auto]
            lexed(s, path, toks, cuts, upto) && skip(s, upto, false) == s.len();
        lemma_lexed_longest(s, path, toks1, cuts1, upto1, toks, cuts2, upto2);
        lemma_lexed_longest(s, path, toks, cuts2, upto2, toks1, cuts1, upto1);
        if toks.len() > 0 {
            lemma_lexed_agree(s, path, toks1, cuts1, upto1, toks, cuts2, upto2, toks.len() - 1);
        }
        assert(upto1 == upto2);
    }
    if fails_with(s, path, other) {
        let (toks2, cuts2, upto2) = choose|toks: Seq<TokenView>, cuts: Seq<(int, int)>, upto: int|
            #![auto]
            lexed(s, path, toks, cuts, upto) && skip(s, upto, false) < s.len() && token_at(
                s,
                path,
                skip(s, upto, false),
            ) == Err::<Lexed, SyntaxErrorView>(other);
        lemma_lexed_longest(s, path, toks1, cuts1, upto1, toks2, cuts2, upto2);
        lemma_lexed_longest(s, path, toks2, cuts2, upto2, toks1, cuts1, upto1);
        if toks1.len() > 0 {
            lemma_lexed_agree(s, path, toks1, cuts1, upto1, toks2, cuts2, upto2, toks1.len() - 1);
        }
        assert(upto1 == upto2);
    }
}

} // verus!
