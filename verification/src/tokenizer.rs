//! The lexer: from the text of a source file to its tokens.

use crate::common::errors::{Loc, LocView, ParseError, ParseErrorView, SyntaxError, SyntaxErrorView};
use crate::common::text::{chars_of, is_word, string_of};
use crate::common::tokens::{token_views, Token, TokenKind};
use crate::common::util::{is_ident_char, is_letter, letter, CharExtensions};
use crate::lexical::{
    blank, body_start, fails_with, faithful, ident_end, lemma_line_bounds, lemma_same_line,
    lemma_tokens_faithful, lexed, line_end, line_of, line_start, nothing_read, one_line, scan_body,
    scan_exp, scan_ident, scan_number, scan_range_or_number, scan_str, scan_str_body, scan_symbol,
    scan_token, signs_end, skip, symbol_kind, tokens_of, word_kind, Body, Exponent, Lexed,
};
use vstd::prelude::*;

verus! {

/// What a scanner hands back, as a value of the grammar.
pub open spec fn outcome(r: Result<(Token, usize), ParseError>) -> Result<Lexed, ParseErrorView> {
    match r {
        Ok((t, end)) => Ok(Lexed { tok: t@, end: end as int }),
        Err(e) => Err(e@),
    }
}

/// A result of the grammar, its error taken as a `ParseError`.
pub open spec fn as_parse(r: Result<Lexed, SyntaxErrorView>) -> Result<Lexed, ParseErrorView> {
    match r {
        Ok(l) => Ok(l),
        Err(e) => Err(ParseErrorView::Syntax(e)),
    }
}

/// A scanner that succeeds reads at least one character, stays inside the
/// text, and does not cross a line's end.
pub open spec fn in_line(s: Seq<char>, i: int, r: Result<(Token, usize), ParseError>) -> bool {
    r matches Ok((_, end)) ==> i < end <= s.len() && one_line(s, i, end as int)
}

/// The place `line`:`col` in the file `path`.
pub fn loc_at(path: &str, line: usize, col: usize) -> (l: Loc)
    ensures
        l@ == (LocView { path: path@, line: line as int, col: col as int }),
{
    Loc { path: path.to_owned(), line, col }
}

/// Skips one blank character or one comment at `pos`, and returns the new
/// position with its line and the index at which that line starts.
pub fn skip_tokens(chars: &Vec<char>, pos: usize, line: usize, ls: usize) -> (r: (
    usize,
    usize,
    usize,
))
    requires
        pos < chars@.len() < usize::MAX,
        blank(chars@[pos as int]) || chars@[pos as int] == '#',
        line == line_of(chars@, pos as int),
        ls == line_start(chars@, pos as int),
    ensures
        r.0 == if blank(chars@[pos as int]) {
            pos + 1
        } else {
            line_end(chars@, pos + 1)
        },
        pos < r.0 <= chars@.len(),
        skip(chars@, r.0 as int, false) == skip(chars@, pos as int, false),
        r.1 == line_of(chars@, r.0 as int),
        r.2 == line_start(chars@, r.0 as int),
{
    proof {
        lemma_line_bounds(chars@, pos as int);
    }
    let ch: char = chars[pos];
    if ch == '\n' {
        (pos + 1, line + 1, pos + 1)
    } else if ch == ' ' || ch == '\t' {
        (pos + 1, line, ls)
    } else {
        let mut k: usize = pos + 1;
        while k < chars.len() && chars[k] != '\n'
            invariant
                pos < k <= chars@.len(),
                line_end(chars@, k as int) == line_end(chars@, pos + 1),
                skip(chars@, k as int, true) == skip(chars@, pos as int, false),
                one_line(chars@, pos as int, k as int),
            decreases chars@.len() - k,
        {
            k += 1;
        }
        proof {
            lemma_same_line(chars@, pos as int, k as int);
        }
        (k, line, ls)
    }
}

/// The token of the one character at `pos`.
pub fn parse_symbol(chars: &Vec<char>, pos: usize, line: usize, ls: usize) -> (tok: Token)
    requires
        ls <= pos < chars@.len() < usize::MAX,
        symbol_kind(chars@[pos as int]) is Some,
    ensures
        tok@ == scan_symbol(chars@, pos as int, line as int, ls as int).tok,
{
    let ch: char = chars[pos];
    let kind = if ch == ';' {
        TokenKind::SemiColon
    } else if ch == '=' {
        TokenKind::Eq
    } else if ch == '{' {
        TokenKind::OpenBrace
    } else if ch == '}' {
        TokenKind::CloseBrace
    } else if ch == '/' {
        TokenKind::Alt
    } else if ch == ',' {
        TokenKind::Comma
    } else if ch == '-' {
        TokenKind::Minus
    } else if ch == '+' {
        TokenKind::Plus
    } else {
        TokenKind::Wildcard
    };
    Token { kind, lexeme: string_of(chars, pos, pos + 1), line, col: pos - ls + 1 }
}

/// The string literal whose opening quote is at `pos`.
pub fn parse_str(chars: &Vec<char>, pos: usize, line: usize, ls: usize, path: &str) -> (r: Result<
    (Token, usize),
    ParseError,
>)
    requires
        ls <= pos < chars@.len() < usize::MAX,
        chars@[pos as int] == '"',
    ensures
        outcome(r) == as_parse(scan_str(chars@, pos as int, line as int, ls as int, path@)),
        in_line(chars@, pos as int, r),
{
    let mut lexeme: String = String::new();
    let mut in_esc: bool = false;
    let mut k: usize = pos + 1;
    while k < chars.len()
        invariant
            ls <= pos < k <= chars@.len() < usize::MAX,
            one_line(chars@, pos as int, k as int),
            scan_str_body(
                chars@,
                k as int,
                lexeme@,
                in_esc,
                pos as int,
                line as int,
                ls as int,
                path@,
            ) == scan_str(chars@, pos as int, line as int, ls as int, path@),
        decreases chars@.len() - k,
    {
        let ch: char = chars[k];
        if ch == '\n' {
            return Err(
                ParseError::Syntax(SyntaxError::UnterminatedStr(loc_at(path, line, k - ls), lexeme)),
            );
        }
        if in_esc {
            let esc_ch: char = if ch == '"' {
                '"'
            } else if ch == '\\' {
                '\\'
            } else if ch == 't' {
                '\t'
            } else if ch == 'b' {
                '\u{8}'
            } else if ch == 'e' {
                '\u{1b}'
            } else {
                return Err(
                    ParseError::Syntax(SyntaxError::InvalidStrEsc(loc_at(path, line, k - ls), ch)),
                );
            };
            lexeme.push(esc_ch);
            in_esc = false;
        } else if ch == '"' {
            return Ok((Token { kind: TokenKind::String, lexeme, line, col: pos - ls + 1 }, k + 1));
        } else if ch == '\\' {
            in_esc = true;
        } else {
            lexeme.push(ch);
        }
        k += 1;
    }
    Ok((Token { kind: TokenKind::String, lexeme, line, col: pos - ls + 1 }, k))
}

/// The kind of the reserved word `lexeme`, `None` where it is no reserved word.
pub fn reserved_kind(lexeme: &String) -> (r: Option<TokenKind>)
    ensures
        r == word_kind(lexeme@),
{
    if is_word(lexeme, "!version") || is_word(lexeme, "!program") {
        Some(TokenKind::Directive)
    } else if is_word(lexeme, "show_version") || is_word(lexeme, "show_help") {
        Some(TokenKind::Action)
    } else if is_word(lexeme, "true") || is_word(lexeme, "false") {
        Some(TokenKind::Boolean)
    } else if is_word(lexeme, "int") || is_word(lexeme, "float") || is_word(lexeme, "uint")
        || is_word(lexeme, "path") || is_word(lexeme, "bool") {
        Some(TokenKind::Type)
    } else if is_word(lexeme, "command") || is_word(lexeme, "flag") || is_word(lexeme, "pos")
        || is_word(lexeme, "named") {
        Some(TokenKind::Keyword)
    } else {
        None
    }
}

/// The reserved word, directive or identifier that starts at `pos`.
pub fn parse_ident(chars: &Vec<char>, pos: usize, line: usize, ls: usize, path: &str) -> (r: Result<
    (Token, usize),
    ParseError,
>)
    requires
        ls <= pos < chars@.len() < usize::MAX,
        letter(chars@[pos as int]) || chars@[pos as int] == '_' || chars@[pos as int] == '!',
    ensures
        outcome(r) == as_parse(scan_ident(chars@, pos as int, line as int, ls as int, path@)),
        in_line(chars@, pos as int, r),
{
    let is_directive: bool = chars[pos] == '!';
    let first: usize = if is_directive {
        pos + 1
    } else {
        pos
    };
    let mut k: usize = first;
    while k < chars.len() && is_ident_char(chars[k])
        invariant
            pos <= first <= k <= chars@.len(),
            first <= pos + 1,
            ident_end(chars@, k as int) == ident_end(chars@, first as int),
            one_line(chars@, pos as int, k as int),
        decreases chars@.len() - k,
    {
        k += 1;
    }
    assert(k > pos);
    let lexeme: String = string_of(chars, pos, k);
    if chars[k - 1] == '-' {
        return Err(ParseError::Syntax(SyntaxError::InvalidIdent(loc_at(path, line, k - ls), lexeme)));
    }
    match reserved_kind(&lexeme) {
        Some(kind) => Ok((Token { kind, lexeme, line, col: pos - ls + 1 }, k)),
        None => {
            if is_directive {
                Err(
                    ParseError::Syntax(
                        SyntaxError::InvalidDirective(loc_at(path, line, k - ls), lexeme),
                    ),
                )
            } else {
                Ok((Token { kind: TokenKind::Identifier, lexeme, line, col: pos - ls + 1 }, k))
            }
        },
    }
}

/// The state of the scan of a number's digits, from the scanner's variables.
pub open spec fn body_of(
    end: int,
    is_float: bool,
    digit_found: bool,
    lead_digit: bool,
    trail_digit: bool,
    extra_dot: Option<usize>,
    invalid_range: bool,
    unrec: Seq<char>,
) -> Body {
    Body {
        end,
        is_float,
        digit_found,
        lead_digit,
        trail_digit,
        extra_dot: match extra_dot {
            Some(k) => k as int,
            None => -1,
        },
        invalid_range,
        unrec,
    }
}

/// Whether `e` says that the scan of a number found nothing to read.
pub fn is_nothing(e: &ParseError) -> (r: bool)
    ensures
        r == (e@ matches ParseErrorView::Syntax(SyntaxErrorView::InvalidStandaloneSymbol(_, lexeme))
            && lexeme.len() == 0),
{
    match e {
        ParseError::Syntax(SyntaxError::InvalidStandaloneSymbol(_, s)) => s.as_str().is_empty(),
        _ => false,
    }
}

/// The number that starts at `pos`: an integer or a float.
pub fn parse_number_inner(
    chars: &Vec<char>,
    pos: usize,
    line: usize,
    ls: usize,
    path: &str,
) -> (r: Result<(Token, usize), ParseError>)
    requires
        ls <= pos <= chars@.len() < usize::MAX,
    ensures
        outcome(r) == as_parse(scan_number(chars@, pos as int, line as int, ls as int, path@)),
        in_line(chars@, pos as int, r),
{
    let n: usize = chars.len();
    let mut k: usize = pos;
    while k < n && chars[k].is_num_sign()
        invariant
            n == chars@.len(),
            pos <= k <= n,
            signs_end(chars@, k as int) == signs_end(chars@, pos as int),
            one_line(chars@, pos as int, k as int),
        decreases n - k,
    {
        k += 1;
    }
    let digits: usize = k;
    if digits - pos > 1 {
        return Err(
            ParseError::Syntax(
                SyntaxError::InvalidNumberSign(
                    loc_at(path, line, pos - ls + 1),
                    string_of(chars, pos, digits),
                ),
            ),
        );
    }
    let mut is_float: bool = false;
    let mut digit_found: bool = false;
    let mut lead_digit: bool = false;
    let mut trail_digit: bool = false;
    let mut extra_dot: Option<usize> = None;
    let mut invalid_range: bool = false;
    let mut unrec_c: String = String::new();
    let mut done: bool = false;
    let ghost b = scan_body(chars@, digits as int, body_start());
    while !done
        invariant
            n == chars@.len(),
            n < usize::MAX,
            pos <= digits <= k <= n,
            one_line(chars@, pos as int, k as int),
            extra_dot matches Some(x) ==> pos <= x < k,
            digit_found ==> pos < k,
            !done ==> scan_body(
                chars@,
                k as int,
                body_of(
                    0,
                    is_float,
                    digit_found,
                    lead_digit,
                    trail_digit,
                    extra_dot,
                    invalid_range,
                    unrec_c@,
                ),
            ) == b,
            done ==> body_of(
                k as int,
                is_float,
                digit_found,
                lead_digit,
                trail_digit,
                extra_dot,
                invalid_range,
                unrec_c@,
            ) == b,
        decreases
                n - k + if done {
                    0int
                } else {
                    1int
                },
    {
        if k >= n {
            done = true;
        } else {
            let d: char = chars[k];
            if d.is_num_char() {
                digit_found = true;
                lead_digit = lead_digit || !is_float;
                trail_digit = true;
                k += 1;
            } else if d == '.' {
                let next_dot: bool = k + 1 < n && chars[k + 1] == '.';
                let third_dot: bool = k + 2 < n && chars[k + 2] == '.';
                if next_dot && !is_float && !third_dot {
                    done = true;
                } else {
                    if is_float {
                        extra_dot = Some(k);
                    }
                    invalid_range = invalid_range || next_dot;
                    is_float = true;
                    trail_digit = false;
                    k += 1;
                }
            } else if d.is_other_char() || d.is_num_sign() || d == 'e' || d == 'E' {
                done = true;
            } else {
                unrec_c.push(d);
                trail_digit = false;
                k += 1;
            }
        }
    }
    let body_end: usize = k;
    if !unrec_c.as_str().is_empty() {
        let what: String = if is_float {
            "Float".to_owned()
        } else {
            "Integer".to_owned()
        };
        return Err(
            ParseError::Syntax(
                SyntaxError::InvalidNumChars(
                    what,
                    unrec_c,
                    loc_at(path, line, body_end - ls),
                    string_of(chars, pos, body_end),
                ),
            ),
        );
    }
    if invalid_range {
        return Err(
            ParseError::Syntax(
                SyntaxError::InvalidRange(
                    loc_at(path, line, pos - ls + 1),
                    string_of(chars, pos, body_end),
                ),
            ),
        );
    }
    if !digit_found || (is_float && extra_dot.is_none() && !(lead_digit && trail_digit)) {
        return Err(
            ParseError::Syntax(
                SyntaxError::InvalidStandaloneSymbol(
                    loc_at(path, line, pos - ls + 1),
                    string_of(chars, pos, body_end),
                ),
            ),
        );
    }
    if k < n && (chars[k] == 'e' || chars[k] == 'E') {
        is_float = true;
        k += 1;
        let signed: bool = k < n && chars[k].is_num_sign();
        if signed {
            k += 1;
            if k < n && chars[k].is_num_sign() {
                return Err(
                    ParseError::Syntax(
                        SyntaxError::InvalidNumberSign(
                            loc_at(path, line, k - ls + 1),
                            string_of(chars, pos, k),
                        ),
                    ),
                );
            }
        }
        let ghost from = k as int;
        let ghost x = scan_exp(
            chars@,
            from,
            Exponent { end: 0, digit_found: false, unrec: Seq::empty() },
        );
        let mut digit_in_exp: bool = false;
        let mut unrec_x: String = String::new();
        let mut stop: bool = false;
        while !stop
            invariant
                n == chars@.len(),
                pos < k <= n,
                one_line(chars@, pos as int, k as int),
                !stop ==> scan_exp(
                    chars@,
                    k as int,
                    Exponent { end: 0, digit_found: digit_in_exp, unrec: unrec_x@ },
                ) == x,
                stop ==> (Exponent { end: k as int, digit_found: digit_in_exp, unrec: unrec_x@ })
                    == x,
            decreases
                    n - k + if stop {
                        0int
                    } else {
                        1int
                    },
        {
            if k >= n {
                stop = true;
            } else {
                let c: char = chars[k];
                if c.is_other_char() {
                    stop = true;
                } else if c.is_num_char() {
                    digit_in_exp = true;
                    k += 1;
                } else {
                    unrec_x.push(c);
                    k += 1;
                }
            }
        }
        if !digit_in_exp {
            return Err(
                ParseError::Syntax(
                    SyntaxError::NoFloatExp(loc_at(path, line, k - ls), string_of(chars, pos, k)),
                ),
            );
        }
        if !unrec_x.as_str().is_empty() {
            return Err(
                ParseError::Syntax(
                    SyntaxError::InvalidFloatExpChars(
                        unrec_x,
                        loc_at(path, line, k - ls),
                        string_of(chars, pos, k),
                    ),
                ),
            );
        }
    }
    match extra_dot {
        Some(x) => Err(
            ParseError::Syntax(
                SyntaxError::ExtraDecimalPoint(
                    loc_at(path, line, x - ls + 1),
                    string_of(chars, pos, k),
                ),
            ),
        ),
        None => Ok(
            (
                Token {
                    kind: if is_float {
                        TokenKind::Float
                    } else {
                        TokenKind::Int
                    },
                    lexeme: string_of(chars, pos, k),
                    line,
                    col: pos - ls + 1,
                },
                k,
            ),
        ),
    }
}

/// The number or range that starts at `pos`.
pub fn parse_range_or_number(
    chars: &Vec<char>,
    pos: usize,
    line: usize,
    ls: usize,
    path: &str,
) -> (r: Result<(Token, usize), ParseError>)
    requires
        ls <= pos < chars@.len() < usize::MAX,
    ensures
        outcome(r) == as_parse(
            scan_range_or_number(chars@, pos as int, line as int, ls as int, path@),
        ),
        in_line(chars@, pos as int, r),
{
    let n: usize = chars.len();
    let first = parse_number_inner(chars, pos, line, ls, path);
    let mid: usize = match &first {
        Ok((_, end)) => *end,
        Err(e) => {
            if !is_nothing(e) {
                return first;
            }
            pos
        },
    };
    if mid + 1 < n && chars[mid] == '.' && chars[mid + 1] == '.' {
        let inclusive: bool = mid + 2 < n && chars[mid + 2] == '=';
        let from: usize = if inclusive {
            mid + 3
        } else {
            mid + 2
        };
        let second = parse_number_inner(chars, from, line, ls, path);
        let end: usize = match &second {
            Ok((_, end)) => *end,
            Err(e) => {
                if !is_nothing(e) {
                    return second;
                }
                from
            },
        };
        Ok(
            (
                Token {
                    kind: if inclusive {
                        TokenKind::InclusiveRange
                    } else {
                        TokenKind::ExclusiveRange
                    },
                    lexeme: string_of(chars, pos, end),
                    line,
                    col: pos - ls + 1,
                },
                end,
            ),
        )
    } else {
        first
    }
}

/// The token that starts at `pos`, where neither a blank nor a comment starts.
pub fn next_token(chars: &Vec<char>, pos: usize, line: usize, ls: usize, path: &str) -> (r: Result<
    (Token, usize),
    ParseError,
>)
    requires
        ls <= pos < chars@.len() < usize::MAX,
    ensures
        outcome(r) == as_parse(scan_token(chars@, pos as int, line as int, ls as int, path@)),
        in_line(chars@, pos as int, r),
{
    reveal(scan_token);
    let ch: char = chars[pos];
    if ch == ';' || ch == '=' || ch == '{' || ch == '}' || ch == '/' || ch == ',' || ch == '*' {
        Ok((parse_symbol(chars, pos, line, ls), pos + 1))
    } else if is_letter(ch) || ch == '_' || ch == '!' {
        parse_ident(chars, pos, line, ls, path)
    } else if ch == '-' || ch == '+' || ch == '.' || ('0' <= ch && ch <= '9') {
        parse_range_or_number(chars, pos, line, ls, path)
    } else if ch == '"' {
        parse_str(chars, pos, line, ls, path)
    } else {
        Err(ParseError::Syntax(SyntaxError::InvalidChar(loc_at(path, line, pos - ls + 1), ch)))
    }
}

/// The tokens of the source text `content`, in order, or its first lexical
/// error. `path` names the file in the error's place. The tokens are faithful
/// to the text: each carries the line and column of its first character, and
/// written out again with what stands between them they give back the text.
pub fn tokenize(content: &str, path: &str) -> (r: Result<Vec<Token>, ParseError>)
    requires
        content@.len() < usize::MAX,
    ensures
        match r {
            Ok(toks) => tokens_of(content@, path@, token_views(toks@)),
            Err(e) => e@ matches ParseErrorView::Syntax(x) && fails_with(content@, path@, x),
        },
        r matches Ok(toks) ==> exists|cuts: Seq<(int, int)>|
            faithful(content@, token_views(toks@), cuts),
{
    let chars: Vec<char> = chars_of(content);
    let n: usize = chars.len();
    let mut tokens: Vec<Token> = Vec::new();
    let mut pos: usize = 0;
    let mut line: usize = 1;
    let mut ls: usize = 0;
    let ghost mut cuts: Seq<(int, int)> = Seq::empty();
    let ghost mut upto: int = 0;
    while pos < n
        invariant
            chars@ == content@,
            n == chars@.len(),
            n < usize::MAX,
            ls <= pos <= n,
            line == line_of(chars@, pos as int),
            ls == line_start(chars@, pos as int),
            lexed(chars@, path@, token_views(tokens@), cuts, upto),
            0 <= upto <= pos,
            skip(chars@, upto, false) == skip(chars@, pos as int, false),
        decreases n - pos,
    {
        let ch: char = chars[pos];
        if ch == '#' || ch == '\t' || ch == '\n' || ch == ' ' {
            let next = skip_tokens(&chars, pos, line, ls);
            pos = next.0;
            line = next.1;
            ls = next.2;
            proof {
                lemma_line_bounds(chars@, pos as int);
            }
        } else {
            let scanned = next_token(&chars, pos, line, ls, path);
            assert(skip(chars@, pos as int, false) == pos);
            match scanned {
                Ok((tok, end)) => {
                    proof {
                        lemma_same_line(chars@, pos as int, end as int);
                        let ghost before = token_views(tokens@);
                        let ghost after = token_views(tokens@.push(tok));
                        assert(after =~= before.push(tok@));
                        cuts = cuts.push((pos as int, end as int));
                        upto = end as int;
                    }
                    tokens.push(tok);
                    pos = end;
                },
                Err(e) => {
                    return Err(e);
                },
            }
        }
    }
    proof {
        lemma_tokens_faithful(content@, path@, token_views(tokens@));
    }
    Ok(tokens)
}

} // verus!
