use argol::common::errors::{ParseError, SyntaxError};
use argol::common::tokens::{Token, TokenKind};
use argol::common::util::CharExtensions;
use argol::tokenizer::{parse_number_inner, tokenize};

const FILE: &str = "args.argol";

fn lex(text: &str) -> Vec<Token> {
    match tokenize(text, FILE) {
        Ok(toks) => toks,
        Err(e) => panic!("expected tokens, got {:?}", e),
    }
}

fn kinds(tokens: &[Token]) -> Vec<TokenKind> {
    tokens.iter().map(|t| t.kind).collect()
}

fn lexemes(tokens: &[Token]) -> Vec<String> {
    tokens.iter().map(|t| t.lexeme.clone()).collect()
}

fn lex_error(text: &str) -> SyntaxError {
    match tokenize(text, FILE) {
        Err(ParseError::Syntax(e)) => e,
        other => panic!("expected a syntax error, got {:?}", other),
    }
}

fn one(text: &str) -> Token {
    let mut toks = lex(text);
    assert_eq!(toks.len(), 1, "tokens of {:?}: {:?}", text, toks);
    toks.remove(0)
}

#[test]
fn integer_literal() {
    let tok = one("123");
    assert_eq!(tok.kind, TokenKind::Int);
    assert_eq!(tok.lexeme, "123");
    assert_eq!((tok.line, tok.col), (1, 1));
}

#[test]
fn integer_with_sign_and_separator() {
    let tok = one("-1_000");
    assert_eq!(tok.kind, TokenKind::Int);
    assert_eq!(tok.lexeme, "-1_000");
}

#[test]
fn float_literal() {
    let tok = one("1.5");
    assert_eq!(tok.kind, TokenKind::Float);
    assert_eq!(tok.lexeme, "1.5");
}

#[test]
fn float_needs_digits_on_both_sides() {
    match lex_error("1.") {
        SyntaxError::InvalidStandaloneSymbol(loc, lexeme) => {
            assert_eq!((loc.line, loc.col), (1, 1));
            assert_eq!(lexeme, "1.");
        }
        other => panic!("unexpected error {:?}", other),
    }
    match lex_error(".5") {
        SyntaxError::InvalidStandaloneSymbol(loc, lexeme) => {
            assert_eq!((loc.line, loc.col), (1, 1));
            assert_eq!(lexeme, ".5");
        }
        other => panic!("unexpected error {:?}", other),
    }
    assert!(tokenize("x = 1. ;", FILE).is_err());
    assert!(tokenize("x = -.5;", FILE).is_err());
}

#[test]
fn extra_decimal_point() {
    match lex_error("1.2.3") {
        SyntaxError::ExtraDecimalPoint(loc, lexeme) => {
            assert_eq!(loc.path, FILE);
            assert_eq!((loc.line, loc.col), (1, 4));
            assert_eq!(lexeme, "1.2.3");
        }
        other => panic!("unexpected error {:?}", other),
    }
}

#[test]
fn missing_exponent() {
    match lex_error("1e") {
        SyntaxError::NoFloatExp(loc, lexeme) => {
            assert_eq!((loc.line, loc.col), (1, 2));
            assert_eq!(lexeme, "1e");
        }
        other => panic!("unexpected error {:?}", other),
    }
    assert!(matches!(lex_error("1e+"), SyntaxError::NoFloatExp(_, _)));
    assert!(matches!(lex_error("1ex"), SyntaxError::NoFloatExp(_, _)));
}

#[test]
fn illegal_exponent_characters() {
    match lex_error("1e5x") {
        SyntaxError::InvalidFloatExpChars(chars, loc, lexeme) => {
            assert_eq!(chars, "x");
            assert_eq!((loc.line, loc.col), (1, 4));
            assert_eq!(lexeme, "1e5x");
        }
        other => panic!("unexpected error {:?}", other),
    }
}

#[test]
fn exponent_makes_a_float() {
    for text in ["1e5", "1E5", "2.5e-3", "7e+10", "-3e2"] {
        let tok = one(text);
        assert_eq!(tok.kind, TokenKind::Float, "{}", text);
        assert_eq!(tok.lexeme, text);
    }
}

#[test]
fn two_signs_in_exponent() {
    match lex_error("1e+-5") {
        SyntaxError::InvalidNumberSign(loc, lexeme) => {
            assert_eq!((loc.line, loc.col), (1, 4));
            assert_eq!(lexeme, "1e+");
        }
        other => panic!("unexpected error {:?}", other),
    }
}

#[test]
fn multiple_signs() {
    match lex_error("++1") {
        SyntaxError::InvalidNumberSign(loc, lexeme) => {
            assert_eq!((loc.line, loc.col), (1, 1));
            assert_eq!(lexeme, "++");
        }
        other => panic!("unexpected error {:?}", other),
    }
}

#[test]
fn standalone_symbols() {
    for text in ["-", "+", ".", "-.", "+."] {
        match lex_error(text) {
            SyntaxError::InvalidStandaloneSymbol(loc, lexeme) => {
                assert_eq!((loc.line, loc.col), (1, 1));
                assert_eq!(lexeme, text);
            }
            other => panic!("unexpected error for {:?}: {:?}", text, other),
        }
    }
}

#[test]
fn exclusive_range() {
    let tok = one("1..5");
    assert_eq!(tok.kind, TokenKind::ExclusiveRange);
    assert_eq!(tok.lexeme, "1..5");
    assert_eq!((tok.line, tok.col), (1, 1));
}

#[test]
fn inclusive_range() {
    let tok = one("1..=5");
    assert_eq!(tok.kind, TokenKind::InclusiveRange);
    assert_eq!(tok.lexeme, "1..=5");
}

#[test]
fn open_ended_ranges() {
    for (text, kind) in [
        ("..5", TokenKind::ExclusiveRange),
        ("1..", TokenKind::ExclusiveRange),
        ("..", TokenKind::ExclusiveRange),
        ("..=5", TokenKind::InclusiveRange),
        ("-3..=", TokenKind::InclusiveRange),
        ("1..2.5", TokenKind::ExclusiveRange),
        ("-1..+1", TokenKind::ExclusiveRange),
    ] {
        let tok = one(text);
        assert_eq!(tok.kind, kind, "{}", text);
        assert_eq!(tok.lexeme, text);
    }
    let toks = lex("v = 1..;");
    assert_eq!(lexemes(&toks), vec!["v", "=", "1..", ";"]);
}

#[test]
fn invalid_ranges() {
    match lex_error("1...5") {
        SyntaxError::InvalidRange(loc, lexeme) => {
            assert_eq!((loc.line, loc.col), (1, 1));
            assert_eq!(lexeme, "1...5");
        }
        other => panic!("unexpected error {:?}", other),
    }
    assert!(matches!(lex_error("1.5..7"), SyntaxError::InvalidRange(_, _)));
}

#[test]
fn range_with_a_bad_side() {
    assert!(matches!(lex_error("1..2."), SyntaxError::InvalidStandaloneSymbol(_, _)));
    assert!(matches!(lex_error("1..-"), SyntaxError::InvalidStandaloneSymbol(_, _)));
    assert!(matches!(lex_error("1..2x"), SyntaxError::InvalidNumChars(_, _, _, _)));
}

#[test]
fn illegal_number_characters() {
    match lex_error("12abc;") {
        SyntaxError::InvalidNumChars(what, chars, loc, lexeme) => {
            assert_eq!(what, "Integer");
            assert_eq!(chars, "abc");
            assert_eq!((loc.line, loc.col), (1, 5));
            assert_eq!(lexeme, "12abc");
        }
        other => panic!("unexpected error {:?}", other),
    }
    match lex_error("  1.2x") {
        SyntaxError::InvalidNumChars(what, chars, loc, lexeme) => {
            assert_eq!(what, "Float");
            assert_eq!(chars, "x");
            assert_eq!((loc.line, loc.col), (1, 6));
            assert_eq!(lexeme, "1.2x");
        }
        other => panic!("unexpected error {:?}", other),
    }
}

#[test]
fn number_scan_that_reads_nothing() {
    let chars: Vec<char> = "1..;".chars().collect();
    match parse_number_inner(&chars, 3, 1, 0, FILE) {
        Err(ParseError::Syntax(SyntaxError::InvalidStandaloneSymbol(loc, lexeme))) => {
            assert_eq!(lexeme, "");
            assert_eq!((loc.line, loc.col), (1, 4));
        }
        other => panic!("unexpected result {:?}", other),
    }
    match parse_number_inner(&chars, 0, 1, 0, FILE) {
        Ok((tok, end)) => {
            assert_eq!(tok.lexeme, "1");
            assert_eq!(tok.kind, TokenKind::Int);
            assert_eq!(end, 1);
        }
        other => panic!("unexpected result {:?}", other),
    }
}

#[test]
fn structural_symbols() {
    let toks = lex("; = { } / , *");
    assert_eq!(
        kinds(&toks),
        vec![
            TokenKind::SemiColon,
            TokenKind::Eq,
            TokenKind::OpenBrace,
            TokenKind::CloseBrace,
            TokenKind::Alt,
            TokenKind::Comma,
            TokenKind::Wildcard,
        ]
    );
    assert_eq!(lexemes(&toks), vec![";", "=", "{", "}", "/", ",", "*"]);
    let cols: Vec<usize> = toks.iter().map(|t| t.col).collect();
    assert_eq!(cols, vec![1, 3, 5, 7, 9, 11, 13]);
}

#[test]
fn reserved_words() {
    for (text, kind) in [
        ("command", TokenKind::Keyword),
        ("pos", TokenKind::Keyword),
        ("named", TokenKind::Keyword),
        ("flag", TokenKind::Keyword),
        ("int", TokenKind::Type),
        ("float", TokenKind::Type),
        ("uint", TokenKind::Type),
        ("path", TokenKind::Type),
        ("bool", TokenKind::Type),
        ("show_help", TokenKind::Action),
        ("show_version", TokenKind::Action),
        ("true", TokenKind::Boolean),
        ("false", TokenKind::Boolean),
        ("!version", TokenKind::Directive),
        ("!program", TokenKind::Directive),
        ("verbose", TokenKind::Identifier),
        ("dry-run", TokenKind::Identifier),
        ("_x9", TokenKind::Identifier),
        ("Command", TokenKind::Identifier),
    ] {
        let tok = one(text);
        assert_eq!(tok.kind, kind, "{}", text);
        assert_eq!(tok.lexeme, text);
    }
}

#[test]
fn invalid_directive() {
    match lex_error("!name = 1;") {
        SyntaxError::InvalidDirective(loc, lexeme) => {
            assert_eq!((loc.line, loc.col), (1, 5));
            assert_eq!(lexeme, "!name");
        }
        other => panic!("unexpected error {:?}", other),
    }
    assert!(matches!(lex_error("!"), SyntaxError::InvalidDirective(_, _)));
}

#[test]
fn identifier_ending_with_a_dash() {
    match lex_error("\nabc- x") {
        SyntaxError::InvalidIdent(loc, lexeme) => {
            assert_eq!((loc.line, loc.col), (2, 4));
            assert_eq!(lexeme, "abc-");
        }
        other => panic!("unexpected error {:?}", other),
    }
}

#[test]
fn string_literal_with_escapes() {
    let tok = one(r#""a\tb\"c\\d\e\b""#);
    assert_eq!(tok.kind, TokenKind::String);
    assert_eq!(tok.lexeme, "a\tb\"c\\d\u{1b}\u{8}");
    assert_eq!((tok.line, tok.col), (1, 1));
    let toks = lex(r#"  "" "x y""#);
    assert_eq!(lexemes(&toks), vec!["", "x y"]);
    assert_eq!(toks[0].col, 3);
    assert_eq!(toks[1].col, 6);
}

#[test]
fn string_with_unknown_escape() {
    match lex_error(r#"v = "a\qb";"#) {
        SyntaxError::InvalidStrEsc(loc, ch) => {
            assert_eq!(ch, 'q');
            assert_eq!((loc.line, loc.col), (1, 7));
        }
        other => panic!("unexpected error {:?}", other),
    }
}

#[test]
fn unterminated_string() {
    match lex_error("v = \"abc\n\";") {
        SyntaxError::UnterminatedStr(loc, lexeme) => {
            assert_eq!(lexeme, "abc");
            assert_eq!((loc.line, loc.col), (1, 8));
        }
        other => panic!("unexpected error {:?}", other),
    }
}

#[test]
fn string_at_the_end_of_the_text() {
    let tok = one("\"abc");
    assert_eq!(tok.kind, TokenKind::String);
    assert_eq!(tok.lexeme, "abc");
}

#[test]
fn illegal_character() {
    match lex_error("a = 1;\n  @") {
        SyntaxError::InvalidChar(loc, ch) => {
            assert_eq!(ch, '@');
            assert_eq!(loc.path, FILE);
            assert_eq!((loc.line, loc.col), (2, 3));
        }
        other => panic!("unexpected error {:?}", other),
    }
}

#[test]
fn empty_and_blank_texts_have_no_tokens() {
    assert!(lex("").is_empty());
    assert!(lex("  \t\n\n # only a comment").is_empty());
    assert!(lex("# a\n# b\n").is_empty());
}

#[test]
fn comments_run_to_the_end_of_the_line() {
    let toks = lex("a # b c = \"\nd#e\n#f\n  g");
    assert_eq!(lexemes(&toks), vec!["a", "d", "g"]);
    let places: Vec<(usize, usize)> = toks.iter().map(|t| (t.line, t.col)).collect();
    assert_eq!(places, vec![(1, 1), (2, 1), (4, 3)]);
}

#[test]
fn lines_and_columns() {
    let text = "command run / r {\n\tdepth = 1..=5, 7;\n}\n";
    let toks = lex(text);
    let places: Vec<(usize, usize)> = toks.iter().map(|t| (t.line, t.col)).collect();
    assert_eq!(
        places,
        vec![
            (1, 1),
            (1, 9),
            (1, 13),
            (1, 15),
            (1, 17),
            (2, 2),
            (2, 8),
            (2, 10),
            (2, 15),
            (2, 17),
            (2, 18),
            (3, 1),
        ]
    );
}

#[test]
fn columns_count_characters_since_the_last_newline() {
    let text = "a  bb\n  \"x\\ty\"   12.5 # c\n\n..=3 *\n!program = \"é\" ;";
    let toks = lex(text);
    let lines: Vec<&str> = text.split('\n').collect();
    let mut last = (0, 0);
    for tok in &toks {
        assert!(tok.line >= 1 && tok.col >= 1);
        assert!((tok.line, tok.col) > last);
        last = (tok.line, tok.col);
        let line: Vec<char> = lines[tok.line - 1].chars().collect();
        let rest: String = line[tok.col - 1..].iter().collect();
        if tok.kind == TokenKind::String {
            assert!(rest.starts_with('"'));
        } else {
            assert!(rest.starts_with(&tok.lexeme), "{:?} at {:?}", tok, rest);
        }
    }
    assert_eq!(toks.len(), 10);
}

#[test]
fn lexemes_with_their_separators_give_back_the_text() {
    let text = "  named out/o {  # where\n\tkind = path ;\n  def = -1.5e3,2 ;}\n# end";
    let toks = lex(text);
    let chars: Vec<char> = text.chars().collect();
    let mut starts: Vec<usize> = vec![0];
    for (i, c) in chars.iter().enumerate() {
        if *c == '\n' {
            starts.push(i + 1);
        }
    }
    let mut rebuilt = String::new();
    let mut at = 0;
    for tok in &toks {
        let start = starts[tok.line - 1] + tok.col - 1;
        assert!(start >= at);
        let gap: String = chars[at..start].iter().collect();
        rebuilt.push_str(&gap);
        rebuilt.push_str(&tok.lexeme);
        at = start + tok.lexeme.chars().count();
    }
    let tail: String = chars[at..].iter().collect();
    rebuilt.push_str(&tail);
    assert_eq!(rebuilt, text);
    assert_eq!(
        lexemes(&toks),
        vec!["named", "out", "/", "o", "{", "kind", "=", "path", ";", "def", "=", "-1.5e3", ",", "2", ";", "}"]
    );
}

#[test]
fn a_sign_ends_the_digits_of_a_number() {
    let toks = lex("1-2");
    assert_eq!(lexemes(&toks), vec!["1", "-2"]);
    assert_eq!(kinds(&toks), vec![TokenKind::Int, TokenKind::Int]);
}

#[test]
fn character_classes() {
    assert!('+'.is_num_sign() && '-'.is_num_sign() && !'*'.is_num_sign());
    assert!('_'.is_num_char() && '0'.is_num_char() && '9'.is_num_char() && !'a'.is_num_char());
    for c in [' ', '\t', '\n', '\r', '#', ';', '{', '}', ',', '\u{a0}', '\u{3000}'] {
        assert!(c.is_other_char(), "{:?}", c);
    }
    for c in ['a', '.', '=', '/', '"', '\u{200b}'] {
        assert!(!c.is_other_char(), "{:?}", c);
    }
    for code in 0..0x3100u32 {
        if let Some(c) = char::from_u32(code) {
            assert_eq!(
                c.is_other_char(),
                c.is_whitespace() || "#;{},".contains(c),
                "{:?}",
                c
            );
        }
    }
}
