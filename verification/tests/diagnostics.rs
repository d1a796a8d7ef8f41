use argol::common::errors::{
    fmt_loc, fmt_msg, fmt_semantic_err, fmt_semantic_tip, fmt_syntax_err, Loc, ParseError,
    SemanticError, SyntaxError, Tip,
};
use argol::common::style::{styled_text, Tint, Weight};
use argol::common::text::{chars_of, decimal, is_word, string_of};
use argol::common::tokens::{
    fmt_assignment_kinds, is_assignment_kind, Token, TokenKind,
};
use argol::parser::parse;

fn at(line: usize, col: usize) -> Loc {
    Loc { path: "a.argol".to_string(), line, col }
}

const ALL_KINDS: [TokenKind; 20] = [
    TokenKind::ExclusiveRange,
    TokenKind::InclusiveRange,
    TokenKind::Minus,
    TokenKind::Plus,
    TokenKind::SemiColon,
    TokenKind::Action,
    TokenKind::Int,
    TokenKind::Directive,
    TokenKind::Float,
    TokenKind::Comma,
    TokenKind::OpenBrace,
    TokenKind::CloseBrace,
    TokenKind::Alt,
    TokenKind::Eq,
    TokenKind::Keyword,
    TokenKind::Boolean,
    TokenKind::Wildcard,
    TokenKind::Type,
    TokenKind::String,
    TokenKind::Identifier,
];

#[test]
fn decimal_digits() {
    assert_eq!(decimal(0), "0");
    assert_eq!(decimal(7), "7");
    assert_eq!(decimal(10), "10");
    assert_eq!(decimal(4096), "4096");
    assert_eq!(decimal(usize::MAX), usize::MAX.to_string());
}

#[test]
fn characters_and_strings() {
    let chars = chars_of("a\u{e9}\u{2937}z");
    assert_eq!(chars, vec!['a', '\u{e9}', '\u{2937}', 'z']);
    assert_eq!(string_of(&chars, 1, 3), "\u{e9}\u{2937}");
    assert_eq!(string_of(&chars, 2, 2), "");
    assert!(chars_of("").is_empty());
    assert!(is_word(&"flag".to_string(), "flag"));
    assert!(!is_word(&"flag".to_string(), "flags"));
}

#[test]
fn place_in_a_file() {
    assert_eq!(fmt_loc(3, 14, "dir/a.argol", false), "(3:14) in `dir/a.argol`");
    assert_eq!(fmt_loc(0, 0, "", false), "(0:0) in ``");
}

#[test]
fn two_line_layout() {
    assert_eq!(
        fmt_msg("[note]", "text".to_string(), &at(1, 2), true, false),
        "[note] (1:2) in `a.argol`\n \u{2937} text"
    );
    assert_eq!(
        fmt_syntax_err("m".to_string(), &at(1, 2), false),
        "[syntax error] (1:2) in `a.argol`\n \u{2937} m"
    );
    assert_eq!(
        fmt_semantic_err("m".to_string(), &at(10, 20), false),
        "[semantic error] (10:20) in `a.argol`\n \u{2937} m"
    );
    assert_eq!(
        fmt_semantic_tip("m".to_string(), &at(1, 2), false),
        "[semantic tip] (1:2) in `a.argol`\n \u{2937} m"
    );
}

#[test]
fn syntax_error_descriptions() {
    let s = |t: &str| t.to_string();
    let cases: Vec<(SyntaxError, &str)> = vec![
        (SyntaxError::InvalidChar(at(1, 1), '@'), "Illegal character -> @"),
        (SyntaxError::InvalidDirective(at(1, 1), s("!x")), "Invalid directive -> !x"),
        (SyntaxError::InvalidRange(at(1, 1), s("1...2")), "Invalid range syntax -> 1...2"),
        (SyntaxError::InvalidStrEsc(at(1, 1), 'q'), "Invalid string escape sequence -> \\q"),
        (
            SyntaxError::InvalidIdent(at(1, 1), s("a-")),
            "Identifier cannot start or end with - -> a-",
        ),
        (
            SyntaxError::ExtraDecimalPoint(at(1, 1), s("1.2.3")),
            "Float literal cannot contain > 1 decimal point -> 1.2.3",
        ),
        (
            SyntaxError::InvalidFloatExpChars(s("xy"), at(1, 1), s("1e5xy")),
            "Float exponent contains illegal character(s): x, y -> 1e5xy",
        ),
        (
            SyntaxError::InvalidNumChars(s("Integer"), s("abc"), at(1, 1), s("1abc")),
            "Integer contains illegal character(s): a, b, c -> 1abc",
        ),
        (
            SyntaxError::InvalidNumChars(s("Float"), s("z"), at(1, 1), s("1.z")),
            "Float contains illegal character(s): z -> 1.z",
        ),
        (
            SyntaxError::UnterminatedStr(at(1, 1), s("abc")),
            "Unterminated string literal -> \"abc",
        ),
        (SyntaxError::UnexpectedToken(at(1, 1), s("as given")), "as given"),
        (SyntaxError::NoToken(at(1, 1), s("nothing")), "nothing"),
        (SyntaxError::NoFloatExp(at(1, 1), s("1e")), "Missing float exponent -> 1e"),
        (SyntaxError::InvalidNumberSign(at(1, 1), s("++")), "Multiple signs found -> ++"),
        (
            SyntaxError::InvalidStandaloneSymbol(at(1, 1), s("-.")),
            "Invalid standalone symbol(s) -> -.",
        ),
    ];
    for (error, text) in cases {
        assert_eq!(error.message(false), text);
        assert_eq!(
            error.render(false),
            format!("[syntax error] (1:1) in `a.argol`\n \u{2937} {}", text)
        );
        assert_eq!((error.loc().line, error.loc().col), (1, 1));
    }
}

#[test]
fn semantic_error_descriptions() {
    let s = |t: &str| t.to_string();
    let cases: Vec<(SemanticError, &str)> = vec![
        (
            SemanticError::ExtraShortName(at(2, 3), vec![s("a"), s("b"), s("c")]),
            "Argument can only have one short name: 3 -> a / b / c",
        ),
        (
            SemanticError::DuplicateName(at(2, 3), vec![s("verbose")]),
            "Duplicate name(s) found (1) for argument -> verbose",
        ),
        (
            SemanticError::CannotNest(at(2, 3), s("flag")),
            "flag blocks cannot contain nested blocks (only command)",
        ),
        (
            SemanticError::EmptyStatement(at(2, 3), s("count")),
            "Statement has no value -> count",
        ),
        (SemanticError::DiffOptionTypes(at(2, 3), s("as given")), "as given"),
    ];
    for (error, text) in cases {
        assert_eq!(error.message(false), text);
        assert_eq!(
            error.render(false),
            format!("[semantic error] (2:3) in `a.argol`\n \u{2937} {}", text)
        );
        assert_eq!(
            ParseError::Semantic(error).render(false),
            format!("[semantic error] (2:3) in `a.argol`\n \u{2937} {}", text)
        );
    }
    assert_eq!(
        ParseError::Syntax(SyntaxError::InvalidChar(at(4, 5), '$')).render(false),
        "[syntax error] (4:5) in `a.argol`\n \u{2937} Illegal character -> $"
    );
}

#[test]
fn tip_text() {
    let tip = Tip { loc: at(7, 1), msg: "Redundant argument: empty block".to_string() };
    assert_eq!(
        tip.render(false),
        "[semantic tip] (7:1) in `a.argol`\n \u{2937} Redundant argument: empty block"
    );
}

#[test]
fn error_of_a_parse_as_text() {
    let error = parse("pos x {\n  flag y {} }", "b.argol", false).unwrap_err();
    assert_eq!(
        error.render(false),
        "[semantic error] (2:3) in `b.argol`\n \u{2937} flag blocks cannot contain nested blocks (only command)"
    );
}

#[test]
fn styling_follows_the_terminal_setting() {
    colored::control::set_override(true);
    assert_eq!(styled_text("x", Some(Tint::Yellow), Weight::Bold, true), "\u{1b}[1;33mx\u{1b}[0m");
    assert_eq!(
        styled_text("x", Some(Tint::BrightYellow), Weight::Dimmed, true),
        "\u{1b}[2;93mx\u{1b}[0m"
    );
    assert_eq!(styled_text("x", None, Weight::Bold, true), "\u{1b}[1mx\u{1b}[0m");
    assert_eq!(styled_text("x", Some(Tint::Blue), Weight::Normal, true), "\u{1b}[34mx\u{1b}[0m");
    assert_eq!(styled_text("x", Some(Tint::Blue), Weight::Bold, false), "x");
    assert_eq!(
        fmt_loc(1, 2, "p", true),
        "\u{1b}[1;33m(1:2)\u{1b}[0m \u{1b}[2;93min `p`\u{1b}[0m"
    );
    let error = SyntaxError::InvalidChar(at(1, 2), '@');
    assert_eq!(
        error.render(true),
        "\u{1b}[1;31m[syntax error]\u{1b}[0m \u{1b}[1;33m(1:2)\u{1b}[0m \u{1b}[2;93min `a.argol`\u{1b}[0m\n \u{1b}[31m\u{2937}\u{1b}[0m Illegal character \u{1b}[1m->\u{1b}[0m \u{1b}[31m@\u{1b}[0m"
    );
    let tok = Token { kind: TokenKind::String, lexeme: "s".to_string(), line: 1, col: 1 };
    assert_eq!(tok.render(true), "\u{1b}[32m\"s\"\u{1b}[0m");
    assert_eq!(TokenKind::Eq.as_str(true), "equal sign \u{1b}[33m=\u{1b}[0m");
    assert_eq!(TokenKind::Boolean.as_str(true), "\u{1b}[91mtrue\u{1b}[0m/\u{1b}[91mfalse\u{1b}[0m");
    assert_eq!(TokenKind::Keyword.as_str(true), "keyword");
    assert_eq!(
        TokenKind::Directive.help(true),
        "directive:           \u{1b}[34m!version\u{1b}[0m/\u{1b}[34m!program\u{1b}[0m"
    );
    assert_eq!(TokenKind::Comma.help(true), TokenKind::Comma.help(false));
    match parse("flag a { x 1; }", "a.argol", true) {
        Err(ParseError::Syntax(SyntaxError::UnexpectedToken(loc, msg))) => {
            assert_eq!((loc.line, loc.col), (1, 12));
            assert_eq!(
                msg,
                "Expected equal sign \u{1b}[33m=\u{1b}[0m after identifer; next token is integer"
            );
        }
        other => panic!("unexpected result {:?}", other),
    }
    match parse("x = 1;", "a.argol", true) {
        Err(ParseError::Syntax(SyntaxError::UnexpectedToken(loc, msg))) => {
            assert_eq!((loc.line, loc.col), (1, 1));
            assert_eq!(
                msg,
                "Expected directive or keyword, but got identifer: \u{1b}[34mx\u{1b}[0m"
            );
        }
        other => panic!("unexpected result {:?}", other),
    }
    colored::control::set_override(false);
    assert_eq!(
        parse("x = 1;", "a.argol", true).unwrap_err().render(true),
        parse("x = 1;", "a.argol", false).unwrap_err().render(false)
    );
    assert_eq!(styled_text("x", Some(Tint::Yellow), Weight::Bold, true), "x");
    assert_eq!(error.render(true), error.render(false));
    colored::control::unset_override();
}

#[test]
fn kind_names() {
    let names: Vec<String> = ALL_KINDS.iter().map(|k| k.as_str(false)).collect();
    assert_eq!(
        names,
        vec![
            "exclusive range ..",
            "inclusive range ..=",
            "minus -",
            "plus +",
            "semicolon ;",
            "action",
            "integer",
            "directive",
            "float",
            "comma ,",
            "open brace {",
            "close brace }",
            "alternative /",
            "equal sign =",
            "keyword",
            "true/false",
            "wildcard *",
            "type",
            "string",
            "identifer",
        ]
    );
}

#[test]
fn kind_help_lines() {
    assert_eq!(TokenKind::ExclusiveRange.help(false), "exclusive range:     ..");
    assert_eq!(TokenKind::Keyword.help(false), "keyword:             command / pos / named / flag");
    assert_eq!(TokenKind::String.help(false), "string:              \"\"");
    assert_eq!(TokenKind::Identifier.help(false), "identifier:          ");
    assert_eq!(
        TokenKind::Float.help(false),
        "float:               [+/-][0-9 ...].[0-9 ...][e<[+/-]<integer>]"
    );
    for kind in ALL_KINDS {
        let help = kind.help(false);
        let label: String = help.chars().take(21).collect();
        assert_eq!(label.len(), 21);
        assert!(label.ends_with(' '));
        assert!(label.trim_end().ends_with(':'));
    }
}

#[test]
fn help_on_value_kinds() {
    let expected = [
        TokenKind::String,
        TokenKind::Boolean,
        TokenKind::Float,
        TokenKind::Int,
        TokenKind::ExclusiveRange,
        TokenKind::InclusiveRange,
        TokenKind::Wildcard,
        TokenKind::Type,
        TokenKind::Action,
    ]
    .iter()
    .map(|k| format!("\n     - {}", k.help(false)))
    .collect::<String>();
    assert_eq!(fmt_assignment_kinds(false), expected);
    assert!(fmt_assignment_kinds(false).starts_with("\n     - string:              \"\"\n     - boolean:"));
}

#[test]
fn value_kinds() {
    let values: Vec<TokenKind> =
        ALL_KINDS.iter().copied().filter(|k| is_assignment_kind(k)).collect();
    assert_eq!(
        values,
        vec![
            TokenKind::ExclusiveRange,
            TokenKind::InclusiveRange,
            TokenKind::Action,
            TokenKind::Int,
            TokenKind::Float,
            TokenKind::Boolean,
            TokenKind::Wildcard,
            TokenKind::Type,
            TokenKind::String,
        ]
    );
}

#[test]
fn token_width_and_text() {
    let string = Token { kind: TokenKind::String, lexeme: "ab".to_string(), line: 1, col: 1 };
    assert_eq!(string.len(), 4);
    assert_eq!(string.text(), "\"ab\"");
    assert_eq!(string.render(false), "\"ab\"");
    let empty = Token { kind: TokenKind::String, lexeme: String::new(), line: 1, col: 1 };
    assert_eq!(empty.len(), 2);
    let ident = Token { kind: TokenKind::Identifier, lexeme: "name".to_string(), line: 1, col: 1 };
    assert_eq!(ident.len(), 4);
    assert_eq!(ident.text(), "name");
    let copy = ident.clone();
    assert_eq!((copy.kind, copy.lexeme.as_str(), copy.line, copy.col), (TokenKind::Identifier, "name", 1, 1));
}
