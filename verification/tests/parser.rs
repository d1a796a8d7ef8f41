use argol::ast::{Assignment, Block};
use argol::common::errors::{ParseError, SemanticError, SyntaxError, Tip};
use argol::common::tokens::TokenKind;
use argol::parser::{parse, Parser};
use argol::tokenizer::tokenize;

const FILE: &str = "cli.argol";

fn tree(text: &str) -> (Block, Vec<Tip>) {
    match parse(text, FILE, false) {
        Ok(r) => r,
        Err(e) => panic!("expected a tree, got {:?}", e),
    }
}

fn failure(text: &str) -> ParseError {
    match parse(text, FILE, false) {
        Err(e) => e,
        Ok((root, _)) => panic!("expected an error, got {:?}", root),
    }
}

fn check_statement(s: &Assignment, key: &str, value: &str, kind: TokenKind, ident_kind: TokenKind) {
    assert_eq!(s.key, key);
    assert_eq!(s.value, value);
    assert_eq!(s.kind, kind);
    assert_eq!(s.ident_kind, ident_kind);
}

#[test]
fn duplicate_name() {
    match failure("flag a / a { x = 1; }") {
        ParseError::Semantic(SemanticError::DuplicateName(loc, names)) => {
            assert_eq!(names, vec!["a"]);
            assert_eq!(loc.path, FILE);
            assert_eq!((loc.line, loc.col), (1, 10));
        }
        other => panic!("unexpected error {:?}", other),
    }
    match failure("flag verbose / v / verbose / loud / loud / verbose { }") {
        ParseError::Semantic(SemanticError::DuplicateName(loc, names)) => {
            assert_eq!(names, vec!["verbose", "loud"]);
            assert_eq!((loc.line, loc.col), (1, 20));
        }
        other => panic!("unexpected error {:?}", other),
    }
}

#[test]
fn extra_short_name() {
    match failure("flag a / b / c { x = 1; }") {
        ParseError::Semantic(SemanticError::ExtraShortName(loc, names)) => {
            assert_eq!(names, vec!["a", "b", "c"]);
            assert_eq!((loc.line, loc.col), (1, 10));
        }
        other => panic!("unexpected error {:?}", other),
    }
    match failure("flag all / a / bb / b { }") {
        ParseError::Semantic(SemanticError::ExtraShortName(loc, names)) => {
            assert_eq!(names, vec!["a", "b"]);
            assert_eq!((loc.line, loc.col), (1, 21));
        }
        other => panic!("unexpected error {:?}", other),
    }
}

#[test]
fn short_names_are_reported_before_repeated_names() {
    assert!(matches!(
        failure("flag aa / aa / b / c { }"),
        ParseError::Semantic(SemanticError::ExtraShortName(_, _))
    ));
}

#[test]
fn cannot_nest_under_other_keywords() {
    match failure("pos x { flag y {} }") {
        ParseError::Semantic(SemanticError::CannotNest(loc, word)) => {
            assert_eq!(word, "flag");
            assert_eq!((loc.line, loc.col), (1, 9));
        }
        other => panic!("unexpected error {:?}", other),
    }
    for keyword in ["pos", "named", "flag"] {
        let text = format!("{} x {{ command y {{}} }}", keyword);
        assert!(matches!(
            failure(&text),
            ParseError::Semantic(SemanticError::CannotNest(_, _))
        ));
    }
}

#[test]
fn command_takes_nested_blocks() {
    let (root, tips) = tree("command x { flag y {} }");
    assert_eq!(root.keyword, "root");
    assert!(root.identifiers.is_empty());
    assert!(root.statements.is_empty());
    assert_eq!(root.blocks.len(), 1);
    let x = &root.blocks[0];
    assert_eq!(x.keyword, "command");
    assert_eq!(x.identifiers, vec!["x"]);
    assert!(x.statements.is_empty());
    assert_eq!(x.blocks.len(), 1);
    let y = &x.blocks[0];
    assert_eq!(y.keyword, "flag");
    assert_eq!(y.identifiers, vec!["y"]);
    assert!(y.statements.is_empty() && y.blocks.is_empty());
    assert_eq!(tips.len(), 1);
    assert_eq!(tips[0].msg, "Redundant argument: empty block");
    assert_eq!((tips[0].loc.line, tips[0].loc.col), (1, 21));
}

#[test]
fn mixed_value_kinds() {
    match failure("named x { v = 1, \"s\"; }") {
        ParseError::Semantic(SemanticError::DiffOptionTypes(loc, msg)) => {
            assert_eq!((loc.line, loc.col), (1, 18));
            assert_eq!(msg, "Expected integer value after comma, but got string: \"s\"");
        }
        other => panic!("unexpected error {:?}", other),
    }
}

#[test]
fn version_directive() {
    let (root, tips) = tree("!version = \"1.0.0\";");
    assert!(tips.is_empty());
    assert!(root.blocks.is_empty());
    assert_eq!(root.statements.len(), 1);
    check_statement(
        &root.statements[0],
        "!version",
        "1.0.0",
        TokenKind::String,
        TokenKind::Directive,
    );
}

#[test]
fn empty_input() {
    match failure("") {
        ParseError::Syntax(SyntaxError::NoToken(loc, msg)) => {
            assert_eq!(loc.path, FILE);
            assert_eq!((loc.line, loc.col), (0, 0));
            assert_eq!(msg, "Expected directive or keyword but got no token");
        }
        other => panic!("unexpected error {:?}", other),
    }
    assert!(matches!(
        failure("  # nothing here\n"),
        ParseError::Syntax(SyntaxError::NoToken(_, _))
    ));
}

#[test]
fn lexical_errors_come_first() {
    assert!(matches!(
        failure("flag a / a { x = 1.2.3; }"),
        ParseError::Syntax(SyntaxError::ExtraDecimalPoint(_, _))
    ));
}

#[test]
fn whole_file() {
    let text = "!program = \"tool\";\n!version = \"2.1\";\n\ncommand build / b {\n  # how many jobs\n  named jobs / j {\n    kind = uint;\n    allowed = 1..=64;\n    def = 4;\n  }\n  flag release { help = show_help; }\n  targets = \"all\", \"lib\", \"bin\";\n}\npos file { kind = path; any = *; on = true, false; ratio = 0.5, 1e3; }\n";
    let (root, tips) = tree(text);
    assert!(tips.is_empty());
    assert_eq!(root.statements.len(), 2);
    check_statement(&root.statements[0], "!program", "tool", TokenKind::String, TokenKind::Directive);
    check_statement(&root.statements[1], "!version", "2.1", TokenKind::String, TokenKind::Directive);
    assert_eq!(root.blocks.len(), 2);
    let build = &root.blocks[0];
    assert_eq!(build.keyword, "command");
    assert_eq!(build.identifiers, vec!["build", "b"]);
    assert_eq!(build.statements.len(), 1);
    check_statement(
        &build.statements[0],
        "targets",
        "all,lib,bin",
        TokenKind::String,
        TokenKind::Identifier,
    );
    assert_eq!(build.blocks.len(), 2);
    let jobs = &build.blocks[0];
    assert_eq!(jobs.keyword, "named");
    assert_eq!(jobs.identifiers, vec!["jobs", "j"]);
    assert_eq!(jobs.statements.len(), 3);
    check_statement(&jobs.statements[0], "kind", "uint", TokenKind::Type, TokenKind::Identifier);
    check_statement(
        &jobs.statements[1],
        "allowed",
        "1..=64",
        TokenKind::InclusiveRange,
        TokenKind::Identifier,
    );
    check_statement(&jobs.statements[2], "def", "4", TokenKind::Int, TokenKind::Identifier);
    let release = &build.blocks[1];
    assert_eq!(release.keyword, "flag");
    check_statement(
        &release.statements[0],
        "help",
        "show_help",
        TokenKind::Action,
        TokenKind::Identifier,
    );
    let file = &root.blocks[1];
    assert_eq!(file.keyword, "pos");
    assert_eq!(file.identifiers, vec!["file"]);
    assert_eq!(file.statements.len(), 4);
    check_statement(&file.statements[1], "any", "*", TokenKind::Wildcard, TokenKind::Identifier);
    check_statement(
        &file.statements[2],
        "on",
        "true,false",
        TokenKind::Boolean,
        TokenKind::Identifier,
    );
    check_statement(&file.statements[3], "ratio", "0.5,1e3", TokenKind::Float, TokenKind::Identifier);
}

#[test]
fn top_level_takes_directives_and_blocks_only() {
    match failure("x = 1;") {
        ParseError::Syntax(SyntaxError::UnexpectedToken(loc, msg)) => {
            assert_eq!((loc.line, loc.col), (1, 1));
            assert_eq!(msg, "Expected directive or keyword, but got identifer: x");
        }
        other => panic!("unexpected error {:?}", other),
    }
}

#[test]
fn header_needs_a_name() {
    match failure("flag { }") {
        ParseError::Syntax(SyntaxError::UnexpectedToken(loc, msg)) => {
            assert_eq!((loc.line, loc.col), (1, 6));
            assert_eq!(
                msg,
                "Expected at least 1 identifer after keyword; next token is open brace {"
            );
        }
        other => panic!("unexpected error {:?}", other),
    }
    match failure("flag") {
        ParseError::Syntax(SyntaxError::NoToken(loc, msg)) => {
            assert_eq!((loc.line, loc.col), (1, 1));
            assert_eq!(msg, "Expected at least 1 identifer after keyword; got no token");
        }
        other => panic!("unexpected error {:?}", other),
    }
}

#[test]
fn header_takes_names_and_slashes_in_turn() {
    match failure("flag a b { }") {
        ParseError::Syntax(SyntaxError::UnexpectedToken(loc, msg)) => {
            assert_eq!((loc.line, loc.col), (1, 8));
            assert_eq!(msg, "Expected alternative / or open brace {, but got identifer: b");
        }
        other => panic!("unexpected error {:?}", other),
    }
    match failure("flag a / / b { }") {
        ParseError::Syntax(SyntaxError::UnexpectedToken(loc, msg)) => {
            assert_eq!((loc.line, loc.col), (1, 10));
            assert_eq!(msg, "Expected identifer after alternative /, but got alternative /: /");
        }
        other => panic!("unexpected error {:?}", other),
    }
}

#[test]
fn unclosed_blocks_and_headers() {
    match failure("flag a {\n  x = 1;") {
        ParseError::Syntax(SyntaxError::NoToken(loc, msg)) => {
            assert_eq!((loc.line, loc.col), (2, 8));
            assert_eq!(msg, "Expected close brace }; got no token");
        }
        other => panic!("unexpected error {:?}", other),
    }
    match failure("flag a /") {
        ParseError::Syntax(SyntaxError::NoToken(loc, msg)) => {
            assert_eq!((loc.line, loc.col), (1, 8));
            assert_eq!(msg, "Expected identifer after alternative /; got no token");
        }
        other => panic!("unexpected error {:?}", other),
    }
    assert!(matches!(failure("flag a"), ParseError::Syntax(SyntaxError::NoToken(_, _))));
}

#[test]
fn body_takes_statements_and_blocks_only() {
    match failure("flag a { = }") {
        ParseError::Syntax(SyntaxError::UnexpectedToken(loc, msg)) => {
            assert_eq!((loc.line, loc.col), (1, 10));
            assert_eq!(msg, "Expected identifer, but got equal sign =: =");
        }
        other => panic!("unexpected error {:?}", other),
    }
    match failure("command a { \"s\" }") {
        ParseError::Syntax(SyntaxError::UnexpectedToken(loc, msg)) => {
            assert_eq!((loc.line, loc.col), (1, 13));
            assert_eq!(msg, "Expected identifer or keyword, but got string: \"s\"");
        }
        other => panic!("unexpected error {:?}", other),
    }
}

#[test]
fn statement_needs_an_equal_sign() {
    match failure("flag a { x 1; }") {
        ParseError::Syntax(SyntaxError::UnexpectedToken(loc, msg)) => {
            assert_eq!((loc.line, loc.col), (1, 12));
            assert_eq!(msg, "Expected equal sign = after identifer; next token is integer");
        }
        other => panic!("unexpected error {:?}", other),
    }
    match failure("!version") {
        ParseError::Syntax(SyntaxError::NoToken(loc, msg)) => {
            assert_eq!((loc.line, loc.col), (1, 1));
            assert_eq!(msg, "Expected equal sign = after directive; got no token");
        }
        other => panic!("unexpected error {:?}", other),
    }
}

#[test]
fn directive_takes_one_string() {
    match failure("!version = 1;") {
        ParseError::Syntax(SyntaxError::UnexpectedToken(loc, msg)) => {
            assert_eq!((loc.line, loc.col), (1, 12));
            assert_eq!(
                msg,
                "Expected string after equal sign = for a directive assignment, but got integer: 1"
            );
        }
        other => panic!("unexpected error {:?}", other),
    }
    match failure("!version = \"1\", \"2\";") {
        ParseError::Syntax(SyntaxError::UnexpectedToken(loc, msg)) => {
            assert_eq!((loc.line, loc.col), (1, 14));
            assert_eq!(
                msg,
                "Missing semicolon ; to end assignment statement; next token is comma ,"
            );
        }
        other => panic!("unexpected error {:?}", other),
    }
    match failure("!program = \"p\"") {
        ParseError::Syntax(SyntaxError::NoToken(loc, msg)) => {
            assert_eq!((loc.line, loc.col), (1, 12));
            assert_eq!(msg, "Missing semicolon ; to end assignment statement; got no token");
        }
        other => panic!("unexpected error {:?}", other),
    }
    assert!(matches!(failure("!program ="), ParseError::Syntax(SyntaxError::NoToken(_, _))));
}

#[test]
fn values_need_commas() {
    match failure("flag a { v = 12 \"s\"; }") {
        ParseError::Syntax(SyntaxError::UnexpectedToken(loc, msg)) => {
            assert_eq!((loc.line, loc.col), (1, 15));
            assert_eq!(msg, "Expected comma or semicolon after integer value, but got string");
        }
        other => panic!("unexpected error {:?}", other),
    }
}

#[test]
fn a_value_must_follow_a_comma() {
    match failure("flag a { v = 1, ; }") {
        ParseError::Syntax(SyntaxError::UnexpectedToken(loc, msg)) => {
            assert_eq!((loc.line, loc.col), (1, 17));
            assert_eq!(msg, "Expected integer value after comma, but got semicolon ;: ;");
        }
        other => panic!("unexpected error {:?}", other),
    }
    match failure("flag a { v = , }") {
        ParseError::Syntax(SyntaxError::UnexpectedToken(loc, msg)) => {
            assert_eq!((loc.line, loc.col), (1, 16));
            assert_eq!(msg, "Expected value after comma, but got close brace }: }");
        }
        other => panic!("unexpected error {:?}", other),
    }
}

#[test]
fn statement_without_a_value() {
    match failure("flag a {\n  count = ;\n}") {
        ParseError::Semantic(SemanticError::EmptyStatement(loc, key)) => {
            assert_eq!(loc.path, FILE);
            assert_eq!((loc.line, loc.col), (2, 11));
            assert_eq!(key, "count");
        }
        other => panic!("unexpected error {:?}", other),
    }
}

#[test]
fn statement_with_something_else_than_a_value() {
    match failure("flag a { v = { }") {
        ParseError::Syntax(SyntaxError::UnexpectedToken(loc, msg)) => {
            assert_eq!((loc.line, loc.col), (1, 14));
            assert!(msg.starts_with(
                "Expected one of the following after equal sign = for a identifer assignment (got open brace {): \n     - string:"
            ));
            assert_eq!(msg.lines().count(), 10);
        }
        other => panic!("unexpected error {:?}", other),
    }
}

#[test]
fn unfinished_statement() {
    match failure("flag a { v = 1, 2") {
        ParseError::Syntax(SyntaxError::NoToken(loc, msg)) => {
            assert_eq!((loc.line, loc.col), (1, 17));
            assert_eq!(msg, "Missing semicolon ; to end assignment statement; got no token");
        }
        other => panic!("unexpected error {:?}", other),
    }
}

#[test]
fn redundant_comma_is_a_tip() {
    let (root, tips) = tree("flag a { v = , 1, 2; }");
    check_statement(
        &root.blocks[0].statements[0],
        "v",
        "1,2",
        TokenKind::Int,
        TokenKind::Identifier,
    );
    assert_eq!(tips.len(), 1);
    assert_eq!(tips[0].msg, "Redundant comma before value in identifer assignment");
    assert_eq!(tips[0].loc.path, FILE);
    assert_eq!((tips[0].loc.line, tips[0].loc.col), (1, 14));
}

#[test]
fn parser_over_given_tokens() {
    let tokens = tokenize("command c { pos p { kind = int; } }", FILE).unwrap();
    let mut parser = Parser::new(&tokens, FILE);
    assert!(parser.styled);
    assert_eq!(parser.pos, 0);
    assert_eq!(parser.root.keyword, "root");
    assert!(parser.parse().is_ok());
    assert_eq!(parser.pos, tokens.len());
    assert_eq!(parser.root.blocks.len(), 1);
    assert_eq!(parser.root.blocks[0].blocks[0].statements[0].value, "int");
    assert!(parser.tips.is_empty());
    assert!(matches!(
        parser.parse(),
        Err(ParseError::Syntax(SyntaxError::NoToken(_, _)))
    ));
}

#[test]
fn expectations() {
    let tokens = tokenize("a \"xyz\" b", FILE).unwrap();
    let mut parser = Parser::new(&tokens, FILE);
    parser.styled = false;
    let next = parser.expect_next(TokenKind::String, "want".to_string()).unwrap();
    assert_eq!(next.lexeme, "xyz");
    assert_eq!(parser.pos, 1);
    match parser.expect_semicolon() {
        Err(ParseError::Syntax(SyntaxError::UnexpectedToken(loc, msg))) => {
            assert_eq!((loc.line, loc.col), (1, 7));
            assert_eq!(
                msg,
                "Missing semicolon ; to end assignment statement; next token is identifer"
            );
        }
        other => panic!("unexpected result {:?}", other),
    }
    assert_eq!(parser.pos, 2);
    match parser.expect_next(TokenKind::Eq, "want".to_string()) {
        Err(ParseError::Syntax(SyntaxError::NoToken(loc, msg))) => {
            assert_eq!((loc.line, loc.col), (1, 9));
            assert_eq!(msg, "want; got no token");
        }
        other => panic!("unexpected result {:?}", other),
    }
    assert_eq!(parser.pos, 3);
    match parser.expect_next(TokenKind::Eq, "want".to_string()) {
        Err(ParseError::Syntax(SyntaxError::NoToken(loc, _))) => {
            assert_eq!((loc.line, loc.col), (0, 0));
        }
        other => panic!("unexpected result {:?}", other),
    }
    assert_eq!(parser.pos, 3);
}
