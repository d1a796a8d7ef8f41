use crate::common::style::{tinted, Tint};
use vstd::prelude::*;

verus! {

/// What a token is.
#[derive(Debug, Clone, Copy, PartialEq, Eq, Structural)]
pub enum TokenKind {
    ExclusiveRange,
    InclusiveRange,
    Minus,
    Plus,
    SemiColon,
    Action,
    Int,
    Directive,
    Float,
    Comma,
    OpenBrace,
    CloseBrace,
    Alt,
    Eq,
    Keyword,
    Boolean,
    Wildcard,
    Type,
    String,
    Identifier,
}

/// A token with the place where it starts: `col` is the 1-based column of its
/// first character in line `line`.
#[derive(Debug)]
pub struct Token {
    pub kind: TokenKind,
    pub lexeme: String,
    pub line: usize,
    pub col: usize,
}

/// The mathematical value of a `Token`.
pub struct TokenView {
    pub kind: TokenKind,
    pub lexeme: Seq<char>,
    pub line: int,
    pub col: int,
}

impl View for Token {
    type V = TokenView;

    open spec fn view(&self) -> TokenView {
        TokenView { kind: self.kind, lexeme: self.lexeme@, line: self.line as int, col: self.col as int }
    }
}

impl Clone for Token {
    fn clone(&self) -> (r: Self)
        ensures
            r == *self,
    {
        Token { kind: self.kind, lexeme: self.lexeme.clone(), line: self.line, col: self.col }
    }
}

/// The views of a sequence of tokens.
pub open spec fn token_views(toks: Seq<Token>) -> Seq<TokenView> {
    Seq::new(toks.len(), |i: int| toks[i]@)
}

impl TokenView {
    /// The number of columns that the token takes in the source: a string
    /// counts its two quotes.
    pub open spec fn width(self) -> int {
        if self.kind == TokenKind::String {
            (self.lexeme.len() + 2) as int
        } else {
            self.lexeme.len() as int
        }
    }
}

/// The kinds that may stand as a value in a statement.
pub open spec fn assignment_kind(kind: TokenKind) -> bool {
    kind == TokenKind::String || kind == TokenKind::Boolean || kind == TokenKind::Float || kind
        == TokenKind::Int || kind == TokenKind::ExclusiveRange || kind == TokenKind::InclusiveRange
        || kind == TokenKind::Wildcard || kind == TokenKind::Type || kind == TokenKind::Action
}

pub fn is_assignment_kind(kind: &TokenKind) -> (r: bool)
    ensures
        r == assignment_kind(*kind),
{
    match kind {
        TokenKind::String
        | TokenKind::Boolean
        | TokenKind::Float
        | TokenKind::Int
        | TokenKind::ExclusiveRange
        | TokenKind::InclusiveRange
        | TokenKind::Wildcard
        | TokenKind::Type
        | TokenKind::Action => true,
        _ => false,
    }
}

/// The name of a kind, as messages give it.
pub open spec fn kind_name(kind: TokenKind) -> Seq<char> {
    match kind {
        TokenKind::ExclusiveRange => "exclusive range "@ + ".."@,
        TokenKind::InclusiveRange => "inclusive range "@ + "..="@,
        TokenKind::Minus => "minus "@ + "-"@,
        TokenKind::Plus => "plus "@ + "+"@,
        TokenKind::SemiColon => "semicolon ;"@,
        TokenKind::Action => "action"@,
        TokenKind::Int => "integer"@,
        TokenKind::Directive => "directive"@,
        TokenKind::Float => "float"@,
        TokenKind::Comma => "comma ,"@,
        TokenKind::OpenBrace => "open brace {"@,
        TokenKind::CloseBrace => "close brace }"@,
        TokenKind::Alt => "alternative /"@,
        TokenKind::Eq => "equal sign "@ + "="@,
        TokenKind::Keyword => "keyword"@,
        TokenKind::Boolean => "true"@ + "/"@ + "false"@,
        TokenKind::Wildcard => "wildcard "@ + "*"@,
        TokenKind::Type => "type"@,
        TokenKind::String => "string"@,
        TokenKind::Identifier => "identifer"@,
    }
}

/// The name of the kind holds a symbol or a word of the language, which is
/// shown in colour.
pub open spec fn shows_symbol(kind: TokenKind) -> bool {
    kind == TokenKind::ExclusiveRange || kind == TokenKind::InclusiveRange || kind
        == TokenKind::Minus || kind == TokenKind::Plus || kind == TokenKind::Eq || kind
        == TokenKind::Boolean || kind == TokenKind::Wildcard
}

/// A line of help on a kind: its name, filled with spaces to 20 columns, and
/// how a token of the kind is written.
pub open spec fn kind_help(kind: TokenKind) -> Seq<char> {
    match kind {
        TokenKind::ExclusiveRange => "exclusive range:     "@ + ".."@,
        TokenKind::InclusiveRange => "inclusive range:     "@ + "..="@,
        TokenKind::Minus => "minus:               "@ + "-"@,
        TokenKind::Plus => "plus:                "@ + "+"@,
        TokenKind::SemiColon => "semicolon:           ;"@,
        TokenKind::Action => "action:              "@ + "show_help"@ + " / "@ + "show_version"@,
        TokenKind::Int => "integer:             "@ + "[+/-]<1-9>[0-9 ...]"@,
        TokenKind::Directive => "directive:           "@ + "!version"@ + "/"@ + "!program"@,
        TokenKind::Float => "float:               "@ + "[+/-][0-9 ...].[0-9 ...][e<[+/-]<integer>]"@,
        TokenKind::Comma => "comma:               ,"@,
        TokenKind::OpenBrace => "open brace:          {"@,
        TokenKind::CloseBrace => "close brace:         }"@,
        TokenKind::Alt => "alternative:         /"@,
        TokenKind::Eq => "equal sign:          ="@,
        TokenKind::Keyword => "keyword:             "@ + "command"@ + " / "@ + "pos"@ + " / "@
            + "named"@ + " / "@ + "flag"@,
        TokenKind::Boolean => "boolean:             "@ + "true"@ + " / "@ + "false"@,
        TokenKind::Wildcard => "wildcard:            "@ + "*"@,
        TokenKind::Type => "type:                "@ + "int"@ + " / "@ + "float"@ + " / "@ + "uint"@
            + " / "@ + "path"@ + " / "@ + "bool"@,
        TokenKind::String => "string:              "@ + "\"\""@,
        TokenKind::Identifier => "identifier:          "@,
    }
}

impl TokenKind {
    /// The name of the kind. Where `styled` holds, a symbol or word of the
    /// language in it goes through the terminal styling.
    pub fn as_str(&self, styled: bool) -> (r: String)
        ensures
            !styled || !shows_symbol(*self) ==> r@ == kind_name(*self),
    {
        match self {
            TokenKind::ExclusiveRange => "exclusive range ".to_owned()
                .concat(tinted("..", Tint::Yellow, styled).as_str()),
            TokenKind::InclusiveRange => "inclusive range ".to_owned()
                .concat(tinted("..=", Tint::Yellow, styled).as_str()),
            TokenKind::Minus => "minus ".to_owned()
                .concat(tinted("-", Tint::Yellow, styled).as_str()),
            TokenKind::Plus => "plus ".to_owned()
                .concat(tinted("+", Tint::Yellow, styled).as_str()),
            TokenKind::SemiColon => "semicolon ;".to_owned(),
            TokenKind::Action => "action".to_owned(),
            TokenKind::Int => "integer".to_owned(),
            TokenKind::Directive => "directive".to_owned(),
            TokenKind::Float => "float".to_owned(),
            TokenKind::Comma => "comma ,".to_owned(),
            TokenKind::OpenBrace => "open brace {".to_owned(),
            TokenKind::CloseBrace => "close brace }".to_owned(),
            TokenKind::Alt => "alternative /".to_owned(),
            TokenKind::Eq => "equal sign ".to_owned()
                .concat(tinted("=", Tint::Yellow, styled).as_str()),
            TokenKind::Keyword => "keyword".to_owned(),
            TokenKind::Boolean => tinted("true", Tint::BrightRed, styled)
                .concat("/")
                .concat(tinted("false", Tint::BrightRed, styled).as_str()),
            TokenKind::Wildcard => "wildcard ".to_owned()
                .concat(tinted("*", Tint::Yellow, styled).as_str()),
            TokenKind::Type => "type".to_owned(),
            TokenKind::String => "string".to_owned(),
            TokenKind::Identifier => "identifer".to_owned(),
        }
    }

    /// A line of help on the kind. Where `styled` holds, what shows how a
    /// token is written goes through the terminal styling.
    pub fn help(&self, styled: bool) -> (r: String)
        ensures
            !styled ==> r@ == kind_help(*self),
    {
        match self {
            TokenKind::ExclusiveRange => "exclusive range:     ".to_owned()
                .concat(tinted("..", Tint::Yellow, styled).as_str()),
            TokenKind::InclusiveRange => "inclusive range:     ".to_owned()
                .concat(tinted("..=", Tint::Yellow, styled).as_str()),
            TokenKind::Minus => "minus:               ".to_owned()
                .concat(tinted("-", Tint::Yellow, styled).as_str()),
            TokenKind::Plus => "plus:                ".to_owned()
                .concat(tinted("+", Tint::Yellow, styled).as_str()),
            TokenKind::SemiColon => "semicolon:           ;".to_owned(),
            TokenKind::Action => "action:              ".to_owned()
                .concat(tinted("show_help", Tint::BrightMagenta, styled).as_str())
                .concat(" / ")
                .concat(tinted("show_version", Tint::BrightMagenta, styled).as_str()),
            TokenKind::Int => "integer:             ".to_owned()
                .concat(tinted("[+/-]<1-9>[0-9 ...]", Tint::Yellow, styled).as_str()),
            TokenKind::Directive => "directive:           ".to_owned()
                .concat(tinted("!version", Tint::Blue, styled).as_str())
                .concat("/")
                .concat(tinted("!program", Tint::Blue, styled).as_str()),
            TokenKind::Float => "float:               ".to_owned()
                .concat(
                    tinted("[+/-][0-9 ...].[0-9 ...][e<[+/-]<integer>]", Tint::Yellow, styled)
                        .as_str(),
                ),
            TokenKind::Comma => "comma:               ,".to_owned(),
            TokenKind::OpenBrace => "open brace:          {".to_owned(),
            TokenKind::CloseBrace => "close brace:         }".to_owned(),
            TokenKind::Alt => "alternative:         /".to_owned(),
            TokenKind::Eq => "equal sign:          =".to_owned(),
            TokenKind::Keyword => "keyword:             ".to_owned()
                .concat(tinted("command", Tint::BrightMagenta, styled).as_str())
                .concat(" / ")
                .concat(tinted("pos", Tint::BrightMagenta, styled).as_str())
                .concat(" / ")
                .concat(tinted("named", Tint::BrightMagenta, styled).as_str())
                .concat(" / ")
                .concat(tinted("flag", Tint::BrightMagenta, styled).as_str()),
            TokenKind::Boolean => "boolean:             ".to_owned()
                .concat(tinted("true", Tint::BrightRed, styled).as_str())
                .concat(" / ")
                .concat(tinted("false", Tint::BrightRed, styled).as_str()),
            TokenKind::Wildcard => "wildcard:            ".to_owned()
                .concat(tinted("*", Tint::Yellow, styled).as_str()),
            TokenKind::Type => "type:                ".to_owned()
                .concat(tinted("int", Tint::BrightCyan, styled).as_str())
                .concat(" / ")
                .concat(tinted("float", Tint::BrightCyan, styled).as_str())
                .concat(" / ")
                .concat(tinted("uint", Tint::BrightCyan, styled).as_str())
                .concat(" / ")
                .concat(tinted("path", Tint::BrightCyan, styled).as_str())
                .concat(" / ")
                .concat(tinted("bool", Tint::BrightCyan, styled).as_str()),
            TokenKind::String => "string:              ".to_owned()
                .concat(tinted("\"\"", Tint::Green, styled).as_str()),
            TokenKind::Identifier => "identifier:          ".to_owned(),
        }
    }
}

/// The text of a token as messages show it: the lexeme, for a string
/// between double quotes.
pub open spec fn token_text(tok: TokenView) -> Seq<char> {
    if tok.kind == TokenKind::String {
        seq!['"'] + tok.lexeme + seq!['"']
    } else {
        tok.lexeme
    }
}

impl Token {
    /// The number of columns that the token takes in the source, as far as
    /// `usize` holds it.
    pub fn len(&self) -> (n: usize)
        ensures
            n == if self@.width() <= usize::MAX {
                self@.width()
            } else {
                usize::MAX as int
            },
    {
        let chars: usize = self.lexeme.as_str().unicode_len();
        match self.kind {
            TokenKind::String => if chars <= usize::MAX - 2 {
                chars + 2
            } else {
                usize::MAX
            },
            _ => chars,
        }
    }

    /// The text of the token in the colour of its kind; where `styled` does
    /// not hold, the text as it is.
    pub fn render(&self, styled: bool) -> (r: String)
        ensures
            !styled ==> r@ == token_text(self@),
    {
        let text = self.text();
        match self.kind {
            TokenKind::String => tinted(text.as_str(), Tint::Green, styled),
            TokenKind::Identifier | TokenKind::Directive => tinted(text.as_str(), Tint::Blue, styled),
            TokenKind::Float
            | TokenKind::Plus
            | TokenKind::Minus
            | TokenKind::ExclusiveRange
            | TokenKind::InclusiveRange
            | TokenKind::Eq
            | TokenKind::Wildcard
            | TokenKind::Int => tinted(text.as_str(), Tint::Yellow, styled),
            TokenKind::Type => tinted(text.as_str(), Tint::BrightCyan, styled),
            TokenKind::Boolean => tinted(text.as_str(), Tint::BrightRed, styled),
            TokenKind::Keyword | TokenKind::Action => tinted(
                text.as_str(),
                Tint::BrightMagenta,
                styled,
            ),
            _ => tinted(text.as_str(), Tint::White, styled),
        }
    }

    /// The text of the token as messages show it.
    pub fn text(&self) -> (r: String)
        ensures
            r@ == token_text(self@),
    {
        match self.kind {
            TokenKind::String => {
                let mut r: String = String::new();
                r.push('"');
                r.append(self.lexeme.as_str());
                r.push('"');
                r
            },
            _ => self.lexeme.clone(),
        }
    }
}

/// The kinds that may stand as a value in a statement, in the order in which
/// the help lists them.
pub open spec fn assignment_kinds() -> Seq<TokenKind> {
    seq![
        TokenKind::String,
        TokenKind::Boolean,
        TokenKind::Float,
        TokenKind::Int,
        TokenKind::ExclusiveRange,
        TokenKind::InclusiveRange,
        TokenKind::Wildcard,
        TokenKind::Type,
        TokenKind::Action,
    ]
}

/// The help lines of the first `n` kinds of `kinds`, each on a line of its
/// own behind a dash.
pub open spec fn kinds_help(kinds: Seq<TokenKind>, n: int) -> Seq<char>
    decreases n,
{
    if n <= 0 {
        Seq::empty()
    } else {
        kinds_help(kinds, n - 1) + "\n     - "@ + kind_help(kinds[n - 1])
    }
}

/// The kinds that may stand as a value in a statement.
pub fn value_kinds() -> (v: Vec<TokenKind>)
    ensures
        v@ == assignment_kinds(),
{
    let v: Vec<TokenKind> = vec![
        TokenKind::String,
        TokenKind::Boolean,
        TokenKind::Float,
        TokenKind::Int,
        TokenKind::ExclusiveRange,
        TokenKind::InclusiveRange,
        TokenKind::Wildcard,
        TokenKind::Type,
        TokenKind::Action,
    ];
    assert(v@ =~= assignment_kinds());
    v
}

/// The help on every kind that may stand as a value in a statement.
pub fn fmt_assignment_kinds(styled: bool) -> (r: String)
    ensures
        !styled ==> r@ == kinds_help(assignment_kinds(), 9),
{
    let kinds: Vec<TokenKind> = value_kinds();
    let mut r: String = String::new();
    let mut i: usize = 0;
    while i < kinds.len()
        invariant
            kinds@ == assignment_kinds(),
            i <= kinds@.len(),
            !styled ==> r@ == kinds_help(kinds@, i as int),
        decreases kinds@.len() - i,
    {
        r.append("\n     - ");
        let line: String = kinds[i].help(styled);
        r.append(line.as_str());
        i += 1;
    }
    r
}

} // verus!
