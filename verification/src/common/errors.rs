use crate::common::style::{styled_text, tinted, Tint, Weight};
use crate::common::text::{chars_of, decimal, digits};
use vstd::prelude::*;

verus! {

/// A place in a source file: `col` is 1-based within the line.
#[derive(Debug)]
pub struct Loc {
    pub path: String,
    pub line: usize,
    pub col: usize,
}

/// The mathematical value of a `Loc`.
pub struct LocView {
    pub path: Seq<char>,
    pub line: int,
    pub col: int,
}

impl View for Loc {
    type V = LocView;

    open spec fn view(&self) -> LocView {
        LocView { path: self.path@, line: self.line as int, col: self.col as int }
    }
}

/// Malformed lexical structure, or a token where the grammar has no place for it.
#[derive(Debug)]
pub enum SyntaxError {
    InvalidChar(Loc, char),
    InvalidDirective(Loc, String),
    InvalidRange(Loc, String),
    InvalidStrEsc(Loc, char),
    InvalidIdent(Loc, String),
    ExtraDecimalPoint(Loc, String),
    InvalidFloatExpChars(String, Loc, String),
    InvalidNumChars(String, String, Loc, String),
    UnterminatedStr(Loc, String),
    UnexpectedToken(Loc, String),
    NoToken(Loc, String),
    NoFloatExp(Loc, String),
    InvalidNumberSign(Loc, String),
    InvalidStandaloneSymbol(Loc, String),
}

/// The mathematical value of a `SyntaxError`.
pub enum SyntaxErrorView {
    InvalidChar(LocView, char),
    InvalidDirective(LocView, Seq<char>),
    InvalidRange(LocView, Seq<char>),
    InvalidStrEsc(LocView, char),
    InvalidIdent(LocView, Seq<char>),
    ExtraDecimalPoint(LocView, Seq<char>),
    InvalidFloatExpChars(Seq<char>, LocView, Seq<char>),
    InvalidNumChars(Seq<char>, Seq<char>, LocView, Seq<char>),
    UnterminatedStr(LocView, Seq<char>),
    UnexpectedToken(LocView, Seq<char>),
    NoToken(LocView, Seq<char>),
    NoFloatExp(LocView, Seq<char>),
    InvalidNumberSign(LocView, Seq<char>),
    InvalidStandaloneSymbol(LocView, Seq<char>),
}

impl View for SyntaxError {
    type V = SyntaxErrorView;

    open spec fn view(&self) -> SyntaxErrorView {
        match self {
            SyntaxError::InvalidChar(l, c) => SyntaxErrorView::InvalidChar(l@, *c),
            SyntaxError::InvalidDirective(l, s) => SyntaxErrorView::InvalidDirective(l@, s@),
            SyntaxError::InvalidRange(l, s) => SyntaxErrorView::InvalidRange(l@, s@),
            SyntaxError::InvalidStrEsc(l, c) => SyntaxErrorView::InvalidStrEsc(l@, *c),
            SyntaxError::InvalidIdent(l, s) => SyntaxErrorView::InvalidIdent(l@, s@),
            SyntaxError::ExtraDecimalPoint(l, s) => SyntaxErrorView::ExtraDecimalPoint(l@, s@),
            SyntaxError::InvalidFloatExpChars(c, l, s) => SyntaxErrorView::InvalidFloatExpChars(
                c@,
                l@,
                s@,
            ),
            SyntaxError::InvalidNumChars(k, c, l, s) => SyntaxErrorView::InvalidNumChars(
                k@,
                c@,
                l@,
                s@,
            ),
            SyntaxError::UnterminatedStr(l, s) => SyntaxErrorView::UnterminatedStr(l@, s@),
            SyntaxError::UnexpectedToken(l, s) => SyntaxErrorView::UnexpectedToken(l@, s@),
            SyntaxError::NoToken(l, s) => SyntaxErrorView::NoToken(l@, s@),
            SyntaxError::NoFloatExp(l, s) => SyntaxErrorView::NoFloatExp(l@, s@),
            SyntaxError::InvalidNumberSign(l, s) => SyntaxErrorView::InvalidNumberSign(l@, s@),
            SyntaxError::InvalidStandaloneSymbol(l, s) => SyntaxErrorView::InvalidStandaloneSymbol(
                l@,
                s@,
            ),
        }
    }
}

impl SyntaxErrorView {
    /// Where the error is reported.
    pub open spec fn loc(self) -> LocView {
        match self {
            SyntaxErrorView::InvalidChar(l, _) => l,
            SyntaxErrorView::InvalidDirective(l, _) => l,
            SyntaxErrorView::InvalidRange(l, _) => l,
            SyntaxErrorView::InvalidStrEsc(l, _) => l,
            SyntaxErrorView::InvalidIdent(l, _) => l,
            SyntaxErrorView::ExtraDecimalPoint(l, _) => l,
            SyntaxErrorView::InvalidFloatExpChars(_, l, _) => l,
            SyntaxErrorView::InvalidNumChars(_, _, l, _) => l,
            SyntaxErrorView::UnterminatedStr(l, _) => l,
            SyntaxErrorView::UnexpectedToken(l, _) => l,
            SyntaxErrorView::NoToken(l, _) => l,
            SyntaxErrorView::NoFloatExp(l, _) => l,
            SyntaxErrorView::InvalidNumberSign(l, _) => l,
            SyntaxErrorView::InvalidStandaloneSymbol(l, _) => l,
        }
    }
}

/// Well-formed tokens that break a rule on names, nesting or values. The
/// names of `ExtraShortName` and `DuplicateName` are the offending ones, each
/// once, in the order in which the header gives them; `CannotNest` holds the
/// keyword of the nested block, `EmptyStatement` the key that is given no
/// value, and `DiffOptionTypes` its description.
#[derive(Debug)]
pub enum SemanticError {
    ExtraShortName(Loc, Vec<String>),
    DuplicateName(Loc, Vec<String>),
    CannotNest(Loc, String),
    EmptyStatement(Loc, String),
    DiffOptionTypes(Loc, String),
}

/// The views of a sequence of strings.
pub open spec fn string_views(v: Seq<String>) -> Seq<Seq<char>> {
    Seq::new(v.len(), |i: int| v[i]@)
}

/// The mathematical value of a `SemanticError`.
pub enum SemanticErrorView {
    ExtraShortName(LocView, Seq<Seq<char>>),
    DuplicateName(LocView, Seq<Seq<char>>),
    CannotNest(LocView, Seq<char>),
    EmptyStatement(LocView, Seq<char>),
    DiffOptionTypes(LocView, Seq<char>),
}

impl View for SemanticError {
    type V = SemanticErrorView;

    open spec fn view(&self) -> SemanticErrorView {
        match self {
            SemanticError::ExtraShortName(l, n) => SemanticErrorView::ExtraShortName(
                l@,
                string_views(n@),
            ),
            SemanticError::DuplicateName(l, n) => SemanticErrorView::DuplicateName(
                l@,
                string_views(n@),
            ),
            SemanticError::CannotNest(l, s) => SemanticErrorView::CannotNest(l@, s@),
            SemanticError::EmptyStatement(l, s) => SemanticErrorView::EmptyStatement(l@, s@),
            SemanticError::DiffOptionTypes(l, s) => SemanticErrorView::DiffOptionTypes(l@, s@),
        }
    }
}

/// The one error that ends a parse.
#[derive(Debug)]
pub enum ParseError {
    Syntax(SyntaxError),
    Semantic(SemanticError),
}

/// The mathematical value of a `ParseError`.
pub enum ParseErrorView {
    Syntax(SyntaxErrorView),
    Semantic(SemanticErrorView),
}

impl View for ParseError {
    type V = ParseErrorView;

    open spec fn view(&self) -> ParseErrorView {
        match self {
            ParseError::Syntax(e) => ParseErrorView::Syntax(e@),
            ParseError::Semantic(e) => ParseErrorView::Semantic(e@),
        }
    }
}

/// Guidance on style: it is reported, and the parse goes on.
#[derive(Debug)]
pub struct Tip {
    pub loc: Loc,
    pub msg: String,
}

/// The mathematical value of a `Tip`.
pub struct TipView {
    pub loc: LocView,
    pub msg: Seq<char>,
}

impl View for Tip {
    type V = TipView;

    open spec fn view(&self) -> TipView {
        TipView { loc: self.loc@, msg: self.msg@ }
    }
}

/// The views of a sequence of tips.
pub open spec fn tip_views(v: Seq<Tip>) -> Seq<TipView> {
    Seq::new(v.len(), |i: int| v[i]@)
}

/// The line and column of a place, as diagnostics show them.
pub open spec fn place_text(line: int, col: int) -> Seq<char> {
    "("@ + digits(line as nat) + ":"@ + digits(col as nat) + ")"@
}

/// The file of a place, as diagnostics show it.
pub open spec fn file_text(path: Seq<char>) -> Seq<char> {
    "in `"@ + path + "`"@
}

/// A place as diagnostics show it.
pub open spec fn loc_text(loc: LocView) -> Seq<char> {
    place_text(loc.line, loc.col) + " "@ + file_text(loc.path)
}

/// The two lines of a diagnostic: a prefix and a place, then an arrow and
/// the message.
pub open spec fn laid_out(prefix: Seq<char>, place: Seq<char>, arrow: Seq<char>, msg: Seq<char>)
    -> Seq<char> {
    prefix + " "@ + place + "\n "@ + arrow + " "@ + msg
}

/// Some prefix, place and arrow, in whatever styling, stand before `msg` in `text`.
pub open spec fn shows(text: Seq<char>, msg: Seq<char>) -> bool {
    exists|prefix: Seq<char>, place: Seq<char>, arrow: Seq<char>|
        text == #[trigger] laid_out(prefix, place, arrow, msg)
}

/// A diagnostic without styling.
pub open spec fn diagnostic(prefix: Seq<char>, msg: Seq<char>, loc: LocView) -> Seq<char> {
    laid_out(prefix, loc_text(loc), "\u{2937}"@, msg)
}

/// A message that points at a piece of the source.
pub open spec fn pointing(head: Seq<char>, piece: Seq<char>) -> Seq<char> {
    head + " "@ + "->"@ + " "@ + piece
}

/// The first `n` of `chars`, with `, ` between them.
pub open spec fn listed_chars(chars: Seq<char>, n: int) -> Seq<char>
    decreases n,
{
    if n <= 0 {
        Seq::empty()
    } else if n == 1 {
        seq![chars[0]]
    } else {
        listed_chars(chars, n - 1) + ", "@ + seq![chars[n - 1]]
    }
}

/// The first `n` of `names`, with ` / ` between them.
pub open spec fn listed_names(names: Seq<Seq<char>>, n: int) -> Seq<char>
    decreases n,
{
    if n <= 0 {
        Seq::empty()
    } else if n == 1 {
        names[0]
    } else {
        listed_names(names, n - 1) + " / "@ + names[n - 1]
    }
}

/// The description of a syntax error.
pub open spec fn syntax_message(e: SyntaxErrorView) -> Seq<char> {
    match e {
        SyntaxErrorView::InvalidChar(_, c) => pointing("Illegal character"@, seq![c]),
        SyntaxErrorView::InvalidDirective(_, s) => pointing("Invalid directive"@, s),
        SyntaxErrorView::InvalidRange(_, s) => pointing("Invalid range syntax"@, s),
        SyntaxErrorView::InvalidStrEsc(_, c) => pointing(
            "Invalid string escape sequence"@,
            seq!['\\', c],
        ),
        SyntaxErrorView::InvalidIdent(_, s) => pointing(
            "Identifier cannot start or end with "@ + "-"@,
            s,
        ),
        SyntaxErrorView::ExtraDecimalPoint(_, s) => pointing(
            "Float literal cannot contain > 1 decimal point"@,
            s,
        ),
        SyntaxErrorView::InvalidFloatExpChars(c, _, s) => pointing(
            "Float exponent contains illegal character(s): "@ + listed_chars(c, c.len() as int),
            s,
        ),
        SyntaxErrorView::InvalidNumChars(k, c, _, s) => pointing(
            k + " contains illegal character(s): "@ + listed_chars(c, c.len() as int),
            s,
        ),
        SyntaxErrorView::UnterminatedStr(_, s) => pointing(
            "Unterminated string literal"@,
            seq!['"'] + s,
        ),
        SyntaxErrorView::UnexpectedToken(_, s) => s,
        SyntaxErrorView::NoToken(_, s) => s,
        SyntaxErrorView::NoFloatExp(_, s) => pointing("Missing float exponent"@, s),
        SyntaxErrorView::InvalidNumberSign(_, s) => pointing("Multiple signs found"@, s),
        SyntaxErrorView::InvalidStandaloneSymbol(_, s) => pointing(
            "Invalid standalone symbol(s)"@,
            s,
        ),
    }
}

impl SemanticErrorView {
    /// Where the error is reported.
    pub open spec fn loc(self) -> LocView {
        match self {
            SemanticErrorView::ExtraShortName(l, _) => l,
            SemanticErrorView::DuplicateName(l, _) => l,
            SemanticErrorView::CannotNest(l, _) => l,
            SemanticErrorView::EmptyStatement(l, _) => l,
            SemanticErrorView::DiffOptionTypes(l, _) => l,
        }
    }
}

/// The description of a semantic error.
pub open spec fn semantic_message(e: SemanticErrorView) -> Seq<char> {
    match e {
        SemanticErrorView::ExtraShortName(_, n) => pointing(
            "Argument can only have one short name: "@ + digits(n.len()),
            listed_names(n, n.len() as int),
        ),
        SemanticErrorView::DuplicateName(_, n) => pointing(
            "Duplicate name(s) found ("@ + digits(n.len()) + ") for argument"@,
            listed_names(n, n.len() as int),
        ),
        SemanticErrorView::CannotNest(_, s) => s + " blocks cannot contain nested blocks (only "@
            + "command"@ + ")"@,
        SemanticErrorView::EmptyStatement(_, s) => pointing("Statement has no value"@, s),
        SemanticErrorView::DiffOptionTypes(_, s) => s,
    }
}

impl SyntaxErrorView {
    /// The error carries its description as a text of its own, with no piece
    /// of the source to style.
    pub open spec fn free_text(self) -> bool {
        self is UnexpectedToken || self is NoToken
    }
}

impl SemanticErrorView {
    /// The error carries its description as a text of its own, with no piece
    /// of the source to style.
    pub open spec fn free_text(self) -> bool {
        self is DiffOptionTypes
    }
}

/// The error `e` without its description, where that is a text of its own.
pub open spec fn fault(e: ParseErrorView) -> ParseErrorView {
    match e {
        ParseErrorView::Syntax(SyntaxErrorView::UnexpectedToken(l, _)) => ParseErrorView::Syntax(
            SyntaxErrorView::UnexpectedToken(l, Seq::empty()),
        ),
        ParseErrorView::Syntax(SyntaxErrorView::NoToken(l, _)) => ParseErrorView::Syntax(
            SyntaxErrorView::NoToken(l, Seq::empty()),
        ),
        ParseErrorView::Semantic(SemanticErrorView::DiffOptionTypes(l, _)) => ParseErrorView::Semantic(
            SemanticErrorView::DiffOptionTypes(l, Seq::empty()),
        ),
        _ => e,
    }
}

/// `e` reports the error `want`: it is of the same kind, at the same place,
/// with the same pieces of the source. Unless its description went through
/// the terminal styling, it is `want`.
pub open spec fn reports(e: ParseErrorView, want: ParseErrorView, styled: bool) -> bool {
    fault(e) == fault(want) && (!styled ==> e == want)
}

/// The text of a diagnostic on an error.
pub open spec fn error_text(e: ParseErrorView) -> Seq<char> {
    match e {
        ParseErrorView::Syntax(x) => diagnostic("[syntax error]"@, syntax_message(x), x.loc()),
        ParseErrorView::Semantic(x) => diagnostic(
            "[semantic error]"@,
            semantic_message(x),
            x.loc(),
        ),
    }
}

/// The text of a diagnostic on a tip.
pub open spec fn tip_text(t: TipView) -> Seq<char> {
    diagnostic("[semantic tip]"@, t.msg, t.loc)
}

/// A place as diagnostics show it: `(line:col)` and the file. Where `styled`
/// holds, both parts go through the terminal styling.
pub fn fmt_loc(line: usize, col: usize, path: &str, styled: bool) -> (r: String)
    ensures
        !styled ==> r@ == place_text(line as int, col as int) + " "@ + file_text(path@),
{
    let place = "(".to_owned().concat(decimal(line).as_str()).concat(":").concat(
        decimal(col).as_str(),
    ).concat(")");
    let place = styled_text(place.as_str(), Some(Tint::Yellow), Weight::Bold, styled);
    let file = "in `".to_owned().concat(path).concat("`");
    let file = styled_text(file.as_str(), Some(Tint::BrightYellow), Weight::Dimmed, styled);
    place.concat(" ").concat(file.as_str())
}

/// A diagnostic of two lines: `prefix` and the place, then an arrow and
/// `msg`. A tip is shown in another colour than an error.
pub fn fmt_msg(prefix: &str, msg: String, loc: &Loc, is_tip: bool, styled: bool) -> (r: String)
    ensures
        !styled ==> r@ == diagnostic(prefix@, msg@, loc@),
        shows(r@, msg@),
{
    let tint = if is_tip {
        Tint::Cyan
    } else {
        Tint::Red
    };
    let head = styled_text(prefix, Some(tint), Weight::Bold, styled);
    let arrow = tinted("\u{2937}", tint, styled);
    let place = fmt_loc(loc.line, loc.col, loc.path.as_str(), styled);
    let r = head.concat(" ").concat(place.as_str()).concat("\n ").concat(arrow.as_str()).concat(
        " ",
    ).concat(msg.as_str());
    assert(r@ == laid_out(head@, place@, arrow@, msg@));
    r
}

/// The diagnostic on a semantic error with the description `msg`.
pub fn fmt_semantic_err(msg: String, loc: &Loc, styled: bool) -> (r: String)
    ensures
        !styled ==> r@ == diagnostic("[semantic error]"@, msg@, loc@),
        shows(r@, msg@),
{
    fmt_msg("[semantic error]", msg, loc, false, styled)
}

/// The diagnostic on a syntax error with the description `msg`.
pub fn fmt_syntax_err(msg: String, loc: &Loc, styled: bool) -> (r: String)
    ensures
        !styled ==> r@ == diagnostic("[syntax error]"@, msg@, loc@),
        shows(r@, msg@),
{
    fmt_msg("[syntax error]", msg, loc, false, styled)
}

/// The diagnostic on a tip with the description `msg`.
pub fn fmt_semantic_tip(msg: String, loc: &Loc, styled: bool) -> (r: String)
    ensures
        !styled ==> r@ == diagnostic("[semantic tip]"@, msg@, loc@),
        shows(r@, msg@),
{
    fmt_msg("[semantic tip]", msg, loc, true, styled)
}

/// `head`, an arrow, and the piece of the source that the message is about.
pub fn point_at(head: String, piece: &str, styled: bool) -> (r: String)
    ensures
        !styled ==> r@ == pointing(head@, piece@),
{
    let arrow = styled_text("->", None, Weight::Bold, styled);
    head.concat(" ").concat(arrow.as_str()).concat(" ").concat(piece)
}

/// The one character `c` as a text.
pub fn char_text(c: char) -> (r: String)
    ensures
        r@ == seq![c],
{
    let mut r: String = String::new();
    r.push(c);
    assert(r@ =~= seq![c]);
    r
}

/// The characters of `chars`, each in bright red, with `, ` between them.
pub fn list_chars(chars: &String, styled: bool) -> (r: String)
    ensures
        !styled ==> r@ == listed_chars(chars@, chars@.len() as int),
{
    let cs: Vec<char> = chars_of(chars.as_str());
    let mut r: String = String::new();
    let mut i: usize = 0;
    while i < cs.len()
        invariant
            cs@ == chars@,
            i <= cs@.len(),
            !styled ==> r@ == listed_chars(chars@, i as int),
        decreases cs@.len() - i,
    {
        let piece = tinted(char_text(cs[i]).as_str(), Tint::BrightRed, styled);
        if i > 0 {
            r = r.concat(", ");
        }
        r = r.concat(piece.as_str());
        i += 1;
        assert(!styled && i == 1 ==> r@ =~= seq![chars@[0]]);
    }
    r
}

/// The names of `names`, each in blue, with ` / ` between them.
pub fn list_names(names: &Vec<String>, styled: bool) -> (r: String)
    ensures
        !styled ==> r@ == listed_names(string_views(names@), names@.len() as int),
{
    let mut r: String = String::new();
    let mut i: usize = 0;
    while i < names.len()
        invariant
            i <= names@.len(),
            !styled ==> r@ == listed_names(string_views(names@), i as int),
        decreases names@.len() - i,
    {
        let piece = tinted(names[i].as_str(), Tint::Blue, styled);
        if i > 0 {
            r = r.concat(" / ");
        }
        r = r.concat(piece.as_str());
        i += 1;
        assert(!styled && i == 1 ==> r@ =~= names@[0]@);
    }
    r
}

impl SyntaxError {
    /// Where the error is reported.
    pub fn loc(&self) -> (l: &Loc)
        ensures
            l@ == self@.loc(),
    {
        match self {
            SyntaxError::InvalidChar(l, _) => l,
            SyntaxError::InvalidDirective(l, _) => l,
            SyntaxError::InvalidRange(l, _) => l,
            SyntaxError::InvalidStrEsc(l, _) => l,
            SyntaxError::InvalidIdent(l, _) => l,
            SyntaxError::ExtraDecimalPoint(l, _) => l,
            SyntaxError::InvalidFloatExpChars(_, l, _) => l,
            SyntaxError::InvalidNumChars(_, _, l, _) => l,
            SyntaxError::UnterminatedStr(l, _) => l,
            SyntaxError::UnexpectedToken(l, _) => l,
            SyntaxError::NoToken(l, _) => l,
            SyntaxError::NoFloatExp(l, _) => l,
            SyntaxError::InvalidNumberSign(l, _) => l,
            SyntaxError::InvalidStandaloneSymbol(l, _) => l,
        }
    }

    /// The description of the error; where `styled` holds, the pieces of the
    /// source in it go through the terminal styling.
    pub fn message(&self, styled: bool) -> (r: String)
        ensures
            !styled || self@.free_text() ==> r@ == syntax_message(self@),
    {
        match self {
            SyntaxError::InvalidChar(_, c) => point_at(
                "Illegal character".to_owned(),
                tinted(char_text(*c).as_str(), Tint::Red, styled).as_str(),
                styled,
            ),
            SyntaxError::InvalidDirective(_, s) => point_at(
                "Invalid directive".to_owned(),
                tinted(s.as_str(), Tint::Blue, styled).as_str(),
                styled,
            ),
            SyntaxError::InvalidRange(_, s) => point_at(
                "Invalid range syntax".to_owned(),
                tinted(s.as_str(), Tint::Yellow, styled).as_str(),
                styled,
            ),
            SyntaxError::InvalidStrEsc(_, c) => {
                let mut esc: String = String::new();
                esc.push('\\');
                esc.push(*c);
                assert(esc@ =~= seq!['\\', *c]);
                point_at(
                    "Invalid string escape sequence".to_owned(),
                    tinted(esc.as_str(), Tint::Red, styled).as_str(),
                    styled,
                )
            },
            SyntaxError::InvalidIdent(_, s) => point_at(
                "Identifier cannot start or end with ".to_owned().concat(
                    tinted("-", Tint::Red, styled).as_str(),
                ),
                tinted(s.as_str(), Tint::Blue, styled).as_str(),
                styled,
            ),
            SyntaxError::ExtraDecimalPoint(_, s) => point_at(
                "Float literal cannot contain > 1 decimal point".to_owned(),
                tinted(s.as_str(), Tint::Yellow, styled).as_str(),
                styled,
            ),
            SyntaxError::InvalidFloatExpChars(c, _, s) => point_at(
                "Float exponent contains illegal character(s): ".to_owned().concat(
                    list_chars(c, styled).as_str(),
                ),
                tinted(s.as_str(), Tint::Yellow, styled).as_str(),
                styled,
            ),
            SyntaxError::InvalidNumChars(k, c, _, s) => point_at(
                k.clone().concat(" contains illegal character(s): ").concat(
                    list_chars(c, styled).as_str(),
                ),
                tinted(s.as_str(), Tint::Yellow, styled).as_str(),
                styled,
            ),
            SyntaxError::UnterminatedStr(_, s) => {
                let open = char_text('"').concat(s.as_str());
                point_at(
                    "Unterminated string literal".to_owned(),
                    tinted(open.as_str(), Tint::Green, styled).as_str(),
                    styled,
                )
            },
            SyntaxError::UnexpectedToken(_, s) => s.clone(),
            SyntaxError::NoToken(_, s) => s.clone(),
            SyntaxError::NoFloatExp(_, s) => point_at(
                "Missing float exponent".to_owned(),
                tinted(s.as_str(), Tint::Yellow, styled).as_str(),
                styled,
            ),
            SyntaxError::InvalidNumberSign(_, s) => point_at(
                "Multiple signs found".to_owned(),
                tinted(s.as_str(), Tint::Yellow, styled).as_str(),
                styled,
            ),
            SyntaxError::InvalidStandaloneSymbol(_, s) => point_at(
                "Invalid standalone symbol(s)".to_owned(),
                tinted(s.as_str(), Tint::Yellow, styled).as_str(),
                styled,
            ),
        }
    }

    /// The diagnostic on the error: its kind and place, then its description.
    /// Where `styled` holds, its parts go through the terminal styling.
    pub fn render(&self, styled: bool) -> (r: String)
        ensures
            !styled ==> r@ == error_text(ParseErrorView::Syntax(self@)),
            self@.free_text() ==> shows(r@, syntax_message(self@)),
    {
        fmt_syntax_err(self.message(styled), self.loc(), styled)
    }
}

impl SemanticError {
    /// Where the error is reported.
    pub fn loc(&self) -> (l: &Loc)
        ensures
            l@ == self@.loc(),
    {
        match self {
            SemanticError::ExtraShortName(l, _) => l,
            SemanticError::DuplicateName(l, _) => l,
            SemanticError::CannotNest(l, _) => l,
            SemanticError::EmptyStatement(l, _) => l,
            SemanticError::DiffOptionTypes(l, _) => l,
        }
    }

    /// The description of the error; where `styled` holds, the names in it go
    /// through the terminal styling.
    pub fn message(&self, styled: bool) -> (r: String)
        ensures
            !styled || self@.free_text() ==> r@ == semantic_message(self@),
    {
        match self {
            SemanticError::ExtraShortName(_, names) => point_at(
                "Argument can only have one short name: ".to_owned().concat(
                    decimal(names.len()).as_str(),
                ),
                list_names(names, styled).as_str(),
                styled,
            ),
            SemanticError::DuplicateName(_, names) => point_at(
                "Duplicate name(s) found (".to_owned().concat(decimal(names.len()).as_str()).concat(
                    ") for argument",
                ),
                list_names(names, styled).as_str(),
                styled,
            ),
            SemanticError::CannotNest(_, s) => tinted(s.as_str(), Tint::BrightMagenta, styled).concat(
                " blocks cannot contain nested blocks (only ",
            ).concat(tinted("command", Tint::BrightMagenta, styled).as_str()).concat(")"),
            SemanticError::EmptyStatement(_, s) => point_at(
                "Statement has no value".to_owned(),
                tinted(s.as_str(), Tint::Blue, styled).as_str(),
                styled,
            ),
            SemanticError::DiffOptionTypes(_, s) => s.clone(),
        }
    }

    /// The diagnostic on the error: its kind and place, then its description.
    /// Where `styled` holds, its parts go through the terminal styling.
    pub fn render(&self, styled: bool) -> (r: String)
        ensures
            !styled ==> r@ == error_text(ParseErrorView::Semantic(self@)),
            self@.free_text() ==> shows(r@, semantic_message(self@)),
    {
        fmt_semantic_err(self.message(styled), self.loc(), styled)
    }
}

impl ParseError {
    /// The diagnostic on the error, as its kind gives it.
    pub fn render(&self, styled: bool) -> (r: String)
        ensures
            !styled ==> r@ == error_text(self@),
    {
        match self {
            ParseError::Semantic(err) => err.render(styled),
            ParseError::Syntax(err) => err.render(styled),
        }
    }
}

impl Tip {
    /// The diagnostic on the tip. Where `styled` holds, its parts go through
    /// the terminal styling.
    pub fn render(&self, styled: bool) -> (r: String)
        ensures
            !styled ==> r@ == tip_text(self@),
            shows(r@, self@.msg),
    {
        fmt_semantic_tip(self.msg.clone(), &self.loc, styled)
    }
}

} // verus!
