//! The grammar of blocks and statements, with its rules on names, nesting
//! and value kinds, as mathematical functions on a sequence of tokens. A
//! position is an index into that sequence.

use crate::ast::{AssignmentView, BlockView};
use crate::common::errors::{LocView, ParseErrorView, SemanticErrorView, SyntaxErrorView, TipView};
use crate::common::tokens::{
    assignment_kind, assignment_kinds, kind_name, kinds_help, token_text, TokenKind, TokenView,
};
use vstd::prelude::*;

verus! {

/// What was parsed, the position behind it, and the tips given so far.
pub struct Parsed<T> {
    pub value: T,
    pub next: int,
    pub tips: Seq<TipView>,
}

/// `n`, as far as `usize` holds it.
pub open spec fn capped(n: int) -> int {
    if n <= usize::MAX {
        n
    } else {
        usize::MAX as int
    }
}

/// The place at which `tok` starts.
pub open spec fn loc_of(tok: TokenView, path: Seq<char>) -> LocView {
    LocView { path, line: tok.line, col: tok.col }
}

/// The place of the last character of `tok`.
pub open spec fn end_loc(tok: TokenView, path: Seq<char>) -> LocView {
    let w = capped(tok.width());
    LocView {
        path,
        line: tok.line,
        col: capped(
            tok.col + if w > 0 {
                w - 1
            } else {
                0
            },
        ),
    }
}

/// The place of the token before position `k`, or 0:0 where there is none.
pub open spec fn loc_before(toks: Seq<TokenView>, k: int, path: Seq<char>) -> LocView {
    if 0 < k <= toks.len() {
        loc_of(toks[k - 1], path)
    } else {
        LocView { path, line: 0, col: 0 }
    }
}

/// A message that ends with the kind and text of the token found.
pub open spec fn but_got(expected: Seq<char>, tok: TokenView) -> Seq<char> {
    expected + ", but got "@ + kind_name(tok.kind) + ": "@ + token_text(tok)
}

/// The error for the token `tok` where the grammar expects something else.
pub open spec fn unexpected(expected: Seq<char>, tok: TokenView, path: Seq<char>) -> ParseErrorView {
    ParseErrorView::Syntax(SyntaxErrorView::UnexpectedToken(loc_of(tok, path), but_got(expected, tok)))
}

/// The error for a text that ends before position `k` where the grammar
/// expects more.
pub open spec fn ran_out(expected: Seq<char>, toks: Seq<TokenView>, k: int, path: Seq<char>)
    -> ParseErrorView {
    ParseErrorView::Syntax(
        SyntaxErrorView::NoToken(loc_before(toks, k, path), expected + "; got no token"@),
    )
}

/// Checks that the token behind position `i` has the kind `exp`. A wrong
/// token is reported at its own place, a missing semicolon at the end of the
/// token at `i`, and the end of the text at the token at `i`.
pub open spec fn expect_after(
    toks: Seq<TokenView>,
    i: int,
    exp: TokenKind,
    msg: Seq<char>,
    path: Seq<char>,
) -> Result<(), ParseErrorView> {
    if 0 <= i && i + 1 < toks.len() {
        let next = toks[i + 1];
        if next.kind != exp {
            Err(
                ParseErrorView::Syntax(
                    SyntaxErrorView::UnexpectedToken(
                        if exp == TokenKind::SemiColon {
                            end_loc(toks[i], path)
                        } else {
                            loc_of(next, path)
                        },
                        msg + "; next token is "@ + kind_name(next.kind),
                    ),
                ),
            )
        } else {
            Ok(())
        }
    } else {
        Err(ran_out(msg, toks, i + 1, path))
    }
}

/// The message on a missing semicolon.
pub open spec fn missing_semicolon() -> Seq<char> {
    "Missing "@ + kind_name(TokenKind::SemiColon) + " to end assignment statement"@
}

/// The message on a directive whose value is no string.
pub open spec fn directive_value() -> Seq<char> {
    "Expected "@ + kind_name(TokenKind::String) + " after "@ + kind_name(TokenKind::Eq)
        + " for a "@ + kind_name(TokenKind::Directive) + " assignment"@
}

/// The message on a token behind a comma that is no value, or a value of
/// another kind than `vkind`.
pub open spec fn after_comma(vkind: Option<TokenKind>, tok: TokenView) -> Seq<char> {
    match vkind {
        Some(k) => but_got("Expected "@ + kind_name(k) + " value after comma"@, tok),
        None => but_got("Expected value after comma"@, tok),
    }
}

/// The message on a value that follows another without a comma.
pub open spec fn no_comma(vkind: TokenKind, tok: TokenView) -> Seq<char> {
    "Expected comma or semicolon after "@ + kind_name(vkind) + " value, but got "@ + kind_name(
        tok.kind,
    )
}

/// The message on a token that is no value, behind a token of kind `prev`.
pub open spec fn no_value(prev: TokenKind, tok: TokenView) -> Seq<char> {
    "Expected one of the following after "@ + kind_name(prev) + " for a "@ + kind_name(
        TokenKind::Identifier,
    ) + " assignment (got "@ + kind_name(tok.kind) + "): "@ + kinds_help(assignment_kinds(), 9)
}

/// The tip on a comma before the first value.
pub open spec fn comma_tip(comma: TokenView, path: Seq<char>) -> TipView {
    TipView {
        loc: loc_of(comma, path),
        msg: "Redundant comma before value in "@ + kind_name(TokenKind::Identifier)
            + " assignment"@,
    }
}

/// The tip on a block that holds nothing, at its closing brace.
pub open spec fn empty_tip(brace: TokenView, path: Seq<char>) -> TipView {
    TipView { loc: loc_of(brace, path), msg: "Redundant argument: empty block"@ }
}

/// The values of a statement from position `k` on, up to its semicolon.
/// `prev` is the token read last, `vkind` the kind of the first value once
/// there is one, and `value` the lexemes of the values so far, joined by
/// commas. A semicolon before any value makes the statement empty.
pub open spec fn spec_values(
    toks: Seq<TokenView>,
    k: int,
    key: Seq<char>,
    prev: TokenView,
    value: Seq<char>,
    vkind: Option<TokenKind>,
    tips: Seq<TipView>,
    path: Seq<char>,
) -> Result<Parsed<AssignmentView>, ParseErrorView>
    decreases toks.len() - k,
{
    if k < 0 || k >= toks.len() {
        Err(ran_out(missing_semicolon(), toks, k, path))
    } else {
        let tok = toks[k];
        if tok.kind == TokenKind::Comma {
            spec_values(toks, k + 1, key, tok, value, vkind, tips, path)
        } else if !assignment_kind(tok.kind) && prev.kind == TokenKind::Comma {
            Err(
                ParseErrorView::Syntax(
                    SyntaxErrorView::UnexpectedToken(loc_of(tok, path), after_comma(vkind, tok)),
                ),
            )
        } else if tok.kind == TokenKind::SemiColon && vkind is Some {
            Ok(
                Parsed {
                    value: AssignmentView {
                        key,
                        value,
                        kind: vkind.unwrap(),
                        ident_kind: TokenKind::Identifier,
                    },
                    next: k + 1,
                    tips,
                },
            )
        } else if vkind is Some && tok.kind != vkind.unwrap() {
            if prev.kind == TokenKind::Comma {
                Err(
                    ParseErrorView::Semantic(
                        SemanticErrorView::DiffOptionTypes(
                            loc_of(tok, path),
                            after_comma(vkind, tok),
                        ),
                    ),
                )
            } else {
                Err(
                    ParseErrorView::Syntax(
                        SyntaxErrorView::UnexpectedToken(
                            end_loc(prev, path),
                            no_comma(vkind.unwrap(), tok),
                        ),
                    ),
                )
            }
        } else if tok.kind == TokenKind::SemiColon {
            Err(ParseErrorView::Semantic(SemanticErrorView::EmptyStatement(loc_of(tok, path), key)))
        } else if !assignment_kind(tok.kind) {
            Err(
                ParseErrorView::Syntax(
                    SyntaxErrorView::UnexpectedToken(loc_of(tok, path), no_value(prev.kind, tok)),
                ),
            )
        } else {
            spec_values(
                toks,
                k + 1,
                key,
                tok,
                if vkind is None {
                    tok.lexeme
                } else {
                    value + seq![','] + tok.lexeme
                },
                Some(tok.kind),
                if prev.kind == TokenKind::Comma && vkind is None {
                    tips.push(comma_tip(prev, path))
                } else {
                    tips
                },
                path,
            )
        }
    }
}

/// The statement whose identifier, or directive where `is_dir` holds, is at
/// position `i`. A directive takes one string and a semicolon.
pub open spec fn spec_statement(
    toks: Seq<TokenView>,
    i: int,
    is_dir: bool,
    tips: Seq<TipView>,
    path: Seq<char>,
) -> Result<Parsed<AssignmentView>, ParseErrorView> {
    let ident_kind = if is_dir {
        TokenKind::Directive
    } else {
        TokenKind::Identifier
    };
    match expect_after(
        toks,
        i,
        TokenKind::Eq,
        "Expected "@ + kind_name(TokenKind::Eq) + " after "@ + kind_name(ident_kind),
        path,
    ) {
        Err(e) => Err(e),
        Ok(_) => if !is_dir {
            spec_values(toks, i + 2, toks[i].lexeme, toks[i + 1], Seq::empty(), None, tips, path)
        } else if i + 2 >= toks.len() {
            Err(ran_out(directive_value(), toks, i + 2, path))
        } else if toks[i + 2].kind != TokenKind::String {
            Err(unexpected(directive_value(), toks[i + 2], path))
        } else {
            match expect_after(toks, i + 2, TokenKind::SemiColon, missing_semicolon(), path) {
                Err(e) => Err(e),
                Ok(_) => Ok(
                    Parsed {
                        value: AssignmentView {
                            key: toks[i].lexeme,
                            value: toks[i + 2].lexeme,
                            kind: TokenKind::String,
                            ident_kind,
                        },
                        next: i + 4,
                        tips,
                    },
                ),
            }
        },
    }
}

/// What a block's header has shown of its names so far.
pub struct Names {
    /// Every name, in order.
    pub idents: Seq<Seq<char>>,
    /// The names of one character, each once.
    pub shorts: Seq<Seq<char>>,
    /// The place of the second of them.
    pub short_loc: Option<LocView>,
    /// The names that the header repeats, each once.
    pub dups: Seq<Seq<char>>,
    /// The place of the first repetition.
    pub dup_loc: Option<LocView>,
}

/// No name yet.
pub open spec fn no_names() -> Names {
    Names {
        idents: Seq::empty(),
        shorts: Seq::empty(),
        short_loc: None,
        dups: Seq::empty(),
        dup_loc: None,
    }
}

/// The names with the identifier `tok` added: a name that came before is a
/// repetition, and any other name of one character is a short name.
pub open spec fn add_name(st: Names, tok: TokenView, path: Seq<char>) -> Names {
    let name = tok.lexeme;
    let idents = st.idents.push(name);
    if st.idents.contains(name) {
        Names {
            idents,
            dups: if st.dups.contains(name) {
                st.dups
            } else {
                st.dups.push(name)
            },
            dup_loc: if st.dup_loc is None {
                Some(loc_of(tok, path))
            } else {
                st.dup_loc
            },
            ..st
        }
    } else if name.len() == 1 {
        Names {
            idents,
            shorts: st.shorts.push(name),
            short_loc: if st.shorts.len() == 1 {
                Some(loc_of(tok, path))
            } else {
                st.short_loc
            },
            ..st
        }
    } else {
        Names { idents, ..st }
    }
}

/// The message on a token in a header where a name must stand.
pub open spec fn want_name() -> Seq<char> {
    "Expected "@ + kind_name(TokenKind::Identifier) + " after "@ + kind_name(TokenKind::Alt)
}

/// The message on a token in a header behind a name.
pub open spec fn want_alt() -> Seq<char> {
    "Expected "@ + kind_name(TokenKind::Alt) + " or "@ + kind_name(TokenKind::OpenBrace)
}

/// The names of a header from position `k` on, up to its opening brace:
/// names and `/` in turn, `want_ident` saying that a name is due. More than
/// one short name is reported before a repeated name.
pub open spec fn spec_header_loop(
    toks: Seq<TokenView>,
    k: int,
    want_ident: bool,
    st: Names,
    path: Seq<char>,
) -> Result<(Seq<Seq<char>>, int), ParseErrorView>
    decreases toks.len() - k,
{
    if k < 0 || k >= toks.len() {
        Err(
            ran_out(
                if want_ident {
                    want_name()
                } else {
                    want_alt()
                },
                toks,
                k,
                path,
            ),
        )
    } else if want_ident {
        if toks[k].kind != TokenKind::Identifier {
            Err(unexpected(want_name(), toks[k], path))
        } else {
            spec_header_loop(toks, k + 1, false, add_name(st, toks[k], path), path)
        }
    } else if toks[k].kind == TokenKind::OpenBrace {
        if st.shorts.len() > 1 {
            Err(
                ParseErrorView::Semantic(
                    SemanticErrorView::ExtraShortName(st.short_loc.unwrap(), st.shorts),
                ),
            )
        } else if st.dups.len() > 0 {
            Err(
                ParseErrorView::Semantic(
                    SemanticErrorView::DuplicateName(st.dup_loc.unwrap(), st.dups),
                ),
            )
        } else {
            Ok((st.idents, k + 1))
        }
    } else if toks[k].kind == TokenKind::Alt {
        spec_header_loop(toks, k + 1, true, st, path)
    } else {
        Err(unexpected(want_alt(), toks[k], path))
    }
}

/// The header of the block whose keyword is at position `i`: its names, and
/// the position behind its opening brace.
pub open spec fn spec_header(toks: Seq<TokenView>, i: int, path: Seq<char>) -> Result<
    (Seq<Seq<char>>, int),
    ParseErrorView,
> {
    match expect_after(
        toks,
        i,
        TokenKind::Identifier,
        "Expected at least 1 "@ + kind_name(TokenKind::Identifier) + " after "@ + kind_name(
            TokenKind::Keyword,
        ),
        path,
    ) {
        Err(e) => Err(e),
        Ok(_) => spec_header_loop(toks, i + 1, true, no_names(), path),
    }
}

/// The position at which a parse goes on behind an item that started at `k`
/// and ended at `next`, among `len` tokens. An item ends behind its first
/// token and within the tokens, so this is `next`.
pub open spec fn behind(k: int, next: int, len: nat) -> int {
    if k < next <= len {
        next
    } else {
        k + 1
    }
}

/// The message on a token in a block's body that starts nothing.
pub open spec fn want_item(keyword: Seq<char>) -> Seq<char> {
    if keyword == "command"@ {
        "Expected "@ + kind_name(TokenKind::Identifier) + " or "@ + kind_name(TokenKind::Keyword)
    } else {
        "Expected "@ + kind_name(TokenKind::Identifier)
    }
}

/// The block whose keyword is at position `i`.
pub open spec fn spec_block(toks: Seq<TokenView>, i: int, tips: Seq<TipView>, path: Seq<char>)
    -> Result<Parsed<BlockView>, ParseErrorView>
    decreases toks.len() - i, 0int,
{
    match spec_header(toks, i, path) {
        Err(e) => Err(e),
        Ok((idents, k)) => spec_body(
            toks,
            behind(i, k, toks.len()),
            BlockView {
                keyword: toks[i].lexeme,
                identifiers: idents,
                statements: Seq::empty(),
                blocks: Seq::empty(),
            },
            tips,
            path,
        ),
    }
}

/// The body of a block from position `k` on, up to its closing brace, where
/// `block` holds what was read of it so far. Only a `command` takes nested blocks.
pub open spec fn spec_body(
    toks: Seq<TokenView>,
    k: int,
    block: BlockView,
    tips: Seq<TipView>,
    path: Seq<char>,
) -> Result<Parsed<BlockView>, ParseErrorView>
    decreases toks.len() - k, 1int,
{
    if k < 0 || k >= toks.len() {
        Err(ran_out("Expected "@ + kind_name(TokenKind::CloseBrace), toks, k, path))
    } else if toks[k].kind == TokenKind::CloseBrace {
        Ok(
            Parsed {
                value: block,
                next: k + 1,
                tips: if block.statements.len() == 0 && block.blocks.len() == 0 {
                    tips.push(empty_tip(toks[k], path))
                } else {
                    tips
                },
            },
        )
    } else if toks[k].kind == TokenKind::Identifier {
        match spec_statement(toks, k, false, tips, path) {
            Err(e) => Err(e),
            Ok(p) => spec_body(
                toks,
                behind(k, p.next, toks.len()),
                BlockView { statements: block.statements.push(p.value), ..block },
                p.tips,
                path,
            ),
        }
    } else if toks[k].kind == TokenKind::Keyword {
        if block.keyword != "command"@ {
            Err(
                ParseErrorView::Semantic(
                    SemanticErrorView::CannotNest(loc_of(toks[k], path), toks[k].lexeme),
                ),
            )
        } else {
            match spec_block(toks, k, tips, path) {
                Err(e) => Err(e),
                Ok(p) => spec_body(
                    toks,
                    behind(k, p.next, toks.len()),
                    BlockView { blocks: block.blocks.push(p.value), ..block },
                    p.tips,
                    path,
                ),
            }
        }
    } else {
        Err(unexpected(want_item(block.keyword), toks[k], path))
    }
}

/// The message on a token at the top level that starts nothing.
pub open spec fn want_top() -> Seq<char> {
    "Expected "@ + kind_name(TokenKind::Directive) + " or "@ + kind_name(TokenKind::Keyword)
}

/// The directives and blocks of the top level from position `k` on, where
/// `root` holds what was read so far.
pub open spec fn spec_top(
    toks: Seq<TokenView>,
    k: int,
    root: BlockView,
    tips: Seq<TipView>,
    path: Seq<char>,
) -> Result<(BlockView, Seq<TipView>), ParseErrorView>
    decreases toks.len() - k,
{
    if k < 0 || k >= toks.len() {
        Ok((root, tips))
    } else if toks[k].kind == TokenKind::Directive {
        match spec_statement(toks, k, true, tips, path) {
            Err(e) => Err(e),
            Ok(p) => spec_top(
                toks,
                behind(k, p.next, toks.len()),
                BlockView { statements: root.statements.push(p.value), ..root },
                p.tips,
                path,
            ),
        }
    } else if toks[k].kind == TokenKind::Keyword {
        match spec_block(toks, k, tips, path) {
            Err(e) => Err(e),
            Ok(p) => spec_top(
                toks,
                behind(k, p.next, toks.len()),
                BlockView { blocks: root.blocks.push(p.value), ..root },
                p.tips,
                path,
            ),
        }
    } else {
        Err(unexpected(want_top(), toks[k], path))
    }
}

/// The tree of the tokens from position `k` on, added to `root`, with the
/// tips given on the way; no token at all is an error.
pub open spec fn spec_parse(
    toks: Seq<TokenView>,
    k: int,
    root: BlockView,
    tips: Seq<TipView>,
    path: Seq<char>,
) -> Result<(BlockView, Seq<TipView>), ParseErrorView> {
    if k >= toks.len() {
        Err(
            ParseErrorView::Syntax(
                SyntaxErrorView::NoToken(
                    LocView { path, line: 0, col: 0 },
                    want_top() + " but got no token"@,
                ),
            ),
        )
    } else {
        spec_top(toks, k, root, tips, path)
    }
}

/// The root of a tree that holds nothing yet.
pub open spec fn empty_root() -> BlockView {
    BlockView {
        keyword: "root"@,
        identifiers: Seq::empty(),
        statements: Seq::empty(),
        blocks: Seq::empty(),
    }
}

/// No name occurs twice.
pub open spec fn distinct(names: Seq<Seq<char>>) -> bool {
    forall|i: int, j: int| 0 <= i < j < names.len() ==> names[i] != names[j]
}

/// At most one name has one character.
pub open spec fn one_short(names: Seq<Seq<char>>) -> bool {
    forall|i: int, j: int|
        0 <= i < j < names.len() ==> !(names[i].len() == 1 && names[j].len() == 1)
}

/// A statement of a block: an identifier is given values of one kind.
pub open spec fn valid_statement(a: AssignmentView) -> bool {
    a.ident_kind == TokenKind::Identifier && assignment_kind(a.kind)
}

/// A directive: it is given a string.
pub open spec fn valid_directive(a: AssignmentView) -> bool {
    a.ident_kind == TokenKind::Directive && a.kind == TokenKind::String
}

/// The rules that the statements and nested blocks of a block keep: only a
/// `command` holds blocks, and each of them is valid.
pub open spec fn valid_body(b: BlockView) -> bool
    decreases b, 0int,
{
    &&& b.blocks.len() > 0 ==> b.keyword == "command"@
    &&& forall|i: int| 0 <= i < b.statements.len() ==> valid_statement(#[trigger] b.statements[i])
    &&& forall|i: int| 0 <= i < b.blocks.len() ==> valid_block(#[trigger] b.blocks[i])
}

/// The rules that a block keeps: it has a name, no name twice, at most one
/// short name, and a valid body.
pub open spec fn valid_block(b: BlockView) -> bool
    decreases b, 1int,
{
    &&& b.identifiers.len() >= 1
    &&& distinct(b.identifiers)
    &&& one_short(b.identifiers)
    &&& valid_body(b)
}

/// The rules that the root of a tree keeps: it has the keyword `root`, no
/// name, directives for statements, and valid blocks.
pub open spec fn valid_root(b: BlockView) -> bool {
    &&& b.keyword == "root"@
    &&& b.identifiers.len() == 0
    &&& forall|i: int| 0 <= i < b.statements.len() ==> valid_directive(#[trigger] b.statements[i])
    &&& forall|i: int| 0 <= i < b.blocks.len() ==> valid_block(#[trigger] b.blocks[i])
}

/// The values of a statement have a kind that a value may have, and the
/// statement ends behind the position at which its values start.
pub proof fn lemma_values_valid(
    toks: Seq<TokenView>,
    k: int,
    key: Seq<char>,
    prev: TokenView,
    value: Seq<char>,
    vkind: Option<TokenKind>,
    tips: Seq<TipView>,
    path: Seq<char>,
)
    requires
        0 <= k,
        vkind matches Some(kind) ==> assignment_kind(kind),
    ensures
        spec_values(toks, k, key, prev, value, vkind, tips, path) matches Ok(p) ==> valid_statement(
            p.value,
        ) && k < p.next <= toks.len(),
    decreases toks.len() - k,
{
    if k < toks.len() {
        let tok = toks[k];
        if tok.kind == TokenKind::Comma {
            lemma_values_valid(toks, k + 1, key, tok, value, vkind, tips, path);
        } else if !assignment_kind(tok.kind) && prev.kind == TokenKind::Comma {
        } else if tok.kind == TokenKind::SemiColon && vkind is Some {
        } else if vkind is Some && tok.kind != vkind.unwrap() {
        } else if tok.kind == TokenKind::SemiColon {
        } else if !assignment_kind(tok.kind) {
        } else {
            lemma_values_valid(
                toks,
                k + 1,
                key,
                tok,
                if vkind is None {
                    tok.lexeme
                } else {
                    value + seq![','] + tok.lexeme
                },
                Some(tok.kind),
                if prev.kind == TokenKind::Comma && vkind is None {
                    tips.push(comma_tip(prev, path))
                } else {
                    tips
                },
                path,
            );
        }
    }
}

/// A statement that parses keeps the rules of its kind, and ends behind its
/// first token.
pub proof fn lemma_statement_valid(
    toks: Seq<TokenView>,
    i: int,
    is_dir: bool,
    tips: Seq<TipView>,
    path: Seq<char>,
)
    requires
        0 <= i,
    ensures
        spec_statement(toks, i, is_dir, tips, path) matches Ok(p) ==> i < p.next <= toks.len() && (
        if is_dir {
            valid_directive(p.value)
        } else {
            valid_statement(p.value)
        }),
{
    if !is_dir && i + 1 < toks.len() {
        lemma_values_valid(toks, i + 2, toks[i].lexeme, toks[i + 1], Seq::empty(), None, tips, path);
    }
}

/// What holds of the names of a header while it is read: unless a name was
/// repeated no name occurs twice, and every name of one character is among
/// the short names.
pub open spec fn names_kept(st: Names) -> bool {
    &&& st.dups.len() == 0 ==> distinct(st.idents)
    &&& forall|i: int|
        0 <= i < st.idents.len() && (#[trigger] st.idents[i]).len() == 1 ==> st.shorts.contains(
            st.idents[i],
        )
}

/// Adding a name keeps what holds of the names of a header.
pub proof fn lemma_add_name(st: Names, tok: TokenView, path: Seq<char>)
    requires
        names_kept(st),
    ensures
        names_kept(add_name(st, tok, path)),
        add_name(st, tok, path).idents.len() == st.idents.len() + 1,
{
    let name = tok.lexeme;
    let after = add_name(st, tok, path);
    if st.idents.contains(name) {
        let at = choose|i: int| 0 <= i < st.idents.len() && st.idents[i] == name;
        assert(after.dups.len() > 0);
        assert forall|i: int|
            0 <= i < after.idents.len() && (#[trigger] after.idents[i]).len()
                == 1 implies after.shorts.contains(after.idents[i]) by {
            if i == st.idents.len() {
                assert(st.idents[at].len() == 1);
            } else {
                assert(after.idents[i] == st.idents[i]);
            }
        }
    } else if name.len() == 1 {
        assert(after.shorts.last() == name);
        assert forall|i: int|
            0 <= i < after.idents.len() && (#[trigger] after.idents[i]).len()
                == 1 implies after.shorts.contains(after.idents[i]) by {
            if i == st.idents.len() {
                assert(after.shorts[after.shorts.len() - 1] == name);
            } else {
                assert(after.idents[i] == st.idents[i]);
                let at = choose|j: int| 0 <= j < st.shorts.len() && st.shorts[j] == st.idents[i];
                assert(after.shorts[at] == st.idents[i]);
            }
        }
        if after.dups.len() == 0 {
            assert forall|i: int, j: int| 0 <= i < j < after.idents.len() implies after.idents[i]
                != after.idents[j] by {
                if j == st.idents.len() {
                    assert(st.idents[i] == after.idents[i]);
                }
            }
        }
    } else {
        assert forall|i: int|
            0 <= i < after.idents.len() && (#[trigger] after.idents[i]).len()
                == 1 implies after.shorts.contains(after.idents[i]) by {
            assert(after.idents[i] == st.idents[i]);
        }
        if after.dups.len() == 0 {
            assert forall|i: int, j: int| 0 <= i < j < after.idents.len() implies after.idents[i]
                != after.idents[j] by {
                if j == st.idents.len() {
                    assert(st.idents[i] == after.idents[i]);
                }
            }
        }
    }
}

/// The names of a header that parses: at least one, none twice, at most one
/// of one character; and the header ends behind the position at which its
/// names start.
pub proof fn lemma_header_loop_valid(
    toks: Seq<TokenView>,
    k: int,
    want_ident: bool,
    st: Names,
    path: Seq<char>,
)
    requires
        0 <= k,
        names_kept(st),
        !want_ident ==> st.idents.len() >= 1,
    ensures
        spec_header_loop(toks, k, want_ident, st, path) matches Ok((names, next)) ==> names.len()
            >= 1 && distinct(names) && one_short(names) && k < next <= toks.len(),
    decreases toks.len() - k,
{
    if k < toks.len() {
        if want_ident {
            if toks[k].kind == TokenKind::Identifier {
                lemma_add_name(st, toks[k], path);
                lemma_header_loop_valid(toks, k + 1, false, add_name(st, toks[k], path), path);
            }
        } else if toks[k].kind == TokenKind::OpenBrace {
            if st.shorts.len() <= 1 && st.dups.len() == 0 {
                assert forall|i: int, j: int| 0 <= i < j < st.idents.len() implies !(st.idents[i].len()
                    == 1 && st.idents[j].len() == 1) by {
                    if st.idents[i].len() == 1 && st.idents[j].len() == 1 {
                        let a = choose|x: int| 0 <= x < st.shorts.len() && st.shorts[x] == st.idents[i];
                        let b = choose|x: int| 0 <= x < st.shorts.len() && st.shorts[x] == st.idents[j];
                        assert(a == b);
                    }
                }
            }
        } else if toks[k].kind == TokenKind::Alt {
            lemma_header_loop_valid(toks, k + 1, true, st, path);
        }
    }
}

/// A block that parses keeps the rules of blocks, and ends behind its keyword.
pub proof fn lemma_block_valid(toks: Seq<TokenView>, i: int, tips: Seq<TipView>, path: Seq<char>)
    requires
        0 <= i,
    ensures
        spec_block(toks, i, tips, path) matches Ok(p) ==> valid_block(p.value) && i < p.next
            <= toks.len(),
    decreases toks.len() - i, 0int,
{
    if spec_header(toks, i, path) is Ok {
        let (idents, k) = spec_header(toks, i, path)->Ok_0;
        lemma_header_loop_valid(toks, i + 1, true, no_names(), path);
        let fresh = BlockView {
            keyword: toks[i].lexeme,
            identifiers: idents,
            statements: Seq::empty(),
            blocks: Seq::empty(),
        };
        lemma_body_valid(toks, k, fresh, tips, path);
    }
}

/// The body of a block that parses keeps the rules of blocks, where what was
/// read of the block before keeps them; and it ends behind the position at
/// which it starts.
pub proof fn lemma_body_valid(
    toks: Seq<TokenView>,
    k: int,
    block: BlockView,
    tips: Seq<TipView>,
    path: Seq<char>,
)
    requires
        0 <= k,
        valid_block(block),
    ensures
        spec_body(toks, k, block, tips, path) matches Ok(p) ==> valid_block(p.value) && k < p.next
            <= toks.len(),
    decreases toks.len() - k, 1int,
{
    if k < toks.len() {
        if toks[k].kind == TokenKind::CloseBrace {
        } else if toks[k].kind == TokenKind::Identifier {
            lemma_statement_valid(toks, k, false, tips, path);
            if spec_statement(toks, k, false, tips, path) is Ok {
                let p = spec_statement(toks, k, false, tips, path)->Ok_0;
                let more = BlockView { statements: block.statements.push(p.value), ..block };
                assert forall|i: int| 0 <= i < more.statements.len() implies valid_statement(
                    #[trigger] more.statements[i],
                ) by {
                    if i < block.statements.len() {
                        assert(more.statements[i] == block.statements[i]);
                    }
                }
                lemma_body_valid(toks, p.next, more, p.tips, path);
            }
        } else if toks[k].kind == TokenKind::Keyword {
            if block.keyword == "command"@ {
                lemma_block_valid(toks, k, tips, path);
                if spec_block(toks, k, tips, path) is Ok {
                    let p = spec_block(toks, k, tips, path)->Ok_0;
                    let more = BlockView { blocks: block.blocks.push(p.value), ..block };
                    assert forall|i: int| 0 <= i < more.blocks.len() implies valid_block(
                        #[trigger] more.blocks[i],
                    ) by {
                        if i < block.blocks.len() {
                            assert(more.blocks[i] == block.blocks[i]);
                        }
                    }
                    lemma_body_valid(toks, p.next, more, p.tips, path);
                }
            }
        }
    }
}

/// The top level of a tree that parses keeps the rules of the root, where
/// what was read of it before keeps them.
pub proof fn lemma_top_valid(
    toks: Seq<TokenView>,
    k: int,
    root: BlockView,
    tips: Seq<TipView>,
    path: Seq<char>,
)
    requires
        0 <= k,
        valid_root(root),
    ensures
        spec_top(toks, k, root, tips, path) matches Ok((tree, _)) ==> valid_root(tree),
    decreases toks.len() - k,
{
    if k < toks.len() {
        if toks[k].kind == TokenKind::Directive {
            lemma_statement_valid(toks, k, true, tips, path);
            if spec_statement(toks, k, true, tips, path) is Ok {
                let p = spec_statement(toks, k, true, tips, path)->Ok_0;
                let more = BlockView { statements: root.statements.push(p.value), ..root };
                assert forall|i: int| 0 <= i < more.statements.len() implies valid_directive(
                    #[trigger] more.statements[i],
                ) by {
                    if i < root.statements.len() {
                        assert(more.statements[i] == root.statements[i]);
                    }
                }
                lemma_top_valid(toks, p.next, more, p.tips, path);
            }
        } else if toks[k].kind == TokenKind::Keyword {
            lemma_block_valid(toks, k, tips, path);
            if spec_block(toks, k, tips, path) is Ok {
                let p = spec_block(toks, k, tips, path)->Ok_0;
                let more = BlockView { blocks: root.blocks.push(p.value), ..root };
                assert forall|i: int| 0 <= i < more.blocks.len() implies valid_block(
                    #[trigger] more.blocks[i],
                ) by {
                    if i < root.blocks.len() {
                        assert(more.blocks[i] == root.blocks[i]);
                    }
                }
                lemma_top_valid(toks, p.next, more, p.tips, path);
            }
        }
    }
}

/// Every tree that a parse gives keeps the rules of the language: each block
/// has a name, no name twice and at most one short name; only a `command`
/// holds nested blocks; a statement has values of one kind that a value may
/// have, and a directive a string.
pub proof fn lemma_parse_valid(toks: Seq<TokenView>, tips: Seq<TipView>, path: Seq<char>)
    ensures
        spec_parse(toks, 0, empty_root(), tips, path) matches Ok((tree, _)) ==> valid_root(tree),
{
    lemma_top_valid(toks, 0, empty_root(), tips, path);
}

} // verus!
