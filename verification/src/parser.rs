//! The parser: from tokens to a validated tree of blocks and statements.

use crate::ast::{lemma_block_view, Assignment, AssignmentView, Block, BlockView};
use crate::common::errors::{
    reports, string_views, tip_views, Loc, ParseError, ParseErrorView, SemanticError, SyntaxError,
    Tip, TipView,
};
use crate::common::text::is_word;
use crate::common::tokens::{
    assignment_kind, fmt_assignment_kinds, is_assignment_kind, kind_name, token_views, Token,
    TokenKind, TokenView,
};
use crate::lexical::{fails_with, tokens_of};
use crate::syntax::{
    add_name, after_comma, but_got, directive_value, empty_root, end_loc, expect_after,
    lemma_parse_valid, loc_of, missing_semicolon, no_comma, no_value, ran_out, spec_block,
    spec_body, spec_header, spec_header_loop, spec_parse, spec_statement, spec_top, spec_values,
    unexpected, valid_root, want_alt, want_item, want_name, want_top, Names, Parsed,
};
use crate::tokenizer::tokenize;
use vstd::prelude::*;

verus! {

/// A cursor over the tokens of one file, the tree built so far, and the tips
/// given on the way. `pos` is the index of the token that comes next. Where
/// `styled` holds, the kinds and tokens that a message names go through the
/// terminal styling.
pub struct Parser<'a> {
    pub root: Block,
    pub tokens: &'a [Token],
    pub pos: usize,
    pub path: String,
    pub tips: Vec<Tip>,
    pub styled: bool,
}

/// Adds `name` behind `names`.
pub fn push_name(names: &mut Vec<String>, name: String)
    ensures
        string_views(final(names)@) == string_views(old(names)@).push(name@),
{
    let ghost before = string_views(names@);
    names.push(name);
    assert(string_views(names@) =~= before.push(name@));
}

/// Adds `tip` behind `tips`.
pub fn push_tip(tips: &mut Vec<Tip>, tip: Tip)
    ensures
        tip_views(final(tips)@) == tip_views(old(tips)@).push(tip@),
{
    let ghost before = tip_views(tips@);
    tips.push(tip);
    assert(tip_views(tips@) =~= before.push(tip@));
}

/// Whether `name` is among `names`.
pub fn has_name(names: &Vec<String>, name: &String) -> (r: bool)
    ensures
        r == string_views(names@).contains(name@),
{
    let mut i: usize = 0;
    while i < names.len()
        invariant
            i <= names@.len(),
            forall|j: int| 0 <= j < i ==> string_views(names@)[j] != name@,
        decreases names@.len() - i,
    {
        if names[i] == *name {
            assert(string_views(names@)[i as int] == name@);
            return true;
        }
        i += 1;
    }
    false
}

/// The message `expected`, with the kind and text of the token found.
pub fn but_got_msg(expected: String, tok: &Token, styled: bool) -> (r: String)
    ensures
        !styled ==> r@ == but_got(expected@, tok@),
{
    expected.concat(", but got ").concat(tok.kind.as_str(styled).as_str()).concat(": ").concat(
        tok.render(styled).as_str(),
    )
}

/// The names of a header, from the parser's variables.
pub open spec fn names_of(
    seen: Vec<String>,
    shorts: Vec<String>,
    short_loc: Option<Loc>,
    dups: Vec<String>,
    dup_loc: Option<Loc>,
) -> Names {
    Names {
        idents: string_views(seen@),
        shorts: string_views(shorts@),
        short_loc: match short_loc {
            Some(l) => Some(l@),
            None => None,
        },
        dups: string_views(dups@),
        dup_loc: match dup_loc {
            Some(l) => Some(l@),
            None => None,
        },
    }
}

impl<'a> Parser<'a> {
    /// The tokens as mathematical values.
    pub open spec fn toks(&self) -> Seq<TokenView> {
        token_views(self.tokens@)
    }

    /// What the grammar gives for the token at the cursor and the one behind
    /// it, where the kind `exp` is expected there.
    pub open spec fn expected_here(&self, exp: TokenKind, msg: Seq<char>) -> Result<
        (),
        ParseErrorView,
    > {
        expect_after(self.toks(), self.pos as int, exp, msg, self.path@)
    }

    /// What the grammar gives for the statement at the cursor.
    pub open spec fn statement_here(&self, is_dir: bool) -> Result<
        Parsed<AssignmentView>,
        ParseErrorView,
    > {
        spec_statement(self.toks(), self.pos as int, is_dir, tip_views(self.tips@), self.path@)
    }

    /// What the grammar gives for the header of the block at the cursor.
    pub open spec fn header_here(&self) -> Result<(Seq<Seq<char>>, int), ParseErrorView> {
        spec_header(self.toks(), self.pos as int, self.path@)
    }

    /// What the grammar gives for the block at the cursor.
    pub open spec fn block_here(&self) -> Result<Parsed<BlockView>, ParseErrorView> {
        spec_block(self.toks(), self.pos as int, tip_views(self.tips@), self.path@)
    }

    /// What the grammar gives for the tokens from the cursor to the end, added
    /// to the tree built so far.
    pub open spec fn rest_here(&self) -> Result<(BlockView, Seq<TipView>), ParseErrorView> {
        spec_parse(self.toks(), self.pos as int, self.root@, tip_views(self.tips@), self.path@)
    }

    /// `value` as parsed up to the cursor, with the tips given so far.
    pub open spec fn parsed<T>(&self, value: T) -> Parsed<T> {
        Parsed { value, next: self.pos as int, tips: tip_views(self.tips@) }
    }

    /// The tree built so far, with the tips given so far.
    pub open spec fn tree(&self) -> (BlockView, Seq<TipView>) {
        (self.root@, tip_views(self.tips@))
    }

    /// `self` reads the same tokens of the same file as `other`.
    pub open spec fn same_input(&self, other: &Self) -> bool {
        self.tokens@ == other.tokens@ && self.path@ == other.path@ && self.styled == other.styled
    }

    /// A parser at the first of `tokens`, with an empty tree, whose messages
    /// are styled.
    pub fn new(tokens: &'a [Token], path: &str) -> (p: Self)
        ensures
            p.tokens@ == tokens@,
            p.path@ == path@,
            p.pos == 0,
            p.styled,
            p.root@ == empty_root(),
            tip_views(p.tips@) == Seq::<TipView>::empty(),
    {
        let root = Block {
            keyword: "root".to_owned(),
            identifiers: Vec::new(),
            statements: Vec::new(),
            blocks: Vec::new(),
        };
        let tips: Vec<Tip> = Vec::new();
        proof {
            lemma_block_view(root);
            assert(root@.identifiers =~= Seq::empty());
            assert(root@.statements =~= Seq::empty());
            assert(root@.blocks =~= Seq::empty());
            assert(tip_views(tips@) =~= Seq::empty());
        }
        Parser { root, tokens, pos: 0, path: path.to_owned(), tips, styled: true }
    }

    /// The place at which `tok` starts.
    pub fn get_loc(&self, tok: &Token) -> (l: Loc)
        ensures
            l@ == loc_of(tok@, self.path@),
    {
        Loc { path: self.path.clone(), line: tok.line, col: tok.col }
    }

    /// The place of the last character of `tok`.
    pub fn get_end_loc(&self, tok: &Token) -> (l: Loc)
        ensures
            l@ == end_loc(tok@, self.path@),
    {
        let w: usize = tok.len();
        let extra: usize = if w > 0 {
            w - 1
        } else {
            0
        };
        let col: usize = if tok.col <= usize::MAX - extra {
            tok.col + extra
        } else {
            usize::MAX
        };
        Loc { path: self.path.clone(), line: tok.line, col }
    }

    /// The error for a text that ends where the grammar expects more.
    pub fn no_token(&self, expected: String) -> (e: ParseError)
        ensures
            e@ == ran_out(expected@, self.toks(), self.pos as int, self.path@),
    {
        let loc = if 0 < self.pos && self.pos <= self.tokens.len() {
            self.get_loc(&self.tokens[self.pos - 1])
        } else {
            Loc { path: self.path.clone(), line: 0, col: 0 }
        };
        ParseError::Syntax(SyntaxError::NoToken(loc, expected.concat("; got no token")))
    }

    /// The error for the token `tok` where the grammar expects something else.
    pub fn unexpected_token(&self, expected: String, tok: &Token) -> (e: ParseError)
        ensures
            reports(e@, unexpected(expected@, tok@, self.path@), self.styled),
    {
        ParseError::Syntax(
            SyntaxError::UnexpectedToken(self.get_loc(tok), but_got_msg(expected, tok, self.styled)),
        )
    }

    /// Steps over the token at the cursor and checks that the next one has
    /// the kind `exp`; that token is returned and not stepped over.
    pub fn expect_next(&mut self, exp: TokenKind, msg: String) -> (r: Result<Token, ParseError>)
        ensures
            final(self).same_input(old(self)),
            final(self).root == old(self).root,
            final(self).tips == old(self).tips,
            final(self).pos == if old(self).pos < old(self).tokens@.len() {
                old(self).pos + 1
            } else {
                old(self).pos as int
            },
            match r {
                Ok(t) => old(self).expected_here(exp, msg@) is Ok
                    && old(self).pos + 1 < old(self).tokens@.len()
                    && t == old(self).tokens@[old(self).pos + 1],
                Err(e) => old(self).expected_here(exp, msg@) matches Err(x) && reports(
                    e@,
                    x,
                    old(self).styled,
                ),
            },
    {
        let tokens: &[Token] = self.tokens;
        if self.pos >= tokens.len() {
            let loc = Loc { path: self.path.clone(), line: 0, col: 0 };
            return Err(ParseError::Syntax(SyntaxError::NoToken(loc, msg.concat("; got no token"))));
        }
        self.pos = self.pos + 1;
        if self.pos < tokens.len() {
            let next_tok: &Token = &tokens[self.pos];
            if next_tok.kind != exp {
                let loc = match exp {
                    TokenKind::SemiColon => self.get_end_loc(&tokens[self.pos - 1]),
                    _ => self.get_loc(next_tok),
                };
                let msg = msg.concat("; next token is ").concat(
                    next_tok.kind.as_str(self.styled).as_str(),
                );
                return Err(ParseError::Syntax(SyntaxError::UnexpectedToken(loc, msg)));
            }
            return Ok(next_tok.clone());
        }
        Err(self.no_token(msg))
    }

    /// Checks that a semicolon follows the token at the cursor.
    pub fn expect_semicolon(&mut self) -> (r: Result<(), ParseError>)
        ensures
            final(self).same_input(old(self)),
            final(self).root == old(self).root,
            final(self).tips == old(self).tips,
            final(self).pos == if old(self).pos < old(self).tokens@.len() {
                old(self).pos + 1
            } else {
                old(self).pos as int
            },
            match r {
                Ok(_) => old(self).expected_here(TokenKind::SemiColon, missing_semicolon()) is Ok
                    && old(self).pos + 1 < old(self).tokens@.len(),
                Err(e) => old(self).expected_here(TokenKind::SemiColon, missing_semicolon())
                    matches Err(x) && reports(e@, x, old(self).styled),
            },
    {
        match self.expect_next(TokenKind::SemiColon, missing_semicolon_msg(self.styled)) {
            Ok(_) => Ok(()),
            Err(e) => Err(e),
        }
    }

    /// The statement whose identifier, or directive where `is_dir` holds, is
    /// the token `ident_tok` at the cursor.
    pub fn parse_statement(&mut self, ident_tok: &Token, is_dir: bool) -> (r: Result<
        Assignment,
        ParseError,
    >)
        requires
            old(self).pos < old(self).tokens@.len(),
            ident_tok@ == old(self).toks()[old(self).pos as int],
        ensures
            final(self).same_input(old(self)),
            final(self).root == old(self).root,
            match r {
                Ok(a) => old(self).statement_here(is_dir) matches Ok(p) && p == final(self).parsed(a@)
                    && old(self).pos < final(self).pos <= old(self).tokens@.len(),
                Err(e) => old(self).statement_here(is_dir) matches Err(x) && reports(
                    e@,
                    x,
                    old(self).styled,
                ),
            },
    {
        let tokens: &[Token] = self.tokens;
        let ident_kind = if is_dir {
            TokenKind::Directive
        } else {
            TokenKind::Identifier
        };
        let msg = "Expected ".to_owned().concat(TokenKind::Eq.as_str(self.styled).as_str()).concat(
            " after ",
        ).concat(ident_kind.as_str(self.styled).as_str());
        match self.expect_next(TokenKind::Eq, msg) {
            Err(e) => {
                return Err(e);
            },
            Ok(_) => {},
        }
        let eq_pos: usize = self.pos;
        self.pos = self.pos + 1;
        if is_dir {
            if self.pos >= tokens.len() {
                return Err(self.no_token(directive_value_msg(self.styled)));
            }
            let tok: &Token = &tokens[self.pos];
            if tok.kind != TokenKind::String {
                return Err(self.unexpected_token(directive_value_msg(self.styled), tok));
            }
            match self.expect_semicolon() {
                Err(e) => {
                    return Err(e);
                },
                Ok(_) => {},
            }
            self.pos = self.pos + 1;
            return Ok(
                Assignment {
                    key: ident_tok.lexeme.clone(),
                    value: tok.lexeme.clone(),
                    kind: TokenKind::String,
                    ident_kind,
                },
            );
        }
        let mut prev: &Token = &tokens[eq_pos];
        let mut value: String = String::new();
        let mut vkind: Option<TokenKind> = None;
        let ghost target = old(self).statement_here(is_dir);
        while self.pos < tokens.len()
            invariant
                tokens@ == self.tokens@,
                self.same_input(old(self)),
                self.root == old(self).root,
                old(self).pos < self.pos <= tokens@.len(),
                ident_tok@ == old(self).toks()[old(self).pos as int],
                ident_kind == TokenKind::Identifier,
                vkind matches Some(k) ==> assignment_kind(k),
                target == old(self).statement_here(is_dir),
                spec_values(
                    self.toks(),
                    self.pos as int,
                    ident_tok@.lexeme,
                    prev@,
                    value@,
                    vkind,
                    tip_views(self.tips@),
                    self.path@,
                ) == target,
            decreases tokens@.len() - self.pos,
        {
            let tok: &Token = &tokens[self.pos];
            if tok.kind == TokenKind::Comma {
                prev = tok;
                self.pos = self.pos + 1;
            } else if !is_assignment_kind(&tok.kind) && prev.kind == TokenKind::Comma {
                return Err(
                    ParseError::Syntax(
                        SyntaxError::UnexpectedToken(
                            self.get_loc(tok),
                            after_comma_msg(vkind, tok, self.styled),
                        ),
                    ),
                );
            } else {
                match vkind {
                    Some(kind) => {
                        if tok.kind == TokenKind::SemiColon {
                            self.pos = self.pos + 1;
                            return Ok(
                                Assignment {
                                    key: ident_tok.lexeme.clone(),
                                    value,
                                    kind,
                                    ident_kind,
                                },
                            );
                        }
                        if tok.kind != kind {
                            if prev.kind == TokenKind::Comma {
                                return Err(
                                    ParseError::Semantic(
                                        SemanticError::DiffOptionTypes(
                                            self.get_loc(tok),
                                            after_comma_msg(vkind, tok, self.styled),
                                        ),
                                    ),
                                );
                            }
                            return Err(
                                ParseError::Syntax(
                                    SyntaxError::UnexpectedToken(
                                        self.get_end_loc(prev),
                                        no_comma_msg(kind, tok, self.styled),
                                    ),
                                ),
                            );
                        }
                        value = value.concat(",").concat(tok.lexeme.as_str());
                        proof {
                            reveal_strlit(",");
                            assert(","@ =~= seq![',']);
                        }
                    },
                    None => {
                        if tok.kind == TokenKind::SemiColon {
                            return Err(
                                ParseError::Semantic(
                                    SemanticError::EmptyStatement(
                                        self.get_loc(tok),
                                        ident_tok.lexeme.clone(),
                                    ),
                                ),
                            );
                        }
                        if !is_assignment_kind(&tok.kind) {
                            return Err(
                                ParseError::Syntax(
                                    SyntaxError::UnexpectedToken(
                                        self.get_loc(tok),
                                        no_value_msg(prev.kind, tok, self.styled),
                                    ),
                                ),
                            );
                        }
                        if prev.kind == TokenKind::Comma {
                            let tip = Tip { loc: self.get_loc(prev), msg: comma_tip_msg(self.styled) };
                            push_tip(&mut self.tips, tip);
                        }
                        value = tok.lexeme.clone();
                    },
                }
                vkind = Some(tok.kind);
                prev = tok;
                self.pos = self.pos + 1;
            }
        }
        Err(self.no_token(missing_semicolon_msg(self.styled)))
    }

    /// The header of a block whose keyword is at the cursor: its names are
    /// added to `block`, and the cursor ends behind the opening brace.
    pub fn parse_block_header(&mut self, block: &mut Block) -> (r: Result<(), ParseError>)
        ensures
            final(self).same_input(old(self)),
            final(self).root == old(self).root,
            final(self).tips == old(self).tips,
            match r {
                Ok(_) => old(self).header_here() matches Ok((names, next))
                    && next == final(self).pos
                    && final(block)@ == (BlockView {
                        identifiers: old(block)@.identifiers + names,
                        ..old(block)@
                    })
                    && old(self).pos < final(self).pos <= old(self).tokens@.len(),
                Err(e) => old(self).header_here() matches Err(x) && reports(
                    e@,
                    x,
                    old(self).styled,
                ),
            },
    {
        let tokens: &[Token] = self.tokens;
        let msg = "Expected at least 1 ".to_owned().concat(
            TokenKind::Identifier.as_str(self.styled).as_str(),
        ).concat(" after ").concat(TokenKind::Keyword.as_str(self.styled).as_str());
        match self.expect_next(TokenKind::Identifier, msg) {
            Err(e) => {
                return Err(e);
            },
            Ok(_) => {},
        }
        let mut exp_alt: bool = true;
        let mut seen: Vec<String> = Vec::new();
        let mut short_names: Vec<String> = Vec::new();
        let mut short_loc: Option<Loc> = None;
        let mut duplicate_names: Vec<String> = Vec::new();
        let mut duplicate_loc: Option<Loc> = None;
        let ghost target = old(self).header_here();
        proof {
            assert(string_views(seen@) =~= Seq::empty());
            assert(string_views(short_names@) =~= Seq::empty());
            assert(string_views(duplicate_names@) =~= Seq::empty());
            assert(old(block)@.identifiers + string_views(seen@) =~= old(block)@.identifiers);
        }
        while self.pos < tokens.len()
            invariant
                tokens@ == self.tokens@,
                self.same_input(old(self)),
                self.root == old(self).root,
                self.tips == old(self).tips,
                old(self).pos < self.pos <= tokens@.len(),
                target == old(self).header_here(),
                short_names@.len() > 1 ==> short_loc is Some,
                duplicate_names@.len() > 0 ==> duplicate_loc is Some,
                block@ == (BlockView {
                    identifiers: old(block)@.identifiers + string_views(seen@),
                    ..old(block)@
                }),
                spec_header_loop(
                    self.toks(),
                    self.pos as int,
                    exp_alt,
                    names_of(seen, short_names, short_loc, duplicate_names, duplicate_loc),
                    self.path@,
                ) == target,
            decreases tokens@.len() - self.pos,
        {
            let tok: &Token = &tokens[self.pos];
            if exp_alt {
                if tok.kind != TokenKind::Identifier {
                    return Err(self.unexpected_token(want_name_msg(self.styled), tok));
                }
                exp_alt = false;
                self.pos = self.pos + 1;
                let ghost before = names_of(
                    seen,
                    short_names,
                    short_loc,
                    duplicate_names,
                    duplicate_loc,
                );
                if has_name(&seen, &tok.lexeme) {
                    if !has_name(&duplicate_names, &tok.lexeme) {
                        push_name(&mut duplicate_names, tok.lexeme.clone());
                    }
                    if duplicate_loc.is_none() {
                        duplicate_loc = Some(self.get_loc(tok));
                    }
                } else if tok.lexeme.as_str().unicode_len() == 1 {
                    if short_names.len() == 1 {
                        short_loc = Some(self.get_loc(tok));
                    }
                    push_name(&mut short_names, tok.lexeme.clone());
                }
                let ghost names_before = string_views(seen@);
                push_name(&mut seen, tok.lexeme.clone());
                block.add_identifier(tok.lexeme.clone());
                proof {
                    assert(old(block)@.identifiers + names_before.push(tok@.lexeme) =~= (old(
                        block,
                    )@.identifiers + names_before).push(tok@.lexeme));
                    assert(names_of(seen, short_names, short_loc, duplicate_names, duplicate_loc)
                        == add_name(before, tok@, self.path@));
                }
            } else if tok.kind == TokenKind::OpenBrace {
                self.pos = self.pos + 1;
                if short_names.len() > 1 {
                    return Err(
                        ParseError::Semantic(
                            SemanticError::ExtraShortName(short_loc.unwrap(), short_names),
                        ),
                    );
                }
                if duplicate_names.len() > 0 {
                    return Err(
                        ParseError::Semantic(
                            SemanticError::DuplicateName(duplicate_loc.unwrap(), duplicate_names),
                        ),
                    );
                }
                return Ok(());
            } else if tok.kind == TokenKind::Alt {
                exp_alt = true;
                self.pos = self.pos + 1;
            } else {
                return Err(self.unexpected_token(want_alt_msg(self.styled), tok));
            }
        }
        if exp_alt {
            Err(self.no_token(want_name_msg(self.styled)))
        } else {
            Err(self.no_token(want_alt_msg(self.styled)))
        }
    }

    /// The block whose keyword is the token `kw_tok` at the cursor.
    pub fn parse_block(&mut self, kw_tok: &Token) -> (r: Result<Block, ParseError>)
        requires
            old(self).pos < old(self).tokens@.len(),
            kw_tok@ == old(self).toks()[old(self).pos as int],
        ensures
            final(self).same_input(old(self)),
            final(self).root == old(self).root,
            match r {
                Ok(b) => old(self).block_here() matches Ok(p) && p == final(self).parsed(b@)
                    && old(self).pos < final(self).pos <= old(self).tokens@.len(),
                Err(e) => old(self).block_here() matches Err(x) && reports(e@, x, old(self).styled),
            },
        decreases old(self).tokens@.len() - old(self).pos,
    {
        let tokens: &[Token] = self.tokens;
        let mut block = Block {
            keyword: kw_tok.lexeme.clone(),
            identifiers: Vec::new(),
            statements: Vec::new(),
            blocks: Vec::new(),
        };
        proof {
            lemma_block_view(block);
            assert(block@.identifiers =~= Seq::empty());
            assert(block@.statements =~= Seq::empty());
            assert(block@.blocks =~= Seq::empty());
        }
        let ghost fresh = block@;
        match self.parse_block_header(&mut block) {
            Err(e) => {
                return Err(e);
            },
            Ok(_) => {},
        }
        proof {
            let ghost names = old(self).header_here()->Ok_0.0;
            assert(fresh.identifiers + names =~= names);
        }
        let is_command: bool = is_word(&block.keyword, "command");
        let ghost target = old(self).block_here();
        while self.pos < tokens.len()
            invariant
                tokens@ == self.tokens@,
                self.same_input(old(self)),
                self.root == old(self).root,
                old(self).pos < self.pos <= tokens@.len(),
                is_command == (block@.keyword == "command"@),
                target == old(self).block_here(),
                spec_body(
                    self.toks(),
                    self.pos as int,
                    block@,
                    tip_views(self.tips@),
                    self.path@,
                ) == target,
            decreases tokens@.len() - self.pos,
        {
            let tok: &Token = &tokens[self.pos];
            match tok.kind {
                TokenKind::CloseBrace => {
                    proof {
                        lemma_block_view(block);
                    }
                    if block.statements.len() == 0 && block.blocks.len() == 0 {
                        let tip = Tip {
                            loc: self.get_loc(tok),
                            msg: "Redundant argument: empty block".to_owned(),
                        };
                        push_tip(&mut self.tips, tip);
                    }
                    self.pos = self.pos + 1;
                    return Ok(block);
                },
                TokenKind::Identifier => {
                    match self.parse_statement(tok, false) {
                        Err(e) => {
                            return Err(e);
                        },
                        Ok(statement) => {
                            block.add_statement(statement);
                        },
                    }
                },
                TokenKind::Keyword => {
                    if !is_command {
                        return Err(
                            ParseError::Semantic(
                                SemanticError::CannotNest(self.get_loc(tok), tok.lexeme.clone()),
                            ),
                        );
                    }
                    match self.parse_block(tok) {
                        Err(e) => {
                            return Err(e);
                        },
                        Ok(nested) => {
                            block.add_block(nested);
                        },
                    }
                },
                _ => {
                    return Err(self.unexpected_token(want_item_msg(is_command, self.styled), tok));
                },
            }
        }
        Err(
            self.no_token(
                "Expected ".to_owned().concat(TokenKind::CloseBrace.as_str(self.styled).as_str()),
            ),
        )
    }

    /// Parses the tokens from the cursor to the end into the tree `root`.
    pub fn parse(&mut self) -> (r: Result<(), ParseError>)
        ensures
            final(self).same_input(old(self)),
            match r {
                Ok(_) => old(self).rest_here() matches Ok(tree) && tree == final(self).tree(),
                Err(e) => old(self).rest_here() matches Err(x) && reports(e@, x, old(self).styled),
            },
    {
        let tokens: &[Token] = self.tokens;
        if self.pos >= tokens.len() {
            let loc = Loc { path: self.path.clone(), line: 0, col: 0 };
            return Err(
                ParseError::Syntax(
                    SyntaxError::NoToken(loc, want_top_msg(self.styled).concat(" but got no token")),
                ),
            );
        }
        let ghost target = old(self).rest_here();
        while self.pos < tokens.len()
            invariant
                tokens@ == self.tokens@,
                self.same_input(old(self)),
                self.pos <= tokens@.len(),
                target == old(self).rest_here(),
                spec_top(
                    self.toks(),
                    self.pos as int,
                    self.root@,
                    tip_views(self.tips@),
                    self.path@,
                ) == target,
            decreases tokens@.len() - self.pos,
        {
            let tok: &Token = &tokens[self.pos];
            match tok.kind {
                TokenKind::Directive => {
                    match self.parse_statement(tok, true) {
                        Err(e) => {
                            return Err(e);
                        },
                        Ok(statement) => {
                            self.root.add_statement(statement);
                        },
                    }
                },
                TokenKind::Keyword => {
                    match self.parse_block(tok) {
                        Err(e) => {
                            return Err(e);
                        },
                        Ok(block) => {
                            self.root.add_block(block);
                        },
                    }
                },
                _ => {
                    return Err(self.unexpected_token(want_top_msg(self.styled), tok));
                },
            }
        }
        Ok(())
    }
}

/// The message on a missing semicolon.
pub fn missing_semicolon_msg(styled: bool) -> (r: String)
    ensures
        r@ == missing_semicolon(),
{
    "Missing ".to_owned().concat(TokenKind::SemiColon.as_str(styled).as_str()).concat(
        " to end assignment statement",
    )
}

/// The message on a directive whose value is no string.
pub fn directive_value_msg(styled: bool) -> (r: String)
    ensures
        !styled ==> r@ == directive_value(),
{
    "Expected ".to_owned().concat(TokenKind::String.as_str(styled).as_str()).concat(" after ").concat(
        TokenKind::Eq.as_str(styled).as_str(),
    ).concat(" for a ").concat(TokenKind::Directive.as_str(styled).as_str()).concat(" assignment")
}

/// The message on a token behind a comma that is no value of the kind `vkind`.
pub fn after_comma_msg(vkind: Option<TokenKind>, tok: &Token, styled: bool) -> (r: String)
    ensures
        !styled ==> r@ == after_comma(vkind, tok@),
{
    match vkind {
        Some(k) => but_got_msg(
            "Expected ".to_owned().concat(k.as_str(styled).as_str()).concat(" value after comma"),
            tok,
            styled,
        ),
        None => but_got_msg("Expected value after comma".to_owned(), tok, styled),
    }
}

/// The message on a value that follows another without a comma.
pub fn no_comma_msg(vkind: TokenKind, tok: &Token, styled: bool) -> (r: String)
    ensures
        !styled ==> r@ == no_comma(vkind, tok@),
{
    "Expected comma or semicolon after ".to_owned().concat(vkind.as_str(styled).as_str()).concat(
        " value, but got ",
    ).concat(tok.kind.as_str(styled).as_str())
}

/// The message on a token that is no value, behind a token of kind `prev`.
pub fn no_value_msg(prev: TokenKind, tok: &Token, styled: bool) -> (r: String)
    ensures
        !styled ==> r@ == no_value(prev, tok@),
{
    "Expected one of the following after ".to_owned().concat(prev.as_str(styled).as_str()).concat(
        " for a ",
    ).concat(TokenKind::Identifier.as_str(styled).as_str()).concat(" assignment (got ").concat(
        tok.kind.as_str(styled).as_str(),
    ).concat("): ").concat(fmt_assignment_kinds(styled).as_str())
}

/// The message of the tip on a comma before the first value.
pub fn comma_tip_msg(styled: bool) -> (r: String)
    ensures
        r@ == "Redundant comma before value in "@ + kind_name(TokenKind::Identifier)
            + " assignment"@,
{
    "Redundant comma before value in ".to_owned().concat(
        TokenKind::Identifier.as_str(styled).as_str(),
    ).concat(" assignment")
}

/// The message on a token in a header where a name must stand.
pub fn want_name_msg(styled: bool) -> (r: String)
    ensures
        r@ == want_name(),
{
    "Expected ".to_owned().concat(TokenKind::Identifier.as_str(styled).as_str()).concat(
        " after ",
    ).concat(TokenKind::Alt.as_str(styled).as_str())
}

/// The message on a token in a header behind a name.
pub fn want_alt_msg(styled: bool) -> (r: String)
    ensures
        r@ == want_alt(),
{
    "Expected ".to_owned().concat(TokenKind::Alt.as_str(styled).as_str()).concat(" or ").concat(
        TokenKind::OpenBrace.as_str(styled).as_str(),
    )
}

/// The message on a token in the body of a block that starts nothing.
pub fn want_item_msg(is_command: bool, styled: bool) -> (r: String)
    ensures
        r@ == if is_command {
            want_item("command"@)
        } else {
            "Expected "@ + kind_name(TokenKind::Identifier)
        },
{
    if is_command {
        "Expected ".to_owned().concat(TokenKind::Identifier.as_str(styled).as_str()).concat(
            " or ",
        ).concat(TokenKind::Keyword.as_str(styled).as_str())
    } else {
        "Expected ".to_owned().concat(TokenKind::Identifier.as_str(styled).as_str())
    }
}

/// The message on a token at the top level that starts nothing.
pub fn want_top_msg(styled: bool) -> (r: String)
    ensures
        r@ == want_top(),
{
    "Expected ".to_owned().concat(TokenKind::Directive.as_str(styled).as_str()).concat(
        " or ",
    ).concat(TokenKind::Keyword.as_str(styled).as_str())
}

/// What `parse` owes for the text `s` of the file `path`: the tree of its
/// tokens with the tips, or a report of the first error, lexical errors first.
pub open spec fn parse_outcome(
    s: Seq<char>,
    path: Seq<char>,
    styled: bool,
    r: Result<(BlockView, Seq<TipView>), ParseErrorView>,
) -> bool {
    ||| r matches Err(ParseErrorView::Syntax(x)) && fails_with(s, path, x)
    ||| exists|toks: Seq<TokenView>| #[trigger]
        tokens_of(s, path, toks) && match spec_parse(toks, 0, empty_root(), Seq::empty(), path) {
            Ok(tree) => r == Ok::<(BlockView, Seq<TipView>), ParseErrorView>(tree),
            Err(x) => r matches Err(e) && reports(e, x, styled),
        }
}

/// Parses the source text `content` of the file `path` into its tree, with
/// the tips given on the way. Where `styled` holds, the kinds and tokens that
/// an error's message names go through the terminal styling.
pub fn parse(content: &str, path: &str, styled: bool) -> (r: Result<(Block, Vec<Tip>), ParseError>)
    requires
        content@.len() < usize::MAX,
    ensures
        parse_outcome(
            content@,
            path@,
            styled,
            match r {
                Ok((root, tips)) => Ok((root@, tip_views(tips@))),
                Err(e) => Err(e@),
            },
        ),
        r matches Ok((root, _)) ==> valid_root(root@),
{
    let tokens = match tokenize(content, path) {
        Ok(tokens) => tokens,
        Err(e) => {
            return Err(e);
        },
    };
    let mut parser = Parser::new(tokens.as_slice(), path);
    parser.styled = styled;
    proof {
        lemma_parse_valid(parser.toks(), tip_views(parser.tips@), path@);
    }
    match parser.parse() {
        Ok(_) => Ok((parser.root, parser.tips)),
        Err(e) => Err(e),
    }
}

} // verus!
