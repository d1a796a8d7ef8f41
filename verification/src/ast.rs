//! The syntax tree: blocks that hold statements and, under `command`, blocks.

use crate::common::errors::string_views;
use crate::common::tokens::TokenKind;
use vstd::prelude::*;

verus! {

/// One statement `key = value, ...;`, or a directive `!key = "value";`.
/// `value` joins the lexemes of the values with commas, `kind` is the kind
/// that the values share, and `ident_kind` is `Identifier` or `Directive`.
#[derive(Debug)]
pub struct Assignment {
    pub key: String,
    pub value: String,
    pub kind: TokenKind,
    pub ident_kind: TokenKind,
}

/// The mathematical value of an `Assignment`.
pub struct AssignmentView {
    pub key: Seq<char>,
    pub value: Seq<char>,
    pub kind: TokenKind,
    pub ident_kind: TokenKind,
}

impl View for Assignment {
    type V = AssignmentView;

    open spec fn view(&self) -> AssignmentView {
        AssignmentView {
            key: self.key@,
            value: self.value@,
            kind: self.kind,
            ident_kind: self.ident_kind,
        }
    }
}

/// The views of a sequence of statements.
pub open spec fn assignment_views(v: Seq<Assignment>) -> Seq<AssignmentView> {
    Seq::new(v.len(), |i: int| v[i]@)
}

/// A declaration group: the keyword that heads it, its names, its statements
/// and the blocks nested in it. The tree's root has the keyword `root` and no name.
#[derive(Debug)]
pub struct Block {
    pub keyword: String,
    pub identifiers: Vec<String>,
    pub statements: Vec<Assignment>,
    pub blocks: Vec<Block>,
}

/// The mathematical value of a `Block`.
pub struct BlockView {
    pub keyword: Seq<char>,
    pub identifiers: Seq<Seq<char>>,
    pub statements: Seq<AssignmentView>,
    pub blocks: Seq<BlockView>,
}

/// The value of the block `b`, with the values of the blocks nested in it.
pub open spec fn block_view(b: Block) -> BlockView
    decreases b,
{
    BlockView {
        keyword: b.keyword@,
        identifiers: string_views(b.identifiers@),
        statements: assignment_views(b.statements@),
        blocks: Seq::new(
            b.blocks.len() as nat,
            |i: int|
                if 0 <= i < b.blocks.len() {
                    block_view(b.blocks[i])
                } else {
                    arbitrary()
                },
        ),
    }
}

impl View for Block {
    type V = BlockView;

    open spec fn view(&self) -> BlockView {
        block_view(*self)
    }
}

/// The views of a sequence of blocks.
pub open spec fn block_views(v: Seq<Block>) -> Seq<BlockView> {
    Seq::new(v.len(), |i: int| v[i]@)
}

/// The view of a block is made of the views of its parts.
pub proof fn lemma_block_view(b: Block)
    ensures
        b@ == (BlockView {
            keyword: b.keyword@,
            identifiers: string_views(b.identifiers@),
            statements: assignment_views(b.statements@),
            blocks: block_views(b.blocks@),
        }),
{
    assert(block_views(b.blocks@) =~= block_view(b).blocks);
}

impl Block {
    /// Adds a name behind the block's names.
    pub fn add_identifier(&mut self, name: String)
        ensures
            final(self)@ == (BlockView {
                identifiers: old(self)@.identifiers.push(name@),
                ..old(self)@
            }),
    {
        proof {
            lemma_block_view(*self);
        }
        let ghost before = string_views(self.identifiers@);
        self.identifiers.push(name);
        proof {
            lemma_block_view(*self);
            assert(string_views(self.identifiers@) =~= before.push(name@));
        }
    }

    /// Adds a statement behind the block's statements.
    pub fn add_statement(&mut self, statement: Assignment)
        ensures
            final(self)@ == (BlockView {
                statements: old(self)@.statements.push(statement@),
                ..old(self)@
            }),
    {
        proof {
            lemma_block_view(*self);
        }
        let ghost before = assignment_views(self.statements@);
        self.statements.push(statement);
        proof {
            lemma_block_view(*self);
            assert(assignment_views(self.statements@) =~= before.push(statement@));
        }
    }

    /// Adds a nested block behind the block's nested blocks.
    pub fn add_block(&mut self, block: Block)
        ensures
            final(self)@ == (BlockView { blocks: old(self)@.blocks.push(block@), ..old(self)@ }),
    {
        proof {
            lemma_block_view(*self);
        }
        let ghost before = block_views(self.blocks@);
        self.blocks.push(block);
        proof {
            lemma_block_view(*self);
            assert(block_views(self.blocks@) =~= before.push(block@));
        }
    }
}

} // verus!
