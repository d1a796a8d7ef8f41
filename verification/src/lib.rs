//! Front end of the argol language, in which the arguments of a command
//! line are described: commands, positional and named arguments and flags,
//! the values they take, and the directives `!program` and `!version`.
//!
//! `tokenizer` turns the text of a source file into located tokens, and
//! `parser` builds the tree of blocks and statements from them, checking the
//! rules on names, nesting and value kinds on the way. `lexical` and `syntax`
//! hold the grammar that the two are verified against, with what is proved of
//! it; `common` holds the tokens, the diagnostics and their rendering.

pub mod ast;
pub mod common;
pub mod lexical;
pub mod parser;
pub mod syntax;
pub mod tokenizer;
