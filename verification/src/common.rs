//! Vocabulary shared by the lexer and the parser.

pub mod errors;
pub mod style;
pub mod text;
pub mod tokens;
pub mod util;
