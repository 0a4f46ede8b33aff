//! Front end of a small programming language: a lexer that turns source text into
//! tokens and a recursive-descent parser that turns tokens into a syntax tree.
pub mod position;
pub mod token;
pub mod token_type;
pub mod diagnostic;
pub mod lexer;
pub mod ast;
pub mod parser;
pub mod frontend;
pub mod scope;
pub mod symbol;
pub mod laws;
