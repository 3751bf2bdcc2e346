//! A compiler front end and code generator for a minimal C-like language:
//! one function, no parameters, whose body is a single `return <constant>;`
//! statement. Source text is lexed into tokens, the tokens are parsed into an
//! abstract syntax tree, and the tree is lowered to a small assembly program
//! that can be rendered as text.

pub mod assembly;
pub mod ast;
pub mod lex;
pub mod parse;
pub mod props;
