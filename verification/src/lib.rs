//! Front end of the Pilcrow language: a longest-match lexer over a fixed
//! token catalog, and a recursive-descent parser that builds a syntax tree
//! from the filtered token stream.

pub mod ast;
pub mod catalog;
pub mod laws;
pub mod lexer;
pub mod parser;
pub mod token;
