//! The front end of a small dynamically-typed scripting language: a lexical
//! scanner whose every step is stated and proved against a mathematical
//! model, and the generator of the source that declares the expression tree.

pub mod ast_gen;
pub mod error;
pub mod lexical;
pub mod scanner;
pub mod text;
pub mod token;
