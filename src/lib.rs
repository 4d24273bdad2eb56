//! Lexing of formula text and the operator rules of the formula engine.
pub mod parser;
pub mod term;
pub mod token;
