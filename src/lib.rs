//! Parser front end of the fortytwo language: positioned tokens in, abstract syntax trees out.
pub mod ast;
pub mod error;
pub mod grammar;
pub mod parser;
pub mod print;
pub mod source;
pub mod token;
pub mod laws;
