//! A small dynamically typed scripting language: a lexer, a
//! recursive-descent parser and a tree-walking evaluator with lexical
//! scopes, each verified against a specification of what it computes.
pub mod number;
pub mod token;
pub mod lexer;
pub mod ast;
pub mod grammar;
pub mod parser;
pub mod value;
pub mod environment;
pub mod semantics;
pub mod interpreter;
pub mod session;
pub mod laws;
pub mod pattern;

pub use ast::{Expr, Literal, Stmt};
pub use interpreter::Interpreter;
pub use lexer::Lexer;
pub use parser::Parser;
pub use token::{Token, TokenType};
pub use value::Value;
