//! The parser: tokens, expressions, statements and declarations, and the
//! errors that it reports.

pub mod chars;
pub mod declaration;
pub mod error;
pub mod grammar;
pub mod operator;
pub mod parse_node;
pub mod parser;
pub mod primary;
pub mod program;
pub mod progress;
pub mod statements;
pub mod syntax;
pub mod tokenizer;
pub mod view;

pub use parser::Parser;
