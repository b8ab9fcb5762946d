//! Front end of a small scripting language: source text goes in, a tree of
//! syntax nodes or a located syntax error comes out.

pub mod parser;
pub mod source;
pub mod string_name;
