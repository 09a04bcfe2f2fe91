//! The syntax tree. A node keeps the span of each of its lexical atoms, its
//! keywords and punctuation marks too, so that the tree is a lossless image
//! of the tokens it was read from. (What a trait use drops, and the two
//! other places where a token gets lost, are told in `parser::lossless`.)

pub mod atom;
pub mod comments;
pub mod identifiers;
pub mod utils;
pub mod attributes;
pub mod literals;
pub mod variables;
pub mod expressions;
pub mod statements;
pub mod loops;
pub mod namespaces;
pub mod modifiers;
pub mod functions;
pub mod properties;
pub mod constants;
pub mod traits;
pub mod node;
pub mod nesting;
