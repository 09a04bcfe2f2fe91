//! What the lexer shares with the parser: its errors.

pub mod error;
