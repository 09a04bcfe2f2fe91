//! A token-driven recursive-descent parser for a core of PHP, with a
//! lossless syntax tree: every keyword and punctuation mark of the source
//! keeps its span.
//!
//! The parser reads a stream of tokens, which a lexer has made and closed
//! with an end-of-file token, and hands back the statements of the program
//! or the first syntax error. Its core is here: the cursor over the stream,
//! the small productions that all others are built from, loops with their
//! two forms of body, `break` and `continue`, trait declarations with the
//! use of traits and its adaptations, and variables. Expressions are
//! variables, literals and parentheses.
//!
//! What a production does is stated over the stream as a sequence. Its
//! *extent* is the number of tokens it takes from a place in the stream, or
//! the error it reports there: a function of the stream and the place.
//! The tree it hands back *stands at* that place: each of its spans is the
//! span of the token at the place that the grammar gives it. And its
//! *atoms*, the kinds and spans it keeps, in source order, are *lossless*:
//! they lie among the tokens it was read from, in their order, and stand
//! for every one of them wherever the tree drops none.

pub mod span;
pub mod bytestring;
pub mod token;
pub mod lexer;
pub mod ast;
pub mod parser;
