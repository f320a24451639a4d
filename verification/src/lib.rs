//! A lexical analyzer for a small C-like scripting language.
//!
//! Source text is scanned left to right and classified into a finite sequence
//! of tokens: keywords, operators, punctuation, integer literals, identifiers,
//! and a marker for unrecognized characters.  The scanning algorithm is
//! specified over sequences of characters and the executable lexer is proved
//! to produce exactly the specified token sequence.

pub mod laws;
pub mod lexer;
pub mod repl;
pub mod scan;
pub mod token;
