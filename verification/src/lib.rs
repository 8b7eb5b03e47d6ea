//! A lexical-scanning toolkit: a UTF-8-aware tokenizer plus a composable
//! state-machine protocol used to build lexers for textual formats and
//! languages, together with a collection of lexers built on it.

pub mod lexers;
pub mod token;
pub mod tokenizer;

pub use tokenizer::StateFunction;
pub use tokenizer::Tokenizer;
