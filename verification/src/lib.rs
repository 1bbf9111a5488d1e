//! A lexical scanner for a small dynamic scripting language.
//!
//! The scanner turns source text into a sequence of classified, positioned
//! tokens that always ends in an end-of-input token, and collects the lexical
//! errors it met on the way. Every function is verified against a
//! mathematical description of the token sequence of a text.

pub mod grammar;
pub mod render;
pub mod scanner;
pub mod text;
pub mod theorems;
pub mod token;

pub use render::run_lox;
