//! The scanner of a small scripting language: it turns source text into
//! tokens, and reports what is no token without giving up.
//!
//! [`lox::grammar`] states what the tokens of a text are, [`lox::scanner`]
//! computes them, [`lox::laws`] proves what holds of every scan, and [`lox`]
//! itself holds the front end that runs the scanner on a script or on the
//! lines of a prompt.
pub mod lox;
