//! Lexical analysis for a small scripting language.
//!
//! The scanner walks a source text once, left to right, and turns it into an
//! ordered sequence of classified tokens terminated by an end-of-input
//! marker.  Lexical errors (an unterminated string) are collected on the
//! side and never stop the scan.

pub mod laws;
pub mod model;
pub mod model_lemmas;
pub mod scanner;
pub mod string_util;
pub mod token;
