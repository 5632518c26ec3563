//! # `nme_core` — the NeedMoreEasy (NME) compiler core
pub mod cli;
pub mod convert;
pub mod diagnostics;
pub mod lexer;
pub mod lower;
pub mod syntax;
pub mod text;
pub mod transpile;
