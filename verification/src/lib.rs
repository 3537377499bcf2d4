//! A small template engine: compile template text into a node sequence,
//! evaluate it against a caller-supplied context, bind call arguments to
//! declared callable signatures, and report which variables a template
//! reads but never binds.

pub mod analyze;
pub mod api;
pub mod bind;
pub mod builtins;
pub mod env;
pub mod err;
pub mod eval;
pub mod fmt;
pub mod ir;
pub mod laws;
pub mod lex;
pub mod parse;
pub mod text;
pub mod value;
