//! A parser for a declarative "trigger" rule language: each trigger binds an
//! event type, a human-readable description, an optional boolean condition
//! over event context, and an ordered list of actions.
//!
//! The surface syntax is defined once, as spec functions in [`grammar`], and
//! the executable parser in [`parser`] is proved to return exactly what that
//! grammar yields. [`render`] writes an abstract syntax tree back in source
//! notation, pinned character for character by its own spec functions, and
//! [`laws`] proves properties that hold of the grammar as a whole.

pub mod ast;
pub mod grammar;
pub mod laws;
pub mod parser;
pub mod render;

pub use ast::Comparison;
pub use ast::ComparisonOp;
pub use ast::Expr;
pub use ast::FuncCall;
pub use ast::Trigger;
pub use ast::TriggerFile;
pub use ast::TriggerParserError;
pub use ast::Value;
pub use parser::parse_triggers;
pub use parser::parse_triggers_to_ast;
pub use parser::TriggerParser;
