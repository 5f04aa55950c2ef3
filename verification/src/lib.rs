//! Flint's core logic: plugin bookkeeping, the log store and its view,
//! the text formatters behind the scripting helpers, the decisions of the
//! terminal front end, and the grammar and code generation of the widget
//! macros.
use vstd::prelude::*;

pub mod ai;
pub mod app;
pub mod cmd;
pub mod codegen;
pub mod env;
pub mod error;
pub mod eval;
pub mod files;
pub mod flags;
pub mod imports;
pub mod js;
pub mod logs;
pub mod md;
pub mod parse;
pub mod records;
pub mod plugin;
pub mod sql;
pub mod text;
pub mod widget;

verus! {
} // verus!
