//! Runs named scripts declared in a project manifest.
//!
//! The library holds the decisions of the tool: how command-line arguments
//! are normalized, how a script is looked up, and how positional
//! placeholders in a script body are replaced. Every function carries a
//! contract that Verus proves.

pub mod text;
pub mod arg_parse;
pub mod invocation;
pub mod invocation_laws;
pub mod script_table;
pub mod failure;
pub mod manifest;
pub mod shell;
pub mod runner;
