//! A verified core for a PHP_CodeSniffer language server: what the server knows, what it makes of
//! the tools' output, and what it has the host do next. Files, processes and the protocol itself are
//! left to the program around it.
pub mod actions;
pub mod command;
pub mod config;
pub mod diagnostics;
pub mod doc_url;
pub mod document;
pub mod edits;
pub mod extension;
pub mod json;
pub mod laws;
pub mod range;
pub mod server;
pub mod text;
pub mod tools;
pub mod uri_map;
