//! A verified core for a language-server bridge to a grammar checker.
//!
//! The library covers the logic of the bridge: mapping offsets in extracted
//! text back to line/character positions of the original document, extracting
//! checkable segments from parsed documents, tagging markup for the checker,
//! filtering and mapping checker matches into diagnostics, caching checker
//! requests, and the per-session suppression state (dictionary, disabled
//! rules, active language). Transport, process handling and file storage live
//! in the surrounding application.

pub mod actions;
pub mod check;
pub mod config;
pub mod diagnostic;
pub mod embedded;
pub mod extract;
pub mod lsp;
pub mod markup;
pub mod position;
pub mod rules;
pub mod segment;
pub mod session;
pub mod store;
