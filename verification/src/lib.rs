//! An editor-integration bridge: it keeps the text of open documents,
//! resolves a configured command-line formatter for a document's file type,
//! plans the subprocess invocation that formats the document, and turns the
//! tool's output into a single full-document edit.

pub mod config;
pub mod format;
pub mod server;
pub mod store;
pub mod text;
pub mod utils;
