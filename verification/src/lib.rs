//! A language server for notes in Markdown that link to one another.
//!
//! The library reads notes into a syntax model with byte spans, keeps every
//! note of a workspace with the headers and links found in it, resolves
//! the targets of links to documents, and answers what an editor asks:
//! what a link shows, where it leads, what leads to a header, what can be
//! completed, and what can be moved to a file of its own.

pub mod config;
pub mod document;
pub mod error;
pub mod lsp;
pub mod lsp_types;
pub mod message;
pub mod parser;
pub mod path;
pub mod rpc;
pub mod scan;
pub mod text;
pub mod text_buffer_conversions;
pub mod uri;
