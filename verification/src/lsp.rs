//! The server: its state, the resolution of links, and the features that
//! answer the editor.

pub mod code_action;
pub mod completion;
pub mod diagnostics;
pub mod did_change;
pub mod did_close;
pub mod did_open;
pub mod goto_definition;
pub mod helpers;
pub mod hover;
pub mod initialize;
pub mod link_resolver;
pub mod references;
pub mod server;
