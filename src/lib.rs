//! Message plane of an LSP proxy: frame codec, message classification,
//! request correlation and per-method handler routing.

pub mod frame;
pub mod json;
pub mod message;
pub mod pending;
pub mod registry;
pub mod dispatcher;
pub mod handlers;
pub mod log_line;
pub mod lsp_server;
