//! Interception-engine core of an HTTP/HTTPS debugging proxy: the traffic
//! model, breakpoint and MapLocal rule engines, the pause registry, the
//! wire-format decoder and the decisions of the request pipeline, each with
//! a machine-checked contract.

pub mod bytes;
pub mod cert;
pub mod codec;
pub mod commands;
pub mod frontend_message;
pub mod import;
pub mod laws;
pub mod logs;
pub mod models;
pub mod preview;
pub mod protobuf;
pub mod proxy_server;
pub mod search;
pub mod server;
pub mod state;
pub mod store;
pub mod text;
pub mod traffic;
pub mod utils;
