//! How the daemon talks to its window.
pub mod handlers;
pub mod laws;
pub mod proto;
pub mod server;
pub mod server_proto;
pub mod types;
