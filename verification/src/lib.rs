//! A text chat relay: the command grammar, the client registry and the
//! dispatch decisions of the server, and the line handling of the terminal
//! client, with their contracts.

pub mod address;
pub mod client;
pub mod error;
pub mod grammar;
pub mod launch;
pub mod protocol;
pub mod reader;
pub mod registry;
pub mod replay;
pub mod server;
pub mod text;
