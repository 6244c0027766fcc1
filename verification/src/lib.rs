//! Verified core of a web console that manages a set of Minecraft server
//! consoles reached over WebSocket: the server list, the bounded log history
//! kept for each server, the synchronisation of running workers with the
//! configuration file, the worker's reconnect loop and the decisions of a
//! console session.

pub mod config;
pub mod text;
pub mod log;
pub mod json;
pub mod connect;
pub mod session;
pub mod worker;
pub mod sync;
pub mod console;
pub mod routes;
pub mod server_list;

pub use config::{Config, ServerConfig, ServerInfo};
