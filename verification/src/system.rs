//! The rules about a server instance on disk: its configuration, the jar
//! that it runs and what that jar says of itself.

pub mod cli;
pub mod config;
pub mod forks;
pub mod jar_parser;
pub mod server_info;
pub mod state;
