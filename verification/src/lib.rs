//! Command-tree dispatcher and interactive context engine for managing
//! local game-server instances, with the pure rules of the surrounding
//! tooling (start commands, archive metadata, version listings).

pub mod command;
pub mod commands;
pub mod completion;
pub mod config;
pub mod handlers;
pub mod network;
pub mod options;
pub mod paths;
pub mod seqs;
pub mod system;
pub mod text;
pub mod tokenizer;
