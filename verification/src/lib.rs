//! Verified core of a command-line client for the Loopia XML-RPC API.

pub mod account;
pub mod cli;
pub mod client;
pub mod commands;
pub mod config;
pub mod error;
pub mod json;
pub mod output;
pub mod parse;
pub mod readme;
pub mod roundtrip;
pub mod text;
pub mod value;
pub mod xml;
pub mod xmlrpc;
