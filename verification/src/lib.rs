//! Decisions of a full node, verified.
//!
//! Everything that the node reads, writes, sends or waits for happens outside of this crate. The
//! modules below say what to do with what came back.

pub mod chain;
pub mod chain_spec;
pub mod cli;
pub mod database;
pub mod genesis;
pub mod header;
pub mod hexadecimal;
pub mod informant;
pub mod json;
pub mod light_sync;
pub mod logging;
pub mod network;
pub mod node_key;
pub mod scale;
pub mod services;
pub mod startup;
pub mod storage;
pub mod text;
pub mod workers;
