//! The rules of bbcli, a command line client of a Bytebase server.

pub mod agent_skill;
pub mod change;
pub mod client;
pub mod codec;
pub mod commands;
pub mod json;
pub mod keyed;
pub mod laws;
pub mod numbers;
pub mod oauth;
pub mod order;
pub mod query;
pub mod resolve;
pub mod schema;
pub mod search;
pub mod store;
pub mod text;
pub mod yaml;
