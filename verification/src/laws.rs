//! What holds of the library, from what goes in to what comes out.
//!
//! The statements speak of the values that the caller hands over and of those
//! that come back: of members of JSON, entries of lists, lines and characters.

pub mod change;
pub mod client;
pub mod commands;
pub mod oauth;
pub mod query;
pub mod resolve;
pub mod schema;
pub mod search;
pub mod store;
pub mod texts;
pub mod values;
