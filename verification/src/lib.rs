//! A small recipe catalogue: the read-only data-access layer, the values it
//! hands out, and the decisions of the web front ends that sit on top of it.

pub mod catalogue;
pub mod client;
pub mod config;
pub mod database;
pub mod date;
pub mod error;
pub mod frontend;
pub mod layout;
pub mod models;
pub mod server;
pub mod slug;
pub mod table;
pub mod text;
