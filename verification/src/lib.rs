//! Core of a game launcher and its launch server: the session messages and
//! their wire form, the handlers' decisions, the optional-feature rule engine
//! and the assembly of the launch configuration.

pub mod validation;
pub mod text;
pub mod hex;
pub mod uuid;
pub mod token;
pub mod rename_map;
pub mod optional;
pub mod resolution;
pub mod message;
pub mod auth;
pub mod profile;
pub mod wire;
pub mod wire_items;
pub mod wire_list;
pub mod wire_record;
pub mod codec;
pub mod wire_summary;
pub mod server;
pub mod client;
pub mod config;
pub mod extension;
pub mod macro_args;
