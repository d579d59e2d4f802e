//! Client library for the Minecraft Java Edition protocol, version 751:
//! the wire codec, the framed transport and the session state machines.

pub mod error;
pub mod varint;
pub mod codec;
pub mod types;
pub mod transport;
pub mod proto;
pub mod crypto;
pub mod auth;
pub mod state;
pub mod nbt;
