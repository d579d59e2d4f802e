//! The packet catalogue, one module per protocol phase, and the records that
//! play packets carry.

pub mod handshake;
pub mod login;
pub mod play;
pub mod records;
pub mod status;
pub mod play_clientbound;
pub mod play_serverbound;
