//! Configuration, pairing persistence and output planning for an AirPlay
//! audio receiver, with their contracts proved by Verus.

pub mod text;
pub mod singleton;
pub mod config;
pub mod pairing_store;
pub mod audio;
