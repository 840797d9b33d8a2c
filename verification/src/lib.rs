//! Verified core of an RCON-to-WebSocket bridge.
//!
//! The library reconstructs a world-state snapshot from the text and JSON
//! replies of a game server's remote console and republishes it to
//! downstream observers.  Everything that decides or computes lives here:
//! the wire-format codec, the response decoders, the state merger, the
//! request/response correlator and the subscriber registry.  Socket I/O,
//! clocks and command-line handling stay outside, in the application.

pub mod config;
pub mod decimal;
pub mod decode;
pub mod json;
pub mod playerlist;
pub mod rcon;
pub mod registry;
pub mod ser;
pub mod sync;
pub mod text;
pub mod wire;

pub use decimal::Decimal;
pub use rcon::DecodeError;
