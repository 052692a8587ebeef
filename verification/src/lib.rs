//! Tempest: the server-side core of a lobby-and-game service built around Uno.
//!
//! The crate is organised leaves-first:
//! - `card`: the bit-packed one-byte card representation,
//! - `deck`: the 108-card deck held as a pair of 128-bit bitsets,
//! - `records`: the wire record catalogue (plain data),
//! - `game`: the per-game authoritative state machine and rules engine,
//! - `dispatcher`: the lobby hub owning the user and game tables,
//! - `session`: the per-connection authentication and routing decisions.
//!
//! All I/O (sockets, encryption, wire encoding, channels) lives outside this
//! crate; the functions here map plain values to plain values and are
//! verified.
pub mod card;
pub mod deck;
pub mod dispatcher;
pub mod game;
pub mod records;
pub mod session;
