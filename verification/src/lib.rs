//! A proxy in front of a game server that sleeps while nobody plays.
//!
//! Server list pings are answered here as long as nobody plays, so that they do
//! not keep the backend up. A player who joins wakes the backend, and is either
//! held until it serves or asked to come back.
//!
//! This library holds what the proxy decides and what it reads and writes byte by
//! byte; the program around it owns the sockets, the clock and the tasks.
pub mod connection;
pub mod course;
pub mod error;
pub mod handshake;
pub mod json;
pub mod packet;
pub mod probe;
pub mod proxy;
pub mod settings;
pub mod status;
pub mod system;
pub mod text;
pub mod varint;
pub mod wake;
