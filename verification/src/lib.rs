//! Core of a multiplayer block-world server speaking the Classic wire
//! protocol: a fixed-size binary packet codec, a packet registry and
//! dispatcher, a recycling id allocator, the in-memory world with its
//! procedural generator and level streamer, the chat command parser, and the
//! session orchestrator that turns client events into state changes and
//! outbound packets.

pub mod blocks;
pub mod chat;
pub mod client;
pub mod codec;
pub mod commands;
pub mod ids;
pub mod level;
pub mod terrain;
pub mod registry;
pub mod server;
pub mod session;
pub mod worldgen;
