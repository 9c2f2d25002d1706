//! Verified core of an MCP game-automation server.
//!
//! The server lets an LLM client play an action RPG: it captures the screen, reads telemetry
//! off the frames, and sends keyboard and mouse input. This crate holds what the server decides
//! and computes; the program around it captures frames, sends input and speaks the protocol.

pub mod capture;
pub mod config;
pub mod encoding;
pub mod error;
pub mod games;
pub mod input;
pub mod rounding;
pub mod server;
pub mod state;
pub mod text;
pub mod windmouse;
