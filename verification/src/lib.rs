//! The logic of a client for Synergy and Deskflow servers that forwards the
//! server's input events to a compositor over the emulated input (EI) protocol.

pub mod args;
pub mod compiler;
pub mod connection_laws;
pub mod device;
pub mod ei;
pub mod event;
pub mod input_laws;
pub mod keymap;
pub mod message;
pub mod portal;
pub mod region;
pub mod retry;
pub mod session;
pub mod session_laws;
pub mod setup;
pub mod synergy;
pub mod text;
