//! Core state machines for a code-mediated, encrypted, multiplexed
//! connection ("dilation"): code negotiation, byte-stream framing, the
//! encrypted record layer, and per-subchannel lifecycle management.
//!
//! Each machine is a pure transition function: current state plus one
//! event yields a new state and an ordered list of outputs. All I/O is
//! the caller's business; the machines only buffer bytes and decide.

pub mod code;
pub mod framer;
pub mod record;
pub mod subchannel;
pub mod wire;
