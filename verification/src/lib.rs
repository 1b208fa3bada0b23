//! Client side of port knocking: port specifications and the knock sequence.

pub mod args;
pub mod matcher;
pub mod port;
pub mod proto;
pub mod sequencer;
pub mod text;
