//! Live acquisition: the decoder model and its trusted boundary, the
//! message types carried on the channels, the trusted randomness and
//! clock sources, and the connection state machine.

pub mod decoder;
pub mod message;
pub mod random;
pub mod state;
