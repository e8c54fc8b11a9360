//! Bridge logic between a DAW's clip-launcher OSC stream and a button-grid
//! controller: the per-cell clip state machine, the grid event loop's
//! decision logic, the inbound address translator and the outbound command
//! encoder, each with a verified contract.

pub mod message;
pub mod clip;
pub mod grid;
pub mod bank;
pub mod bytes;
pub mod translate;
pub mod osc;
