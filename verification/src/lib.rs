//! A beat-driven drum-machine sequencer core: the time grid, the voices with
//! their trigger slots, the request dispatcher and the tick state machine.
//!
//! Every function is verified against a contract stated over mathematical
//! views of the data.

pub mod grid;
pub mod rhythm;
pub mod voices;
pub mod node;
pub mod paths;
