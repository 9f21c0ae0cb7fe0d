//! What holds of the engine, proved of its model: what every reachable state
//! is like, and what the passes do in the cases that matter most.

pub mod deadline;
pub mod ordering;
pub mod probe;
pub mod reachable;
pub mod silence;
pub mod supersession;
