//! A minimal peer-to-peer swarm engine: a node's identity, its peer list, the
//! lifecycle of its connections and a liveness probe over them.
//!
//! The engine does no input or output. The program around it makes the links,
//! reads the clock and the random source, and tells the engine what happened;
//! the engine keeps the state, says what to report and asks for what is to be
//! done. Each type has a mathematical model, and every function says in its
//! contract what it does to the model.

pub mod address;
pub mod bytes;
pub mod connection;
pub mod driver;
pub mod event;
pub mod identity;
pub mod laws;
pub mod peers;
pub mod ping;
pub mod search;
pub mod swarm;
