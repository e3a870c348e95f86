//! Coordination logic for sleep-inhibition sessions: the capability flag
//! set and its textual codec, resolution of a time specification into a
//! deadline, discovery of running sessions, and the argument vector of a
//! new one.

pub mod decimal;
pub mod flags;
pub mod launch;
pub mod resolve;
pub mod session;
pub mod steps;
