//! Sessions in which everyone is asked before anything is recorded.

pub mod manager;
