//! The decision core of a Discord voice recorder: consent, the stabilization
//! gate, per-speaker capture, the mix track, uploads and their retries.
//!
//! Everything here is a function from plain values to plain values. Sockets,
//! files, timers and Discord live in the application around it, which performs
//! the effects that these functions return and hands the outcomes back.

pub mod api_client;
pub mod api_laws;
pub mod collect;
pub mod commands;
pub mod config;
pub mod consent;
pub mod consent_first;
pub mod consent_laws;
pub mod db;
pub mod harness;
pub mod ident;
pub mod interactions;
pub mod plain;
pub mod roll;
pub mod roll_laws;
pub mod session;
pub mod storage;
pub mod text;
pub mod text_laws;
pub mod time;
pub mod version;
pub mod voice;

use vstd::prelude::*;

verus! {

} // verus!
