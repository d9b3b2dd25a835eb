//! Voice capture: the disk cache of chunks, the mix track, the receiver's
//! bookkeeping and the dispatch of voice-state changes.

pub mod buffer;
pub mod buffer_laws;
pub mod events;
pub mod live_mix_laws;
pub mod mix_laws;
pub mod mix_log;
pub mod mixer;
pub mod pcm;
pub mod receiver;
