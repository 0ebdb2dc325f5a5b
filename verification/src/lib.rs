//! Core of a chat-to-worker media job system: a bounded-concurrency task
//! queue, a line-delimited JSON wire codec, a response dispatcher that
//! multiplexes many logical jobs over one worker byte stream, TTL-bounded
//! interactive session stores, and link detection for incoming messages.
use vstd::prelude::*;

pub mod callbacks;
pub mod commands;
pub mod dispatch;
pub mod errors;
pub mod ipc;
pub mod jsonval;
pub mod links;
pub mod models;
pub mod queue;
pub mod sessions;
pub mod util;

verus! {

} // verus!
