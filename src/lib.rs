//! A bridge between one blocking text-generation engine and many streaming
//! HTTP clients: bounded queues, a first-come first-served session token,
//! and the worker and responder state machines that drive them.
use vstd::prelude::*;

pub mod bridge;
pub mod config;
pub mod gate;
pub mod message;
pub mod queue;
pub mod responder;
pub mod worker;

verus! {

/// A prompt as submitted by a client.
pub struct ChatRequest {
    pub prompt: String,
}

} // verus!
