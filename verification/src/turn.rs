//! Requests and their events.
//!
//! A turn is one request. It is queued, then advanced step by step: the prompt is
//! fed, then tokens are sampled. Every step gives one event.

use vstd::prelude::*;

verus! {

/// One request.
#[derive(Debug)]
pub struct TurnSpec {
    pub prompt: String,
    /// The most tokens to generate, not counting the prompt.
    pub max_new: usize,
}

/// What a step gives.
#[derive(Debug)]
pub enum TurnEvent {
    /// No turn is active or queued.
    Idle,
    /// A step within the prompt.
    Prefill { turn: u64, fed: usize, total: usize },
    /// A sampled token, as the text that it adds.
    Token { turn: u64, delta: String },
    /// The end of a turn, with all of its text.
    Completed { turn: u64, text: String },
    /// A failed turn; the queue goes on.
    Failed { turn: u64, err: String },
}

} // verus!
