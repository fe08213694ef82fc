//! An orchestration engine for a multi-turn conversation with a streaming
//! language-model endpoint that can invoke external tools.
//!
//! The engine consumes incremental stream events, reassembles tool-call
//! invocations that arrive fragmented across many events, dispatches the
//! resulting invocations against a registry of tools, feeds results back
//! into the conversation transcript, and repeats until the model produces
//! a final answer or the turn budget is exhausted.

#![verifier::loop_isolation(false)]

use vstd::prelude::*;

pub mod assembler;
pub mod batch;
pub mod bevy;
pub mod channel;
pub mod decimal;
pub mod driver;
pub mod events;
pub mod jsonio;
pub mod jsonout;
pub mod messages;
pub mod registry;
pub mod remote;
pub mod text;
pub mod tools;
pub mod ui_state;

verus! {

} // verus!
