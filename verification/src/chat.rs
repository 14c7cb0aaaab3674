//! One chat message, as the command orchestrator sees it: sender, role
//! flags already classified by the chat transport, and the raw text.

use vstd::prelude::*;

verus! {

/// A chat message with its sender's role flags.
#[derive(Debug, Clone, PartialEq, Eq)]
pub struct HandleMessage {
    pub channel_name: String,
    pub sender_name: String,
    pub broadcaster: bool,
    pub moderator: bool,
    pub vip: bool,
    pub message: String,
}

} // verus!
