//! Remote control for a BELABOX streaming encoder, driven from Twitch chat.
//!
//! The crate holds the logic of the bot: the wire codec for the appliance's
//! control protocol, the connection supervisor's state machine, the outbound
//! request gateway, the shared appliance-state cache, and the chat command
//! orchestrator.  Networking, timers and the chat transport live outside the
//! library and call into it with plain values.

pub mod chat;
pub mod codec;
pub mod command_handler;
pub mod config;
pub mod error;
pub mod fuzzy;
pub mod json;
pub mod messages;
pub mod monitor;
pub mod requests;
pub mod session;
pub mod state;
pub mod table;
pub mod text;
