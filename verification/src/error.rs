//! The error taxonomy of the library.
//!
//! Transport details of the outside world (socket errors, IRC errors) arrive
//! here only as the variant that classifies them; the surrounding program
//! keeps the originals for its logs.

use vstd::prelude::*;

verus! {

/// Errors of the appliance session.
#[derive(Debug, Clone, Copy, PartialEq, Eq, Structural)]
pub enum BelaboxError {
    /// The transport could not be opened.
    Connect,
    /// A frame could not be written.
    Send,
    /// No live connection was present.
    Disconnected,
    /// The appliance rejected the authentication frame.
    AuthFailed,
    /// The completion channel of an intent closed without an outcome.
    ReceiverClosed,
    /// A restart was requested while one was already pending.
    AlreadyRestarting,
}

impl BelaboxError {
    /// The human-readable text of this error.
    pub fn message(&self) -> (r: String)
        ensures
            r@ == spec_belabox_error_message(*self),
    {
        match self {
            BelaboxError::Connect => String::from_str("websocket error"),
            BelaboxError::Send => String::from_str("websocket send error"),
            BelaboxError::Disconnected => String::from_str("disconnected from BELABOX Cloud"),
            BelaboxError::AuthFailed => String::from_str("auth failed"),
            BelaboxError::ReceiverClosed => String::from_str("Receiver closed"),
            BelaboxError::AlreadyRestarting => String::from_str("Already restarting"),
        }
    }
}

/// The text of each session error.
pub open spec fn spec_belabox_error_message(e: BelaboxError) -> Seq<char> {
    match e {
        BelaboxError::Connect => "websocket error"@,
        BelaboxError::Send => "websocket send error"@,
        BelaboxError::Disconnected => "disconnected from BELABOX Cloud"@,
        BelaboxError::AuthFailed => "auth failed"@,
        BelaboxError::ReceiverClosed => "Receiver closed"@,
        BelaboxError::AlreadyRestarting => "Already restarting"@,
    }
}

/// Errors of the chat transport.
#[derive(Debug, Clone, Copy, PartialEq, Eq, Structural)]
pub enum TwitchError {
    /// The chat connection's sender is gone.
    Disconnected,
    /// The chat client reported an error.
    TwitchIrc,
}

impl TwitchError {
    /// The human-readable text of this error.
    pub fn message(&self) -> (r: String)
        ensures
            r@ == spec_twitch_error_message(*self),
    {
        match self {
            TwitchError::Disconnected => String::from_str("disconnected from twitch"),
            TwitchError::TwitchIrc => String::from_str("twitch error"),
        }
    }
}

/// The text of each chat-transport error.
pub open spec fn spec_twitch_error_message(e: TwitchError) -> Seq<char> {
    match e {
        TwitchError::Disconnected => "disconnected from twitch"@,
        TwitchError::TwitchIrc => "twitch error"@,
    }
}

/// Errors of configuration loading.
#[derive(Debug, Clone, Copy, PartialEq, Eq, Structural)]
pub enum ConfigError {
    /// The configuration file could not be read or written.
    Io,
    /// The configuration file held invalid JSON.
    Json,
}

/// All errors of this library.
#[derive(Debug, Clone, Copy, PartialEq, Eq, Structural)]
pub enum Error {
    Belabox(BelaboxError),
    Config(ConfigError),
    Twitch(TwitchError),
}

impl Error {
    /// The human-readable text of this error, as the chat response prints it.
    pub fn message(&self) -> (r: String)
        ensures
            r@ == spec_error_message(*self),
    {
        match self {
            Error::Belabox(_) => String::from_str("BELABOX error"),
            Error::Config(_) => String::from_str("Config error"),
            Error::Twitch(_) => String::from_str("Twitch error"),
        }
    }
}

/// The text of each library error.
pub open spec fn spec_error_message(e: Error) -> Seq<char> {
    match e {
        Error::Belabox(_) => "BELABOX error"@,
        Error::Config(_) => "Config error"@,
        Error::Twitch(_) => "Twitch error"@,
    }
}

} // verus!
