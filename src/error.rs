//! Errors that a command of the chat client reports to its caller.
use vstd::prelude::*;

verus! {

/// Why a command of the chat client failed.
#[derive(Clone, Copy, Debug, PartialEq, Eq, Structural)]
pub enum CommandError {
    /// `connect` while a session loop is already running.
    AlreadyConnected,
    /// `send` with no live session or no channel.
    NotConnected,
    /// No credentials are stored.
    NoSession,
    /// The credentials carry no identity token.
    MissingIdentity,
    /// The identity token is not a token whose payload names the user.
    MalformedIdentity,
    /// The outbound queue is full; the line was dropped.
    QueueFull,
    /// A login brought an access token that is empty or only whitespace.
    EmptyAccessToken,
}

impl CommandError {
    /// A short text for the user.
    pub fn message(&self) -> (r: String)
        ensures
            r@ == match self {
                CommandError::AlreadyConnected => "already connected"@,
                CommandError::NotConnected => "not connected"@,
                CommandError::NoSession => "no stored session"@,
                CommandError::MissingIdentity => "no identity token"@,
                CommandError::MalformedIdentity => "malformed identity token"@,
                CommandError::QueueFull => "outbound queue full"@,
                CommandError::EmptyAccessToken => "empty access token"@,
            },
    {
        match self {
            CommandError::AlreadyConnected => "already connected".to_owned(),
            CommandError::NotConnected => "not connected".to_owned(),
            CommandError::NoSession => "no stored session".to_owned(),
            CommandError::MissingIdentity => "no identity token".to_owned(),
            CommandError::MalformedIdentity => "malformed identity token".to_owned(),
            CommandError::QueueFull => "outbound queue full".to_owned(),
            CommandError::EmptyAccessToken => "empty access token".to_owned(),
        }
    }
}

} // verus!
