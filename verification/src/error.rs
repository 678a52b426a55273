use vstd::prelude::*;

verus! {

/// Error surfaced by the monitor core. Every payload is a plain value; the
/// user-facing rendering of an error as a string is left to the embedding
/// shell.
#[derive(Debug, Clone, PartialEq, Eq)]
pub enum Error {
    /// The given endpoint text could not be parsed as a URL; carries the
    /// parser's message.
    Url(String),
    /// A supervisor for this application id is already live.
    ApplicationAlreadyConnected(u128),
    /// A transport-level failure reported by a supervisor; carries the
    /// downstream message.
    Transport(String),
    /// A collection file was present but could not be decoded.
    Serde(String),
    /// The storage directory could not be created; fatal at startup.
    CannotCreateStorage { path: String },
    /// No process id could be resolved for the endpoint at this URL.
    PIDNotFound { url: String },
}

} // verus!
