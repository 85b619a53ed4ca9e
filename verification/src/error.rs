//! The failures that the client reports.

use vstd::prelude::*;

verus! {

/// Why an operation stopped. Every failure is final: nothing is retried.
#[derive(Debug, Clone, Copy, PartialEq, Eq, Structural)]
pub enum ClientError {
    /// The servers directory or one of its files could not be read.
    RegistryIo,
    /// The index names no server; `count` is the number of servers known.
    IndexOutOfRange { count: usize },
    /// The index argument is not a decimal number.
    NonNumericIndex,
    /// The server could not be reached.
    Transport,
    /// The server answered with a status outside the success range.
    Protocol { status: u16 },
    /// The reply could not be decrypted under the held key.
    Decryption,
    /// The decrypted reply holds `messages` messages but `senders` senders.
    MalformedBundle { messages: usize, senders: usize },
    /// No usable default key is stored.
    MissingKey,
}

/// The line shown to the user for each failure.
pub open spec fn diagnostic(e: ClientError) -> Seq<char> {
    match e {
        ClientError::RegistryIo => "Error: the server registry is not readable"@,
        ClientError::IndexOutOfRange { .. } => "Server index out of range"@,
        ClientError::NonNumericIndex => "Error: index is not a number"@,
        ClientError::Transport => "Error: the server is unreachable"@,
        ClientError::Protocol { .. } => "Error: the server refused the request"@,
        ClientError::Decryption => "Error: the reply does not decrypt under this key"@,
        ClientError::MalformedBundle { .. } => "Error: messages and senders differ in number"@,
        ClientError::MissingKey => "Error: no default key is stored"@,
    }
}

impl ClientError {
    /// The diagnostic line for this failure.
    pub fn describe(&self) -> (line: &'static str)
        ensures
            line@ == diagnostic(*self),
    {
        match self {
            ClientError::RegistryIo => "Error: the server registry is not readable",
            ClientError::IndexOutOfRange { .. } => "Server index out of range",
            ClientError::NonNumericIndex => "Error: index is not a number",
            ClientError::Transport => "Error: the server is unreachable",
            ClientError::Protocol { .. } => "Error: the server refused the request",
            ClientError::Decryption => "Error: the reply does not decrypt under this key",
            ClientError::MalformedBundle { .. } => "Error: messages and senders differ in number",
            ClientError::MissingKey => "Error: no default key is stored",
        }
    }

    /// The process exit status for this failure: every failure ends the run
    /// with status 1.
    pub fn exit_code(&self) -> (code: i32)
        ensures
            code == 1,
    {
        1
    }
}

} // verus!
