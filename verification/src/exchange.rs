//! The two exchanges with a server: fetching messages and sending one.
//!
//! Each exchange is a single request and a single reply. This module says
//! which request to make and what a reply means; the caller carries the
//! request over the network and reports what came back.

use vstd::prelude::*;
use crate::error::ClientError;
use crate::keystore::Key;
use crate::registry::ServerRecord;

verus! {

/// A contact's name, encrypted under the user's key. Only the cipher and the
/// server can read it; the client passes it on as it is.
#[derive(Debug, Clone, PartialEq, Eq)]
pub struct EncryptedToken {
    ciphertext: String,
}

impl View for EncryptedToken {
    type V = Seq<char>;

    closed spec fn view(&self) -> Seq<char> {
        self.ciphertext@
    }
}

impl EncryptedToken {
    /// Wraps what the cipher produced.
    pub fn new(ciphertext: String) -> (token: EncryptedToken)
        ensures
            token@ == ciphertext@,
    {
        EncryptedToken { ciphertext }
    }

    /// The ciphertext, for the lookup parameter of a fetch.
    pub fn as_str(&self) -> (ciphertext: &str)
        ensures
            ciphertext@ == self@,
    {
        self.ciphertext.as_str()
    }
}

/// Where messages are read from, on a server with base URL `base`.
pub open spec fn messages_endpoint(base: Seq<char>) -> Seq<char> {
    base + "/messages"@
}

/// Where a message is written to, on a server with base URL `base`.
pub open spec fn incoming_endpoint(base: Seq<char>) -> Seq<char> {
    base + "/incoming"@
}

/// A read of the messages kept for one contact.
#[derive(Debug, Clone, PartialEq, Eq)]
pub struct FetchRequest {
    /// The address to read from.
    pub url: String,
    /// The contact to look up, already encrypted.
    pub identity: EncryptedToken,
}

/// A write of one message. The fields travel as the user gave them, together
/// with the key: on this path the server does the encrypting.
#[derive(PartialEq, Eq)]
pub struct SendRequest {
    /// The address to write to.
    pub url: String,
    /// The message text.
    pub message: String,
    /// Who the message is from.
    pub sender: String,
    /// Who the message is for.
    pub recipient: String,
    /// The key material.
    pub key: String,
}

/// The names and values of a send request's fields, in wire order.
pub open spec fn form_of(request: SendRequest) -> Seq<(Seq<char>, Seq<char>)> {
    seq![
        ("message"@, request.message@),
        ("to"@, request.recipient@),
        ("from"@, request.sender@),
        ("key"@, request.key@),
    ]
}

impl SendRequest {
    /// The fields to put on the wire, each with its name.
    pub fn form(&self) -> (fields: Vec<(&'static str, &str)>)
        ensures
            fields.deep_view() == form_of(*self),
    {
        let mut fields: Vec<(&'static str, &str)> = Vec::new();
        fields.push(("message", self.message.as_str()));
        fields.push(("to", self.recipient.as_str()));
        fields.push(("from", self.sender.as_str()));
        fields.push(("key", self.key.as_str()));
        fields
    }
}

/// The request that reads the messages of `identity` from `server`.
pub fn fetch_request(server: &ServerRecord, identity: EncryptedToken) -> (request: FetchRequest)
    ensures
        request.url@ == messages_endpoint(server.url@),
        request.identity == identity,
{
    FetchRequest { url: server.url.clone().concat("/messages"), identity }
}

/// The request that hands `message` from `sender` for `recipient` to `server`.
pub fn send_request(
    server: &ServerRecord,
    message: &str,
    key: &Key,
    recipient: &str,
    sender: &str,
) -> (request: SendRequest)
    ensures
        request.url@ == incoming_endpoint(server.url@),
        request.message@ == message@,
        request.sender@ == sender@,
        request.recipient@ == recipient@,
        request.key@ == key@,
{
    SendRequest {
        url: server.url.clone().concat("/incoming"),
        message: message.to_owned(),
        sender: sender.to_owned(),
        recipient: recipient.to_owned(),
        key: key.expose().to_owned(),
    }
}

/// What came of carrying a request to a server.
#[derive(Debug, Clone, PartialEq, Eq)]
pub enum Outcome<B> {
    /// No connection could be made.
    Unreachable,
    /// The server answered.
    Response { status: u16, body: B },
}

/// Whether a status reports success.
pub open spec fn is_success(status: u16) -> bool {
    200 <= status <= 299
}

/// Reads the outcome of a fetch: the reply's body where the server reported
/// success.
pub fn fetch_result<B>(outcome: Outcome<B>) -> (r: Result<B, ClientError>)
    ensures
        r == match outcome {
            Outcome::Unreachable => Err::<B, ClientError>(ClientError::Transport),
            Outcome::Response { status, body } => if is_success(status) {
                Ok::<B, ClientError>(body)
            } else {
                Err::<B, ClientError>(ClientError::Protocol { status })
            },
        },
{
    match outcome {
        Outcome::Unreachable => Err(ClientError::Transport),
        Outcome::Response { status, body } => {
            if 200 <= status && status <= 299 {
                Ok(body)
            } else {
                Err(ClientError::Protocol { status })
            }
        },
    }
}

/// Reads the outcome of a send. The body of the reply is the server's
/// acknowledgment. The message counts as sent only where the server reported
/// success and acknowledged it; a reply that says otherwise is no failure of
/// the exchange.
pub fn send_result(outcome: Outcome<bool>) -> (r: Result<bool, ClientError>)
    ensures
        r == match outcome {
            Outcome::Unreachable => Err::<bool, ClientError>(ClientError::Transport),
            Outcome::Response { status, body } => Ok::<bool, ClientError>(
                is_success(status) && body,
            ),
        },
{
    match outcome {
        Outcome::Unreachable => Err(ClientError::Transport),
        Outcome::Response { status, body } => Ok(200 <= status && status <= 299 && body),
    }
}

} // verus!
