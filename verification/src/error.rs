//! The errors that the engine reports to its callers.

use vstd::prelude::*;

verus! {

/// How an HTTP call failed.
#[derive(Debug, PartialEq, Eq)]
pub enum HttpFailure {
    /// The server answered with a status outside 200..=299.
    Status(u16),
    /// No answer came; the text says what went wrong on the way.
    Transport(String),
}

/// Everything that an operation of the engine can fail with.
#[derive(Debug)]
pub enum Error {
    /// The topic is empty, longer than 64 characters, or holds a character
    /// other than an ASCII letter, a digit, `_` or `-`.
    InvalidTopic(String),
    /// The server is not an absolute `http` or `https` URL.
    InvalidServer(String),
    /// A subscription failed validation; the list holds one error for each
    /// field that was refused.
    InvalidSubscription(Vec<Error>),
    /// A message with this id is already stored for its server.
    DuplicateMessage,
    /// No subscription matched; the text says what was being done.
    SubscriptionNotFound(String),
    /// The store refused the operation for another reason.
    Db(String),
    /// An HTTP call failed.
    Http(HttpFailure),
    /// Encryption was asked for and no key is stored for the topic.
    NoEncryptionKey,
    /// The stored key is not the base64 form of exactly 32 bytes.
    BadKey,
    /// The cipher refused the message.
    EncryptionFailed,
    /// The secret store failed; the cache was left as it was.
    VaultError(String),
}

impl Error {
    /// A short text for the error, for logs and dialogs.
    pub fn message(&self) -> (s: String)
        ensures
            s@ == self.message_text(),
    {
        match self {
            Error::InvalidTopic(_) => String::from_str("invalid topic"),
            Error::InvalidServer(_) => String::from_str("invalid server"),
            Error::InvalidSubscription(_) => String::from_str("invalid subscription"),
            Error::DuplicateMessage => String::from_str("duplicate message"),
            Error::SubscriptionNotFound(_) => String::from_str("subscription not found"),
            Error::Db(_) => String::from_str("database error"),
            Error::Http(_) => String::from_str("http error"),
            Error::NoEncryptionKey => String::from_str("no encryption key"),
            Error::BadKey => String::from_str("bad encryption key"),
            Error::EncryptionFailed => String::from_str("encryption failed"),
            Error::VaultError(_) => String::from_str("secret store error"),
        }
    }

    /// The text that `message` returns.
    pub open spec fn message_text(&self) -> Seq<char> {
        match self {
            Error::InvalidTopic(_) => "invalid topic"@,
            Error::InvalidServer(_) => "invalid server"@,
            Error::InvalidSubscription(_) => "invalid subscription"@,
            Error::DuplicateMessage => "duplicate message"@,
            Error::SubscriptionNotFound(_) => "subscription not found"@,
            Error::Db(_) => "database error"@,
            Error::Http(_) => "http error"@,
            Error::NoEncryptionKey => "no encryption key"@,
            Error::BadKey => "bad encryption key"@,
            Error::EncryptionFailed => "encryption failed"@,
            Error::VaultError(_) => "secret store error"@,
        }
    }
}

} // verus!
