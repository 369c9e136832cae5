//! The failures a session operation can report, and how each is worded.

use vstd::prelude::*;
use vstd::string::StringExecFns;

verus! {

/// The broad cause of a failure.
#[derive(Debug, Clone, Copy, PartialEq, Eq, Structural)]
pub enum ErrorKind {
    /// The transport could not be set up: address, TCP connect, handshake.
    ConnectionFailed,
    /// The server or the key file refused the credentials.
    AuthFailed,
    /// The remote side failed a channel, PTY, shell or SFTP request.
    ChannelError,
    /// A local file could not be read or written during a transfer.
    IoError,
    /// The terminal window could not be resized.
    PtyError,
    /// No session is registered under the given channel id.
    SessionNotFound,
}

/// A failure together with the detail that explains it.
#[derive(Debug, PartialEq, Eq)]
pub enum SshError {
    ConnectionFailed(String),
    AuthFailed(String),
    ChannelError(String),
    IoError(String),
    SessionNotFound(String),
    PtyError(String),
}

/// The words that introduce the detail of an error of the given kind.
pub open spec fn kind_prefix(kind: ErrorKind) -> Seq<char> {
    match kind {
        ErrorKind::ConnectionFailed => "Connection failed: "@,
        ErrorKind::AuthFailed => "Authentication failed: "@,
        ErrorKind::ChannelError => "Channel error: "@,
        ErrorKind::IoError => "IO error: "@,
        ErrorKind::PtyError => "PTY error: "@,
        ErrorKind::SessionNotFound => "Session not found: "@,
    }
}

impl View for SshError {
    type V = (ErrorKind, Seq<char>);

    /// An error is its kind and the characters of its detail.
    open spec fn view(&self) -> (ErrorKind, Seq<char>) {
        match self {
            SshError::ConnectionFailed(d) => (ErrorKind::ConnectionFailed, d@),
            SshError::AuthFailed(d) => (ErrorKind::AuthFailed, d@),
            SshError::ChannelError(d) => (ErrorKind::ChannelError, d@),
            SshError::IoError(d) => (ErrorKind::IoError, d@),
            SshError::PtyError(d) => (ErrorKind::PtyError, d@),
            SshError::SessionNotFound(d) => (ErrorKind::SessionNotFound, d@),
        }
    }
}

impl SshError {
    /// Builds the error of the given kind around `detail`.
    pub fn new(kind: ErrorKind, detail: String) -> (e: SshError)
        ensures
            e@ == (kind, detail@),
    {
        match kind {
            ErrorKind::ConnectionFailed => SshError::ConnectionFailed(detail),
            ErrorKind::AuthFailed => SshError::AuthFailed(detail),
            ErrorKind::ChannelError => SshError::ChannelError(detail),
            ErrorKind::IoError => SshError::IoError(detail),
            ErrorKind::PtyError => SshError::PtyError(detail),
            ErrorKind::SessionNotFound => SshError::SessionNotFound(detail),
        }
    }

    /// The broad cause of this error.
    pub fn kind(&self) -> (k: ErrorKind)
        ensures
            k == self@.0,
    {
        match self {
            SshError::ConnectionFailed(_) => ErrorKind::ConnectionFailed,
            SshError::AuthFailed(_) => ErrorKind::AuthFailed,
            SshError::ChannelError(_) => ErrorKind::ChannelError,
            SshError::IoError(_) => ErrorKind::IoError,
            SshError::PtyError(_) => ErrorKind::PtyError,
            SshError::SessionNotFound(_) => ErrorKind::SessionNotFound,
        }
    }

    /// The detail this error carries, without the words that introduce it.
    pub fn detail(&self) -> (d: &String)
        ensures
            d@ == self@.1,
    {
        match self {
            SshError::ConnectionFailed(d) => d,
            SshError::AuthFailed(d) => d,
            SshError::ChannelError(d) => d,
            SshError::IoError(d) => d,
            SshError::PtyError(d) => d,
            SshError::SessionNotFound(d) => d,
        }
    }

    /// The error as the one line of text shown to the user: the words for
    /// its kind, then its detail.
    pub fn message(&self) -> (s: String)
        ensures
            s@ == kind_prefix(self@.0) + self@.1,
    {
        let head = match self {
            SshError::ConnectionFailed(_) => "Connection failed: ",
            SshError::AuthFailed(_) => "Authentication failed: ",
            SshError::ChannelError(_) => "Channel error: ",
            SshError::IoError(_) => "IO error: ",
            SshError::PtyError(_) => "PTY error: ",
            SshError::SessionNotFound(_) => "Session not found: ",
        };
        String::from_str(head).concat(self.detail().as_str())
    }
}

/// Joins a fixed lead-in and a reason into one detail text.
pub fn describe(lead: &str, reason: &str) -> (s: String)
    ensures
        s@ == lead@ + reason@,
{
    String::from_str(lead).concat(reason)
}

} // verus!
