//! Client-side connection errors.
use vstd::prelude::*;
use crate::text::copy_str;

verus! {

/// Why connecting to the daemon's socket failed, as the operating system
/// reported it.
#[derive(Debug, Clone, Copy, PartialEq, Eq)]
pub enum ConnectErrorKind {
    NotFound,
    ConnectionRefused,
    Other,
}

#[derive(Debug, Clone, PartialEq, Eq)]
pub enum ClientError {
    DaemonNotRunning,
    /// Any other I/O failure, with its text.
    Io(String),
}

impl ClientError {
    pub open spec fn text(&self) -> Seq<char> {
        match self {
            ClientError::DaemonNotRunning => "daemon not running"@,
            ClientError::Io(s) => s@,
        }
    }

    pub fn message(&self) -> (m: String)
        ensures
            m@ == self.text(),
    {
        match self {
            ClientError::DaemonNotRunning => copy_str("daemon not running"),
            ClientError::Io(s) => s.clone(),
        }
    }
}

/// A failed connection attempt as a client error: a missing socket or a
/// refused connection mean that no daemon is running; anything else is an
/// I/O error, kept with its text.
pub fn connect_error(kind: ConnectErrorKind, detail: &str) -> (e: ClientError)
    ensures
        match kind {
            ConnectErrorKind::Other => e matches ClientError::Io(s) && s@ == detail@,
            _ => e == ClientError::DaemonNotRunning,
        },
{
    match kind {
        ConnectErrorKind::NotFound => ClientError::DaemonNotRunning,
        ConnectErrorKind::ConnectionRefused => ClientError::DaemonNotRunning,
        ConnectErrorKind::Other => ClientError::Io(copy_str(detail)),
    }
}

} // verus!
