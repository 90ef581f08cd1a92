//! Single-user protection for the daemon's socket: only the daemon's own
//! user may connect.
use vstd::prelude::*;

verus! {

/// Per-connection peer-UID check.
pub trait PeerCredentialCheck {
    fn is_allowed(&self, peer_uid: u32) -> bool;
}

/// Whether a peer may connect, given the daemon's own user id.
pub fn uid_allowed(peer_uid: u32, own_uid: u32) -> (b: bool)
    ensures
        b == (peer_uid == own_uid),
{
    peer_uid == own_uid
}

/// The production check: only the daemon's own user may connect. It holds
/// that user's id, read from the process once at startup.
#[derive(Debug, Clone, Copy, PartialEq, Eq)]
pub struct CurrentUidCheck {
    pub own_uid: u32,
}

impl CurrentUidCheck {
    pub fn new(own_uid: u32) -> (c: Self)
        ensures
            c.own_uid == own_uid,
    {
        CurrentUidCheck { own_uid }
    }
}

impl PeerCredentialCheck for CurrentUidCheck {
    fn is_allowed(&self, peer_uid: u32) -> (b: bool)
        ensures
            b == (peer_uid == self.own_uid),
    {
        uid_allowed(peer_uid, self.own_uid)
    }
}

} // verus!
