//! Peers and the replicators a node reports.
use vstd::prelude::*;

verus! {

/// One node on the network: its identifier and the addresses it listens on.
/// Two identities are the same peer when their identifiers match; the
/// addresses are informational.
#[derive(Debug, Clone)]
pub struct PeerIdentity {
    pub id: String,
    pub addresses: Vec<String>,
}

impl PartialEq for PeerIdentity {
    fn eq(&self, other: &PeerIdentity) -> (r: bool) {
        self.id == other.id
    }
}

impl vstd::std_specs::cmp::PartialEqSpecImpl for PeerIdentity {
    open spec fn obeys_eq_spec() -> bool {
        true
    }

    open spec fn eq_spec(&self, other: &PeerIdentity) -> bool {
        self.id@ == other.id@
    }
}

impl PeerIdentity {
    /// Whether `self` and `other` name the same peer.
    pub fn same_peer(&self, other: &PeerIdentity) -> (r: bool)
        ensures
            r == (self.id@ == other.id@),
    {
        self.id == other.id
    }
}

/// A standing directive on a node to keep collections in sync with a peer, as
/// the node lists it. `status` is the node's lifecycle code, kept as it came:
/// it is compared, never interpreted.
#[derive(Debug, Clone)]
pub struct Replicator {
    pub target: PeerIdentity,
    pub collections: Vec<String>,
    pub status: u8,
    pub last_status_change: String,
}

} // verus!
