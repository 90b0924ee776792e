//! The peers that are connected right now, and the latest disconnection.

use vstd::prelude::*;
use crate::map::StrMap;
use crate::text::owned;

verus! {

/// Which peers are currently connected, and which peer disconnected last and
/// when (the IEEE-754 bits of the time in epoch seconds).
#[derive(Debug)]
pub struct ConnectedTracker {
    connected: StrMap<()>,
    last_peer: Option<String>,
    last_time: Option<u64>,
}

impl ConnectedTracker {
    /// The peer ids connected now.
    pub closed spec fn peers(&self) -> Set<Seq<char>> {
        self.connected@.dom()
    }

    /// The latest disconnection: peer id and time bits.
    pub closed spec fn last(&self) -> Option<(Seq<char>, u64)> {
        match (self.last_peer, self.last_time) {
            (Some(p), Some(t)) => Some((p@, t)),
            _ => None,
        }
    }

    /// A tracker with no peer and no disconnection.
    pub fn new() -> (r: Self)
        ensures
            r.peers() == Set::<Seq<char>>::empty(),
            r.peers().finite(),
            r.last() is None,
    {
        let r = ConnectedTracker { connected: StrMap::new(), last_peer: None, last_time: None };
        assert(r.peers() =~= Set::<Seq<char>>::empty());
        r
    }

    /// Record that a peer connected.
    pub fn on_peer_connected(&mut self, peer_id: String)
        ensures
            final(self).peers() == old(self).peers().insert(peer_id@),
            final(self).peers().finite(),
            final(self).peers().len() == old(self).peers().len() + (if old(self).peers().contains(
                peer_id@,
            ) {
                0int
            } else {
                1int
            }),
            final(self).last() == old(self).last(),
    {
        self.connected.insert(peer_id, ());
    }

    /// Record that a peer disconnected at the given time.
    pub fn on_peer_disconnected(&mut self, peer_id: &str, at: u64)
        ensures
            final(self).peers() == old(self).peers().remove(peer_id@),
            final(self).peers().finite(),
            final(self).peers().len() == old(self).peers().len() - (if old(self).peers().contains(
                peer_id@,
            ) {
                1int
            } else {
                0int
            }),
            final(self).last() == Some((peer_id@, at)),
    {
        let _ = self.connected.remove(peer_id);
        self.last_peer = Some(owned(peer_id));
        self.last_time = Some(at);
    }

    /// The number of peers connected now.
    pub fn len(&self) -> (r: usize)
        ensures
            r == self.peers().len(),
    {
        self.connected.len()
    }

    /// Whether no peer is connected.
    pub fn is_empty(&self) -> (r: bool)
        ensures
            r == (self.peers().len() == 0),
    {
        self.connected.is_empty()
    }

    /// Whether a peer is connected now.
    pub fn contains(&self, peer_id: &str) -> (r: bool)
        ensures
            r == self.peers().contains(peer_id@),
    {
        self.connected.contains_key(peer_id)
    }

    /// The ids of the peers connected now, each once, in no set order.
    pub fn connected_peer_ids(&self) -> (r: Vec<String>)
        ensures
            r@.map_values(|s: String| s@).to_set() == self.peers(),
            r@.map_values(|s: String| s@).no_duplicates(),
    {
        self.connected.keys()
    }

    /// The latest disconnection, if any.
    pub fn last_disconnection(&self) -> (r: Option<(String, u64)>)
        ensures
            match r {
                Some((p, t)) => self.last() == Some((p@, t)),
                None => self.last() is None,
            },
    {
        match (&self.last_peer, self.last_time) {
            (Some(p), Some(t)) => Some((owned(p.as_str()), t)),
            _ => None,
        }
    }

    /// Forget every peer and the latest disconnection.
    pub fn clear(&mut self)
        ensures
            final(self).peers() == Set::<Seq<char>>::empty(),
            final(self).last() is None,
    {
        self.connected = StrMap::new();
        self.last_peer = None;
        self.last_time = None;
        assert(self.peers() =~= Set::<Seq<char>>::empty());
    }
}

} // verus!
