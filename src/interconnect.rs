use vstd::prelude::*;

use crate::wire::{decoded_network_message, network_message_bytes, NetworkMessage, NetworkMessageType};

verus! {

/// A message for a dispatcher: its type, the peer it came from and its payload.
pub struct DispatchEnvelope {
    pub message_type: NetworkMessageType,
    pub source_peer_id: String,
    pub payload: Vec<u8>,
}

/// What becomes of bytes that the mesh received on a connection.
pub enum Inbound {
    /// Hand the envelope to the network dispatch loop.
    Dispatch(DispatchEnvelope),
    /// The connection belongs to no identified peer; the bytes are dropped.
    UnknownConnection,
    /// The bytes are not a network message; they are dropped.
    Malformed,
}

/// The peer bound to connection `conn` in a list of bindings: the latest binding for it,
/// where `None` is an unbinding.
pub open spec fn peer_in(bindings: Seq<(u64, Option<String>)>, conn: u64) -> Option<Seq<char>>
    decreases bindings.len(),
{
    if bindings.len() == 0 {
        None
    } else if bindings.last().0 == conn {
        match bindings.last().1 {
            Some(p) => Some(p@),
            None => None,
        }
    } else {
        peer_in(bindings.drop_last(), conn)
    }
}

proof fn lemma_bound_entry(bindings: Seq<(u64, Option<String>)>, conn: u64)
    requires
        peer_in(bindings, conn) is Some,
    ensures
        exists|m: int|
            0 <= m < bindings.len() && #[trigger] bindings[m].0 == conn && bindings[m].1 is Some
                && bindings[m].1.unwrap()@ == peer_in(bindings, conn).unwrap() && forall|j: int|
                m < j < bindings.len() ==> bindings[j].0 != conn,
    decreases bindings.len(),
{
    let n = bindings.len() as int;
    if bindings.last().0 == conn {
        assert(bindings[n - 1].0 == conn);
    } else {
        let prev = bindings.drop_last();
        lemma_bound_entry(prev, conn);
        let m = choose|m: int|
            0 <= m < prev.len() && #[trigger] prev[m].0 == conn && prev[m].1 is Some
                && prev[m].1.unwrap()@ == peer_in(prev, conn).unwrap() && forall|j: int|
                m < j < prev.len() ==> prev[j].0 != conn;
        assert(bindings[m] == prev[m]);
        assert(bindings[n - 1].0 != conn);
        assert forall|j: int| m < j < bindings.len() implies bindings[j].0 != conn by {
            if j < n - 1 {
                assert(bindings[j] == prev[j]);
            }
        }
    }
}

/// Addressing between mesh connections and peer identities.
pub struct PeerInterconnect {
    bindings: Vec<(u64, Option<String>)>,
}

impl PeerInterconnect {
    /// The peer on connection `conn`, if one is bound.
    pub closed spec fn peer_on(&self, conn: u64) -> Option<Seq<char>> {
        peer_in(self.bindings@, conn)
    }

    /// No connection is bound.
    pub fn new() -> (r: Self)
        ensures
            forall|c: u64| #[trigger] r.peer_on(c) is None,
    {
        PeerInterconnect { bindings: Vec::new() }
    }

    /// Binds connection `conn` to peer `peer_id`.
    pub fn bind(&mut self, conn: u64, peer_id: String)
        ensures
            final(self).peer_on(conn) == Some(peer_id@),
            forall|c: u64| c != conn ==> #[trigger] final(self).peer_on(c) == old(self).peer_on(c),
    {
        let ghost old_b = self.bindings@;
        self.bindings.push((conn, Some(peer_id)));
        assert(self.bindings@.drop_last() =~= old_b);
    }

    /// Unbinds connection `conn`.
    pub fn unbind(&mut self, conn: u64)
        ensures
            final(self).peer_on(conn) is None,
            forall|c: u64| c != conn ==> #[trigger] final(self).peer_on(c) == old(self).peer_on(c),
    {
        let ghost old_b = self.bindings@;
        self.bindings.push((conn, None));
        assert(self.bindings@.drop_last() =~= old_b);
    }

    /// The peer on connection `conn`, if one is bound.
    pub fn peer_for(&self, conn: u64) -> (r: Option<String>)
        ensures
            match r {
                Some(p) => self.peer_on(conn) == Some(p@),
                None => self.peer_on(conn) is None,
            },
    {
        let mut k: usize = self.bindings.len();
        assert(self.bindings@.subrange(0, k as int) =~= self.bindings@);
        while k > 0
            invariant
                k <= self.bindings@.len(),
                peer_in(self.bindings@, conn) == peer_in(self.bindings@.subrange(0, k as int), conn),
            decreases k,
        {
            assert(self.bindings@.subrange(0, k as int).drop_last() =~= self.bindings@.subrange(
                0,
                k - 1,
            ));
            if self.bindings[k - 1].0 == conn {
                return match &self.bindings[k - 1].1 {
                    Some(p) => Some(p.clone()),
                    None => None,
                };
            }
            k = k - 1;
        }
        None
    }

    /// A connection on which peer `peer_id` is bound, if there is one.
    pub fn connection_for(&self, peer_id: &String) -> (r: Option<u64>)
        ensures
            match r {
                Some(c) => self.peer_on(c) == Some(peer_id@),
                None => forall|c: u64| #[trigger] self.peer_on(c) != Some(peer_id@),
            },
    {
        let mut k: usize = self.bindings.len();
        while k > 0
            invariant
                k <= self.bindings@.len(),
                forall|j: int|
                    k <= j < self.bindings@.len() ==> !(#[trigger] self.bindings@[j].1 is Some
                        && self.bindings@[j].1.unwrap()@ == peer_id@ && peer_in(
                        self.bindings@,
                        self.bindings@[j].0,
                    ) == Some(peer_id@)),
            decreases k,
        {
            let c = self.bindings[k - 1].0;
            let candidate = match &self.bindings[k - 1].1 {
                Some(p) => *p == *peer_id,
                None => false,
            };
            if candidate {
                match self.peer_for(c) {
                    Some(p) => {
                        if p == *peer_id {
                            return Some(c);
                        }
                    },
                    None => {},
                }
            }
            k = k - 1;
        }
        proof {
            assert forall|c: u64| #[trigger] self.peer_on(c) != Some(peer_id@) by {
                if self.peer_on(c) == Some(peer_id@) {
                    lemma_bound_entry(self.bindings@, c);
                    let m = choose|m: int|
                        0 <= m < self.bindings@.len() && #[trigger] self.bindings@[m].0 == c
                            && self.bindings@[m].1 is Some && self.bindings@[m].1.unwrap()@
                            == peer_in(self.bindings@, c).unwrap() && forall|j: int|
                            m < j < self.bindings@.len() ==> self.bindings@[j].0 != c;
                    assert(self.bindings@[m].1 is Some);
                }
            }
        }
        None
    }

    /// Turns bytes received on connection `conn` into an envelope for the network dispatch
    /// loop, addressed by the identity of the peer on that connection.
    pub fn inbound(&self, conn: u64, bytes: &[u8]) -> (r: Inbound)
        ensures
            match r {
                Inbound::Dispatch(e) => self.peer_on(conn) == Some(e.source_peer_id@)
                    && decoded_network_message(bytes@) == Some((e.message_type, e.payload@)),
                Inbound::UnknownConnection => self.peer_on(conn) is None,
                Inbound::Malformed => self.peer_on(conn) is Some && decoded_network_message(
                    bytes@,
                ) is None,
            },
    {
        let source_peer_id = match self.peer_for(conn) {
            Some(p) => p,
            None => return Inbound::UnknownConnection,
        };
        match NetworkMessage::from_bytes(bytes) {
            Some(m) => Inbound::Dispatch(
                DispatchEnvelope { message_type: m.message_type, source_peer_id, payload: m.payload },
            ),
            None => Inbound::Malformed,
        }
    }

    /// Addresses a message to a peer: the connection to send it on and its bytes, where the
    /// peer is bound to a connection.
    pub fn outbound(&self, peer_id: &String, message: &NetworkMessage) -> (r: Option<(u64, Vec<u8>)>)
        ensures
            match r {
                Some((c, b)) => self.peer_on(c) == Some(peer_id@) && b@ == network_message_bytes(
                    message.message_type,
                    message.payload@,
                ),
                None => forall|c: u64| #[trigger] self.peer_on(c) != Some(peer_id@),
            },
    {
        match self.connection_for(peer_id) {
            Some(c) => Some((c, message.to_bytes())),
            None => None,
        }
    }
}

} // verus!
