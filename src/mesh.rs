use vstd::prelude::*;

use crate::dispatch::{DispatchQueue, SendError};

verus! {

/// Why the mesh refused an operation.
#[derive(Clone, Copy, Debug, PartialEq, Eq, Structural)]
pub enum MeshError {
    /// The connection id is unknown, or its connection was removed.
    Gone,
    /// The queue is full.
    Full,
    /// No connection id is left to hand out.
    IdsExhausted,
}

struct MeshConnection {
    id: u64,
    outgoing: DispatchQueue<Vec<u8>>,
}

/// The node's I/O substrate: one outgoing queue per connection, and one incoming queue shared
/// by all connections. Each queue keeps the order in which payloads arrived.
pub struct Mesh {
    connections: Vec<MeshConnection>,
    incoming: DispatchQueue<(u64, Vec<u8>)>,
    outgoing_capacity: usize,
    next_id: u64,
}

proof fn lemma_ids_unique(c: Seq<MeshConnection>, a: int, b: int)
    requires
        forall|i: int, j: int| 0 <= i < j < c.len() ==> #[trigger] c[i].id < #[trigger] c[j].id,
        0 <= a < c.len(),
        0 <= b < c.len(),
        c[a].id == c[b].id,
    ensures
        a == b,
{
    if a < b {
        assert(c[a].id < c[b].id);
    } else if b < a {
        assert(c[b].id < c[a].id);
    }
}

impl Mesh {
    /// The payloads waiting to be written to connection `id`, oldest first, if it is live.
    pub closed spec fn outgoing_of(&self, id: u64) -> Option<Seq<Vec<u8>>> {
        if exists|i: int| 0 <= i < self.connections@.len() && #[trigger] self.connections@[i].id == id {
            let i = choose|i: int| 0 <= i < self.connections@.len() && #[trigger] self.connections@[i].id == id;
            Some(self.connections@[i].outgoing.pending())
        } else {
            None
        }
    }

    /// The received payloads not yet taken, with their connection ids, oldest first.
    pub closed spec fn incoming(&self) -> Seq<(u64, Vec<u8>)> {
        self.incoming.pending()
    }

    /// How many payloads each connection's outgoing queue holds at most.
    pub closed spec fn outgoing_capacity(&self) -> nat {
        self.outgoing_capacity as nat
    }

    /// How many received payloads the incoming queue holds at most.
    pub closed spec fn incoming_capacity(&self) -> nat {
        self.incoming.spec_capacity()
    }

    /// The id that the next connection gets.
    pub closed spec fn next_id(&self) -> u64 {
        self.next_id
    }

    pub closed spec fn wf(&self) -> bool {
        &&& self.incoming.wf()
        &&& !self.incoming.is_shut_down()
        &&& forall|i: int| 0 <= i < self.connections@.len() ==> (#[trigger] self.connections@[i]).outgoing.spec_capacity() == self.outgoing_capacity
        &&& forall|i: int, j: int|
            0 <= i < j < self.connections@.len() ==> #[trigger] self.connections@[i].id
                < #[trigger] self.connections@[j].id
        &&& forall|i: int| 0 <= i < self.connections@.len() ==> #[trigger] self.connections@[i].id < self.next_id
        &&& forall|i: int| 0 <= i < self.connections@.len() ==> (#[trigger] self.connections@[i]).outgoing.wf()
        &&& forall|i: int| 0 <= i < self.connections@.len() ==> !(#[trigger] self.connections@[i]).outgoing.is_shut_down()
    }

    /// A mesh without connections.
    pub fn new(incoming_capacity: usize, outgoing_capacity: usize) -> (r: Self)
        ensures
            r.wf(),
            r.incoming() == Seq::<(u64, Vec<u8>)>::empty(),
            forall|id: u64| #[trigger] r.outgoing_of(id) is None,
            r.incoming_capacity() == incoming_capacity,
            r.outgoing_capacity() == outgoing_capacity,
            r.next_id() == 0,
    {
        Mesh {
            connections: Vec::new(),
            incoming: DispatchQueue::new(incoming_capacity),
            outgoing_capacity,
            next_id: 0,
        }
    }

    fn find(&self, id: u64) -> (r: Option<usize>)
        requires
            self.wf(),
        ensures
            match r {
                Some(i) => i < self.connections@.len() && self.connections@[i as int].id == id
                    && self.outgoing_of(id) == Some(self.connections@[i as int].outgoing.pending()),
                None => self.outgoing_of(id) is None,
            },
    {
        let mut i: usize = 0;
        while i < self.connections.len()
            invariant
                self.wf(),
                i <= self.connections@.len(),
                forall|k: int| 0 <= k < i ==> self.connections@[k].id != id,
            decreases self.connections@.len() - i,
        {
            if self.connections[i].id == id {
                proof {
                    let k = choose|k: int| 0 <= k < self.connections@.len() && #[trigger] self.connections@[k].id == id;
                    lemma_ids_unique(self.connections@, k, i as int);
                }
                return Some(i);
            }
            i = i + 1;
        }
        None
    }

    /// Adds a connection and returns its id; ids are never reused.
    pub fn add_connection(&mut self) -> (r: Result<u64, MeshError>)
        requires
            old(self).wf(),
        ensures
            final(self).wf(),
            final(self).incoming() == old(self).incoming(),
            final(self).incoming_capacity() == old(self).incoming_capacity(),
            final(self).outgoing_capacity() == old(self).outgoing_capacity(),
            match r {
                Ok(id) => id == old(self).next_id() && final(self).next_id() == id + 1
                    && old(self).outgoing_of(id) is None && final(self).outgoing_of(id) == Some(
                    Seq::<Vec<u8>>::empty(),
                ) && forall|other: u64| other != id ==> #[trigger] final(self).outgoing_of(other)
                    == old(self).outgoing_of(other),
                Err(e) => e == MeshError::IdsExhausted && old(self).next_id() == u64::MAX
                    && final(self).next_id() == old(self).next_id() && forall|other: u64| #[trigger] final(self).outgoing_of(other)
                    == old(self).outgoing_of(other),
            },
    {
        if self.next_id == u64::MAX {
            return Err(MeshError::IdsExhausted);
        }
        let id = self.next_id;
        let ghost old_c = self.connections@;
        self.connections.push(MeshConnection { id, outgoing: DispatchQueue::new(self.outgoing_capacity) });
        self.next_id = id + 1;
        proof {
            let c = self.connections@;
            assert forall|other: u64| other != id implies #[trigger] self.outgoing_of(other) == old(self).outgoing_of(other) by {
                if exists|i: int| 0 <= i < old_c.len() && #[trigger] old_c[i].id == other {
                    let i = choose|i: int| 0 <= i < old_c.len() && #[trigger] old_c[i].id == other;
                    assert(c[i].id == other);
                    let k = choose|k: int| 0 <= k < c.len() && #[trigger] c[k].id == other;
                    if k < i {
                        assert(c[k].id < c[i].id);
                    } else if k > i {
                        assert(c[i].id < c[k].id);
                    }
                } else if exists|k: int| 0 <= k < c.len() && #[trigger] c[k].id == other {
                    let k = choose|k: int| 0 <= k < c.len() && #[trigger] c[k].id == other;
                    assert(old_c[k].id == other);
                }
            }
            let last = c.len() - 1;
            assert(c[last].id == id);
            let k = choose|k: int| 0 <= k < c.len() && #[trigger] c[k].id == id;
            if k < last {
                assert(old_c[k].id < id);
            }
            if exists|i: int| 0 <= i < old_c.len() && #[trigger] old_c[i].id == id {
                let i = choose|i: int| 0 <= i < old_c.len() && #[trigger] old_c[i].id == id;
                assert(old_c[i].id < old(self).next_id);
            }
        }
        Ok(id)
    }

    /// Queues a payload for connection `id`.
    pub fn send(&mut self, id: u64, payload: Vec<u8>) -> (r: Result<(), MeshError>)
        requires
            old(self).wf(),
        ensures
            final(self).wf(),
            final(self).incoming_capacity() == old(self).incoming_capacity(),
            final(self).outgoing_capacity() == old(self).outgoing_capacity(),
            final(self).next_id() == old(self).next_id(),
            final(self).incoming() == old(self).incoming(),
            forall|other: u64| other != id ==> #[trigger] final(self).outgoing_of(other) == old(self).outgoing_of(other),
            match old(self).outgoing_of(id) {
                None => r == Err::<(), MeshError>(MeshError::Gone) && final(self).outgoing_of(id) is None,
                Some(q) => match r {
                    Ok(()) => q.len() < old(self).outgoing_capacity() && final(self).outgoing_of(id)
                        == Some(q.push(payload)),
                    Err(e) => e == MeshError::Full && q.len() == old(self).outgoing_capacity()
                        && final(self).outgoing_of(id) == Some(q),
                },
            },
    {
        let i = match self.find(id) {
            None => return Err(MeshError::Gone),
            Some(i) => i,
        };
        let ghost old_c = self.connections@;
        let outcome = self.connections[i].outgoing.send(payload);
        proof {
            let c = self.connections@;
            assert(c =~= old_c.update(i as int, c[i as int]));
            assert forall|other: u64| true implies #[trigger] self.outgoing_of(other) == if other == id {
                Some(c[i as int].outgoing.pending())
            } else {
                old(self).outgoing_of(other)
            } by {
                if exists|k: int| 0 <= k < c.len() && #[trigger] c[k].id == other {
                    let k = choose|k: int| 0 <= k < c.len() && #[trigger] c[k].id == other;
                    assert(old_c[k].id == other);
                    let k2 = choose|k2: int| 0 <= k2 < old_c.len() && #[trigger] old_c[k2].id == other;
                    if k2 < k {
                        assert(old_c[k2].id < old_c[k].id);
                    } else if k2 > k {
                        assert(old_c[k].id < old_c[k2].id);
                    }
                    if other == id {
                        if k < i {
                            assert(c[k].id < c[i as int].id);
                        } else if k > i {
                            assert(c[i as int].id < c[k].id);
                        }
                    }
                } else if exists|k: int| 0 <= k < old_c.len() && #[trigger] old_c[k].id == other {
                    let k = choose|k: int| 0 <= k < old_c.len() && #[trigger] old_c[k].id == other;
                    assert(c[k].id == other);
                }
            }
        }
        match outcome {
            Ok(()) => Ok(()),
            Err(_) => Err(MeshError::Full),
        }
    }

    /// Takes the oldest payload queued for connection `id`, for its writer.
    pub fn take_outgoing(&mut self, id: u64) -> (r: Option<Vec<u8>>)
        requires
            old(self).wf(),
        ensures
            final(self).wf(),
            final(self).incoming_capacity() == old(self).incoming_capacity(),
            final(self).outgoing_capacity() == old(self).outgoing_capacity(),
            final(self).next_id() == old(self).next_id(),
            final(self).incoming() == old(self).incoming(),
            forall|other: u64| other != id ==> #[trigger] final(self).outgoing_of(other) == old(self).outgoing_of(other),
            match old(self).outgoing_of(id) {
                None => r is None && final(self).outgoing_of(id) is None,
                Some(q) => match r {
                    Some(p) => q.len() > 0 && p == q[0] && final(self).outgoing_of(id) == Some(q.drop_first()),
                    None => q.len() == 0 && final(self).outgoing_of(id) == Some(q),
                },
            },
    {
        let i = match self.find(id) {
            None => return None,
            Some(i) => i,
        };
        let ghost old_c = self.connections@;
        let r = self.connections[i].outgoing.recv();
        proof {
            let c = self.connections@;
            assert(c =~= old_c.update(i as int, c[i as int]));
            assert forall|other: u64| true implies #[trigger] self.outgoing_of(other) == if other == id {
                Some(c[i as int].outgoing.pending())
            } else {
                old(self).outgoing_of(other)
            } by {
                if exists|k: int| 0 <= k < c.len() && #[trigger] c[k].id == other {
                    let k = choose|k: int| 0 <= k < c.len() && #[trigger] c[k].id == other;
                    assert(old_c[k].id == other);
                    let k2 = choose|k2: int| 0 <= k2 < old_c.len() && #[trigger] old_c[k2].id == other;
                    if k2 < k {
                        assert(old_c[k2].id < old_c[k].id);
                    } else if k2 > k {
                        assert(old_c[k].id < old_c[k2].id);
                    }
                    if other == id {
                        if k < i {
                            assert(c[k].id < c[i as int].id);
                        } else if k > i {
                            assert(c[i as int].id < c[k].id);
                        }
                    }
                } else if exists|k: int| 0 <= k < old_c.len() && #[trigger] old_c[k].id == other {
                    let k = choose|k: int| 0 <= k < old_c.len() && #[trigger] old_c[k].id == other;
                    assert(c[k].id == other);
                }
            }
        }
        r
    }

    /// Hands a payload read from connection `id` to the shared incoming queue.
    pub fn deliver(&mut self, id: u64, payload: Vec<u8>) -> (r: Result<(), MeshError>)
        requires
            old(self).wf(),
        ensures
            final(self).wf(),
            final(self).incoming_capacity() == old(self).incoming_capacity(),
            final(self).outgoing_capacity() == old(self).outgoing_capacity(),
            final(self).next_id() == old(self).next_id(),
            forall|other: u64| #[trigger] final(self).outgoing_of(other) == old(self).outgoing_of(other),
            match r {
                Ok(()) => old(self).outgoing_of(id) is Some && old(self).incoming().len()
                    < old(self).incoming_capacity() && final(self).incoming() == old(self).incoming().push((id, payload)),
                Err(e) => final(self).incoming() == old(self).incoming() && if old(self).outgoing_of(id) is None {
                    e == MeshError::Gone
                } else {
                    e == MeshError::Full && old(self).incoming().len() == old(self).incoming_capacity()
                },
            },
    {
        if self.find(id).is_none() {
            return Err(MeshError::Gone);
        }
        let ghost old_c = self.connections@;
        let outcome = self.incoming.send((id, payload));
        assert(self.connections@ == old_c);
        match outcome {
            Ok(()) => Ok(()),
            Err(_) => Err(MeshError::Full),
        }
    }

    /// Takes the oldest received payload, with the id of its connection.
    pub fn receive(&mut self) -> (r: Option<(u64, Vec<u8>)>)
        requires
            old(self).wf(),
        ensures
            final(self).wf(),
            final(self).incoming_capacity() == old(self).incoming_capacity(),
            final(self).outgoing_capacity() == old(self).outgoing_capacity(),
            final(self).next_id() == old(self).next_id(),
            forall|other: u64| #[trigger] final(self).outgoing_of(other) == old(self).outgoing_of(other),
            match r {
                Some(m) => old(self).incoming().len() > 0 && m == old(self).incoming()[0]
                    && final(self).incoming() == old(self).incoming().drop_first(),
                None => old(self).incoming().len() == 0 && final(self).incoming() == old(self).incoming(),
            },
    {
        let ghost old_c = self.connections@;
        let r = self.incoming.recv();
        assert(self.connections@ == old_c);
        r
    }

    /// Removes a connection; payloads still queued for it are dropped. Returns whether it was
    /// live.
    pub fn remove(&mut self, id: u64) -> (r: bool)
        requires
            old(self).wf(),
        ensures
            final(self).wf(),
            final(self).incoming_capacity() == old(self).incoming_capacity(),
            final(self).outgoing_capacity() == old(self).outgoing_capacity(),
            final(self).next_id() == old(self).next_id(),
            final(self).incoming() == old(self).incoming(),
            r == old(self).outgoing_of(id) is Some,
            final(self).outgoing_of(id) is None,
            forall|other: u64| other != id ==> #[trigger] final(self).outgoing_of(other) == old(self).outgoing_of(other),
    {
        let i = match self.find(id) {
            None => return false,
            Some(i) => i,
        };
        let ghost old_c = self.connections@;
        let _ = self.connections.remove(i);
        proof {
            let c = self.connections@;
            assert forall|k: int| 0 <= k < c.len() implies #[trigger] c[k] == if k < i { old_c[k] } else { old_c[k + 1] } by {}
            assert forall|a: int, b: int| 0 <= a < b < c.len() implies #[trigger] c[a].id < #[trigger] c[b].id by {
                let a2 = if a < i { a } else { a + 1 };
                let b2 = if b < i { b } else { b + 1 };
                assert(old_c[a2].id < old_c[b2].id);
            }
            assert forall|a: int| 0 <= a < c.len() implies #[trigger] c[a].id < self.next_id by {
                let a2 = if a < i { a } else { a + 1 };
                assert(old_c[a2].id < self.next_id);
            }
            assert forall|a: int| 0 <= a < c.len() implies (#[trigger] c[a]).outgoing.wf() && !c[a].outgoing.is_shut_down() by {
                let a2 = if a < i { a } else { a + 1 };
                assert(old_c[a2].outgoing.wf());
                assert(!old_c[a2].outgoing.is_shut_down());
            }
            assert forall|other: u64| true implies #[trigger] self.outgoing_of(other) == if other == id {
                None
            } else {
                old(self).outgoing_of(other)
            } by {
                if exists|k: int| 0 <= k < c.len() && #[trigger] c[k].id == other {
                    let k = choose|k: int| 0 <= k < c.len() && #[trigger] c[k].id == other;
                    let k2 = if k < i { k } else { k + 1 };
                    assert(old_c[k2].id == other);
                    let k3 = choose|k3: int| 0 <= k3 < old_c.len() && #[trigger] old_c[k3].id == other;
                    if k3 < k2 {
                        assert(old_c[k3].id < old_c[k2].id);
                    } else if k3 > k2 {
                        assert(old_c[k2].id < old_c[k3].id);
                    }
                    if other == id {
                        if k2 < i {
                            assert(old_c[k2].id < old_c[i as int].id);
                        } else {
                            assert(old_c[i as int].id < old_c[k2].id);
                        }
                    }
                } else if exists|k: int| 0 <= k < old_c.len() && #[trigger] old_c[k].id == other {
                    let k = choose|k: int| 0 <= k < old_c.len() && #[trigger] old_c[k].id == other;
                    if other != id {
                        assert(k != i);
                        let k2 = if k < i { k } else { k - 1 };
                        assert(c[k2].id == other);
                    }
                }
            }
        }
        true
    }
}

/// Moves the oldest payload queued on connection `from_id` of mesh `from` into the incoming
/// queue of mesh `to`, as received on its connection `to_id`: the hop between the two ends of
/// a connection. Where that incoming queue is full the payload stays queued (the writer
/// waits); an empty outgoing queue moves nothing. Returns whether a payload moved.
pub fn forward(from: &mut Mesh, from_id: u64, to: &mut Mesh, to_id: u64) -> (r: Result<bool, MeshError>)
    requires
        old(from).wf(),
        old(to).wf(),
    ensures
        final(from).wf(),
        final(to).wf(),
        final(from).incoming() == old(from).incoming(),
        final(from).incoming_capacity() == old(from).incoming_capacity(),
        final(from).outgoing_capacity() == old(from).outgoing_capacity(),
        final(from).next_id() == old(from).next_id(),
        final(to).incoming_capacity() == old(to).incoming_capacity(),
        final(to).outgoing_capacity() == old(to).outgoing_capacity(),
        final(to).next_id() == old(to).next_id(),
        forall|c: u64| c != from_id ==> #[trigger] final(from).outgoing_of(c) == old(from).outgoing_of(c),
        forall|c: u64| #[trigger] final(to).outgoing_of(c) == old(to).outgoing_of(c),
        match r {
            Err(e) => e == MeshError::Gone && (old(from).outgoing_of(from_id) is None || old(to).outgoing_of(to_id) is None) && final(from).outgoing_of(from_id) == old(from).outgoing_of(from_id) && final(to).incoming() == old(to).incoming(),
            Ok(moved) => old(from).outgoing_of(from_id) is Some && old(to).outgoing_of(to_id) is Some
                && {
                let q = old(from).outgoing_of(from_id).unwrap();
                if q.len() > 0 && old(to).incoming().len() < old(to).incoming_capacity() {
                    moved && final(from).outgoing_of(from_id) == Some(q.drop_first()) && final(to).incoming() == old(to).incoming().push((to_id, q[0]))
                } else {
                    !moved && final(from).outgoing_of(from_id) == Some(q) && final(to).incoming()
                        == old(to).incoming()
                }
            },
        },
{
    if from.find(from_id).is_none() || to.find(to_id).is_none() {
        return Err(MeshError::Gone);
    }
    if to.incoming.len() >= to.incoming.capacity() {
        return Ok(false);
    }
    match from.take_outgoing(from_id) {
        None => Ok(false),
        Some(payload) => {
            match to.deliver(to_id, payload) {
                Ok(()) => Ok(true),
                Err(_) => Ok(false),
            }
        },
    }
}

/// The state of one connection seen from both of its ends: what waits in the sender's
/// outgoing queue, what waits in the receiver's incoming queue, what the receiver took, and
/// what the sender's mesh accepted.
pub struct LinkModel {
    pub outgoing: Seq<Seq<u8>>,
    pub incoming: Seq<Seq<u8>>,
    pub received: Seq<Seq<u8>>,
    pub accepted: Seq<Seq<u8>>,
}

/// One step on a connection: a send, the hop from one mesh to the other, or a receive.
pub enum LinkOp {
    Send(Seq<u8>),
    Forward,
    Receive,
}

/// The effect of a step, as `Mesh::send`, `forward` and `Mesh::receive` state it for queues
/// holding at most `out_cap` and `in_cap` payloads.
pub open spec fn link_step(s: LinkModel, op: LinkOp, out_cap: nat, in_cap: nat) -> LinkModel {
    match op {
        LinkOp::Send(p) => if s.outgoing.len() < out_cap {
            LinkModel { outgoing: s.outgoing.push(p), accepted: s.accepted.push(p), ..s }
        } else {
            s
        },
        LinkOp::Forward => if s.outgoing.len() > 0 && s.incoming.len() < in_cap {
            LinkModel {
                outgoing: s.outgoing.drop_first(),
                incoming: s.incoming.push(s.outgoing[0]),
                ..s
            }
        } else {
            s
        },
        LinkOp::Receive => if s.incoming.len() > 0 {
            LinkModel {
                incoming: s.incoming.drop_first(),
                received: s.received.push(s.incoming[0]),
                ..s
            }
        } else {
            s
        },
    }
}

/// The state after a sequence of steps on a fresh connection.
pub open spec fn link_run(ops: Seq<LinkOp>, out_cap: nat, in_cap: nat) -> LinkModel
    decreases ops.len(),
{
    if ops.len() == 0 {
        LinkModel {
            outgoing: Seq::empty(),
            incoming: Seq::empty(),
            received: Seq::empty(),
            accepted: Seq::empty(),
        }
    } else {
        link_step(link_run(ops.drop_last(), out_cap, in_cap), ops.last(), out_cap, in_cap)
    }
}

/// Every payload that a mesh accepted for a connection is received at the other end exactly
/// once and in order: what was received, then what waits in the receiver's queue, then what
/// waits in the sender's queue, is exactly what was accepted.
pub proof fn lemma_link_delivers_in_order(ops: Seq<LinkOp>, out_cap: nat, in_cap: nat)
    ensures
        ({
            let s = link_run(ops, out_cap, in_cap);
            s.received + s.incoming + s.outgoing == s.accepted
        }),
    decreases ops.len(),
{
    if ops.len() > 0 {
        lemma_link_delivers_in_order(ops.drop_last(), out_cap, in_cap);
        let s = link_run(ops.drop_last(), out_cap, in_cap);
        match ops.last() {
            LinkOp::Send(p) => {
                if s.outgoing.len() < out_cap {
                    assert(s.received + s.incoming + s.outgoing.push(p) =~= (s.received + s.incoming
                        + s.outgoing).push(p));
                }
            },
            LinkOp::Forward => {
                if s.outgoing.len() > 0 && s.incoming.len() < in_cap {
                    assert(s.received + s.incoming.push(s.outgoing[0]) + s.outgoing.drop_first()
                        =~= s.received + s.incoming + s.outgoing);
                }
            },
            LinkOp::Receive => {
                if s.incoming.len() > 0 {
                    assert(s.received.push(s.incoming[0]) + s.incoming.drop_first() + s.outgoing
                        =~= s.received + s.incoming + s.outgoing);
                }
            },
        }
    }
}

} // verus!
