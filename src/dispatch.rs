use vstd::prelude::*;

use crate::wire::{CircuitMessage, CircuitMessageType, NetworkMessage, NetworkMessageType};

verus! {

/// Why an envelope was not accepted by a dispatch queue.
#[derive(Clone, Copy, Debug, PartialEq, Eq, Structural)]
pub enum SendError {
    /// The queue holds as many envelopes as its capacity allows.
    Full,
    /// The queue was shut down.
    ShutDown,
}

/// The bounded channel that feeds a dispatch loop. Envelopes leave in the order in which they
/// arrived. After shutdown no envelope is accepted, and those already queued can still be
/// drained.
pub struct DispatchQueue<T> {
    items: Vec<T>,
    capacity: usize,
    shut_down: bool,
}

impl<T> DispatchQueue<T> {
    /// The queued envelopes, oldest first.
    pub closed spec fn pending(&self) -> Seq<T> {
        self.items@
    }

    pub closed spec fn spec_capacity(&self) -> nat {
        self.capacity as nat
    }

    pub closed spec fn is_shut_down(&self) -> bool {
        self.shut_down
    }

    pub open spec fn wf(&self) -> bool {
        self.pending().len() <= self.spec_capacity()
    }

    /// An empty queue that holds at most `capacity` envelopes.
    pub fn new(capacity: usize) -> (r: Self)
        ensures
            r.wf(),
            r.pending() == Seq::<T>::empty(),
            r.spec_capacity() == capacity,
            !r.is_shut_down(),
    {
        DispatchQueue { items: Vec::new(), capacity, shut_down: false }
    }

    /// The most envelopes the queue holds.
    pub fn capacity(&self) -> (r: usize)
        ensures
            r == self.spec_capacity(),
    {
        self.capacity
    }

    /// The number of queued envelopes.
    pub fn len(&self) -> (r: usize)
        ensures
            r == self.pending().len(),
    {
        self.items.len()
    }

    /// Queues an envelope at the back. A full or shut-down queue hands it back.
    pub fn send(&mut self, item: T) -> (r: Result<(), (SendError, T)>)
        requires
            old(self).wf(),
        ensures
            final(self).wf(),
            final(self).spec_capacity() == old(self).spec_capacity(),
            final(self).is_shut_down() == old(self).is_shut_down(),
            match r {
                Ok(()) => !old(self).is_shut_down() && old(self).pending().len()
                    < old(self).spec_capacity() && final(self).pending() == old(self).pending().push(
                    item,
                ),
                Err((e, back)) => back == item && final(self).pending() == old(self).pending() && (
                if old(self).is_shut_down() {
                    e == SendError::ShutDown
                } else {
                    e == SendError::Full && old(self).pending().len() == old(self).spec_capacity()
                }),
            },
    {
        if self.shut_down {
            return Err((SendError::ShutDown, item));
        }
        if self.items.len() >= self.capacity {
            return Err((SendError::Full, item));
        }
        self.items.push(item);
        Ok(())
    }

    /// Takes the oldest envelope, if any.
    pub fn recv(&mut self) -> (r: Option<T>)
        requires
            old(self).wf(),
        ensures
            final(self).wf(),
            final(self).spec_capacity() == old(self).spec_capacity(),
            final(self).is_shut_down() == old(self).is_shut_down(),
            match r {
                Some(x) => old(self).pending().len() > 0 && x == old(self).pending()[0]
                    && final(self).pending() == old(self).pending().drop_first(),
                None => old(self).pending().len() == 0 && final(self).pending() == old(self).pending(),
            },
    {
        if self.items.len() == 0 {
            return None;
        }
        let x = self.items.remove(0);
        proof {
            assert(self.items@ =~= old(self).items@.drop_first());
        }
        Some(x)
    }

    /// Takes every queued envelope, oldest first, leaving the queue empty. It ends after as
    /// many steps as there were envelopes.
    pub fn drain(&mut self) -> (r: Vec<T>)
        requires
            old(self).wf(),
        ensures
            final(self).wf(),
            r@ == old(self).pending(),
            final(self).pending() == Seq::<T>::empty(),
            final(self).spec_capacity() == old(self).spec_capacity(),
            final(self).is_shut_down() == old(self).is_shut_down(),
    {
        let mut out: Vec<T> = Vec::new();
        while self.items.len() > 0
            invariant
                self.wf(),
                out@ + self.pending() == old(self).pending(),
                self.spec_capacity() == old(self).spec_capacity(),
                self.is_shut_down() == old(self).is_shut_down(),
            decreases self.pending().len(),
        {
            let ghost before = self.pending();
            match self.recv() {
                Some(x) => {
                    out.push(x);
                    assert(out@ + self.pending() =~= old(self).pending()) by {
                        assert(before =~= seq![x] + before.drop_first());
                    }
                },
                None => {},
            }
        }
        assert(out@ + self.pending() =~= out@);
        out
    }

    /// Stops the queue from accepting envelopes. Calling it again changes nothing.
    pub fn shutdown(&mut self)
        requires
            old(self).wf(),
        ensures
            final(self).wf(),
            final(self).is_shut_down(),
            final(self).pending() == old(self).pending(),
            final(self).spec_capacity() == old(self).spec_capacity(),
    {
        self.shut_down = true;
    }

    /// Whether the queue was shut down.
    pub fn shut_down(&self) -> (r: bool)
        ensures
            r == self.is_shut_down(),
    {
        self.shut_down
    }
}

/// One step on a dispatch queue: an envelope arrives, or the loop takes the oldest one.
pub enum QueueOp<T> {
    Send(T),
    Recv,
}

/// The queue contents after a sequence of steps; a step that the queue refuses or that finds
/// it empty changes nothing.
pub open spec fn queue_after<T>(ops: Seq<QueueOp<T>>, capacity: nat) -> Seq<T>
    decreases ops.len(),
{
    if ops.len() == 0 {
        Seq::empty()
    } else {
        let q = queue_after(ops.drop_last(), capacity);
        match ops.last() {
            QueueOp::Send(x) => if q.len() < capacity {
                q.push(x)
            } else {
                q
            },
            QueueOp::Recv => if q.len() > 0 {
                q.drop_first()
            } else {
                q
            },
        }
    }
}

/// The envelopes accepted by a sequence of steps, in order of arrival.
pub open spec fn accepted<T>(ops: Seq<QueueOp<T>>, capacity: nat) -> Seq<T>
    decreases ops.len(),
{
    if ops.len() == 0 {
        Seq::empty()
    } else {
        let a = accepted(ops.drop_last(), capacity);
        match ops.last() {
            QueueOp::Send(x) => if queue_after(ops.drop_last(), capacity).len() < capacity {
                a.push(x)
            } else {
                a
            },
            QueueOp::Recv => a,
        }
    }
}

/// The envelopes handed to the loop by a sequence of steps, in order.
pub open spec fn delivered<T>(ops: Seq<QueueOp<T>>, capacity: nat) -> Seq<T>
    decreases ops.len(),
{
    if ops.len() == 0 {
        Seq::empty()
    } else {
        let d = delivered(ops.drop_last(), capacity);
        let q = queue_after(ops.drop_last(), capacity);
        match ops.last() {
            QueueOp::Send(_) => d,
            QueueOp::Recv => if q.len() > 0 {
                d.push(q[0])
            } else {
                d
            },
        }
    }
}

/// A dispatch queue hands envelopes to its loop in the order in which they were accepted:
/// what was delivered, followed by what is still queued, is exactly what was accepted.
pub proof fn lemma_dispatch_order<T>(ops: Seq<QueueOp<T>>, capacity: nat)
    ensures
        delivered(ops, capacity) + queue_after(ops, capacity) == accepted(ops, capacity),
    decreases ops.len(),
{
    if ops.len() > 0 {
        let prev = ops.drop_last();
        lemma_dispatch_order(prev, capacity);
        let q = queue_after(prev, capacity);
        let d = delivered(prev, capacity);
        match ops.last() {
            QueueOp::Send(x) => {
                if q.len() < capacity {
                    assert(d + q.push(x) =~= (d + q).push(x));
                }
            },
            QueueOp::Recv => {
                if q.len() > 0 {
                    assert(d.push(q[0]) + q.drop_first() =~= d + q);
                }
            },
        }
    }
}

/// The handlers of the network dispatch loop.
#[derive(Clone, Copy, Debug, PartialEq, Eq, Structural)]
pub enum NetworkHandler {
    /// Answers an echo with the same payload.
    Echo,
    /// Accepts a heartbeat; nothing is sent back.
    Heartbeat,
    /// Unwraps a circuit message and hands it to the circuit dispatch loop.
    CircuitForward,
}

/// A registry from message type to handler. Setting a handler for a type replaces the one
/// that was there.
pub struct NetworkDispatcher {
    handlers: Vec<(NetworkMessageType, NetworkHandler)>,
}

/// The handler for message type `t` in a list of registrations: the last one for `t`.
pub open spec fn handler_in(hs: Seq<(NetworkMessageType, NetworkHandler)>, t: NetworkMessageType) -> Option<
    NetworkHandler,
>
    decreases hs.len(),
{
    if hs.len() == 0 {
        None
    } else if hs.last().0 == t {
        Some(hs.last().1)
    } else {
        handler_in(hs.drop_last(), t)
    }
}

impl NetworkDispatcher {
    pub closed spec fn handler(&self, t: NetworkMessageType) -> Option<NetworkHandler> {
        handler_in(self.handlers@, t)
    }

    /// A registry with no handler.
    pub fn new() -> (r: Self)
        ensures
            forall|t: NetworkMessageType| #[trigger] r.handler(t) is None,
    {
        NetworkDispatcher { handlers: Vec::new() }
    }

    /// Registers `h` for message type `t`.
    pub fn set_handler(&mut self, t: NetworkMessageType, h: NetworkHandler)
        ensures
            final(self).handler(t) == Some(h),
            forall|u: NetworkMessageType| u != t ==> #[trigger] final(self).handler(u) == old(self).handler(u),
    {
        let ghost old_h = self.handlers@;
        self.handlers.push((t, h));
        assert(self.handlers@.drop_last() =~= old_h);
    }

    /// The handler registered for message type `t`, if any.
    pub fn handler_for(&self, t: NetworkMessageType) -> (r: Option<NetworkHandler>)
        ensures
            r == self.handler(t),
    {
        let mut k: usize = self.handlers.len();
        assert(self.handlers@.subrange(0, k as int) =~= self.handlers@);
        while k > 0
            invariant
                k <= self.handlers@.len(),
                handler_in(self.handlers@, t) == handler_in(self.handlers@.subrange(0, k as int), t),
            decreases k,
        {
            let (u, h) = self.handlers[k - 1];
            assert(self.handlers@.subrange(0, k as int).drop_last() =~= self.handlers@.subrange(
                0,
                k - 1,
            ));
            if u == t {
                return Some(h);
            }
            k = k - 1;
        }
        None
    }

    /// The registry of a node's network dispatch loop: echo, heartbeat and circuit messages.
    pub fn standard() -> (r: Self)
        ensures
            r.handler(NetworkMessageType::NetworkEcho) == Some(NetworkHandler::Echo),
            r.handler(NetworkMessageType::NetworkHeartbeat) == Some(NetworkHandler::Heartbeat),
            r.handler(NetworkMessageType::Circuit) == Some(NetworkHandler::CircuitForward),
            forall|t: NetworkMessageType|
                t != NetworkMessageType::NetworkEcho && t != NetworkMessageType::NetworkHeartbeat
                    && t != NetworkMessageType::Circuit ==> #[trigger] r.handler(t) is None,
    {
        let mut d = NetworkDispatcher::new();
        d.set_handler(NetworkMessageType::NetworkEcho, NetworkHandler::Echo);
        d.set_handler(NetworkMessageType::NetworkHeartbeat, NetworkHandler::Heartbeat);
        d.set_handler(NetworkMessageType::Circuit, NetworkHandler::CircuitForward);
        d
    }
}

/// What the network dispatch loop does with one inbound message.
pub enum NetworkAction {
    /// Send `message` back to the peer `to`.
    Reply { to: String, message: NetworkMessage },
    /// Hand the unwrapped circuit message to the circuit dispatch loop.
    ToCircuit { source: String, circuit_message: CircuitMessage },
    /// Nothing to do.
    Nothing,
    /// No handler is registered for the message type; the message is dropped.
    Unhandled(NetworkMessageType),
    /// The payload of a circuit message is malformed; the message is dropped.
    Malformed,
}

impl NetworkDispatcher {
    /// Dispatches one inbound message from `source` to its handler.
    pub fn dispatch(&self, source: &String, message: NetworkMessage) -> (r: NetworkAction)
        ensures
            match self.handler(message.message_type) {
                None => r == NetworkAction::Unhandled(message.message_type),
                Some(NetworkHandler::Echo) => match r {
                    NetworkAction::Reply { to, message: m } => to@ == source@ && m.message_type
                        == NetworkMessageType::NetworkEcho && m.payload@ == message.payload@,
                    _ => false,
                },
                Some(NetworkHandler::Heartbeat) => r is Nothing,
                Some(NetworkHandler::CircuitForward) => match r {
                    NetworkAction::ToCircuit { source: s, circuit_message: m } => s@ == source@
                        && crate::wire::circuit_message_bytes(m.message_type, m.payload@)
                        == message.payload@,
                    NetworkAction::Malformed => crate::wire::decoded_circuit_message(
                        message.payload@,
                    ) is None,
                    _ => false,
                },
            },
    {
        match self.handler_for(message.message_type) {
            None => NetworkAction::Unhandled(message.message_type),
            Some(NetworkHandler::Echo) => NetworkAction::Reply {
                to: source.clone(),
                message: NetworkMessage {
                    message_type: NetworkMessageType::NetworkEcho,
                    payload: message.payload,
                },
            },
            Some(NetworkHandler::Heartbeat) => NetworkAction::Nothing,
            Some(NetworkHandler::CircuitForward) => {
                match CircuitMessage::from_bytes(message.payload.as_slice()) {
                    Some(m) => NetworkAction::ToCircuit { source: source.clone(), circuit_message: m },
                    None => NetworkAction::Malformed,
                }
            },
        }
    }
}

/// The handlers of the circuit dispatch loop.
#[derive(Clone, Copy, Debug, PartialEq, Eq, Structural)]
pub enum CircuitHandler {
    ServiceConnect,
    ServiceDisconnect,
    DirectMessage,
    CircuitError,
    AdminDirectMessage,
}

/// A registry from circuit message type to handler. Setting a handler for a type replaces
/// the one that was there.
pub struct CircuitDispatcher {
    handlers: Vec<(CircuitMessageType, CircuitHandler)>,
}

/// The handler for circuit message type `t` in a list of registrations: the last one for `t`.
pub open spec fn circuit_handler_in(hs: Seq<(CircuitMessageType, CircuitHandler)>, t: CircuitMessageType) -> Option<
    CircuitHandler,
>
    decreases hs.len(),
{
    if hs.len() == 0 {
        None
    } else if hs.last().0 == t {
        Some(hs.last().1)
    } else {
        circuit_handler_in(hs.drop_last(), t)
    }
}

impl CircuitDispatcher {
    pub closed spec fn handler(&self, t: CircuitMessageType) -> Option<CircuitHandler> {
        circuit_handler_in(self.handlers@, t)
    }

    /// A registry with no handler.
    pub fn new() -> (r: Self)
        ensures
            forall|t: CircuitMessageType| #[trigger] r.handler(t) is None,
    {
        CircuitDispatcher { handlers: Vec::new() }
    }

    /// Registers `h` for circuit message type `t`.
    pub fn set_handler(&mut self, t: CircuitMessageType, h: CircuitHandler)
        ensures
            final(self).handler(t) == Some(h),
            forall|u: CircuitMessageType| u != t ==> #[trigger] final(self).handler(u) == old(self).handler(u),
    {
        let ghost old_h = self.handlers@;
        self.handlers.push((t, h));
        assert(self.handlers@.drop_last() =~= old_h);
    }

    /// The handler registered for circuit message type `t`, if any.
    pub fn handler_for(&self, t: CircuitMessageType) -> (r: Option<CircuitHandler>)
        ensures
            r == self.handler(t),
    {
        let mut k: usize = self.handlers.len();
        assert(self.handlers@.subrange(0, k as int) =~= self.handlers@);
        while k > 0
            invariant
                k <= self.handlers@.len(),
                circuit_handler_in(self.handlers@, t) == circuit_handler_in(
                    self.handlers@.subrange(0, k as int),
                    t,
                ),
            decreases k,
        {
            let (u, h) = self.handlers[k - 1];
            assert(self.handlers@.subrange(0, k as int).drop_last() =~= self.handlers@.subrange(
                0,
                k - 1,
            ));
            if u == t {
                return Some(h);
            }
            k = k - 1;
        }
        None
    }

    /// The registry of a node's circuit dispatch loop.
    pub fn standard() -> (r: Self)
        ensures
            r.handler(CircuitMessageType::ServiceConnectRequest) == Some(
                CircuitHandler::ServiceConnect,
            ),
            r.handler(CircuitMessageType::ServiceDisconnectRequest) == Some(
                CircuitHandler::ServiceDisconnect,
            ),
            r.handler(CircuitMessageType::CircuitDirectMessage) == Some(
                CircuitHandler::DirectMessage,
            ),
            r.handler(CircuitMessageType::CircuitErrorMessage) == Some(CircuitHandler::CircuitError),
            r.handler(CircuitMessageType::AdminDirectMessage) == Some(
                CircuitHandler::AdminDirectMessage,
            ),
            r.handler(CircuitMessageType::UnsetCircuitMessageType) is None,
            r.handler(CircuitMessageType::ServiceConnectResponse) is None,
            r.handler(CircuitMessageType::ServiceDisconnectResponse) is None,
    {
        let mut d = CircuitDispatcher::new();
        d.set_handler(CircuitMessageType::ServiceConnectRequest, CircuitHandler::ServiceConnect);
        d.set_handler(
            CircuitMessageType::ServiceDisconnectRequest,
            CircuitHandler::ServiceDisconnect,
        );
        d.set_handler(CircuitMessageType::CircuitDirectMessage, CircuitHandler::DirectMessage);
        d.set_handler(CircuitMessageType::CircuitErrorMessage, CircuitHandler::CircuitError);
        d.set_handler(CircuitMessageType::AdminDirectMessage, CircuitHandler::AdminDirectMessage);
        d
    }
}

} // verus!
