use vstd::prelude::*;

verus! {

/// The lifecycle of a connection held by the connection manager.
#[derive(Clone, Copy, Debug, PartialEq, Eq, Structural)]
pub enum ConnectionState {
    New,
    Authorizing,
    Authorized,
    /// Transiently without traffic; may come back.
    Disconnected,
    Failed,
    Closed,
}

/// What happens to a connection.
#[derive(Clone, Copy, Debug, PartialEq, Eq, Structural)]
pub enum ConnectionEvent {
    BeginAuthorization,
    AuthorizationSucceeded,
    AuthorizationFailed,
    Lost,
    Restored,
    HeartbeatExpired,
    Close,
}

/// The state a connection moves to on an event, where the event applies to its state.
pub open spec fn next_state_spec(s: ConnectionState, e: ConnectionEvent) -> Option<ConnectionState> {
    match (s, e) {
        (ConnectionState::New, ConnectionEvent::BeginAuthorization) => Some(
            ConnectionState::Authorizing,
        ),
        (ConnectionState::Authorizing, ConnectionEvent::AuthorizationSucceeded) => Some(
            ConnectionState::Authorized,
        ),
        (ConnectionState::Authorizing, ConnectionEvent::AuthorizationFailed) => Some(
            ConnectionState::Failed,
        ),
        (ConnectionState::Authorizing, ConnectionEvent::HeartbeatExpired) => Some(
            ConnectionState::Failed,
        ),
        (ConnectionState::Authorized, ConnectionEvent::Lost) => Some(ConnectionState::Disconnected),
        (ConnectionState::Disconnected, ConnectionEvent::Restored) => Some(
            ConnectionState::Authorized,
        ),
        (ConnectionState::Authorized, ConnectionEvent::HeartbeatExpired) => Some(
            ConnectionState::Failed,
        ),
        (ConnectionState::Disconnected, ConnectionEvent::HeartbeatExpired) => Some(
            ConnectionState::Failed,
        ),
        (ConnectionState::Failed, _) => None,
        (ConnectionState::Closed, _) => None,
        (_, ConnectionEvent::Close) => Some(ConnectionState::Closed),
        _ => None,
    }
}

/// The state a connection moves to on an event; `None` where the event does not apply.
pub fn next_state(s: ConnectionState, e: ConnectionEvent) -> (r: Option<ConnectionState>)
    ensures
        r == next_state_spec(s, e),
{
    match (s, e) {
        (ConnectionState::New, ConnectionEvent::BeginAuthorization) => Some(
            ConnectionState::Authorizing,
        ),
        (ConnectionState::Authorizing, ConnectionEvent::AuthorizationSucceeded) => Some(
            ConnectionState::Authorized,
        ),
        (ConnectionState::Authorizing, ConnectionEvent::AuthorizationFailed) => Some(
            ConnectionState::Failed,
        ),
        (ConnectionState::Authorizing, ConnectionEvent::HeartbeatExpired) => Some(
            ConnectionState::Failed,
        ),
        (ConnectionState::Authorized, ConnectionEvent::Lost) => Some(ConnectionState::Disconnected),
        (ConnectionState::Disconnected, ConnectionEvent::Restored) => Some(
            ConnectionState::Authorized,
        ),
        (ConnectionState::Authorized, ConnectionEvent::HeartbeatExpired) => Some(
            ConnectionState::Failed,
        ),
        (ConnectionState::Disconnected, ConnectionEvent::HeartbeatExpired) => Some(
            ConnectionState::Failed,
        ),
        (ConnectionState::Failed, _) => None,
        (ConnectionState::Closed, _) => None,
        (_, ConnectionEvent::Close) => Some(ConnectionState::Closed),
        _ => None,
    }
}

/// Failed and closed connections never change state again.
pub proof fn lemma_terminal_states(e: ConnectionEvent)
    ensures
        next_state_spec(ConnectionState::Failed, e) is None,
        next_state_spec(ConnectionState::Closed, e) is None,
{
}

/// Whether a connection last seen at `last_seen` has been silent for three heartbeat
/// intervals at time `now`.
pub open spec fn is_stale_spec(now: u64, last_seen: u64, interval: u64) -> bool {
    now >= last_seen && now - last_seen >= 3 * interval
}

/// Whether a connection last seen at `last_seen` has been silent for three heartbeat
/// intervals at time `now`.
pub fn is_stale(now: u64, last_seen: u64, interval: u64) -> (r: bool)
    ensures
        r == is_stale_spec(now, last_seen, interval),
{
    if now < last_seen {
        return false;
    }
    let elapsed = now - last_seen;
    proof {
        assert(elapsed / 3 >= interval <==> elapsed >= 3 * interval) by (nonlinear_arith);
    }
    elapsed / 3 >= interval
}

/// A connection held by the connection manager.
pub struct ConnectionRecord {
    pub endpoint: String,
    pub state: ConnectionState,
    pub last_seen: u64,
}

/// The mathematical model of a held connection.
pub struct ConnectionView {
    pub endpoint: Seq<char>,
    pub state: ConnectionState,
    pub last_seen: u64,
}

impl View for ConnectionRecord {
    type V = ConnectionView;

    open spec fn view(&self) -> ConnectionView {
        ConnectionView { endpoint: self.endpoint@, state: self.state, last_seen: self.last_seen }
    }
}

/// What a heartbeat round does for one connection.
pub enum HeartbeatAction {
    /// Send a heartbeat frame on the connection.
    SendHeartbeat(String),
    /// The connection was silent too long and is now failed; subscribers are told.
    NotifyFailed(String),
}

/// What a heartbeat round does to a connection's state.
pub open spec fn tick_state(c: ConnectionView, now: u64, interval: u64) -> ConnectionState {
    if c.state == ConnectionState::Authorized && is_stale_spec(now, c.last_seen, interval) {
        ConnectionState::Failed
    } else {
        c.state
    }
}

/// The actions of a heartbeat round over the first `k` connections, in order: a heartbeat for
/// each live authorized connection, a failure notice for each stale one.
pub open spec fn tick_actions(v: Seq<ConnectionView>, k: int, now: u64, interval: u64) -> Seq<
    (bool, Seq<char>),
>
    decreases k,
{
    if k <= 0 {
        Seq::empty()
    } else {
        let prev = tick_actions(v, k - 1, now, interval);
        let c = v[k - 1];
        if c.state != ConnectionState::Authorized {
            prev
        } else if is_stale_spec(now, c.last_seen, interval) {
            prev.push((false, c.endpoint))
        } else {
            prev.push((true, c.endpoint))
        }
    }
}

pub open spec fn action_view(a: HeartbeatAction) -> (bool, Seq<char>) {
    match a {
        HeartbeatAction::SendHeartbeat(e) => (true, e@),
        HeartbeatAction::NotifyFailed(e) => (false, e@),
    }
}

/// Why the connection manager refused an operation.
#[derive(Clone, Copy, Debug, PartialEq, Eq, Structural)]
pub enum ConnectionError {
    ShutDown,
    EndpointInUse,
    UnknownEndpoint,
    /// The event does not apply to the connection's state.
    InvalidEvent(ConnectionState),
}

pub open spec fn has_endpoint(v: Seq<ConnectionView>, e: Seq<char>) -> bool {
    exists|i: int| 0 <= i < v.len() && #[trigger] v[i].endpoint == e
}

pub open spec fn endpoint_index(v: Seq<ConnectionView>, e: Seq<char>) -> int {
    choose|i: int| 0 <= i < v.len() && #[trigger] v[i].endpoint == e
}

/// The state of the connection to endpoint `e`, if one is held.
pub open spec fn state_at(v: Seq<ConnectionView>, e: Seq<char>) -> Option<ConnectionState> {
    if has_endpoint(v, e) {
        Some(v[endpoint_index(v, e)].state)
    } else {
        None
    }
}

pub open spec fn connections_wf(v: Seq<ConnectionView>) -> bool {
    forall|i: int, j: int| 0 <= i < j < v.len() ==> #[trigger] v[i].endpoint != #[trigger] v[j].endpoint
}

proof fn lemma_endpoint_unique(v: Seq<ConnectionView>, e: Seq<char>, i: int)
    requires
        connections_wf(v),
        0 <= i < v.len(),
        v[i].endpoint == e,
    ensures
        has_endpoint(v, e),
        endpoint_index(v, e) == i,
{
    let k = endpoint_index(v, e);
    if k != i {
        if k < i {
            assert(v[k].endpoint != v[i].endpoint);
        } else {
            assert(v[i].endpoint != v[k].endpoint);
        }
    }
}

proof fn lemma_update_keeps_others(v: Seq<ConnectionView>, i: int, x: ConnectionView)
    requires
        connections_wf(v),
        0 <= i < v.len(),
        x.endpoint == v[i].endpoint,
    ensures
        connections_wf(v.update(i, x)),
        state_at(v.update(i, x), x.endpoint) == Some(x.state),
        forall|e: Seq<char>| e != x.endpoint ==> #[trigger] state_at(v.update(i, x), e) == state_at(v, e),
{
    let w = v.update(i, x);
    assert forall|a: int, b: int| 0 <= a < b < w.len() implies #[trigger] w[a].endpoint
        != #[trigger] w[b].endpoint by {
        assert(v[a].endpoint != v[b].endpoint);
    }
    lemma_endpoint_unique(w, x.endpoint, i);
    assert forall|e: Seq<char>| e != x.endpoint implies #[trigger] state_at(w, e) == state_at(v, e) by {
        if has_endpoint(v, e) {
            let k = endpoint_index(v, e);
            lemma_endpoint_unique(w, e, k);
        } else if has_endpoint(w, e) {
            let k = endpoint_index(w, e);
            assert(v[k].endpoint == e);
        }
    }
}

/// The connections of a node, their lifecycle and the heartbeat that watches them.
pub struct ConnectionManager {
    connections: Vec<ConnectionRecord>,
    heartbeat_interval: u64,
    shut_down: bool,
}

impl View for ConnectionManager {
    type V = Seq<ConnectionView>;

    closed spec fn view(&self) -> Seq<ConnectionView> {
        self.connections@.map_values(|c: ConnectionRecord| c@)
    }
}

impl ConnectionManager {
    pub open spec fn wf(&self) -> bool {
        connections_wf(self@)
    }

    pub closed spec fn interval(&self) -> u64 {
        self.heartbeat_interval
    }

    pub closed spec fn is_shut_down(&self) -> bool {
        self.shut_down
    }

    /// A manager that holds no connection and sends heartbeats every `heartbeat_interval`
    /// seconds.
    pub fn new(heartbeat_interval: u64) -> (r: Self)
        ensures
            r.wf(),
            r@ == Seq::<ConnectionView>::empty(),
            r.interval() == heartbeat_interval,
            !r.is_shut_down(),
    {
        let r = ConnectionManager { connections: Vec::new(), heartbeat_interval, shut_down: false };
        assert(r@ =~= Seq::<ConnectionView>::empty());
        r
    }

    fn find(&self, endpoint: &String) -> (r: Option<usize>)
        ensures
            match r {
                Some(i) => i < self@.len() && self@[i as int].endpoint == endpoint@,
                None => !has_endpoint(self@, endpoint@),
            },
    {
        let mut i: usize = 0;
        while i < self.connections.len()
            invariant
                i <= self.connections@.len(),
                self@.len() == self.connections@.len(),
                forall|k: int| 0 <= k < i ==> self@[k].endpoint != endpoint@,
            decreases self.connections@.len() - i,
        {
            if self.connections[i].endpoint == *endpoint {
                return Some(i);
            }
            i = i + 1;
        }
        None
    }

    /// The state of the connection to an endpoint, if one is held.
    pub fn state(&self, endpoint: &String) -> (r: Option<ConnectionState>)
        requires
            self.wf(),
        ensures
            r == state_at(self@, endpoint@),
    {
        match self.find(endpoint) {
            None => None,
            Some(i) => {
                proof {
                    lemma_endpoint_unique(self@, endpoint@, i as int);
                }
                Some(self.connections[i].state)
            },
        }
    }

    fn add_with_state(&mut self, endpoint: String, state: ConnectionState, now: u64) -> (r: Result<
        (),
        ConnectionError,
    >)
        requires
            old(self).wf(),
        ensures
            final(self).wf(),
            final(self).interval() == old(self).interval(),
            final(self).is_shut_down() == old(self).is_shut_down(),
            match r {
                Ok(()) => !old(self).is_shut_down() && !has_endpoint(old(self)@, endpoint@)
                    && final(self)@ == old(self)@.push(
                    ConnectionView {
                        endpoint: endpoint@,
                        state,
                        last_seen: now,
                    },
                ),
                Err(e) => final(self)@ == old(self)@ && if old(self).is_shut_down() {
                    e == ConnectionError::ShutDown
                } else {
                    e == ConnectionError::EndpointInUse && has_endpoint(old(self)@, endpoint@)
                },
            },
    {
        if self.shut_down {
            return Err(ConnectionError::ShutDown);
        }
        if self.find(&endpoint).is_some() {
            return Err(ConnectionError::EndpointInUse);
        }
        let ghost old_v = self@;
        let rec = ConnectionRecord { endpoint, state, last_seen: now };
        self.connections.push(rec);
        proof {
            assert(self@ =~= old_v.push(rec@));
            let v = self@;
            assert forall|a: int, b: int| 0 <= a < b < v.len() implies #[trigger] v[a].endpoint
                != #[trigger] v[b].endpoint by {
                if b == v.len() - 1 {
                    assert(old_v[a].endpoint == v[a].endpoint);
                }
            }
        }
        Ok(())
    }

    /// Takes ownership of an accepted connection, seen at `now`; its handshake begins at once.
    pub fn add_connection(&mut self, endpoint: String, now: u64) -> (r: Result<(), ConnectionError>)
        requires
            old(self).wf(),
        ensures
            final(self).wf(),
            final(self).interval() == old(self).interval(),
            final(self).is_shut_down() == old(self).is_shut_down(),
            match r {
                Ok(()) => !old(self).is_shut_down() && !has_endpoint(old(self)@, endpoint@)
                    && final(self)@ == old(self)@.push(
                    ConnectionView {
                        endpoint: endpoint@,
                        state: ConnectionState::Authorizing,
                        last_seen: now,
                    },
                ),
                Err(e) => final(self)@ == old(self)@ && if old(self).is_shut_down() {
                    e == ConnectionError::ShutDown
                } else {
                    e == ConnectionError::EndpointInUse && has_endpoint(old(self)@, endpoint@)
                },
            },
    {
        self.add_with_state(endpoint, ConnectionState::Authorizing, now)
    }

    /// Records a connection to dial to `endpoint`, requested at `now`; it is new until dialed.
    pub fn request_outbound(&mut self, endpoint: String, now: u64) -> (r: Result<(), ConnectionError>)
        requires
            old(self).wf(),
        ensures
            final(self).wf(),
            final(self).interval() == old(self).interval(),
            final(self).is_shut_down() == old(self).is_shut_down(),
            match r {
                Ok(()) => !old(self).is_shut_down() && !has_endpoint(old(self)@, endpoint@)
                    && final(self)@ == old(self)@.push(
                    ConnectionView {
                        endpoint: endpoint@,
                        state: ConnectionState::New,
                        last_seen: now,
                    },
                ),
                Err(e) => final(self)@ == old(self)@ && if old(self).is_shut_down() {
                    e == ConnectionError::ShutDown
                } else {
                    e == ConnectionError::EndpointInUse && has_endpoint(old(self)@, endpoint@)
                },
            },
    {
        self.add_with_state(endpoint, ConnectionState::New, now)
    }

    /// Applies an event to the connection to `endpoint`, which counts as traffic seen at `now`.
    pub fn handle_event(&mut self, endpoint: &String, event: ConnectionEvent, now: u64) -> (r: Result<
        ConnectionState,
        ConnectionError,
    >)
        requires
            old(self).wf(),
        ensures
            final(self).wf(),
            final(self).interval() == old(self).interval(),
            final(self).is_shut_down() == old(self).is_shut_down(),
            forall|e: Seq<char>| e != endpoint@ ==> #[trigger] state_at(final(self)@, e) == state_at(
                old(self)@,
                e,
            ),
            match state_at(old(self)@, endpoint@) {
                None => r == Err::<ConnectionState, ConnectionError>(
                    ConnectionError::UnknownEndpoint,
                ) && final(self)@ == old(self)@,
                Some(s) => match next_state_spec(s, event) {
                    None => r == Err::<ConnectionState, ConnectionError>(
                        ConnectionError::InvalidEvent(s),
                    ) && final(self)@ == old(self)@,
                    Some(t) => r == Ok::<ConnectionState, ConnectionError>(t) && final(self)@
                        == old(self)@.update(
                        endpoint_index(old(self)@, endpoint@),
                        ConnectionView {
                            state: t,
                            last_seen: now,
                            ..old(self)@[endpoint_index(old(self)@, endpoint@)]
                        },
                    ) && state_at(final(self)@, endpoint@) == Some(t),
                },
            },
    {
        let i = match self.find(endpoint) {
            None => return Err(ConnectionError::UnknownEndpoint),
            Some(i) => i,
        };
        let ghost old_v = self@;
        proof {
            lemma_endpoint_unique(old_v, endpoint@, i as int);
        }
        let current = self.connections[i].state;
        match next_state(current, event) {
            None => Err(ConnectionError::InvalidEvent(current)),
            Some(t) => {
                self.connections[i].state = t;
                self.connections[i].last_seen = now;
                proof {
                    let x = self.connections@[i as int]@;
                    assert(self@ =~= old_v.update(i as int, x));
                    lemma_update_keeps_others(old_v, i as int, x);
                }
                Ok(t)
            },
        }
    }

    /// Notes traffic seen on the connection to `endpoint` at `now`; returns whether one is held.
    pub fn record_traffic(&mut self, endpoint: &String, now: u64) -> (r: bool)
        requires
            old(self).wf(),
        ensures
            final(self).wf(),
            final(self).interval() == old(self).interval(),
            final(self).is_shut_down() == old(self).is_shut_down(),
            r == has_endpoint(old(self)@, endpoint@),
            r ==> final(self)@ == old(self)@.update(
                endpoint_index(old(self)@, endpoint@),
                ConnectionView { last_seen: now, ..old(self)@[endpoint_index(old(self)@, endpoint@)] },
            ),
            !r ==> final(self)@ == old(self)@,
    {
        let i = match self.find(endpoint) {
            None => return false,
            Some(i) => i,
        };
        let ghost old_v = self@;
        proof {
            lemma_endpoint_unique(old_v, endpoint@, i as int);
        }
        self.connections[i].last_seen = now;
        proof {
            let x = self.connections@[i as int]@;
            assert(self@ =~= old_v.update(i as int, x));
            lemma_update_keeps_others(old_v, i as int, x);
        }
        true
    }

    /// Removes the connection to an endpoint; returns whether one was held.
    pub fn remove(&mut self, endpoint: &String) -> (r: bool)
        requires
            old(self).wf(),
        ensures
            final(self).wf(),
            final(self).interval() == old(self).interval(),
            final(self).is_shut_down() == old(self).is_shut_down(),
            r == has_endpoint(old(self)@, endpoint@),
            state_at(final(self)@, endpoint@) is None,
            forall|e: Seq<char>| e != endpoint@ ==> #[trigger] state_at(final(self)@, e) == state_at(
                old(self)@,
                e,
            ),
    {
        let i = match self.find(endpoint) {
            None => return false,
            Some(i) => i,
        };
        let ghost old_v = self@;
        proof {
            lemma_endpoint_unique(old_v, endpoint@, i as int);
        }
        self.connections.remove(i);
        proof {
            let v = self@;
            assert(v =~= old_v.remove(i as int));
            assert forall|k: int| 0 <= k < v.len() implies (#[trigger] v[k] == if k < i {
                old_v[k]
            } else {
                old_v[k + 1]
            }) by {}
            assert forall|a: int, b: int| 0 <= a < b < v.len() implies #[trigger] v[a].endpoint
                != #[trigger] v[b].endpoint by {
                let a2 = if a < i { a } else { a + 1 };
                let b2 = if b < i { b } else { b + 1 };
                assert(old_v[a2].endpoint != old_v[b2].endpoint);
            }
            assert forall|e: Seq<char>| true implies #[trigger] state_at(v, e) == if e == endpoint@ {
                None
            } else {
                state_at(old_v, e)
            } by {
                if has_endpoint(v, e) {
                    let k = endpoint_index(v, e);
                    let k2 = if k < i { k } else { k + 1 };
                    assert(old_v[k2].endpoint == e);
                    lemma_endpoint_unique(old_v, e, k2);
                    lemma_endpoint_unique(v, e, k);
                    if e == endpoint@ {
                        assert(k2 == i);
                    }
                } else if has_endpoint(old_v, e) && e != endpoint@ {
                    let k = endpoint_index(old_v, e);
                    assert(k != i);
                    let k2 = if k < i { k } else { k - 1 };
                    assert(v[k2].endpoint == e);
                }
            }
        }
        true
    }

    /// Runs one heartbeat round at time `now`: every authorized connection that was silent for
    /// three intervals fails, every other authorized connection gets a heartbeat.
    pub fn heartbeat_tick(&mut self, now: u64) -> (r: Vec<HeartbeatAction>)
        requires
            old(self).wf(),
        ensures
            final(self).wf(),
            final(self).interval() == old(self).interval(),
            final(self).is_shut_down() == old(self).is_shut_down(),
            final(self)@.len() == old(self)@.len(),
            forall|i: int|
                0 <= i < old(self)@.len() ==> #[trigger] final(self)@[i] == (ConnectionView {
                    state: tick_state(old(self)@[i], now, old(self).interval()),
                    ..old(self)@[i]
                }),
            r@.map_values(|a: HeartbeatAction| action_view(a)) == tick_actions(
                old(self)@,
                old(self)@.len() as int,
                now,
                old(self).interval(),
            ),
    {
        let ghost old_v = self@;
        let mut actions: Vec<HeartbeatAction> = Vec::new();
        let mut i: usize = 0;
        while i < self.connections.len()
            invariant
                i <= self.connections@.len(),
                self.connections@.len() == old_v.len(),
                self.heartbeat_interval == old(self).heartbeat_interval,
                self.shut_down == old(self).shut_down,
                forall|k: int|
                    0 <= k < i ==> #[trigger] self@[k] == (ConnectionView {
                        state: tick_state(old_v[k], now, self.heartbeat_interval),
                        ..old_v[k]
                    }),
                forall|k: int| i <= k < old_v.len() ==> #[trigger] self@[k] == old_v[k],
                actions@.map_values(|a: HeartbeatAction| action_view(a)) == tick_actions(
                    old_v,
                    i as int,
                    now,
                    self.heartbeat_interval,
                ),
            decreases old_v.len() - i,
        {
            let ghost before = actions@;
            let ghost prev = self@;
            assert(prev[i as int] == old_v[i as int]);
            assert(tick_actions(old_v, i + 1, now, self.heartbeat_interval) == {
                let c = old_v[i as int];
                let p = tick_actions(old_v, i as int, now, self.heartbeat_interval);
                if c.state != ConnectionState::Authorized {
                    p
                } else if is_stale_spec(now, c.last_seen, self.heartbeat_interval) {
                    p.push((false, c.endpoint))
                } else {
                    p.push((true, c.endpoint))
                }
            });
            if self.connections[i].state == ConnectionState::Authorized {
                let endpoint = self.connections[i].endpoint.clone();
                if is_stale(now, self.connections[i].last_seen, self.heartbeat_interval) {
                    self.connections[i].state = ConnectionState::Failed;
                    actions.push(HeartbeatAction::NotifyFailed(endpoint));
                } else {
                    actions.push(HeartbeatAction::SendHeartbeat(endpoint));
                }
                assert(actions@.map_values(|a: HeartbeatAction| action_view(a)) =~= before.map_values(
                    |a: HeartbeatAction| action_view(a),
                ).push(action_view(actions@.last())));
            }
            assert(self@ =~= prev.update(i as int, self.connections@[i as int]@));
            i = i + 1;
        }
        proof {
            let v = self@;
            assert forall|a: int, b: int| 0 <= a < b < v.len() implies #[trigger] v[a].endpoint
                != #[trigger] v[b].endpoint by {
                assert(old_v[a].endpoint != old_v[b].endpoint);
            }
        }
        actions
    }

    /// Stops accepting operations and closes every connection. Calling it again changes
    /// nothing.
    pub fn shutdown(&mut self)
        requires
            old(self).wf(),
        ensures
            final(self).wf(),
            final(self).is_shut_down(),
            final(self)@.len() == old(self)@.len(),
            forall|i: int|
                0 <= i < old(self)@.len() ==> #[trigger] final(self)@[i] == (ConnectionView {
                    state: ConnectionState::Closed,
                    ..old(self)@[i]
                }),
    {
        let ghost old_v = self@;
        self.shut_down = true;
        let mut i: usize = 0;
        while i < self.connections.len()
            invariant
                i <= self.connections@.len(),
                self.connections@.len() == old_v.len(),
                self.shut_down,
                forall|k: int|
                    0 <= k < i ==> #[trigger] self@[k] == (ConnectionView {
                        state: ConnectionState::Closed,
                        ..old_v[k]
                    }),
                forall|k: int| i <= k < old_v.len() ==> #[trigger] self@[k] == old_v[k],
            decreases old_v.len() - i,
        {
            let ghost prev = self@;
            assert(prev[i as int] == old_v[i as int]);
            self.connections[i].state = ConnectionState::Closed;
            assert(self@ =~= prev.update(i as int, self.connections@[i as int]@));
            assert(self@[i as int] == (ConnectionView { state: ConnectionState::Closed, ..old_v[i as int] }));
            i = i + 1;
        }
        proof {
            let v = self@;
            assert forall|a: int, b: int| 0 <= a < b < v.len() implies #[trigger] v[a].endpoint
                != #[trigger] v[b].endpoint by {
                assert(old_v[a].endpoint != old_v[b].endpoint);
            }
        }
    }
}

} // verus!
