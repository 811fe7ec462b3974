use vstd::prelude::*;

verus! {

/// A service located on a node, inside a circuit.
pub struct ServiceEntry {
    pub service_id: String,
    pub node_id: String,
}

/// A circuit: its member nodes and the services that have connected to it.
pub struct Circuit {
    pub circuit_id: String,
    pub members: Vec<String>,
    pub services: Vec<ServiceEntry>,
}

/// The mathematical model of a circuit.
pub struct CircuitView {
    pub id: Seq<char>,
    pub members: Seq<Seq<char>>,
    /// The roster: `(service_id, node_id)` pairs.
    pub services: Seq<(Seq<char>, Seq<char>)>,
}

pub open spec fn strings_view(v: Seq<String>) -> Seq<Seq<char>> {
    v.map_values(|s: String| s@)
}

impl View for Circuit {
    type V = CircuitView;

    open spec fn view(&self) -> CircuitView {
        CircuitView {
            id: self.circuit_id@,
            members: strings_view(self.members@),
            services: self.services@.map_values(|e: ServiceEntry| (e.service_id@, e.node_id@)),
        }
    }
}

/// Routes of the node: which circuits exist, which nodes belong to them, and on which node
/// each connected service lives.
pub struct RoutingTable {
    circuits: Vec<Circuit>,
}

impl View for RoutingTable {
    type V = Seq<CircuitView>;

    closed spec fn view(&self) -> Seq<CircuitView> {
        self.circuits@.map_values(|c: Circuit| c@)
    }
}

pub open spec fn has_circuit(v: Seq<CircuitView>, c: Seq<char>) -> bool {
    exists|i: int| 0 <= i < v.len() && #[trigger] v[i].id == c
}

pub open spec fn circuit_index(v: Seq<CircuitView>, c: Seq<char>) -> int {
    choose|i: int| 0 <= i < v.len() && #[trigger] v[i].id == c
}

pub open spec fn has_service(cv: CircuitView, s: Seq<char>) -> bool {
    exists|j: int| 0 <= j < cv.services.len() && #[trigger] cv.services[j].0 == s
}

pub open spec fn service_index(cv: CircuitView, s: Seq<char>) -> int {
    choose|j: int| 0 <= j < cv.services.len() && #[trigger] cv.services[j].0 == s
}

/// A circuit is well formed when each service appears once in its roster and lives on one
/// of its members.
pub open spec fn circuit_wf(cv: CircuitView) -> bool {
    &&& forall|j: int, k: int|
        0 <= j < k < cv.services.len() ==> #[trigger] cv.services[j].0 != #[trigger] cv.services[k].0
    &&& forall|j: int| 0 <= j < cv.services.len() ==> cv.members.contains(#[trigger] cv.services[j].1)
}

/// The table is well formed when circuit ids are unique and every circuit is well formed.
pub open spec fn routing_wf(v: Seq<CircuitView>) -> bool {
    &&& forall|i: int, j: int| 0 <= i < j < v.len() ==> #[trigger] v[i].id != #[trigger] v[j].id
    &&& forall|i: int| 0 <= i < v.len() ==> circuit_wf(#[trigger] v[i])
}

/// The node on which service `s` of circuit `c` lives, if it is routed.
pub open spec fn routed_node(v: Seq<CircuitView>, c: Seq<char>, s: Seq<char>) -> Option<Seq<char>> {
    if has_circuit(v, c) && has_service(v[circuit_index(v, c)], s) {
        let cv = v[circuit_index(v, c)];
        Some(cv.services[service_index(cv, s)].1)
    } else {
        None
    }
}

/// Whether node `n` is a member of circuit `c`.
pub open spec fn is_member(v: Seq<CircuitView>, c: Seq<char>, n: Seq<char>) -> bool {
    has_circuit(v, c) && v[circuit_index(v, c)].members.contains(n)
}

/// Why a service cannot be connected to a circuit.
#[derive(Clone, Copy, Debug, PartialEq, Eq, Structural)]
pub enum RoutingError {
    UnknownCircuit,
    CircuitExists,
    NodeNotMember,
    ServiceConnectedElsewhere,
    UnknownService,
}

/// The outcome of connecting service `s` on node `n` to circuit `c`.
pub open spec fn connect_outcome(v: Seq<CircuitView>, c: Seq<char>, s: Seq<char>, n: Seq<char>) -> Result<
    (),
    RoutingError,
> {
    if !has_circuit(v, c) {
        Err(RoutingError::UnknownCircuit)
    } else if !v[circuit_index(v, c)].members.contains(n) {
        Err(RoutingError::NodeNotMember)
    } else if has_service(v[circuit_index(v, c)], s) && routed_node(v, c, s) != Some(n) {
        Err(RoutingError::ServiceConnectedElsewhere)
    } else {
        Ok(())
    }
}

/// The table after connecting service `s` on node `n` to circuit `c`, where that succeeds.
pub open spec fn connected(v: Seq<CircuitView>, c: Seq<char>, s: Seq<char>, n: Seq<char>) -> Seq<
    CircuitView,
> {
    let i = circuit_index(v, c);
    if has_service(v[i], s) {
        v
    } else {
        v.update(i, CircuitView { services: v[i].services.push((s, n)), ..v[i] })
    }
}

/// The table after disconnecting service `s` from circuit `c`, where that succeeds.
pub open spec fn disconnected(v: Seq<CircuitView>, c: Seq<char>, s: Seq<char>) -> Seq<CircuitView> {
    let i = circuit_index(v, c);
    v.update(i, CircuitView { services: v[i].services.remove(service_index(v[i], s)), ..v[i] })
}

proof fn lemma_index_unique(v: Seq<CircuitView>, c: Seq<char>, i: int)
    requires
        routing_wf(v),
        0 <= i < v.len(),
        v[i].id == c,
    ensures
        has_circuit(v, c),
        circuit_index(v, c) == i,
{
    let k = circuit_index(v, c);
    if k != i {
        if k < i {
            assert(v[k].id != v[i].id);
        } else {
            assert(v[i].id != v[k].id);
        }
    }
}

proof fn lemma_service_unique(cv: CircuitView, s: Seq<char>, j: int)
    requires
        circuit_wf(cv),
        0 <= j < cv.services.len(),
        cv.services[j].0 == s,
    ensures
        has_service(cv, s),
        service_index(cv, s) == j,
{
    let k = service_index(cv, s);
    if k != j {
        if k < j {
            assert(cv.services[k].0 != cv.services[j].0);
        } else {
            assert(cv.services[j].0 != cv.services[k].0);
        }
    }
}

/// Every routed service lives on a member node of its circuit.
pub proof fn lemma_routed_node_is_member(v: Seq<CircuitView>, c: Seq<char>, s: Seq<char>)
    requires
        routing_wf(v),
        routed_node(v, c, s) is Some,
    ensures
        is_member(v, c, routed_node(v, c, s).unwrap()),
{
    let i = circuit_index(v, c);
    assert(circuit_wf(v[i]));
    let j = service_index(v[i], s);
    assert(v[i].members.contains(v[i].services[j].1));
}

/// Connecting keeps the table well formed.
pub proof fn lemma_connect_wf(v: Seq<CircuitView>, c: Seq<char>, s: Seq<char>, n: Seq<char>)
    requires
        routing_wf(v),
        connect_outcome(v, c, s, n) is Ok,
    ensures
        routing_wf(connected(v, c, s, n)),
        routed_node(connected(v, c, s, n), c, s) == Some(n),
{
    let i = circuit_index(v, c);
    let w = connected(v, c, s, n);
    if has_service(v[i], s) {
        assert(w == v);
    } else {
        let cv = w[i];
        assert(cv.services.last() == (s, n));
        assert forall|j: int, k: int| 0 <= j < k < cv.services.len() implies #[trigger] cv.services[j].0
            != #[trigger] cv.services[k].0 by {
            if k == cv.services.len() - 1 {
                assert(v[i].services[j].0 != s);
            } else {
                assert(circuit_wf(v[i]));
                assert(v[i].services[j] == cv.services[j]);
                assert(v[i].services[k] == cv.services[k]);
            }
        }
        assert forall|j: int| 0 <= j < cv.services.len() implies cv.members.contains(
            #[trigger] cv.services[j].1,
        ) by {
            if j < cv.services.len() - 1 {
                assert(circuit_wf(v[i]));
                assert(v[i].services[j] == cv.services[j]);
            }
        }
        assert(circuit_wf(cv));
        assert forall|a: int, b: int| 0 <= a < b < w.len() implies #[trigger] w[a].id
            != #[trigger] w[b].id by {
            assert(v[a].id != v[b].id);
        }
        assert forall|a: int| 0 <= a < w.len() implies circuit_wf(#[trigger] w[a]) by {
            if a != i {
                assert(circuit_wf(v[a]));
            }
        }
        lemma_index_unique(w, c, i);
        lemma_service_unique(cv, s, cv.services.len() - 1);
    }
}

/// Applying the same service connection twice gives the table that applying it once gives,
/// in which the service holds a single roster entry.
pub proof fn lemma_connect_idempotent(v: Seq<CircuitView>, c: Seq<char>, s: Seq<char>, n: Seq<char>)
    requires
        routing_wf(v),
        connect_outcome(v, c, s, n) is Ok,
    ensures
        connect_outcome(connected(v, c, s, n), c, s, n) is Ok,
        connected(connected(v, c, s, n), c, s, n) == connected(v, c, s, n),
        has_service(connected(v, c, s, n)[circuit_index(v, c)], s),
        forall|j: int, k: int|
            #![trigger connected(v, c, s, n)[circuit_index(v, c)].services[j], connected(v, c, s, n)[circuit_index(v, c)].services[k]]
            0 <= j < connected(v, c, s, n)[circuit_index(v, c)].services.len()
                && 0 <= k < connected(v, c, s, n)[circuit_index(v, c)].services.len()
                && connected(v, c, s, n)[circuit_index(v, c)].services[j].0 == s
                && connected(v, c, s, n)[circuit_index(v, c)].services[k].0 == s ==> j == k,
{
    lemma_connect_wf(v, c, s, n);
    let i = circuit_index(v, c);
    let w = connected(v, c, s, n);
    lemma_index_unique(w, c, i);
    assert(w[i].members == v[i].members);
    assert(circuit_wf(w[i]));
    let cv = w[i];
    assert forall|j: int, k: int|
        0 <= j < cv.services.len() && 0 <= k < cv.services.len() && cv.services[j].0 == s
            && cv.services[k].0 == s implies j == k by {
        if j < k {
            assert(cv.services[j].0 != cv.services[k].0);
        } else if k < j {
            assert(cv.services[k].0 != cv.services[j].0);
        }
    }
}

/// Disconnecting keeps the table well formed and removes the route.
pub proof fn lemma_disconnect_wf(v: Seq<CircuitView>, c: Seq<char>, s: Seq<char>)
    requires
        routing_wf(v),
        routed_node(v, c, s) is Some,
    ensures
        routing_wf(disconnected(v, c, s)),
        routed_node(disconnected(v, c, s), c, s) is None,
{
    let i = circuit_index(v, c);
    let j0 = service_index(v[i], s);
    let w = disconnected(v, c, s);
    let cv = w[i];
    assert(circuit_wf(v[i]));
    assert forall|j: int| 0 <= j < cv.services.len() implies (#[trigger] cv.services[j]
        == if j < j0 {
        v[i].services[j]
    } else {
        v[i].services[j + 1]
    }) by {}
    assert forall|j: int, k: int| 0 <= j < k < cv.services.len() implies #[trigger] cv.services[j].0
        != #[trigger] cv.services[k].0 by {
        let a = if j < j0 { j } else { j + 1 };
        let b = if k < j0 { k } else { k + 1 };
        assert(v[i].services[a].0 != v[i].services[b].0);
    }
    assert forall|j: int| 0 <= j < cv.services.len() implies cv.members.contains(
        #[trigger] cv.services[j].1,
    ) by {
        let a = if j < j0 { j } else { j + 1 };
        assert(v[i].members.contains(v[i].services[a].1));
    }
    assert forall|a: int, b: int| 0 <= a < b < w.len() implies #[trigger] w[a].id != #[trigger] w[b].id by {
        assert(v[a].id != v[b].id);
    }
    assert forall|a: int| 0 <= a < w.len() implies circuit_wf(#[trigger] w[a]) by {
        if a != i {
            assert(circuit_wf(v[a]));
        }
    }
    lemma_index_unique(w, c, i);
    if has_service(cv, s) {
        let k = service_index(cv, s);
        let a = if k < j0 { k } else { k + 1 };
        assert(v[i].services[a].0 == s);
        lemma_service_unique(v[i], s, a);
    }
}

/// Whether `x` occurs in `v`.
pub fn contains_string(v: &Vec<String>, x: &String) -> (r: bool)
    ensures
        r == strings_view(v@).contains(x@),
{
    let mut i: usize = 0;
    while i < v.len()
        invariant
            i <= v@.len(),
            forall|k: int| 0 <= k < i ==> v@[k]@ != x@,
        decreases v@.len() - i,
    {
        if v[i] == *x {
            assert(strings_view(v@)[i as int] == x@);
            return true;
        }
        i = i + 1;
    }
    proof {
        if strings_view(v@).contains(x@) {
            let k = choose|k: int| 0 <= k < strings_view(v@).len() && strings_view(v@)[k] == x@;
            assert(v@[k]@ != x@);
        }
    }
    false
}

fn find_service(services: &Vec<ServiceEntry>, s: &String) -> (r: Option<usize>)
    ensures
        match r {
            Some(j) => j < services@.len() && services@[j as int].service_id@ == s@,
            None => forall|j: int| 0 <= j < services@.len() ==> services@[j].service_id@ != s@,
        },
{
    let mut j: usize = 0;
    while j < services.len()
        invariant
            j <= services@.len(),
            forall|k: int| 0 <= k < j ==> services@[k].service_id@ != s@,
        decreases services@.len() - j,
    {
        if services[j].service_id == *s {
            return Some(j);
        }
        j = j + 1;
    }
    None
}

impl RoutingTable {
    /// The table is well formed: see `routing_wf`.
    pub open spec fn wf(&self) -> bool {
        routing_wf(self@)
    }

    /// An empty table.
    pub fn new() -> (r: Self)
        ensures
            r@ == Seq::<CircuitView>::empty(),
            r.wf(),
    {
        let r = RoutingTable { circuits: Vec::new() };
        assert(r@ =~= Seq::<CircuitView>::empty());
        r
    }

    fn find_circuit(&self, c: &String) -> (r: Option<usize>)
        ensures
            match r {
                Some(i) => i < self@.len() && self@[i as int].id == c@,
                None => !has_circuit(self@, c@),
            },
    {
        let mut i: usize = 0;
        while i < self.circuits.len()
            invariant
                i <= self.circuits@.len(),
                self@.len() == self.circuits@.len(),
                forall|k: int| 0 <= k < i ==> self@[k].id != c@,
            decreases self.circuits@.len() - i,
        {
            if self.circuits[i].circuit_id == *c {
                return Some(i);
            }
            i = i + 1;
        }
        None
    }

    /// Adds a circuit with the given members and an empty roster.
    pub fn add_circuit(&mut self, circuit_id: String, members: Vec<String>) -> (r: Result<(), RoutingError>)
        requires
            old(self).wf(),
        ensures
            final(self).wf(),
            match r {
                Ok(()) => !has_circuit(old(self)@, circuit_id@) && final(self)@ == old(self)@.push(
                    CircuitView {
                        id: circuit_id@,
                        members: strings_view(members@),
                        services: Seq::empty(),
                    },
                ),
                Err(e) => e == RoutingError::CircuitExists && has_circuit(old(self)@, circuit_id@)
                    && final(self)@ == old(self)@,
            },
    {
        if let Some(_) = self.find_circuit(&circuit_id) {
            return Err(RoutingError::CircuitExists);
        }
        let circuit = Circuit { circuit_id, members, services: Vec::new() };
        proof {
            assert(circuit@.services =~= Seq::<(Seq<char>, Seq<char>)>::empty());
        }
        let ghost old_v = self@;
        self.circuits.push(circuit);
        proof {
            assert(self@ =~= old_v.push(circuit@));
            let v = self@;
            assert forall|a: int, b: int| 0 <= a < b < v.len() implies #[trigger] v[a].id
                != #[trigger] v[b].id by {
                if b == v.len() - 1 {
                    assert(old_v[a].id == v[a].id);
                }
            }
            assert forall|a: int| 0 <= a < v.len() implies circuit_wf(#[trigger] v[a]) by {
                if a < v.len() - 1 {
                    assert(v[a] == old_v[a]);
                }
            }
        }
        Ok(())
    }

    /// Removes a circuit with all its routes; returns whether it existed.
    pub fn remove_circuit(&mut self, circuit_id: &String) -> (r: bool)
        requires
            old(self).wf(),
        ensures
            final(self).wf(),
            r == has_circuit(old(self)@, circuit_id@),
            r ==> final(self)@ == old(self)@.remove(circuit_index(old(self)@, circuit_id@)),
            !r ==> final(self)@ == old(self)@,
            !has_circuit(final(self)@, circuit_id@),
    {
        match self.find_circuit(circuit_id) {
            None => false,
            Some(i) => {
                let ghost old_v = self@;
                proof {
                    lemma_index_unique(old_v, circuit_id@, i as int);
                }
                self.circuits.remove(i);
                proof {
                    assert(self@ =~= old_v.remove(i as int));
                    let v = self@;
                    assert forall|k: int| 0 <= k < v.len() implies (#[trigger] v[k] == if k < i {
                        old_v[k]
                    } else {
                        old_v[k + 1]
                    }) by {}
                    assert forall|a: int, b: int| 0 <= a < b < v.len() implies #[trigger] v[a].id
                        != #[trigger] v[b].id by {
                        let a2 = if a < i { a } else { a + 1 };
                        let b2 = if b < i { b } else { b + 1 };
                        assert(old_v[a2].id != old_v[b2].id);
                    }
                    assert forall|a: int| 0 <= a < v.len() implies circuit_wf(#[trigger] v[a]) by {
                        let a2 = if a < i { a } else { a + 1 };
                        assert(circuit_wf(old_v[a2]));
                    }
                    if has_circuit(v, circuit_id@) {
                        let k = choose|k: int| 0 <= k < v.len() && #[trigger] v[k].id == circuit_id@;
                        let k2 = if k < i { k } else { k + 1 };
                        if k2 < i {
                            assert(old_v[k2].id != old_v[i as int].id);
                        } else {
                            assert(old_v[i as int].id != old_v[k2].id);
                        }
                    }
                }
                true
            },
        }
    }

    /// The node on which a service of a circuit lives, if the service is connected.
    pub fn routed_node(&self, circuit_id: &String, service_id: &String) -> (r: Option<String>)
        requires
            self.wf(),
        ensures
            match r {
                Some(n) => routed_node(self@, circuit_id@, service_id@) == Some(n@),
                None => routed_node(self@, circuit_id@, service_id@) is None,
            },
    {
        match self.find_circuit(circuit_id) {
            None => None,
            Some(i) => {
                proof {
                    lemma_index_unique(self@, circuit_id@, i as int);
                    assert(circuit_wf(self@[i as int]));
                }
                match find_service(&self.circuits[i].services, service_id) {
                    None => {
                        proof {
                            let cv = self@[i as int];
                            if has_service(cv, service_id@) {
                                let j = choose|j: int|
                                    0 <= j < cv.services.len() && #[trigger] cv.services[j].0
                                        == service_id@;
                                assert(self.circuits@[i as int].services@[j].service_id@
                                    == service_id@);
                            }
                        }
                        None
                    },
                    Some(j) => {
                        proof {
                            let cv = self@[i as int];
                            assert(cv.services[j as int].0 == service_id@);
                            lemma_service_unique(cv, service_id@, j as int);
                        }
                        Some(self.circuits[i].services[j].node_id.clone())
                    },
                }
            },
        }
    }

    /// Whether a circuit exists.
    pub fn has_circuit(&self, circuit_id: &String) -> (r: bool)
        ensures
            r == has_circuit(self@, circuit_id@),
    {
        self.find_circuit(circuit_id).is_some()
    }

    /// Whether a node is a member of a circuit.
    pub fn is_member(&self, circuit_id: &String, node_id: &String) -> (r: bool)
        requires
            self.wf(),
        ensures
            r == is_member(self@, circuit_id@, node_id@),
    {
        match self.find_circuit(circuit_id) {
            None => false,
            Some(i) => {
                proof {
                    lemma_index_unique(self@, circuit_id@, i as int);
                }
                contains_string(&self.circuits[i].members, node_id)
            },
        }
    }

    /// Connects service `service_id`, hosted on `node_id`, to a circuit. Connecting a service
    /// that is already routed to the same node changes nothing.
    pub fn connect_service(&mut self, circuit_id: &String, service_id: String, node_id: String) -> (r:
        Result<(), RoutingError>)
        requires
            old(self).wf(),
        ensures
            final(self).wf(),
            r == connect_outcome(old(self)@, circuit_id@, service_id@, node_id@),
            r is Ok ==> final(self)@ == connected(old(self)@, circuit_id@, service_id@, node_id@),
            r is Err ==> final(self)@ == old(self)@,
    {
        let i = match self.find_circuit(circuit_id) {
            None => return Err(RoutingError::UnknownCircuit),
            Some(i) => i,
        };
        let ghost old_v = self@;
        proof {
            lemma_index_unique(old_v, circuit_id@, i as int);
            assert(circuit_wf(old_v[i as int]));
        }
        if !contains_string(&self.circuits[i].members, &node_id) {
            return Err(RoutingError::NodeNotMember);
        }
        match find_service(&self.circuits[i].services, &service_id) {
            Some(j) => {
                proof {
                    assert(old_v[i as int].services[j as int].0 == service_id@);
                    lemma_service_unique(old_v[i as int], service_id@, j as int);
                }
                if self.circuits[i].services[j].node_id == node_id {
                    Ok(())
                } else {
                    Err(RoutingError::ServiceConnectedElsewhere)
                }
            },
            None => {
                proof {
                    let cv = old_v[i as int];
                    if has_service(cv, service_id@) {
                        let j = choose|j: int|
                            0 <= j < cv.services.len() && #[trigger] cv.services[j].0 == service_id@;
                        assert(self.circuits@[i as int].services@[j].service_id@ == service_id@);
                    }
                }
                let entry = ServiceEntry { service_id, node_id };
                self.circuits[i].services.push(entry);
                proof {
                    assert(self@[i as int].services =~= old_v[i as int].services.push(
                        (service_id@, node_id@),
                    ));
                    assert(self@ =~= connected(old_v, circuit_id@, service_id@, node_id@));
                    lemma_connect_wf(old_v, circuit_id@, service_id@, node_id@);
                }
                Ok(())
            },
        }
    }

    /// Disconnects a service from a circuit.
    pub fn disconnect_service(&mut self, circuit_id: &String, service_id: &String) -> (r: Result<
        (),
        RoutingError,
    >)
        requires
            old(self).wf(),
        ensures
            final(self).wf(),
            match r {
                Ok(()) => routed_node(old(self)@, circuit_id@, service_id@) is Some && final(self)@
                    == disconnected(old(self)@, circuit_id@, service_id@),
                Err(e) => final(self)@ == old(self)@ && (if has_circuit(old(self)@, circuit_id@) {
                    e == RoutingError::UnknownService && routed_node(
                        old(self)@,
                        circuit_id@,
                        service_id@,
                    ) is None
                } else {
                    e == RoutingError::UnknownCircuit
                }),
            },
    {
        let i = match self.find_circuit(circuit_id) {
            None => return Err(RoutingError::UnknownCircuit),
            Some(i) => i,
        };
        let ghost old_v = self@;
        proof {
            lemma_index_unique(old_v, circuit_id@, i as int);
            assert(circuit_wf(old_v[i as int]));
        }
        match find_service(&self.circuits[i].services, service_id) {
            None => {
                proof {
                    let cv = old_v[i as int];
                    if has_service(cv, service_id@) {
                        let j = choose|j: int|
                            0 <= j < cv.services.len() && #[trigger] cv.services[j].0 == service_id@;
                        assert(self.circuits@[i as int].services@[j].service_id@ == service_id@);
                    }
                }
                Err(RoutingError::UnknownService)
            },
            Some(j) => {
                proof {
                    assert(old_v[i as int].services[j as int].0 == service_id@);
                    lemma_service_unique(old_v[i as int], service_id@, j as int);
                }
                self.circuits[i].services.remove(j);
                proof {
                    assert(self@[i as int].services =~= old_v[i as int].services.remove(j as int));
                    assert(self@ =~= disconnected(old_v, circuit_id@, service_id@));
                    lemma_disconnect_wf(old_v, circuit_id@, service_id@);
                }
                Ok(())
            },
        }
    }
}

} // verus!
