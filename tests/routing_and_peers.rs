use splinterd::circuit::{dispatch_circuit, CircuitError, CircuitOutcome, CircuitRequest};
use splinterd::dispatch::{CircuitDispatcher, CircuitHandler};
use splinterd::peer::{next_backoff, reconnect_endpoint};
use splinterd::wire::CircuitMessageType;
use splinterd::circuit::{
    handle_direct_message, handle_service_connect, handle_service_disconnect, CircuitErrorKind,
    DirectMessage, DirectRoute, RequestStatus, ServiceConnectRequest, ServiceDisconnectRequest,
};
use splinterd::peer::{PeerError, PeerManager};
use splinterd::routing::{RoutingError, RoutingTable};

fn s(x: &str) -> String {
    x.to_string()
}

fn table() -> RoutingTable {
    let mut t = RoutingTable::new();
    t.add_circuit(s("c1"), vec![s("node-a"), s("node-b")]).unwrap();
    t
}

#[test]
fn unknown_service_gets_circuit_error() {
    let t = table();
    let route = handle_direct_message(
        &t,
        DirectMessage { circuit: s("c1"), sender: s("s-a"), recipient: s("s-unknown"), payload: vec![1] },
    );
    match route {
        DirectRoute::Reject(e) => {
            assert_eq!(e.kind, CircuitErrorKind::UnknownService);
            assert_eq!(e.circuit, "c1");
            assert_eq!(e.service_id, "s-unknown");
        }
        _ => panic!("expected a circuit error"),
    }
    let route = handle_direct_message(
        &t,
        DirectMessage { circuit: s("c9"), sender: s("s-a"), recipient: s("s-b"), payload: vec![] },
    );
    assert!(matches!(route, DirectRoute::Reject(e) if e.kind == CircuitErrorKind::UnknownCircuit));
}

#[test]
fn direct_message_is_forwarded_to_owner() {
    let mut t = table();
    t.connect_service(&s("c1"), s("s-b"), s("node-b")).unwrap();
    let route = handle_direct_message(
        &t,
        DirectMessage { circuit: s("c1"), sender: s("s-a"), recipient: s("s-b"), payload: vec![4] },
    );
    match route {
        DirectRoute::Forward { node_id, message } => {
            assert_eq!(node_id, "node-b");
            assert_eq!(message.payload, vec![4]);
        }
        _ => panic!("expected forwarding"),
    }
}

#[test]
fn service_connect_is_idempotent() {
    let mut t = table();
    let req = || ServiceConnectRequest { circuit: s("c1"), service_id: s("s1") };
    let r1 = handle_service_connect(&mut t, &s("node-a"), req());
    let r2 = handle_service_connect(&mut t, &s("node-a"), req());
    assert_eq!(r1.status, RequestStatus::Accepted);
    assert_eq!(r2.status, RequestStatus::Accepted);
    assert_eq!(t.routed_node(&s("c1"), &s("s1")), Some(s("node-a")));
    // One entry: a single disconnect removes the route.
    let d = handle_service_disconnect(&mut t, ServiceDisconnectRequest { circuit: s("c1"), service_id: s("s1") });
    assert_eq!(d.status, RequestStatus::Accepted);
    assert_eq!(t.routed_node(&s("c1"), &s("s1")), None);
    let d = handle_service_disconnect(&mut t, ServiceDisconnectRequest { circuit: s("c1"), service_id: s("s1") });
    assert_eq!(d.status, RequestStatus::ErrorServiceNotConnected);
}

#[test]
fn routed_nodes_are_members() {
    let mut t = table();
    assert_eq!(t.connect_service(&s("c1"), s("s1"), s("node-z")), Err(RoutingError::NodeNotMember));
    assert_eq!(t.connect_service(&s("c2"), s("s1"), s("node-a")), Err(RoutingError::UnknownCircuit));
    t.connect_service(&s("c1"), s("s1"), s("node-a")).unwrap();
    assert_eq!(
        t.connect_service(&s("c1"), s("s1"), s("node-b")),
        Err(RoutingError::ServiceConnectedElsewhere)
    );
    let node = t.routed_node(&s("c1"), &s("s1")).unwrap();
    assert!(t.is_member(&s("c1"), &node));
    assert_eq!(t.add_circuit(s("c1"), vec![]), Err(RoutingError::CircuitExists));
    assert!(t.remove_circuit(&s("c1")));
    assert_eq!(t.routed_node(&s("c1"), &s("s1")), None);
    assert!(!t.has_circuit(&s("c1")));
}

#[test]
fn connect_request_for_unknown_circuit_fails() {
    let mut t = table();
    let r = handle_service_connect(&mut t, &s("node-a"), ServiceConnectRequest { circuit: s("nope"), service_id: s("s1") });
    assert_eq!(r.status, RequestStatus::ErrorCircuitDoesNotExist);
}

#[test]
fn two_refs_keep_peer_until_both_dropped() {
    let mut pm = PeerManager::new(true);
    let b = s("B");
    let r1 = pm.add_peer(b.clone(), vec![s("tcp://b:8044")]).unwrap();
    let r2 = pm.add_peer(b.clone(), vec![s("tcp://b:8044")]).unwrap();
    assert_eq!(pm.ref_count(&b), 2);
    pm.release(r1).unwrap();
    assert_eq!(pm.ref_count(&b), 1);
    pm.release(r2).unwrap();
    assert_eq!(pm.ref_count(&b), 0);
}

#[test]
fn add_then_release_restores_table() {
    let mut pm = PeerManager::new(true);
    let keep = pm.add_peer(s("A"), vec![]).unwrap();
    let r = pm.add_unidentified_peer(s("tcp://c:8044")).unwrap();
    assert_eq!(r.peer_id(), "tcp://c:8044");
    assert_eq!(pm.ref_count(&s("tcp://c:8044")), 1);
    pm.release(r).unwrap();
    assert_eq!(pm.ref_count(&s("tcp://c:8044")), 0);
    assert_eq!(pm.ref_count(&s("A")), 1);
    pm.release(keep).unwrap();
}

#[test]
fn strict_and_lenient_underflow() {
    let mut other = PeerManager::new(false);
    let stray = other.add_peer(s("X"), vec![]).unwrap();
    let mut strict = PeerManager::new(true);
    assert_eq!(strict.release(stray), Err(PeerError::RefCountUnderflow));
    let stray = other.add_peer(s("X"), vec![]).unwrap();
    let mut lenient = PeerManager::new(false);
    assert!(!lenient.strict_ref_counts());
    assert_eq!(lenient.release(stray), Ok(()));
    assert_eq!(lenient.ref_count(&s("X")), 0);
}

#[test]
fn reconnect_backoff_and_endpoint_walk() {
    assert_eq!(next_backoff(1, 60), 2);
    assert_eq!(next_backoff(16, 60), 32);
    assert_eq!(next_backoff(32, 60), 60);
    assert_eq!(next_backoff(30, 60), 60);
    assert_eq!(next_backoff(u64::MAX, u64::MAX), u64::MAX);
    let endpoints = vec![s("tcp://a"), s("tcp://b")];
    assert_eq!(reconnect_endpoint(&endpoints, 0), Some(&s("tcp://a")));
    assert_eq!(reconnect_endpoint(&endpoints, 3), Some(&s("tcp://b")));
    assert_eq!(reconnect_endpoint(&vec![], 3), None);
}

#[test]
fn circuit_dispatcher_registry() {
    let mut d = CircuitDispatcher::standard();
    assert_eq!(d.handler_for(CircuitMessageType::CircuitDirectMessage), Some(CircuitHandler::DirectMessage));
    assert_eq!(d.handler_for(CircuitMessageType::ServiceConnectResponse), None);
    d.set_handler(CircuitMessageType::CircuitDirectMessage, CircuitHandler::AdminDirectMessage);
    assert_eq!(d.handler_for(CircuitMessageType::CircuitDirectMessage), Some(CircuitHandler::AdminDirectMessage));
    assert_eq!(d.handler_for(CircuitMessageType::ServiceConnectRequest), Some(CircuitHandler::ServiceConnect));
}

#[test]
fn cylinder_bearer_header() {
    assert_eq!(splinterd::cli::cylinder_authorization("abc"), "Bearer Cylinder:abc");
}

#[test]
fn identification_rekeys_and_merges_peers() {
    let mut pm = PeerManager::new(true);
    let temp = pm.add_unidentified_peer(s("tcp://b:8044")).unwrap();
    pm.identify(&s("tcp://b:8044"), s("node-b")).unwrap();
    assert_eq!(pm.ref_count(&s("tcp://b:8044")), 0);
    assert_eq!(pm.ref_count(&s("node-b")), 1);

    // A second endpoint reports the same identity: the peers merge.
    let other = pm.add_unidentified_peer(s("tcp://b2:8044")).unwrap();
    pm.identify(&s("tcp://b2:8044"), s("node-b")).unwrap();
    assert_eq!(pm.ref_count(&s("node-b")), 2);

    // References issued before identification release the identified peer.
    pm.release(temp).unwrap();
    assert_eq!(pm.ref_count(&s("node-b")), 1);
    pm.release(other).unwrap();
    assert_eq!(pm.ref_count(&s("node-b")), 0);
    assert_eq!(pm.identify(&s("nobody"), s("x")), Err(PeerError::UnknownPeer));
}

#[test]
fn circuit_loop_dispatches_typed_requests() {
    let mut t = table();
    let d = CircuitDispatcher::standard();
    let out = splinterd::circuit::dispatch_circuit(
        &d,
        &mut t,
        &s("node-a"),
        splinterd::circuit::CircuitRequest::Connect(ServiceConnectRequest { circuit: s("c1"), service_id: s("s1") }),
    );
    assert!(matches!(out, splinterd::circuit::CircuitOutcome::Respond(r) if r.status == RequestStatus::Accepted));
    let out = splinterd::circuit::dispatch_circuit(
        &d,
        &mut t,
        &s("node-a"),
        splinterd::circuit::CircuitRequest::Direct(DirectMessage {
            circuit: s("c1"),
            sender: s("s2"),
            recipient: s("s1"),
            payload: vec![],
        }),
    );
    assert!(matches!(out, splinterd::circuit::CircuitOutcome::Route(DirectRoute::Forward { ref node_id, .. }) if node_id == "node-a"));
    let empty = CircuitDispatcher::new();
    let out = splinterd::circuit::dispatch_circuit(
        &empty,
        &mut t,
        &s("node-a"),
        splinterd::circuit::CircuitRequest::Disconnect(ServiceDisconnectRequest { circuit: s("c1"), service_id: s("s1") }),
    );
    assert!(matches!(out, splinterd::circuit::CircuitOutcome::Unhandled(CircuitMessageType::ServiceDisconnectRequest)));
    assert_eq!(t.routed_node(&s("c1"), &s("s1")), Some(s("node-a")));
}

#[test]
fn acquiring_an_identified_endpoint_joins_its_identity() {
    let mut pm = PeerManager::new(true);
    let r0 = pm.add_unidentified_peer(s("e")).unwrap();
    pm.identify(&s("e"), s("q")).unwrap();
    let r = pm.add_peer(s("e"), vec![]).unwrap();
    assert_eq!(pm.ref_count(&s("q")), 2);
    assert_eq!(pm.ref_count(&s("e")), 0);
    pm.release(r).unwrap();
    assert_eq!(pm.ref_count(&s("q")), 1);
    assert_eq!(pm.ref_count(&s("e")), 0);
    pm.release(r0).unwrap();
    assert_eq!(pm.ref_count(&s("q")), 0);
    assert_eq!(pm.identify(&s("q"), s("z")), Err(PeerError::UnknownPeer));
    let again = pm.add_peer(s("q"), vec![]).unwrap();
    assert_eq!(pm.identify(&s("q"), s("z")), Err(PeerError::AlreadyIdentified));
    pm.release(again).unwrap();
}

#[test]
fn admin_messages_and_circuit_errors_are_routed() {
    let mut t = table();
    t.connect_service(&s("c1"), s("admin"), s("node-b")).unwrap();
    let d = CircuitDispatcher::standard();
    let out = dispatch_circuit(&d, &mut t, &s("node-a"), CircuitRequest::AdminDirect(DirectMessage {
        circuit: s("c1"), sender: s("x"), recipient: s("nobody"), payload: vec![],
    }));
    assert!(matches!(out, CircuitOutcome::Route(DirectRoute::Reject(e)) if e.kind == CircuitErrorKind::UnknownService));
    let out = dispatch_circuit(&d, &mut t, &s("node-a"), CircuitRequest::Error(CircuitError {
        circuit: s("c1"), service_id: s("admin"), kind: CircuitErrorKind::UnknownService,
    }));
    assert!(matches!(out, CircuitOutcome::ErrorRoute(Some(ref n)) if n == "node-b"));
    let out = dispatch_circuit(&d, &mut t, &s("node-a"), CircuitRequest::Error(CircuitError {
        circuit: s("c1"), service_id: s("gone"), kind: CircuitErrorKind::UnknownService,
    }));
    assert!(matches!(out, CircuitOutcome::ErrorRoute(None)));
}
