use splinterd::daemon::inproc_ids;
use splinterd::dispatch::DispatchQueue;
use splinterd::transport::{
    after_accept_failure, authorize_by_scheme, select_transport, AcceptFailure, Authorization,
    ListenerStep, TransportKind,
};

#[test]
fn transports_are_chosen_by_scheme() {
    assert_eq!(select_transport("tcp://127.0.0.1:8044"), Some((TransportKind::Tcp, "127.0.0.1:8044")));
    assert_eq!(select_transport("tls://node:8044"), Some((TransportKind::Tls, "node:8044")));
    assert_eq!(select_transport("tcps://node:8044"), Some((TransportKind::Tls, "node:8044")));
    assert_eq!(select_transport("inproc://admin-service"), Some((TransportKind::Inproc, "admin-service")));
    assert_eq!(select_transport("udp://x"), None);
}

#[test]
fn accept_failures() {
    assert_eq!(after_accept_failure(AcceptFailure::Protocol), ListenerStep::Continue);
    assert_eq!(after_accept_failure(AcceptFailure::Io), ListenerStep::Stop);
}

#[test]
fn authorizer_by_scheme() {
    let ids = inproc_ids("alpha");
    match authorize_by_scheme(&ids, &"inproc://admin-service".to_string()) {
        Authorization::Inproc(id) => assert_eq!(id, "admin::alpha"),
        _ => panic!("in-process identity expected"),
    }
    assert!(matches!(
        authorize_by_scheme(&ids, &"inproc://unknown".to_string()),
        Authorization::Refused
    ));
    assert!(matches!(
        authorize_by_scheme(&ids, &"tcp://10.0.0.1:8044".to_string()),
        Authorization::Challenge
    ));
}

#[test]
fn shutdown_drains_in_bounded_steps() {
    let mut q: DispatchQueue<&str> = DispatchQueue::new(8);
    q.send("a").unwrap();
    q.send("b").unwrap();
    q.shutdown();
    assert_eq!(q.drain(), vec!["a", "b"]);
    assert_eq!(q.len(), 0);
    assert_eq!(q.drain(), Vec::<&str>::new());
}
