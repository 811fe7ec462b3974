use cylinder::secp256k1::Secp256k1Context;
use cylinder::Context;
use splinterd::auth::{
    answer_challenge, authorize_step, conclude_challenge, AuthEvent, AuthFailure, AuthReply,
    AuthState, Keyring,
};
use splinterd::connection::{ConnectionEvent, ConnectionManager, ConnectionState};

fn key_pair() -> (Vec<u8>, Vec<u8>) {
    let context = Secp256k1Context::new();
    let private_key = context.new_random_private_key();
    let public_key = context.get_public_key(&private_key).unwrap();
    (private_key.as_slice().to_vec(), public_key.as_slice().to_vec())
}

fn challenged(keyring: &Keyring, identity: &str, nonce: &[u8]) -> AuthState {
    let (state, reply) = authorize_step(
        keyring,
        AuthState::AwaitingConnectRequest,
        AuthEvent::ConnectRequest { identity: identity.to_string() },
        nonce.to_vec(),
    );
    match reply {
        Some(AuthReply::Challenge { nonce: sent }) => assert_eq!(sent, nonce.to_vec()),
        _ => panic!("challenge expected"),
    }
    state
}

#[test]
fn handshake_with_right_key_authorizes() {
    let (private_key, public_key) = key_pair();
    let mut keyring = Keyring::new();
    keyring.add_identity("node-a".to_string(), public_key);
    let nonce = b"0123456789abcdef".to_vec();
    let state = challenged(&keyring, "node-a", &nonce);
    let signature = answer_challenge(&private_key, &nonce).expect("signing works");
    let (state, reply) = authorize_step(&keyring, state, AuthEvent::ChallengeResponse { signature }, vec![]);
    assert!(matches!(state, AuthState::Authorized { ref identity } if identity == "node-a"));
    assert!(matches!(reply, Some(AuthReply::Complete)));
}

#[test]
fn handshake_signed_with_wrong_key_fails() {
    let (_, public_key) = key_pair();
    let (wrong_private_key, _) = key_pair();
    let mut keyring = Keyring::new();
    keyring.add_identity("node-a".to_string(), public_key);
    let nonce = b"nonce-nonce".to_vec();
    let state = challenged(&keyring, "node-a", &nonce);
    let signature = answer_challenge(&wrong_private_key, &nonce).unwrap();
    let (state, reply) = authorize_step(&keyring, state, AuthEvent::ChallengeResponse { signature }, vec![]);
    assert!(matches!(state, AuthState::Failed(AuthFailure::BadSignature)));
    assert!(matches!(reply, Some(AuthReply::Failed(AuthFailure::BadSignature))));

    // The connection manager closes the connection; it never becomes authorized.
    let mut manager = ConnectionManager::new(10);
    let endpoint = "tcp://a:8044".to_string();
    manager.add_connection(endpoint.clone(), 0).unwrap();
    assert_eq!(
        manager.handle_event(&endpoint, ConnectionEvent::AuthorizationFailed, 1),
        Ok(ConnectionState::Failed)
    );
    assert!(manager.handle_event(&endpoint, ConnectionEvent::AuthorizationSucceeded, 2).is_err());
}

#[test]
fn handshake_rejects_unknown_identity_garbage_and_protocol_errors() {
    let keyring = Keyring::new();
    let (state, reply) = authorize_step(
        &keyring,
        AuthState::AwaitingConnectRequest,
        AuthEvent::ConnectRequest { identity: "stranger".to_string() },
        vec![1],
    );
    assert!(matches!(state, AuthState::Failed(AuthFailure::UnknownIdentity)));
    assert!(matches!(reply, Some(AuthReply::Failed(AuthFailure::UnknownIdentity))));

    let (state, _) = authorize_step(
        &keyring,
        AuthState::AwaitingConnectRequest,
        AuthEvent::ChallengeResponse { signature: vec![] },
        vec![1],
    );
    assert!(matches!(state, AuthState::Failed(AuthFailure::ProtocolViolation)));

    let (state, _) = authorize_step(&keyring, AuthState::AwaitingConnectRequest, AuthEvent::Timeout, vec![]);
    assert!(matches!(state, AuthState::Failed(AuthFailure::Timeout)));

    let (_, public_key) = key_pair();
    let mut keyring = Keyring::new();
    keyring.add_identity("n".to_string(), public_key.clone());
    assert_eq!(keyring.public_key(&"n".to_string()), Some(public_key));
    let state = challenged(&keyring, "n", b"x");
    let (state, _) = authorize_step(&keyring, state, AuthEvent::ChallengeResponse { signature: vec![0; 3] }, vec![]);
    assert!(matches!(state, AuthState::Failed(AuthFailure::BadSignature)));
}

#[test]
fn finished_handshake_ignores_events() {
    let keyring = Keyring::new();
    let (state, reply) = authorize_step(
        &keyring,
        AuthState::Failed(AuthFailure::Timeout),
        AuthEvent::ConnectRequest { identity: "x".to_string() },
        vec![],
    );
    assert!(matches!(state, AuthState::Failed(AuthFailure::Timeout)));
    assert!(reply.is_none());
}

#[test]
fn conclude_challenge_outcomes() {
    assert!(matches!(conclude_challenge("a".to_string(), Some(true)), (AuthState::Authorized { .. }, AuthReply::Complete)));
    assert!(matches!(conclude_challenge("a".to_string(), Some(false)), (AuthState::Failed(AuthFailure::BadSignature), _)));
    assert!(matches!(conclude_challenge("a".to_string(), None), (AuthState::Failed(AuthFailure::BadSignature), _)));
}

#[test]
fn heartbeat_fails_silent_connections() {
    let mut manager = ConnectionManager::new(10);
    let a = "tcp://a".to_string();
    let b = "tcp://b".to_string();
    manager.add_connection(a.clone(), 0).unwrap();
    manager.add_connection(b.clone(), 0).unwrap();
    assert!(manager.add_connection(a.clone(), 0).is_err());
    manager.handle_event(&a, ConnectionEvent::AuthorizationSucceeded, 5).unwrap();
    manager.handle_event(&b, ConnectionEvent::AuthorizationSucceeded, 20).unwrap();
    let actions = manager.heartbeat_tick(35);
    assert_eq!(actions.len(), 2);
    assert!(matches!(&actions[0], splinterd::connection::HeartbeatAction::NotifyFailed(e) if *e == a));
    assert!(matches!(&actions[1], splinterd::connection::HeartbeatAction::SendHeartbeat(e) if *e == b));
    assert_eq!(manager.state(&a), Some(ConnectionState::Failed));
    assert_eq!(manager.state(&b), Some(ConnectionState::Authorized));
    assert!(splinterd::connection::is_stale(30, 0, 10));
    assert!(!splinterd::connection::is_stale(29, 0, 10));
}

#[test]
fn shutdown_closes_connections() {
    let mut manager = ConnectionManager::new(1);
    let a = "inproc://admin-service".to_string();
    manager.add_connection(a.clone(), 0).unwrap();
    manager.shutdown();
    manager.shutdown();
    assert_eq!(manager.state(&a), Some(ConnectionState::Closed));
    assert!(manager.add_connection("x".to_string(), 1).is_err());
}

#[test]
fn outbound_requests_traffic_and_removal() {
    let mut manager = ConnectionManager::new(10);
    let b = "tcp://b:8044".to_string();
    manager.request_outbound(b.clone(), 0).unwrap();
    assert_eq!(manager.state(&b), Some(ConnectionState::New));
    assert_eq!(manager.handle_event(&b, ConnectionEvent::BeginAuthorization, 1), Ok(ConnectionState::Authorizing));
    assert_eq!(manager.handle_event(&b, ConnectionEvent::AuthorizationSucceeded, 2), Ok(ConnectionState::Authorized));
    assert!(manager.record_traffic(&b, 40));
    assert!(matches!(manager.heartbeat_tick(45)[0], splinterd::connection::HeartbeatAction::SendHeartbeat(_)));
    assert_eq!(manager.handle_event(&b, ConnectionEvent::Lost, 50), Ok(ConnectionState::Disconnected));
    assert_eq!(manager.handle_event(&b, ConnectionEvent::Restored, 51), Ok(ConnectionState::Authorized));
    assert!(manager.remove(&b));
    assert!(!manager.remove(&b));
    assert_eq!(manager.state(&b), None);
    assert!(!manager.record_traffic(&b, 60));
}
