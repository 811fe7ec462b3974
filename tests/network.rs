use splinterd::interconnect::{Inbound, PeerInterconnect};
use splinterd::dispatch::{DispatchQueue, NetworkAction, NetworkDispatcher, NetworkHandler, SendError};
use splinterd::mesh::{Mesh, MeshError};
use splinterd::wire::{
    decode_envelope, encode_envelope, CircuitMessage, CircuitMessageType, NetworkMessage,
    NetworkMessageType,
};

#[test]
fn network_message_exact_bytes() {
    let m = NetworkMessage {
        message_type: NetworkMessageType::NetworkEcho,
        payload: b"ping".to_vec(),
    };
    assert_eq!(m.to_bytes(), vec![0x08, 0x01, 0x12, 0x04, b'p', b'i', b'n', b'g']);
}

#[test]
fn default_fields_are_left_out() {
    let m = NetworkMessage { message_type: NetworkMessageType::UnsetNetworkMessageType, payload: vec![] };
    assert_eq!(m.to_bytes(), Vec::<u8>::new());
    let m = NetworkMessage { message_type: NetworkMessageType::NetworkHeartbeat, payload: vec![] };
    assert_eq!(m.to_bytes(), vec![0x08, 0x02]);
    assert_eq!(encode_envelope(0, &[9]), vec![0x12, 0x01, 9]);
    assert_eq!(decode_envelope(&[]), Some((0, vec![])));
    assert_eq!(decode_envelope(&[0x12, 0x01, 9]), Some((0, vec![9])));
    assert!(decode_envelope(&[0x12, 0x00]).is_none());
    assert!(decode_envelope(&[0x08, 0x00]).is_none());
}

#[test]
fn network_message_round_trip() {
    for (t, len) in [
        (NetworkMessageType::UnsetNetworkMessageType, 0usize),
        (NetworkMessageType::Circuit, 1),
        (NetworkMessageType::AuthFailed, 300),
        (NetworkMessageType::NetworkHeartbeat, 20000),
    ] {
        let payload: Vec<u8> = (0..len).map(|i| (i % 251) as u8).collect();
        let bytes = NetworkMessage { message_type: t, payload: payload.clone() }.to_bytes();
        let back = NetworkMessage::from_bytes(&bytes).expect("round trip");
        assert_eq!(back.message_type, t);
        assert_eq!(back.payload, payload);
    }
}

#[test]
fn varint_of_long_payload() {
    let payload = vec![7u8; 300];
    let bytes = encode_envelope(3, &payload);
    assert_eq!(&bytes[..5], &[0x08, 0x03, 0x12, 0xAC, 0x02]);
    assert_eq!(bytes.len(), 305);
    assert_eq!(decode_envelope(&bytes), Some((3, payload)));
}

#[test]
fn malformed_bytes_do_not_decode() {
    let empty = NetworkMessage::from_bytes(&[]).expect("the empty message");
    assert_eq!(empty.message_type, NetworkMessageType::UnsetNetworkMessageType);
    assert!(empty.payload.is_empty());
    assert!(NetworkMessage::from_bytes(&[0x08, 0x01, 0x12, 0x05, 1, 2]).is_none());
    assert!(NetworkMessage::from_bytes(&[0x08, 0x63, 0x12, 0x00]).is_none());
    assert!(NetworkMessage::from_bytes(&[0x08, 0x81, 0x00, 0x12, 0x00]).is_none());
    assert!(decode_envelope(&[0x08, 0x01, 0x12, 0x00, 0x00]).is_none());
}

#[test]
fn echo_round_trip_between_two_nodes() {
    // Node A sends an echo; node B decodes, dispatches and answers; A decodes the answer.
    let ping = NetworkMessage { message_type: NetworkMessageType::NetworkEcho, payload: b"ping".to_vec() };
    let on_wire = ping.to_bytes();
    let at_b = NetworkMessage::from_bytes(&on_wire).unwrap();
    let dispatcher = NetworkDispatcher::standard();
    match dispatcher.dispatch(&"A".to_string(), at_b) {
        NetworkAction::Reply { to, message } => {
            assert_eq!(to, "A");
            let back_at_a = NetworkMessage::from_bytes(&message.to_bytes()).unwrap();
            assert_eq!(back_at_a.message_type, NetworkMessageType::NetworkEcho);
            assert_eq!(back_at_a.payload, b"ping".to_vec());
        }
        _ => panic!("echo expected"),
    }
}

#[test]
fn heartbeat_and_unhandled_messages() {
    let dispatcher = NetworkDispatcher::standard();
    let hb = NetworkMessage { message_type: NetworkMessageType::NetworkHeartbeat, payload: vec![] };
    assert!(matches!(dispatcher.dispatch(&"A".to_string(), hb), NetworkAction::Nothing));
    let auth = NetworkMessage { message_type: NetworkMessageType::AuthComplete, payload: vec![] };
    assert!(matches!(
        dispatcher.dispatch(&"A".to_string(), auth),
        NetworkAction::Unhandled(NetworkMessageType::AuthComplete)
    ));
    assert_eq!(dispatcher.handler_for(NetworkMessageType::Circuit), Some(NetworkHandler::CircuitForward));
}

#[test]
fn circuit_messages_are_unwrapped() {
    let inner = CircuitMessage {
        message_type: CircuitMessageType::CircuitDirectMessage,
        payload: b"hello".to_vec(),
    };
    let outer = NetworkMessage { message_type: NetworkMessageType::Circuit, payload: inner.to_bytes() };
    let dispatcher = NetworkDispatcher::standard();
    match dispatcher.dispatch(&"B".to_string(), outer) {
        NetworkAction::ToCircuit { source, circuit_message } => {
            assert_eq!(source, "B");
            assert_eq!(circuit_message.message_type, CircuitMessageType::CircuitDirectMessage);
            assert_eq!(circuit_message.payload, b"hello".to_vec());
        }
        _ => panic!("circuit forward expected"),
    }
    let bad = NetworkMessage { message_type: NetworkMessageType::Circuit, payload: vec![1, 2, 3] };
    assert!(matches!(dispatcher.dispatch(&"B".to_string(), bad), NetworkAction::Malformed));
}

#[test]
fn dispatch_queue_keeps_arrival_order() {
    let mut q: DispatchQueue<u32> = DispatchQueue::new(3);
    q.send(1).unwrap();
    q.send(2).unwrap();
    assert_eq!(q.recv(), Some(1));
    q.send(3).unwrap();
    q.send(4).unwrap();
    assert_eq!(q.send(5), Err((SendError::Full, 5)));
    assert_eq!(q.recv(), Some(2));
    assert_eq!(q.recv(), Some(3));
    assert_eq!(q.recv(), Some(4));
    assert_eq!(q.recv(), None);
}

#[test]
fn dispatch_queue_drains_after_shutdown() {
    let mut q: DispatchQueue<u32> = DispatchQueue::new(4);
    q.send(1).unwrap();
    q.shutdown();
    q.shutdown();
    assert!(q.shut_down());
    assert_eq!(q.send(2), Err((SendError::ShutDown, 2)));
    assert_eq!(q.recv(), Some(1));
    assert_eq!(q.recv(), None);
}

#[test]
fn mesh_send_to_unknown_connection_is_gone() {
    let mut mesh = Mesh::new(512, 128);
    assert_eq!(mesh.send(7, vec![1]), Err(MeshError::Gone));
    let id = mesh.add_connection().unwrap();
    assert!(mesh.remove(id));
    assert_eq!(mesh.send(id, vec![1]), Err(MeshError::Gone));
}

#[test]
fn mesh_delivers_each_payload_once_in_order() {
    let mut mesh = Mesh::new(4, 2);
    let a = mesh.add_connection().unwrap();
    let b = mesh.add_connection().unwrap();
    assert_ne!(a, b);
    mesh.send(a, vec![1]).unwrap();
    mesh.send(a, vec![2]).unwrap();
    assert_eq!(mesh.send(a, vec![3]), Err(MeshError::Full));
    mesh.send(b, vec![9]).unwrap();
    assert_eq!(mesh.take_outgoing(a), Some(vec![1]));
    assert_eq!(mesh.take_outgoing(a), Some(vec![2]));
    assert_eq!(mesh.take_outgoing(a), None);
    assert_eq!(mesh.take_outgoing(b), Some(vec![9]));
    mesh.deliver(b, vec![5]).unwrap();
    mesh.deliver(a, vec![6]).unwrap();
    assert_eq!(mesh.deliver(99, vec![0]), Err(MeshError::Gone));
    assert_eq!(mesh.receive(), Some((b, vec![5])));
    assert_eq!(mesh.receive(), Some((a, vec![6])));
    assert_eq!(mesh.receive(), None);
}

#[test]
fn interconnect_addresses_by_peer_identity() {
    let mut mesh_a = Mesh::new(16, 16);
    let mut mesh_b = Mesh::new(16, 16);
    let conn_a = mesh_a.add_connection().unwrap();
    let conn_b = mesh_b.add_connection().unwrap();
    let mut at_a = PeerInterconnect::new();
    let mut at_b = PeerInterconnect::new();
    at_a.bind(conn_a, "node-b".to_string());
    at_b.bind(conn_b, "node-a".to_string());

    // A sends an echo to B through its mesh; the bytes travel to B's mesh.
    let ping = NetworkMessage { message_type: NetworkMessageType::NetworkEcho, payload: b"ping".to_vec() };
    let (conn, bytes) = at_a.outbound(&"node-b".to_string(), &ping).unwrap();
    assert_eq!(conn, conn_a);
    mesh_a.send(conn, bytes).unwrap();
    let on_wire = mesh_a.take_outgoing(conn_a).unwrap();
    mesh_b.deliver(conn_b, on_wire).unwrap();
    let (received_on, received) = mesh_b.receive().unwrap();
    assert!(mesh_b.receive().is_none());

    let envelope = match at_b.inbound(received_on, &received) {
        Inbound::Dispatch(e) => e,
        _ => panic!("dispatch expected"),
    };
    assert_eq!(envelope.source_peer_id, "node-a");
    let reply = match NetworkDispatcher::standard().dispatch(
        &envelope.source_peer_id,
        NetworkMessage { message_type: envelope.message_type, payload: envelope.payload },
    ) {
        NetworkAction::Reply { to, message } => at_b.outbound(&to, &message).unwrap(),
        _ => panic!("echo expected"),
    };
    assert_eq!(reply.0, conn_b);
    let back = NetworkMessage::from_bytes(&reply.1).unwrap();
    assert_eq!(back.payload, b"ping".to_vec());

    at_b.unbind(conn_b);
    assert!(matches!(at_b.inbound(conn_b, &reply.1), Inbound::UnknownConnection));
    assert!(at_b.outbound(&"node-a".to_string(), &back).is_none());
    assert!(matches!(at_a.inbound(conn_a, &[0xff]), Inbound::Malformed));
}

#[test]
fn forward_moves_payloads_between_meshes_exactly_once() {
    let mut a = Mesh::new(8, 8);
    let mut b = Mesh::new(1, 8);
    let ca = a.add_connection().unwrap();
    let cb = b.add_connection().unwrap();
    a.send(ca, vec![1]).unwrap();
    a.send(ca, vec![2]).unwrap();
    assert_eq!(splinterd::mesh::forward(&mut a, ca, &mut b, cb), Ok(true));
    // The receiver's queue is full: the second payload waits at the sender.
    assert_eq!(splinterd::mesh::forward(&mut a, ca, &mut b, cb), Ok(false));
    assert_eq!(b.receive(), Some((cb, vec![1])));
    assert_eq!(splinterd::mesh::forward(&mut a, ca, &mut b, cb), Ok(true));
    assert_eq!(b.receive(), Some((cb, vec![2])));
    assert_eq!(splinterd::mesh::forward(&mut a, ca, &mut b, cb), Ok(false));
    assert_eq!(b.receive(), None);
    assert_eq!(splinterd::mesh::forward(&mut a, 99, &mut b, cb), Err(MeshError::Gone));
}
