use vinox::channel::ChannelKind;
use vinox::session::{
    Client, ClientState, Datagram, DisconnectReason, Server, ServerEvent, SessionState,
    HANDSHAKE_TIMEOUT_MS, LIVENESS_TIMEOUT_MS, PROTOCOL_ID,
};

/// Drives a fresh client all the way to `Connected` against `server`.
fn establish(server: &mut Server, client_id: u64) -> Client {
    let mut client = Client::connect(client_id, PROTOCOL_ID);
    let request = &client.outgoing()[0];
    let accept = server.on_datagram(request).expect("handshake reply");
    let keep_alive = client.on_datagram(&accept).expect("keep-alive reply");
    assert_eq!(client.state, ClientState::Connected);
    assert!(server.on_datagram(&keep_alive).is_none());
    client
}

#[test]
fn mismatched_protocol_is_rejected() {
    let mut server = Server::new(PROTOCOL_ID, 64);
    let mut client = Client::connect(11, PROTOCOL_ID ^ 1);
    let request = &client.outgoing()[0];
    let reply = server.on_datagram(request).expect("deny reply");
    // The server refuses the handshake and keeps no record of the client.
    assert!(matches!(reply, Datagram::ConnectDeny { client_id: 11 }));
    assert_eq!(server.sessions.len(), 0);
    assert!(server.get_event().is_none());
    // The denied client ends disconnected and never reaches `Connected`.
    assert!(client.on_datagram(&reply).is_none());
    assert_eq!(client.state, ClientState::Disconnected);
    assert_eq!(client.disconnect_reason, Some(DisconnectReason::Rejected));
}

#[test]
fn matching_protocol_connects_with_one_event() {
    let mut server = Server::new(PROTOCOL_ID, 64);
    assert_eq!(server.sessions.len(), 0);
    let _client = establish(&mut server, 21);
    // The session went from absent to connected with exactly one event.
    assert_eq!(server.sessions.len(), 1);
    assert_eq!(server.sessions[0].state, SessionState::Connected);
    assert_eq!(
        server.get_event(),
        Some(ServerEvent::ClientConnected { client_id: 21 })
    );
    assert!(server.get_event().is_none());
}

#[test]
fn client_disconnect_reaches_both_sides() {
    let mut server = Server::new(PROTOCOL_ID, 64);
    let mut client = establish(&mut server, 31);
    assert_eq!(server.get_event(), Some(ServerEvent::ClientConnected { client_id: 31 }));
    // The client transitions immediately, with no linger.
    let goodbye = client.disconnect().expect("goodbye datagram");
    assert_eq!(client.state, ClientState::Disconnected);
    // One datagram later the server side is closed too, with one event.
    assert!(server.on_datagram(&goodbye).is_none());
    assert_eq!(server.sessions[0].state, SessionState::Disconnected);
    assert_eq!(
        server.get_event(),
        Some(ServerEvent::ClientDisconnected {
            client_id: 31,
            reason: DisconnectReason::Left,
        })
    );
    assert!(server.get_event().is_none());
}

#[test]
fn reliable_messages_arrive_in_order() {
    let mut server = Server::new(PROTOCOL_ID, 64);
    let mut client = establish(&mut server, 41);
    let first = client.send_reliable(b"alpha".to_vec()).expect("queued");
    let second = client.send_reliable(b"beta".to_vec()).expect("queued");
    let ack1 = server.on_datagram(&first).expect("ack");
    let ack2 = server.on_datagram(&second).expect("ack");
    assert!(matches!(ack1, Datagram::Ack { client_id: 41, next_seq: 1 }));
    assert!(matches!(ack2, Datagram::Ack { client_id: 41, next_seq: 2 }));
    assert_eq!(server.receive_reliable(41), Some(b"alpha".to_vec()));
    assert_eq!(server.receive_reliable(41), Some(b"beta".to_vec()));
    assert_eq!(server.receive_reliable(41), None);
    // Acknowledgements discharge the client's retransmission queue.
    assert!(client.on_datagram(&ack1).is_none());
    assert!(client.on_datagram(&ack2).is_none());
    // Connected with nothing pending: the tick sends only a keep-alive.
    let out = client.outgoing();
    assert_eq!(out.len(), 1);
    assert!(matches!(out[0], Datagram::KeepAlive { client_id: 41 }));
}

#[test]
fn out_of_order_and_duplicate_payloads_are_dropped() {
    let mut server = Server::new(PROTOCOL_ID, 64);
    let _client = establish(&mut server, 51);
    let gap = Datagram::Payload {
        client_id: 51,
        channel: ChannelKind::Reliable,
        seq: 3,
        data: b"late".to_vec(),
    };
    // A gap is not delivered; the ack still names the next expected seq.
    let ack = server.on_datagram(&gap).expect("ack");
    assert!(matches!(ack, Datagram::Ack { client_id: 51, next_seq: 0 }));
    assert_eq!(server.receive_reliable(51), None);
    let zero = Datagram::Payload {
        client_id: 51,
        channel: ChannelKind::Reliable,
        seq: 0,
        data: b"now".to_vec(),
    };
    let _ = server.on_datagram(&zero);
    let dup = Datagram::Payload {
        client_id: 51,
        channel: ChannelKind::Reliable,
        seq: 0,
        data: b"again".to_vec(),
    };
    let ack = server.on_datagram(&dup).expect("ack");
    assert!(matches!(ack, Datagram::Ack { client_id: 51, next_seq: 1 }));
    // The duplicate is delivered once, not twice.
    assert_eq!(server.receive_reliable(51), Some(b"now".to_vec()));
    assert_eq!(server.receive_reliable(51), None);
}

#[test]
fn unreliable_messages_are_best_effort() {
    let mut server = Server::new(PROTOCOL_ID, 64);
    let mut client = establish(&mut server, 61);
    let dgram = client.send_unreliable(&b"pos".to_vec()).expect("datagram");
    // Best effort: no acknowledgement comes back.
    assert!(server.on_datagram(&dgram).is_none());
    assert_eq!(server.receive_unreliable(61), Some(b"pos".to_vec()));
    assert_eq!(server.receive_unreliable(61), None);
    // Nothing was queued for retransmission on the sender.
    let down = server.send_unreliable(61, &b"echo".to_vec()).expect("datagram");
    assert!(client.on_datagram(&down).is_none());
    assert_eq!(client.receive_unreliable(), Some(b"echo".to_vec()));
    assert_eq!(client.receive_unreliable(), None);
}

#[test]
fn server_retransmits_until_acknowledged() {
    let mut server = Server::new(PROTOCOL_ID, 64);
    let mut client = establish(&mut server, 71);
    server.send_reliable(71, b"chunk".to_vec()).expect("queued");
    // Every tick re-offers the pending message after the keep-alive.
    let out = server.outgoing();
    assert_eq!(out.len(), 2);
    assert!(matches!(out[0], Datagram::KeepAlive { client_id: 71 }));
    let ack = client.on_datagram(&out[1]).expect("ack");
    assert_eq!(client.receive_reliable(), Some(b"chunk".to_vec()));
    assert!(server.on_datagram(&ack).is_none());
    // Acknowledged: only the keep-alive remains.
    assert_eq!(server.outgoing().len(), 1);
}

#[test]
fn handshake_timeout_disconnects_client() {
    let mut client = Client::connect(81, PROTOCOL_ID);
    client.update(HANDSHAKE_TIMEOUT_MS - 1);
    assert_eq!(client.state, ClientState::Authenticating);
    client.update(1);
    assert_eq!(client.state, ClientState::Disconnected);
    assert_eq!(client.disconnect_reason, Some(DisconnectReason::Timeout));
}

#[test]
fn liveness_timeout_disconnects_server_session() {
    let mut server = Server::new(PROTOCOL_ID, 64);
    let _client = establish(&mut server, 91);
    assert_eq!(server.get_event(), Some(ServerEvent::ClientConnected { client_id: 91 }));
    server.update(LIVENESS_TIMEOUT_MS - 1);
    assert!(server.get_event().is_none());
    server.update(1);
    assert_eq!(server.sessions[0].state, SessionState::Disconnected);
    assert_eq!(
        server.get_event(),
        Some(ServerEvent::ClientDisconnected {
            client_id: 91,
            reason: DisconnectReason::Timeout,
        })
    );
}

#[test]
fn keep_alives_hold_the_session_open() {
    let mut server = Server::new(PROTOCOL_ID, 64);
    let _client = establish(&mut server, 95);
    server.update(LIVENESS_TIMEOUT_MS - 1);
    assert!(server.on_datagram(&Datagram::KeepAlive { client_id: 95 }).is_none());
    server.update(LIVENESS_TIMEOUT_MS - 1);
    assert_eq!(server.sessions[0].state, SessionState::Connected);
}

#[test]
fn server_capacity_is_enforced() {
    let mut server = Server::new(PROTOCOL_ID, 1);
    let _first = establish(&mut server, 101);
    let mut second = Client::connect(102, PROTOCOL_ID);
    let request = &second.outgoing()[0];
    let reply = server.on_datagram(request).expect("deny reply");
    assert!(matches!(reply, Datagram::ConnectDeny { client_id: 102 }));
    assert_eq!(server.sessions.len(), 1);
}

#[test]
fn server_shutdown_closes_every_session() {
    let mut server = Server::new(PROTOCOL_ID, 64);
    let _a = establish(&mut server, 111);
    let _b = establish(&mut server, 112);
    assert!(server.get_event().is_some());
    assert!(server.get_event().is_some());
    server.disconnect_all();
    assert_eq!(server.sessions[0].state, SessionState::Disconnected);
    assert_eq!(server.sessions[1].state, SessionState::Disconnected);
    assert_eq!(
        server.get_event(),
        Some(ServerEvent::ClientDisconnected {
            client_id: 111,
            reason: DisconnectReason::ServerShutdown,
        })
    );
    assert_eq!(
        server.get_event(),
        Some(ServerEvent::ClientDisconnected {
            client_id: 112,
            reason: DisconnectReason::ServerShutdown,
        })
    );
    assert!(server.get_event().is_none());
}

#[test]
fn repeated_handshake_is_idempotent() {
    let mut server = Server::new(PROTOCOL_ID, 64);
    let mut client = Client::connect(121, PROTOCOL_ID);
    let request = Datagram::ConnectRequest { client_id: 121, protocol_id: PROTOCOL_ID };
    // A retransmitted handshake is re-answered without a second session.
    let first = server.on_datagram(&request).expect("accept");
    let second = server.on_datagram(&request).expect("accept again");
    assert!(matches!(first, Datagram::ConnectAccept { client_id: 121 }));
    assert!(matches!(second, Datagram::ConnectAccept { client_id: 121 }));
    assert_eq!(server.sessions.len(), 1);
    // Completing the handshake emits exactly one connected event, even
    // after the duplicate request and a duplicate keep-alive.
    let keep_alive = client.on_datagram(&first).expect("keep-alive");
    assert!(server.on_datagram(&keep_alive).is_none());
    assert!(server.on_datagram(&Datagram::KeepAlive { client_id: 121 }).is_none());
    assert_eq!(
        server.get_event(),
        Some(ServerEvent::ClientConnected { client_id: 121 })
    );
    assert!(server.get_event().is_none());
}

#[test]
fn closed_sessions_are_not_readmitted() {
    let mut server = Server::new(PROTOCOL_ID, 64);
    let mut client = establish(&mut server, 131);
    let goodbye = client.disconnect().expect("goodbye");
    assert!(server.on_datagram(&goodbye).is_none());
    // The record of the closed session denies a replayed handshake.
    let request = Datagram::ConnectRequest { client_id: 131, protocol_id: PROTOCOL_ID };
    let reply = server.on_datagram(&request).expect("reply");
    assert!(matches!(reply, Datagram::ConnectDeny { client_id: 131 }));
    assert_eq!(server.sessions.len(), 1);
}

#[test]
fn datagrams_for_unknown_sessions_are_dropped() {
    let mut server = Server::new(PROTOCOL_ID, 64);
    assert!(server.on_datagram(&Datagram::KeepAlive { client_id: 7 }).is_none());
    assert!(server
        .on_datagram(&Datagram::Payload {
            client_id: 7,
            channel: ChannelKind::Reliable,
            seq: 0,
            data: b"stray".to_vec(),
        })
        .is_none());
    assert!(server.on_datagram(&Datagram::Disconnect { client_id: 7 }).is_none());
    assert_eq!(server.sessions.len(), 0);
    assert!(server.get_event().is_none());
}

#[test]
fn sends_fail_without_a_connected_session() {
    let mut server = Server::new(PROTOCOL_ID, 64);
    assert!(server.send_reliable(5, b"x".to_vec()).is_none());
    assert!(server.send_unreliable(5, &b"x".to_vec()).is_none());
    let mut client = Client::connect(5, PROTOCOL_ID);
    assert!(client.send_reliable(b"x".to_vec()).is_none());
    assert!(client.send_unreliable(&b"x".to_vec()).is_none());
}
