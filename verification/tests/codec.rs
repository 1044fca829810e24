use vinox::channel::ChannelKind;
use vinox::codec::{decode_datagram, encode_datagram};
use vinox::session::Datagram;

fn round_trip(d: &Datagram) -> Datagram {
    let bytes = encode_datagram(d);
    decode_datagram(bytes.as_slice()).expect("a valid encoding decodes")
}

#[test]
fn connect_request_round_trips() {
    let d = Datagram::ConnectRequest { client_id: 77, protocol_id: 0x76_69_6e_6f_78 };
    match round_trip(&d) {
        Datagram::ConnectRequest { client_id, protocol_id } => {
            assert_eq!(client_id, 77);
            assert_eq!(protocol_id, 0x76_69_6e_6f_78);
        },
        other => panic!("wrong variant: {:?}", other),
    }
}

#[test]
fn lifecycle_datagrams_round_trip() {
    match round_trip(&Datagram::ConnectAccept { client_id: 1 }) {
        Datagram::ConnectAccept { client_id: 1 } => {},
        other => panic!("wrong variant: {:?}", other),
    }
    match round_trip(&Datagram::ConnectDeny { client_id: 2 }) {
        Datagram::ConnectDeny { client_id: 2 } => {},
        other => panic!("wrong variant: {:?}", other),
    }
    match round_trip(&Datagram::KeepAlive { client_id: 3 }) {
        Datagram::KeepAlive { client_id: 3 } => {},
        other => panic!("wrong variant: {:?}", other),
    }
    match round_trip(&Datagram::Disconnect { client_id: 4 }) {
        Datagram::Disconnect { client_id: 4 } => {},
        other => panic!("wrong variant: {:?}", other),
    }
    match round_trip(&Datagram::Ack { client_id: 5, next_seq: 900 }) {
        Datagram::Ack { client_id: 5, next_seq: 900 } => {},
        other => panic!("wrong variant: {:?}", other),
    }
}

#[test]
fn payloads_round_trip_on_both_channels() {
    let d = Datagram::Payload {
        client_id: 9,
        channel: ChannelKind::Reliable,
        seq: 42,
        data: b"hello world".to_vec(),
    };
    match round_trip(&d) {
        Datagram::Payload { client_id, channel, seq, data } => {
            assert_eq!(client_id, 9);
            assert_eq!(channel, ChannelKind::Reliable);
            assert_eq!(seq, 42);
            assert_eq!(data, b"hello world".to_vec());
        },
        other => panic!("wrong variant: {:?}", other),
    }
    let empty = Datagram::Payload {
        client_id: 9,
        channel: ChannelKind::Unreliable,
        seq: 0,
        data: Vec::new(),
    };
    match round_trip(&empty) {
        Datagram::Payload { client_id: 9, channel: ChannelKind::Unreliable, seq: 0, data } => {
            assert!(data.is_empty());
        },
        other => panic!("wrong variant: {:?}", other),
    }
}

#[test]
fn encoding_is_tag_plus_fields() {
    let bytes = encode_datagram(&Datagram::ConnectAccept { client_id: 0x0102 });
    assert_eq!(bytes, vec![2, 0x02, 0x01, 0, 0, 0, 0, 0, 0]);
}

#[test]
fn malformed_packets_are_rejected() {
    // Too short.
    assert!(decode_datagram(&[]).is_none());
    assert!(decode_datagram(&[1, 2, 3]).is_none());
    // Unknown tag.
    assert!(decode_datagram(&[0, 0, 0, 0, 0, 0, 0, 0, 0]).is_none());
    assert!(decode_datagram(&[9, 0, 0, 0, 0, 0, 0, 0, 0]).is_none());
    // Right tag, wrong length.
    assert!(decode_datagram(&[2, 0, 0, 0, 0, 0, 0, 0, 0, 0]).is_none());
    assert!(decode_datagram(&[1, 0, 0, 0, 0, 0, 0, 0, 0]).is_none());
    assert!(decode_datagram(&[7, 0, 0, 0, 0, 0, 0, 0, 0]).is_none());
    // Payload needs both 64-bit fields before the body.
    assert!(decode_datagram(&[5, 0, 0, 0, 0, 0, 0, 0, 0, 0, 0, 0]).is_none());
}
