use tcp_gateway::client::{input_buff, Action, Client, ProtoError};
use tcp_gateway::codec::{
    decode, encode, encode_close_frame, encode_data_frame, encode_open_frame, write_var_u32,
};
use tcp_gateway::session::{Phase, ReadDecision, Session};
use tcp_gateway::version;

fn client_with_key(key: &[u8]) -> Client {
    Client::new(9, String::from("127.0.0.1:4000"), key.to_vec(), 1000)
}

#[test]
fn version_names_the_service() {
    assert_eq!(version(), "tcp gateway service 0.1.0");
}

#[test]
fn cipher_round_trip_nonempty_key() {
    let key = vec![0x10u8, 0x20u8];
    let original = vec![1u8, 2u8, 3u8, 4u8, 5u8];
    let mut data = original.clone();
    encode(&key, &mut data);
    assert_eq!(data, vec![0x11u8, 0x22u8, 0x13u8, 0x24u8, 0x15u8]);
    decode(&key, &mut data);
    assert_eq!(data, original);
    // encode is self-inverse
    encode(&key, &mut data);
    encode(&key, &mut data);
    assert_eq!(data, original);
}

#[test]
fn cipher_empty_key_is_identity() {
    let key: Vec<u8> = Vec::new();
    let original = vec![7u8, 0u8, 255u8];
    let mut data = original.clone();
    encode(&key, &mut data);
    assert_eq!(data, original);
    decode(&key, &mut data);
    assert_eq!(data, original);
}

#[test]
fn data_frame_layout_with_empty_key() {
    let frame = encode_data_frame(&[], 3, &[0xAA, 0xBB]);
    // cleartext length 6 = 4-byte target id + 2 payload bytes
    assert_eq!(frame, vec![6, 0, 0, 0, 3, 0, 0, 0, 0xAA, 0xBB]);
}

#[test]
fn frame_round_trip_through_length_prefixed_reader() {
    let key = vec![b'a', b'b'];
    let target_id: u32 = 42;
    let payload = vec![9u8, 8u8, 7u8, 6u8, 5u8];
    let frame = encode_data_frame(&key, target_id, &payload);

    // length prefix is in the clear
    let len = u32::from_le_bytes([frame[0], frame[1], frame[2], frame[3]]) as usize;
    assert_eq!(len, frame.len() - 4);
    assert_eq!(len, 4 + payload.len());

    // decipher the body, split it as the gateway's reader does
    let mut body = frame[4..].to_vec();
    decode(&key, &mut body);
    let got_target = u32::from_le_bytes([body[0], body[1], body[2], body[3]]);
    assert_eq!(got_target, target_id);
    assert_eq!(&body[4..], &payload[..]);
}

#[test]
fn open_frame_layout_with_empty_key() {
    let frame = encode_open_frame(&[], 7);
    assert_eq!(
        frame,
        vec![10, 0, 0, 0, 0xFF, 0xFF, 0xFF, 0xFF, 4, b'o', b'p', b'e', b'n', 7]
    );
}

#[test]
fn close_frame_layout_with_empty_key() {
    let frame = encode_close_frame(&[], 0);
    assert_eq!(
        frame,
        vec![11, 0, 0, 0, 0xFF, 0xFF, 0xFF, 0xFF, 5, b'c', b'l', b'o', b's', b'e', 0]
    );
}

#[test]
fn var_integer_multi_byte_groups() {
    let mut out = Vec::new();
    write_var_u32(&mut out, 300);
    assert_eq!(out, vec![0xAC, 0x02]);
    let mut big = Vec::new();
    write_var_u32(&mut big, u32::MAX);
    assert_eq!(big, vec![0xFF, 0xFF, 0xFF, 0xFF, 0x0F]);
}

#[test]
fn open_service_zero_raises_gate_and_sends_open_frame() {
    let mut client = client_with_key(b"ab");
    assert!(!client.is_open_zero);
    let acts = client.open_service(0);
    assert!(client.is_open_zero);
    assert_eq!(acts.len(), 1);
    match &acts[0] {
        Action::SendFrame(f) => assert_eq!(f, &encode_open_frame(b"ab", 0)),
        other => panic!("unexpected action: {:?}", action_name(other)),
    }
}

#[test]
fn open_service_nonzero_leaves_gate_down() {
    let mut client = client_with_key(b"");
    let acts = client.open_service(5);
    assert!(!client.is_open_zero);
    assert_eq!(acts.len(), 1);
    match &acts[0] {
        Action::SendFrame(f) => assert_eq!(f, &encode_open_frame(b"", 5)),
        other => panic!("unexpected action: {:?}", action_name(other)),
    }
}

fn action_name(a: &Action) -> &'static str {
    match a {
        Action::SendFrame(_) => "SendFrame",
        Action::NotifyDisconnect(_) => "NotifyDisconnect",
        Action::CloseTransport => "CloseTransport",
        Action::CloseTransportAfter(_) => "CloseTransportAfter",
        Action::Forward(_, _, _) => "Forward",
    }
}

fn count_close_transport(acts: &[Action]) -> usize {
    acts.iter()
        .filter(|a| matches!(a, Action::CloseTransport))
        .count()
}

#[test]
fn close_service_zero_disconnects_exactly_once() {
    let mut client = client_with_key(b"k");
    client.open_service(0);
    let acts = client.close_service(0);
    assert_eq!(acts.len(), 3);
    match &acts[0] {
        Action::SendFrame(f) => assert_eq!(f, &encode_close_frame(b"k", 0)),
        other => panic!("unexpected action: {:?}", action_name(other)),
    }
    assert!(matches!(acts[1], Action::NotifyDisconnect(9)));
    assert!(matches!(acts[2], Action::CloseTransport));
    assert_eq!(count_close_transport(&acts), 1);
    assert!(!client.is_open_zero);
}

#[test]
fn close_service_nonzero_does_not_disconnect() {
    let mut client = client_with_key(b"k");
    client.open_service(0);
    let acts = client.close_service(7);
    assert_eq!(acts.len(), 1);
    match &acts[0] {
        Action::SendFrame(f) => assert_eq!(f, &encode_close_frame(b"k", 7)),
        other => panic!("unexpected action: {:?}", action_name(other)),
    }
    assert_eq!(count_close_transport(&acts), 0);
    assert!(client.is_open_zero);
}

#[test]
fn disconnect_now_notifies_registry_before_teardown() {
    let mut client = client_with_key(b"");
    client.open_service(0);
    let acts = client.disconnect_now();
    assert!(!client.is_open_zero);
    assert_eq!(acts.len(), 2);
    assert!(matches!(acts[0], Action::NotifyDisconnect(9)));
    assert!(matches!(acts[1], Action::CloseTransport));
}

#[test]
fn kick_by_delay_clamps_out_of_range_delays() {
    let client = client_with_key(b"");
    for (given, expected) in [(40000, 5000), (-1, 5000), (0, 0), (30000, 30000)] {
        let acts = client.kick_by_delay(3, given);
        assert_eq!(acts.len(), 2);
        match &acts[0] {
            Action::SendFrame(f) => assert_eq!(f, &encode_close_frame(b"", 3)),
            other => panic!("unexpected action: {:?}", action_name(other)),
        }
        match acts[1] {
            Action::CloseTransportAfter(d) => assert_eq!(d, expected),
            ref other => panic!("unexpected action: {:?}", action_name(other)),
        }
    }
}

#[test]
fn input_buff_rejects_short_bodies() {
    let mut client = client_with_key(b"");
    let r = input_buff(&mut client, vec![1, 2, 3, 4], 2000);
    assert!(matches!(r, Err(ProtoError::FrameTooShort)));
    assert_eq!(client.last_recv_time, 1000);
}

#[test]
fn input_buff_echoes_gateway_sentinel_frames() {
    let key = b"xyz";
    let mut client = client_with_key(key);
    // ciphered body: target 0xFFFFFFFF, payload [1, 2, 3]
    let mut body = vec![0xFF, 0xFF, 0xFF, 0xFF, 1, 2, 3];
    encode(key, &mut body);
    let r = input_buff(&mut client, body, 2000).unwrap();
    match r {
        Action::SendFrame(f) => {
            assert_eq!(f, encode_data_frame(key, 0xFFFF_FFFF, &[1, 2, 3]));
        }
        other => panic!("unexpected action: {:?}", action_name(&other)),
    }
    assert_eq!(client.last_recv_time, 2000);
}

#[test]
fn input_buff_forwards_service_frames_untouched() {
    let key = b"q";
    let mut client = client_with_key(key);
    let mut body = vec![5, 0, 0, 0, 0xDE, 0xAD];
    encode(key, &mut body);
    let r = input_buff(&mut client, body, 3000).unwrap();
    match r {
        Action::Forward(session_id, service_id, payload) => {
            assert_eq!(session_id, 9);
            assert_eq!(service_id, 5);
            assert_eq!(payload, vec![0xDE, 0xAD]);
        }
        other => panic!("unexpected action: {:?}", action_name(&other)),
    }
    assert_eq!(client.last_recv_time, 3000);
}

#[test]
fn length_guard_boundaries() {
    let mut session = Session::new(client_with_key(b""), false);
    session.on_open_service(0);
    assert_eq!(session.on_length(4), ReadDecision::Close);
    assert_eq!(session.on_length(5), ReadDecision::ReadBody);
    assert_eq!(session.on_length(524287), ReadDecision::ReadBody);
    assert_eq!(session.on_length(524288), ReadDecision::Close);
    assert_eq!(session.on_length(0), ReadDecision::Close);
}

#[test]
fn data_before_open_zero_closes_connection() {
    let session = Session::new(client_with_key(b""), false);
    // an in-bounds length is rejected while service 0 is not yet open
    assert_eq!(session.on_length(100), ReadDecision::Close);
}

#[test]
fn handshake_timeout_never_reaches_active() {
    let mut session = Session::new(client_with_key(b""), true);
    assert_eq!(session.phase, Phase::Handshaking);
    let acts = session.on_handshake_timeout();
    assert_eq!(session.phase, Phase::Closed);
    assert!(matches!(acts[0], Action::NotifyDisconnect(9)));
    assert!(matches!(acts[1], Action::CloseTransport));
    // later registry callbacks do not revive the session
    let late = session.on_open_service(0);
    assert_eq!(session.phase, Phase::Closed);
    assert!(late.is_empty());
    assert!(!session.client.is_open_zero);
}

#[test]
fn second_handshake_key_is_an_error() {
    let mut session = Session::new(client_with_key(b""), true);
    assert_eq!(session.on_handshake_key(b"ab".to_vec()), Ok(()));
    assert_eq!(session.phase, Phase::AwaitingOpen);
    assert_eq!(
        session.on_handshake_key(b"cd".to_vec()),
        Err(ProtoError::UnexpectedHandshake)
    );
    assert_eq!(session.client.secret_key, Some(b"ab".to_vec()));
}

#[test]
fn scenario_handshake_then_early_data_then_open() {
    // client sends handshake key "ab", then a data frame for service 0
    // before open_service(0) has been called back: the connection closes.
    let mut session = Session::new(client_with_key(b"static"), true);
    session.on_handshake_key(b"ab".to_vec()).unwrap();
    let mut body = vec![0, 0, 0, 0, 0x42];
    encode(b"ab", &mut body);
    assert_eq!(session.on_length(body.len() as u32), ReadDecision::Close);

    // after open_service(0) the same frame is accepted and forwarded
    let mut session = Session::new(client_with_key(b"static"), true);
    session.on_handshake_key(b"ab".to_vec()).unwrap();
    session.on_open_service(0);
    assert_eq!(session.on_length(body.len() as u32), ReadDecision::ReadBody);
    let r = input_buff(&mut session.client, body, 4000).unwrap();
    match r {
        Action::Forward(session_id, service_id, payload) => {
            assert_eq!(session_id, 9);
            assert_eq!(service_id, 0);
            assert_eq!(payload, vec![0x42]);
        }
        other => panic!("unexpected action: {:?}", action_name(&other)),
    }
}

#[test]
fn closed_session_ignores_repeated_close() {
    let mut session = Session::new(client_with_key(b""), false);
    session.on_open_service(0);
    let first = session.on_close_service(0);
    assert_eq!(count_close_transport(&first), 1);
    assert_eq!(session.phase, Phase::Closed);
    // the registry retrying the close causes no second teardown
    let second = session.on_close_service(0);
    assert!(second.is_empty());
    let kick = session.on_kick_by_delay(0, 100);
    assert!(kick.is_empty());
}

#[test]
fn handshake_key_overrides_static_key() {
    let mut session = Session::new(client_with_key(b"static"), true);
    session.on_handshake_key(b"ab".to_vec()).unwrap();
    let acts = session.on_open_service(0);
    match &acts[0] {
        Action::SendFrame(f) => assert_eq!(f, &encode_open_frame(b"ab", 0)),
        other => panic!("unexpected action: {:?}", action_name(other)),
    }
}
