use warning_window::codec::PacketType;
use warning_window::conn::{association_accept, association_request, conn_step,
    is_association_accept, is_association_request, ConnAction, ConnEvent, ConnState};

#[test]
fn handshake_magic_bytes() {
    assert_eq!(association_request(), [0, 0]);
    assert_eq!(association_accept(), [1, 1]);
}

#[test]
fn request_check_is_strict() {
    assert!(is_association_request(2, &[0, 0]));
    assert!(!is_association_request(1, &[0, 0]));
    assert!(!is_association_request(2, &[1, 0]));
    assert!(!is_association_request(2, &[0, 1]));
    assert!(!is_association_request(2, &[1, 1]));
}

#[test]
fn accept_check_is_strict() {
    assert!(is_association_accept(2, &[1, 1]));
    assert!(!is_association_accept(1, &[1, 1]));
    assert!(!is_association_accept(2, &[1, 0]));
    assert!(!is_association_accept(2, &[0, 1]));
}

#[test]
fn handshake_success_reaches_associated() {
    let s0 = ConnState::Handshaking { request_seen: false };
    let (s1, a1) = conn_step(s0, ConnEvent::HelloRead { n_read: 2, bytes: [0, 0] });
    assert_eq!(s1, ConnState::Handshaking { request_seen: true });
    assert!(matches!(a1, ConnAction::SendAccept));
    let (s2, a2) = conn_step(s1, ConnEvent::AcceptWritten { n_written: 2 });
    assert_eq!(s2, ConnState::Associated);
    assert!(matches!(a2, ConnAction::EmitConnect));
}

#[test]
fn silent_handshake_times_out_without_connect() {
    let s0 = ConnState::Handshaking { request_seen: false };
    let (s1, a1) = conn_step(s0, ConnEvent::ReadFailed);
    assert_eq!(s1, ConnState::Closed);
    assert!(matches!(a1, ConnAction::DropSilently));
}

#[test]
fn wrong_magic_is_dropped_silently() {
    let s0 = ConnState::Handshaking { request_seen: false };
    let (s1, a1) = conn_step(s0, ConnEvent::HelloRead { n_read: 2, bytes: [1, 0] });
    assert_eq!(s1, ConnState::Closed);
    assert!(matches!(a1, ConnAction::DropSilently));
}

#[test]
fn one_byte_hello_is_dropped_silently() {
    let s0 = ConnState::Handshaking { request_seen: false };
    let (s1, a1) = conn_step(s0, ConnEvent::HelloRead { n_read: 1, bytes: [0, 0] });
    assert_eq!(s1, ConnState::Closed);
    assert!(matches!(a1, ConnAction::DropSilently));
}

#[test]
fn short_accept_write_drops_the_connection() {
    let s = ConnState::Handshaking { request_seen: true };
    let (s1, a1) = conn_step(s, ConnEvent::AcceptWritten { n_written: 1 });
    assert_eq!(s1, ConnState::Closed);
    assert!(matches!(a1, ConnAction::DropSilently));
}

#[test]
fn good_frame_emits_packet_and_stays_associated() {
    let (s1, a1) = conn_step(
        ConnState::Associated,
        ConnEvent::FrameRead { len_byte: 9, body: b"\x03disk 90%".to_vec() },
    );
    assert_eq!(s1, ConnState::Associated);
    match a1 {
        ConnAction::EmitPacket(p) => {
            assert!(matches!(p.packet_type, PacketType::Warn));
            assert_eq!(p.text.as_deref(), Some("disk 90%"));
        },
        _ => panic!("expected a packet"),
    }
}

#[test]
fn malformed_frame_disconnects_without_packet() {
    // a zero length byte, an unknown kind, and a required-text violation
    for (len_byte, body) in [(0u8, vec![]), (2, vec![9u8, b'x']), (1, vec![2u8])] {
        let (s1, a1) = conn_step(ConnState::Associated, ConnEvent::FrameRead { len_byte, body });
        assert_eq!(s1, ConnState::Closed);
        assert!(matches!(a1, ConnAction::EmitDisconnect));
    }
}

#[test]
fn peer_close_and_transport_errors_disconnect() {
    for ev in [ConnEvent::PeerClosed, ConnEvent::ReadFailed, ConnEvent::WriteFailed] {
        let (s1, a1) = conn_step(ConnState::Associated, ev);
        assert_eq!(s1, ConnState::Closed);
        assert!(matches!(a1, ConnAction::EmitDisconnect));
    }
}

#[test]
fn closed_connection_stays_closed() {
    let (s1, a1) = conn_step(ConnState::Closed, ConnEvent::PeerClosed);
    assert_eq!(s1, ConnState::Closed);
    assert!(matches!(a1, ConnAction::DropSilently));
}
