use warning_window::codec::{Packet, PacketType};
use warning_window::render::{RenderState, WarnStateAsciiArt};
use warning_window::state::{InputEvent, LogItem, PeerAddr, State, WarnStates, HISTORY_CAP};

fn peer(n: u16) -> PeerAddr {
    PeerAddr { ip: 0x7F000001, port: 40000 + n }
}

fn packet_item(p: PeerAddr, kind: PacketType, text: Option<&str>) -> LogItem {
    LogItem::PacketLogItem {
        timestamp: 45240,
        peer_addr: p,
        packet: Packet { packet_type: kind, text: text.map(|t| t.to_string()) },
    }
}

fn fresh() -> (State, RenderState) {
    (State::new(WarnStateAsciiArt::new()), RenderState::new())
}

#[test]
fn peer_text_is_dotted_quad_and_port() {
    let p = PeerAddr { ip: 0x7F000001, port: 44444 };
    assert_eq!(p.to_text(), "127.0.0.1:44444");
    let q = PeerAddr { ip: 0xC0A80A02, port: 9 };
    assert_eq!(q.to_text(), "192.168.10.2:9");
}

#[test]
fn warn_state_labels() {
    assert_eq!(WarnStates::Idle.to_string(), "NONE");
    assert_eq!(WarnStates::Warn.to_string(), "WARN");
    assert_eq!(WarnStates::Alert.to_string(), "ALERT");
}

#[test]
fn log_item_timestamp() {
    let item = packet_item(peer(1), PacketType::Info, Some("x"));
    assert_eq!(item.timestamp(), 45240);
    let c = LogItem::ConnectLogItem { timestamp: 7, peer_addr: peer(1) };
    assert_eq!(c.timestamp(), 7);
}

#[test]
fn warn_escalates_idle_but_not_alert() {
    let (mut st, mut rs) = fresh();
    st.apply_log_item(&mut rs, packet_item(peer(1), PacketType::Warn, None));
    assert_eq!(st.warn_state, WarnStates::Warn);
    assert!(rs.warn_state_changed);
    st.apply_log_item(&mut rs, packet_item(peer(1), PacketType::Alert, None));
    assert_eq!(st.warn_state, WarnStates::Alert);
    st.apply_log_item(&mut rs, packet_item(peer(1), PacketType::Warn, None));
    assert_eq!(st.warn_state, WarnStates::Alert);
}

#[test]
fn info_and_connect_do_not_escalate() {
    let (mut st, mut rs) = fresh();
    st.apply_log_item(&mut rs, LogItem::ConnectLogItem { timestamp: 1, peer_addr: peer(1) });
    st.apply_log_item(&mut rs, packet_item(peer(1), PacketType::Info, Some("hello")));
    assert_eq!(st.warn_state, WarnStates::Idle);
    assert!(!rs.warn_state_changed);
    assert!(rs.packet_log_changed);
}

#[test]
fn reset_forces_idle_regardless_of_history() {
    let (mut st, mut rs) = fresh();
    st.apply_log_item(&mut rs, packet_item(peer(1), PacketType::Alert, None));
    assert_eq!(st.warn_state, WarnStates::Alert);
    st.handle_input(&mut rs, InputEvent::Key { ch: 'r', ctrl: false });
    assert_eq!(st.warn_state, WarnStates::Idle);
    assert!(rs.warn_state_changed);
}

#[test]
fn quit_keys_close_the_window() {
    for ev in [
        InputEvent::Key { ch: 'q', ctrl: false },
        InputEvent::Key { ch: 'c', ctrl: true },
        InputEvent::Esc,
    ] {
        let (mut st, mut rs) = fresh();
        st.handle_input(&mut rs, ev);
        assert!(st.window_should_close);
    }
    let (mut st, mut rs) = fresh();
    st.handle_input(&mut rs, InputEvent::Key { ch: 'c', ctrl: false });
    assert!(!st.window_should_close);
}

#[test]
fn focus_toggles_and_marks_dirty() {
    let (mut st, mut rs) = fresh();
    st.handle_input(&mut rs, InputEvent::Key { ch: 'f', ctrl: false });
    assert!(st.is_focused_mode);
    assert!(rs.focused_mode_changed);
    st.handle_input(&mut rs, InputEvent::Key { ch: 'f', ctrl: false });
    assert!(!st.is_focused_mode);
}

#[test]
fn resize_marks_everything_dirty() {
    let (mut st, mut rs) = fresh();
    st.handle_input(&mut rs, InputEvent::Resize);
    assert!(rs.focused_mode_changed);
    assert!(rs.warn_state_changed);
    assert!(rs.packet_log_changed);
    assert!(rs.clear_background);
}

#[test]
fn name_packet_names_the_peer() {
    let (mut st, mut rs) = fresh();
    st.apply_log_item(&mut rs, packet_item(peer(1), PacketType::Name, Some("alice")));
    assert_eq!(st.peer_names.get(peer(1)).map(String::as_str), Some("alice"));
}

#[test]
fn name_rules_reject_empty_and_overlong() {
    let (mut st, mut rs) = fresh();
    st.apply_log_item(&mut rs, packet_item(peer(1), PacketType::Name, None));
    assert!(st.peer_names.get(peer(1)).is_none());
    let overlong: String = std::iter::repeat('n').take(25).collect();
    st.apply_log_item(&mut rs, packet_item(peer(1), PacketType::Name, Some(&overlong)));
    assert!(st.peer_names.get(peer(1)).is_none());
    let longest: String = std::iter::repeat('n').take(24).collect();
    st.apply_log_item(&mut rs, packet_item(peer(1), PacketType::Name, Some(&longest)));
    assert_eq!(st.peer_names.get(peer(1)).map(String::as_str), Some(longest.as_str()));
}

#[test]
fn second_name_packet_overwrites_the_first() {
    let (mut st, mut rs) = fresh();
    st.apply_log_item(&mut rs, packet_item(peer(1), PacketType::Name, Some("alice")));
    st.apply_log_item(&mut rs, packet_item(peer(1), PacketType::Name, Some("bob")));
    assert_eq!(st.peer_names.get(peer(1)).map(String::as_str), Some("bob"));
}

#[test]
fn name_does_not_outlive_the_connection() {
    let (mut st, mut rs) = fresh();
    st.apply_log_item(&mut rs, packet_item(peer(1), PacketType::Name, Some("alice")));
    assert!(st.peer_names.get(peer(1)).is_some());
    st.apply_log_item(&mut rs, LogItem::DisconnectLogItem { timestamp: 2, peer_addr: peer(1) });
    assert!(st.peer_names.get(peer(1)).is_none());
}

#[test]
fn names_are_per_peer() {
    let (mut st, mut rs) = fresh();
    st.apply_log_item(&mut rs, packet_item(peer(1), PacketType::Name, Some("alice")));
    st.apply_log_item(&mut rs, packet_item(peer(2), PacketType::Name, Some("bob")));
    st.apply_log_item(&mut rs, LogItem::DisconnectLogItem { timestamp: 2, peer_addr: peer(2) });
    assert_eq!(st.peer_names.get(peer(1)).map(String::as_str), Some("alice"));
    assert!(st.peer_names.get(peer(2)).is_none());
}

#[test]
fn history_is_newest_first() {
    let (mut st, mut rs) = fresh();
    st.apply_log_item(&mut rs, packet_item(peer(1), PacketType::Info, Some("first")));
    st.apply_log_item(&mut rs, packet_item(peer(1), PacketType::Info, Some("second")));
    assert_eq!(st.packet_log.len(), 2);
    match &st.packet_log[0] {
        LogItem::PacketLogItem { packet, .. } => {
            assert_eq!(packet.text.as_deref(), Some("second"));
        },
        _ => panic!("expected a packet item"),
    }
}

#[test]
fn history_is_capped() {
    let (mut st, mut rs) = fresh();
    for i in 0..(HISTORY_CAP + 5) {
        st.apply_log_item(
            &mut rs,
            LogItem::ConnectLogItem { timestamp: i as u64, peer_addr: peer(1) },
        );
    }
    assert_eq!(st.packet_log.len(), HISTORY_CAP);
    // the newest item survived, the oldest five fell off
    assert_eq!(st.packet_log[0].timestamp(), (HISTORY_CAP + 4) as u64);
}
