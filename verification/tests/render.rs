use warning_window::codec::{Packet, PacketType};
use warning_window::render::{alert_border_cells, border_blank_cells, format_log_item,
    format_timestamp, get_rand_char, plan_frame, wrap_text, RenderState, Rgb, WarnStateAsciiArt};
use warning_window::state::{InputEvent, LogItem, NameTable, PeerAddr, State, WarnStates};

fn peer() -> PeerAddr {
    PeerAddr { ip: 0x7F000001, port: 44444 }
}

fn packet_item(kind: PacketType, text: Option<&str>) -> LogItem {
    LogItem::PacketLogItem {
        timestamp: 45240,
        peer_addr: peer(),
        packet: Packet { packet_type: kind, text: text.map(|t| t.to_string()) },
    }
}

#[test]
fn render_state_starts_clean() {
    let rs = RenderState::new();
    assert!(!rs.focused_mode_changed);
    assert!(!rs.warn_state_changed);
    assert!(!rs.packet_log_changed);
    assert!(!rs.clear_background);
}

#[test]
fn rerender_all_marks_everything() {
    let rs = RenderState::rerender_all();
    assert!(rs.focused_mode_changed);
    assert!(rs.warn_state_changed);
    assert!(rs.packet_log_changed);
    assert!(rs.clear_background);
}

#[test]
fn rand_char_palette() {
    let expected = ['#', '&', '+', '=', '*', '-'];
    for (i, c) in expected.iter().enumerate() {
        assert_eq!(get_rand_char(i), *c);
    }
    assert_eq!(get_rand_char(6), ' ');
    assert_eq!(get_rand_char(1000), ' ');
}

#[test]
fn border_is_deterministic() {
    let a = alert_border_cells(36041, 80, 24);
    let b = alert_border_cells(36041, 80, 24);
    assert_eq!(a, b);
    let c = alert_border_cells(36042, 80, 24);
    assert_ne!(a, c);
}

#[test]
fn border_row_exact_glyphs() {
    let cells = alert_border_cells(100, 20, 1);
    let expected = [
        (1u16, 0u16, '&'),
        (2, 0, '+'),
        (3, 0, '*'),
        (18, 0, '&'),
        (17, 0, '+'),
        (16, 0, '*'),
    ];
    assert_eq!(cells.len(), expected.len());
    for (cell, (x, y, ch)) in cells.iter().zip(expected.iter()) {
        assert_eq!((cell.x, cell.y, cell.ch), (*x, *y, *ch));
    }
}

#[test]
fn border_blank_covers_eight_columns_per_row() {
    let cells = border_blank_cells(20, 2);
    assert_eq!(cells.len(), 16);
    let xs: Vec<u16> = cells.iter().take(8).map(|c| c.x).collect();
    assert_eq!(xs, vec![0, 1, 2, 3, 16, 17, 18, 19]);
    assert!(cells.iter().all(|c| c.ch == ' '));
    assert!(cells[8..].iter().all(|c| c.y == 1));
}

#[test]
fn default_art_dimensions() {
    let art = WarnStateAsciiArt::new();
    assert_eq!(art.width(&WarnStates::Idle), 7);
    assert_eq!(art.height(&WarnStates::Idle), 3);
    assert_eq!(art.width(&WarnStates::Warn), 7);
    assert_eq!(art.height(&WarnStates::Warn), 5);
    assert_eq!(art.width(&WarnStates::Alert), 7);
    assert_eq!(art.height(&WarnStates::Alert), 4);
    assert_eq!(art.max_width(), 7);
    assert_eq!(art.max_height(), 5);
}

#[test]
fn build_falls_back_to_defaults_on_empty() {
    let art = WarnStateAsciiArt::build("##\n##\n".to_string(), String::new(), String::new());
    assert_eq!(art.to_ascii_art(&WarnStates::Idle), "##\n##\n");
    assert_eq!(art.width(&WarnStates::Idle), 2);
    assert_eq!(art.height(&WarnStates::Idle), 2);
    assert_eq!(art.to_ascii_art(&WarnStates::Warn), WarnStateAsciiArt::default_warn_art());
    assert_eq!(art.to_ascii_art(&WarnStates::Alert), WarnStateAsciiArt::default_alert_art());
}

#[test]
fn severity_colors() {
    let art = WarnStateAsciiArt::new();
    assert_eq!(art.color(&WarnStates::Idle), Rgb { r: 24, g: 24, b: 24 });
    assert_eq!(art.color(&WarnStates::Warn), Rgb { r: 244, g: 131, b: 37 });
    assert_eq!(art.color(&WarnStates::Alert), Rgb { r: 179, g: 0, b: 0 });
}

#[test]
fn wrap_cuts_at_width() {
    let rows = wrap_text("abcdef", 2);
    assert_eq!(rows, vec!["ab", "cd", "ef"]);
    let rows = wrap_text("abcde", 2);
    assert_eq!(rows, vec!["ab", "cd", "e"]);
    let rows = wrap_text("", 4);
    assert!(rows.is_empty());
    let rows = wrap_text("ab", 8);
    assert_eq!(rows, vec!["ab"]);
}

#[test]
fn timestamp_prefix_is_zero_padded() {
    assert_eq!(format_timestamp(13 * 3600 + 5 * 60), "[13:05] ");
    assert_eq!(format_timestamp(0), "[00:00] ");
    // a day later, the clock reads the same
    assert_eq!(format_timestamp(86400 + 13 * 3600 + 5 * 60), "[13:05] ");
}

#[test]
fn history_line_formats() {
    let names = NameTable::new();
    let connect = LogItem::ConnectLogItem { timestamp: 45240, peer_addr: peer() };
    assert_eq!(
        format_log_item(&connect, &names),
        "[12:34] 127.0.0.1:44444 has successfully associated."
    );
    let disconnect = LogItem::DisconnectLogItem { timestamp: 45240, peer_addr: peer() };
    assert_eq!(format_log_item(&disconnect, &names), "[12:34] 127.0.0.1:44444 has disconnected.");
    let warn = packet_item(PacketType::Warn, Some("disk 90%"));
    assert_eq!(format_log_item(&warn, &names), "[12:34] WARN | 127.0.0.1:44444 | disk 90%");
    let alert = packet_item(PacketType::Alert, None);
    assert_eq!(format_log_item(&alert, &names), "[12:34] ALERT | 127.0.0.1:44444 | ");
}

#[test]
fn history_line_uses_table_name_except_for_name_packets() {
    let mut names = NameTable::new();
    names.insert(peer(), "alice".to_string());
    let warn = packet_item(PacketType::Warn, Some("disk 90%"));
    assert_eq!(format_log_item(&warn, &names), "[12:34] WARN | alice | disk 90%");
    let name = packet_item(PacketType::Name, Some("alice"));
    assert_eq!(format_log_item(&name, &names), "[12:34] NAME | 127.0.0.1:44444 | alice");
}

#[test]
fn too_small_surface_fails_and_keeps_flags() {
    let st = State::new(WarnStateAsciiArt::new());
    let mut rs = RenderState::rerender_all();
    let r = plan_frame(&st, &mut rs, 10, 10, 1);
    assert!(r.is_err());
    assert!(rs.clear_background && rs.packet_log_changed);
}

#[test]
fn end_to_end_scenario() {
    let mut st = State::new(WarnStateAsciiArt::new());
    let mut rs = RenderState::rerender_all();

    // the first client warns about its disk
    st.apply_log_item(&mut rs, packet_item(PacketType::Warn, Some("disk 90%")));
    assert_eq!(st.warn_state, WarnStates::Warn);
    let plan = plan_frame(&st, &mut rs, 80, 30, 36041).expect("surface is large enough");
    assert_eq!(plan.bg_color, Rgb { r: 244, g: 131, b: 37 });
    assert!(plan.border.is_none());
    let pane = plan.history.expect("history was dirty");
    let rows: Vec<&str> = pane.rows.iter().map(String::as_str).collect();
    assert_eq!(rows[0], "[12:34] WARN | 127.0.0.1:44444 | disk 90%");
    assert!(!rs.packet_log_changed && !rs.warn_state_changed);

    // a second client escalates without text
    let second = LogItem::PacketLogItem {
        timestamp: 45300,
        peer_addr: PeerAddr { ip: 0x7F000001, port: 44445 },
        packet: Packet { packet_type: PacketType::Alert, text: None },
    };
    st.apply_log_item(&mut rs, second);
    assert_eq!(st.warn_state, WarnStates::Alert);
    let plan = plan_frame(&st, &mut rs, 80, 30, 36042).expect("surface is large enough");
    assert_eq!(plan.bg_color, Rgb { r: 179, g: 0, b: 0 });
    let border = plan.border.expect("the alert border animates");
    assert!(!border.is_empty());
    let pane = plan.history.expect("history was dirty");
    assert_eq!(pane.rows[0], "[12:35] ALERT | 127.0.0.1:44445 | ");
    assert_eq!(pane.rows[1], "[12:34] WARN | 127.0.0.1:44444 | disk 90%");

    // the operator resets: idle again, border blanked, history retained
    st.handle_input(&mut rs, InputEvent::Key { ch: 'r', ctrl: false });
    assert_eq!(st.warn_state, WarnStates::Idle);
    let plan = plan_frame(&st, &mut rs, 80, 30, 36043).expect("surface is large enough");
    assert_eq!(plan.bg_color, Rgb { r: 24, g: 24, b: 24 });
    assert!(plan.border.is_none());
    assert!(plan.border_blank.is_some());
    assert_eq!(st.packet_log.len(), 2);
}

#[test]
fn long_packet_text_wraps_in_the_pane() {
    let mut st = State::new(WarnStateAsciiArt::new());
    let mut rs = RenderState::rerender_all();
    let long: String = std::iter::repeat('m').take(100).collect();
    st.apply_log_item(&mut rs, packet_item(PacketType::Info, Some(&long)));
    let plan = plan_frame(&st, &mut rs, 40, 30, 1).expect("surface is large enough");
    let pane = plan.history.expect("history was dirty");
    assert_eq!(pane.wrap_width, 32);
    assert!(pane.rows.len() > 1);
    assert_eq!(pane.rows[0].chars().count(), 32);
}
