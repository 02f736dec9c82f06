use sayall::rc003_bridge::bridge_file_body;
use sayall::rc003_helper::take_lines;
use sayall::raw_input::{ButtonEdge, RemoteButton};
use sayall::rc003_bridge::{
    close_connection, parse_bridge_line, parse_descriptor, token_from_seed, token_matches,
    BridgeConnection, BridgeLine, BridgePhase, BridgeState, LineAction,
};

#[test]
fn parses_hello_and_rejects_malformed() {
    assert_eq!(
        parse_bridge_line("HELLO 1 abc123 4242").unwrap(),
        Some(BridgeLine::Hello {
            version: 1,
            token: "abc123".to_string(),
            helper_pid: 4242
        })
    );
    assert!(parse_bridge_line("HELLO 1 abc123").is_err());
    assert!(parse_bridge_line("HELLO x abc123 1").is_err());
    assert!(parse_bridge_line("HELLO 1  4242").is_err());
    assert!(parse_bridge_line("WHAT 1 2 3").is_err());
}

#[test]
fn parses_edges_in_hex_and_empty_means_release() {
    assert_eq!(
        parse_bridge_line("E 1758622200123 f1,80").unwrap(),
        Some(BridgeLine::Edges {
            usages: vec![0x00F1, 0x0080]
        })
    );
    assert_eq!(
        parse_bridge_line("E 1 0x00F1,0X81").unwrap(),
        Some(BridgeLine::Edges {
            usages: vec![0x00F1, 0x0081]
        })
    );
    assert_eq!(
        parse_bridge_line("E 1 -").unwrap(),
        Some(BridgeLine::Edges { usages: Vec::new() })
    );
    assert_eq!(
        parse_bridge_line("E 1").unwrap(),
        Some(BridgeLine::Edges { usages: Vec::new() })
    );
    assert!(parse_bridge_line("E 1 zz").is_err());
    assert!(parse_bridge_line("E notanumber f1").is_err());
    assert_eq!(parse_bridge_line("\r\n").unwrap(), None);
    assert_eq!(parse_bridge_line("P 1\r").unwrap(), Some(BridgeLine::Ping));
}

#[test]
fn token_comparison_is_exact() {
    assert!(token_matches("abcd", "abcd"));
    assert!(!token_matches("abcd", "abce"));
    assert!(!token_matches("abcd", "abc"));
    assert!(!token_matches("", ""));
    assert!(!token_matches("abcd", ""));
}

#[test]
fn descriptor_round_trip() {
    let text = "version=1\nport=53124\ntoken=deadbeefcafe\npid=999\n";
    assert_eq!(
        parse_descriptor(text),
        Some((53124, "deadbeefcafe".to_string(), 1))
    );
    assert_eq!(parse_descriptor("version=2\nport=1\ntoken=x\n"), None);
    assert_eq!(parse_descriptor("port=1\ntoken=x\n"), None);
    assert_eq!(parse_descriptor("version=1\nport=1\n"), None);
    assert_eq!(parse_descriptor("version=1\nport=1\ntoken=\n"), None);
}

#[test]
fn whitelist_blocks_non_target_usages() {
    let mut shared = BridgeState::new();
    let wanted: Vec<u16> = vec![0x00F1, 0x004A, 0x1234];
    let edges = shared.apply_usages(&wanted);
    assert_eq!(
        edges,
        vec![ButtonEdge {
            button: RemoteButton::Back,
            is_pressed: true
        }],
        "只有 0x00F1 该通过；0x4A 与 0x1234 必须被丢弃"
    );
    assert_eq!(shared.usages_dropped, 2);
    assert_eq!(shared.pressed_usages(), vec![0x00F1]);
}

#[test]
fn diff_emits_press_then_release() {
    let mut shared = BridgeState::new();
    let press = shared.apply_usages(&[0x0080]);
    assert_eq!(
        press,
        vec![ButtonEdge {
            button: RemoteButton::VolumeUp,
            is_pressed: true
        }]
    );
    assert!(shared.apply_usages(&[0x0080]).is_empty());
    let release = shared.apply_usages(&[]);
    assert_eq!(
        release,
        vec![ButtonEdge {
            button: RemoteButton::VolumeUp,
            is_pressed: false
        }]
    );
    assert!(shared.pressed_usages().is_empty());
}

#[test]
fn parse_errors_and_bye_reasons() {
    assert_eq!(
        parse_bridge_line("E 1 zz"),
        Err("\"zz\" 不是十六进制 usage".to_owned())
    );
    assert_eq!(parse_bridge_line("WHAT 1"), Err("未知命令 \"WHAT\"".to_owned()));
    assert_eq!(parse_bridge_line("HELLO 1 abc"), Err("HELLO 缺少进程号".to_owned()));
    assert_eq!(
        parse_bridge_line("BYE stop  now").unwrap(),
        Some(BridgeLine::Bye { reason: "stop  now".to_owned() })
    );
    assert_eq!(
        parse_bridge_line("E 5 f1,f1,,80").unwrap(),
        Some(BridgeLine::Edges { usages: vec![0x00F1, 0x0080] })
    );
    assert_eq!(
        parse_descriptor("version=1\nport=2\ntoken=a\nport=x\n"),
        None
    );
}

#[test]
fn connection_authenticates_denies_and_releases_on_close() {
    let mut state = BridgeState::new();
    state.phase = BridgePhase::Listening;
    let mut conn = BridgeConnection::new(0);
    assert_eq!(
        conn.on_line(&mut state, "E 1 f1", 10, "tok"),
        LineAction::Close("hello_required")
    );
    let mut conn = BridgeConnection::new(0);
    assert_eq!(
        conn.on_line(&mut state, "HELLO 1 bad 7", 10, "tok"),
        LineAction::Reply("DENY token_mismatch".to_owned())
    );
    assert_eq!(
        conn.on_line(&mut state, "HELLO 2 tok 7", 20, "tok"),
        LineAction::Reply("DENY version_mismatch".to_owned())
    );
    assert_eq!(
        conn.on_line(&mut state, "HELLO 1 tok 7", 30, "tok"),
        LineAction::Reply("OK 1".to_owned())
    );
    assert_eq!(state.phase, BridgePhase::Connected);
    assert_eq!(state.helper_pid, 7);
    assert_eq!(state.denied_total, 2);
    assert_eq!(
        conn.on_line(&mut state, "E 2 f1,80", 40, "tok"),
        LineAction::Deliver(vec![
            ButtonEdge { button: RemoteButton::VolumeUp, is_pressed: true },
            ButtonEdge { button: RemoteButton::Back, is_pressed: true },
        ])
    );
    assert_eq!(conn.on_line(&mut state, "garbage", 50, "tok"), LineAction::Continue);
    assert_eq!(state.malformed_total, 1);
    assert_eq!(conn.check_limits(0, 3_040), None);
    assert_eq!(conn.check_limits(0, 3_051), Some("silence_timeout"));
    assert_eq!(conn.check_limits(5_000, 60), Some("line_too_long"));
    let released = close_connection(&mut state, "silence_timeout");
    assert_eq!(released.len(), 2);
    assert!(released.iter().all(|e| !e.is_pressed));
    assert_eq!(state.watchdog_release_total, 1);
    assert_eq!(state.phase, BridgePhase::Listening);
    assert!(close_connection(&mut state, "replaced").is_empty());
}

#[test]
fn third_denial_closes_the_connection() {
    let mut state = BridgeState::new();
    let mut conn = BridgeConnection::new(0);
    conn.on_line(&mut state, "HELLO 1 a 1", 1, "b");
    conn.on_line(&mut state, "HELLO 1 a 1", 2, "b");
    assert_eq!(
        conn.on_line(&mut state, "HELLO 1 a 1", 3, "b"),
        LineAction::ReplyAndClose("DENY token_mismatch".to_owned(), "deny_limit")
    );
    assert_eq!(conn.check_limits(0, 5_000), None);
    assert_eq!(conn.check_limits(0, 5_001), Some("hello_timeout"));
}

#[test]
fn tokens_from_seeds_are_32_hex_digits() {
    let a = token_from_seed(42);
    let b = token_from_seed(43);
    assert_eq!(a.len(), 32);
    assert!(a.chars().all(|c| c.is_ascii_hexdigit() && !c.is_ascii_uppercase()));
    assert_ne!(a, b);
    assert_eq!(token_from_seed(0).len(), 32);
}

#[test]
fn the_written_descriptor_reads_back() {
    let body = bridge_file_body(53124, "deadbeefcafe", 999);
    assert_eq!(body, "version=1\nport=53124\ntoken=deadbeefcafe\npid=999\n");
    assert_eq!(
        parse_descriptor(&body),
        Some((53124, "deadbeefcafe".to_string(), 1))
    );
    let edge = bridge_file_body(0, "x", u32::MAX);
    assert_eq!(parse_descriptor(&edge), Some((0, "x".to_string(), 1)));
}

#[test]
fn received_bytes_are_framed_decoded_and_handled_line_by_line() {
    let mut state = BridgeState::new();
    state.phase = BridgePhase::Listening;
    let mut conn = BridgeConnection::new(0);
    let mut pending: Vec<u8> = b"HELLO 1 tok 7\nE 2 f1\n\xff\xfe\nE 3 ".to_vec();
    let lines = take_lines(&mut pending);
    assert_eq!(lines.len(), 3);
    assert_eq!(pending, b"E 3 ".to_vec(), "the unterminated rest stays pending");
    assert_eq!(
        conn.on_line_bytes(&mut state, &lines[0], 10, "tok"),
        LineAction::Reply("OK 1".to_owned())
    );
    assert_eq!(
        conn.on_line_bytes(&mut state, &lines[1], 20, "tok"),
        LineAction::Deliver(vec![ButtonEdge { button: RemoteButton::Back, is_pressed: true }])
    );
    assert_eq!(conn.on_line_bytes(&mut state, &lines[2], 30, "tok"), LineAction::Continue);
    assert_eq!(state.malformed_total, 1, "undecodable bytes make a malformed line");
    pending.extend_from_slice(b"80\n");
    let lines = take_lines(&mut pending);
    assert_eq!(lines, vec![b"E 3 80".to_vec()]);
    assert!(pending.is_empty());
    assert_eq!(
        conn.on_line_bytes(&mut state, &lines[0], 40, "tok"),
        LineAction::Deliver(vec![
            ButtonEdge { button: RemoteButton::Back, is_pressed: false },
            ButtonEdge { button: RemoteButton::VolumeUp, is_pressed: true },
        ])
    );
}
