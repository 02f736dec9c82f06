use sayall::button_mapping::EngineMessage;
use sayall::raw_input::{RawInputPhase, RawInputSnapshot, RemoteButton, RemoteHidProfile};
use sayall::raw_input_listener::{
    listener_exited, matching_device_paths, decode_profile, encode_profile, parse_keyboard_record, voice_f5_wake_edge, AuditOutcome,
    ListenerContext, PacketKind, AWAITING_DEVICE_MESSAGE,
};

const XIAOMI: &str = r"\\?\HID#VID_2717&PID_32B8#one";
const GOOGLE: &str = r"\\?\HID#VID_18D1&PID_9450#b";

fn keyboard_body(virtual_key: u16, message: u32) -> Vec<u8> {
    let mut body = vec![0u8; 16];
    body[6..8].copy_from_slice(&virtual_key.to_le_bytes());
    body[8..12].copy_from_slice(&message.to_le_bytes());
    body
}

fn hid_body(reports: &[&[u8]]) -> Vec<u8> {
    let size = reports[0].len() as u32;
    let mut body = Vec::new();
    body.extend_from_slice(&size.to_le_bytes());
    body.extend_from_slice(&(reports.len() as u32).to_le_bytes());
    for report in reports {
        body.extend_from_slice(report);
    }
    body
}

fn bound(profile: Option<RemoteHidProfile>, path: &str) -> (ListenerContext, RawInputSnapshot) {
    let mut context = ListenerContext::new(profile);
    let mut snapshot = RawInputSnapshot::default();
    assert!(context.apply_selection(&mut snapshot, &[path.to_owned()], profile));
    (context, snapshot)
}

#[test]
fn voice_f5_wakes_reconnect_once_per_physical_hold() {
    assert!(voice_f5_wake_edge(false, true));
    assert!(!voice_f5_wake_edge(true, true));
    assert!(!voice_f5_wake_edge(true, false));
    assert!(voice_f5_wake_edge(false, true));
}

#[test]
fn profile_codes_round_trip() {
    for profile in [None, Some(RemoteHidProfile::Xiaomi), Some(RemoteHidProfile::Google)] {
        assert_eq!(decode_profile(encode_profile(profile)), profile);
    }
    assert_eq!(encode_profile(Some(RemoteHidProfile::Google)), 2);
    assert_eq!(decode_profile(7), None);
}

#[test]
fn selection_binds_or_waits() {
    let (context, snapshot) = bound(None, XIAOMI);
    assert_eq!(context.profile, Some(RemoteHidProfile::Xiaomi));
    assert_eq!(context.selected_paths, vec![XIAOMI.to_lowercase()]);
    assert_eq!(snapshot.phase, RawInputPhase::Ready);
    assert_eq!(snapshot.matched_device_count, 1);

    let mut context = ListenerContext::new(None);
    let mut snapshot = RawInputSnapshot::default();
    assert!(!context.apply_selection(
        &mut snapshot,
        &[XIAOMI.to_owned(), GOOGLE.to_owned()],
        None
    ));
    assert_eq!(snapshot.phase, RawInputPhase::Awaiting);
    assert_eq!(
        snapshot.last_error.as_deref(),
        Some("检测到 2 个遥控器 HID 接口但当前型号未定；连接确定型号后会自动绑定。")
    );
}

#[test]
fn removing_the_last_interface_waits_for_the_remote() {
    let (mut context, mut snapshot) = bound(None, XIAOMI);
    assert!(!context.on_removal(&mut snapshot, r"\\?\HID#VID_1234&PID_0001#kbd"));
    assert!(context.on_removal(&mut snapshot, XIAOMI));
    assert!(context.selected_paths.is_empty());
    assert_eq!(context.profile, None);
    assert_eq!(snapshot.phase, RawInputPhase::Awaiting);
    assert!(context.arrival_wants_rebind(false));
    snapshot.raw_event_count = 9;
    assert!(context.on_arrival(&mut snapshot, &[XIAOMI.to_owned()], None));
    assert_eq!(snapshot.raw_event_count, 0);
}

#[test]
fn the_audit_keeps_rebinds_or_unbinds() {
    let (mut context, mut snapshot) = bound(None, XIAOMI);
    assert_eq!(
        context.audit_binding(&mut snapshot, Ok(vec![XIAOMI.to_owned()]), None),
        AuditOutcome::Unchanged
    );
    assert_eq!(
        context.audit_binding(&mut snapshot, Err("E_FAIL".to_owned()), None),
        AuditOutcome::ProbeFailed
    );
    assert_eq!(
        context.audit_binding(&mut snapshot, Ok(vec![XIAOMI.to_owned()]), None),
        AuditOutcome::Present
    );
    let other = r"\\?\HID#VID_2717&PID_32B8#two";
    assert_eq!(
        context.audit_binding(&mut snapshot, Ok(vec![other.to_owned(), XIAOMI.to_owned()]), None),
        AuditOutcome::Unchanged,
        "the old binding is still enumerated"
    );
    assert_eq!(
        context.audit_binding(&mut snapshot, Ok(vec![other.to_owned()]), None),
        AuditOutcome::Rebound
    );
    assert_eq!(context.selected_paths, vec![other.to_lowercase()]);
    assert_eq!(
        context.audit_binding(&mut snapshot, Ok(vec![]), None),
        AuditOutcome::Unbound
    );
    assert_eq!(snapshot.phase, RawInputPhase::Awaiting);
    assert_eq!(snapshot.last_error.as_deref(), Some(AWAITING_DEVICE_MESSAGE));
    assert_eq!(
        context.audit_binding(&mut snapshot, Ok(vec![]), None),
        AuditOutcome::Unchanged
    );
}

#[test]
fn packets_of_other_interfaces_are_only_counted_as_stale() {
    let (mut context, mut snapshot) = bound(None, XIAOMI);
    let outcome = context.on_packet(
        &mut snapshot,
        r"\\?\HID#VID_2717&PID_32B8#two",
        PacketKind::Keyboard,
        &keyboard_body(0x26, 0x0100),
    );
    assert!(outcome.messages.is_empty());
    assert_eq!(snapshot.stale_remote_event_count, 1);
    assert_eq!(snapshot.raw_event_count, 0);
    context.on_packet(
        &mut snapshot,
        r"\\?\HID#VID_1234&PID_0001#kbd",
        PacketKind::Keyboard,
        &keyboard_body(0x26, 0x0100),
    );
    assert_eq!(snapshot.stale_remote_event_count, 1);
}

#[test]
fn keyboard_packets_forward_arm_and_wake_once() {
    let (mut context, mut snapshot) = bound(None, XIAOMI);
    let outcome = context.on_packet(&mut snapshot, XIAOMI, PacketKind::Keyboard, &keyboard_body(0x26, 0x0100));
    assert_eq!(snapshot.raw_event_count, 1);
    assert_eq!(outcome.voice_f5_wake, None);
    assert_eq!(outcome.messages.len(), 1);
    assert_eq!(outcome.messages[0].arms, vec![RemoteButton::Up]);
    match &outcome.messages[0].message {
        EngineMessage::Keyboard(event) => assert_eq!(event.virtual_key, 0x26),
        other => panic!("unexpected {:?}", other),
    }
    let first = context.on_packet(&mut snapshot, XIAOMI, PacketKind::Keyboard, &keyboard_body(0x74, 0x0100));
    let repeat = context.on_packet(&mut snapshot, XIAOMI, PacketKind::Keyboard, &keyboard_body(0x74, 0x0100));
    let release = context.on_packet(&mut snapshot, XIAOMI, PacketKind::Keyboard, &keyboard_body(0x74, 0x0101));
    assert_eq!(first.voice_f5_wake, Some(true));
    assert_eq!(repeat.voice_f5_wake, Some(false));
    assert_eq!(release.voice_f5_wake, Some(false));
    assert!(first.messages[0].arms.is_empty());
    let truncated = context.on_packet(&mut snapshot, XIAOMI, PacketKind::Keyboard, &[0; 4]);
    assert_eq!(truncated.error.as_deref(), Some("RAWKEYBOARD packet is truncated"));
    assert!(parse_keyboard_record(&[0; 15]).is_err());
}

#[test]
fn hid_packets_forward_each_report_until_one_fails() {
    let (mut context, mut snapshot) = bound(None, XIAOMI);
    let good: &[u8] = &[0x52, 0x00, 0x28, 0x00, 0x00, 0x00];
    let bad: &[u8] = &[0x52, 0x00, 0x28, 0x00, 0x00, 0x00, 0x00];
    let outcome = context.on_packet(&mut snapshot, XIAOMI, PacketKind::Hid, &hid_body(&[good, good]));
    assert_eq!(outcome.error, None);
    assert_eq!(outcome.messages.len(), 2);
    assert_eq!(
        outcome.messages[0].arms,
        vec![RemoteButton::OkButton, RemoteButton::Up]
    );
    match &outcome.messages[1].message {
        EngineMessage::HidUsages(usages) => assert_eq!(usages, &vec![0x0028, 0x0052]),
        other => panic!("unexpected {:?}", other),
    }
    let failing = context.on_packet(&mut snapshot, XIAOMI, PacketKind::Hid, &hid_body(&[bad]));
    assert!(failing.messages.is_empty());
    assert!(failing.error.is_some());
    let short = context.on_packet(&mut snapshot, XIAOMI, PacketKind::Hid, &[1, 0, 0]);
    assert!(short.error.is_some());
}

#[test]
fn chromecast_reports_become_button_states() {
    let (mut context, mut snapshot) = bound(Some(RemoteHidProfile::Google), GOOGLE);
    let press: &[u8] = &[0x01, 0x03, 0x00];
    let release: &[u8] = &[0x01, 0x00, 0x00];
    let other: &[u8] = &[0x02, 0x03, 0x00];
    let outcome = context.on_packet(
        &mut snapshot,
        GOOGLE,
        PacketKind::Hid,
        &hid_body(&[press, other, release]),
    );
    assert_eq!(outcome.error, None);
    assert_eq!(outcome.messages.len(), 2);
    match (&outcome.messages[0].message, &outcome.messages[1].message) {
        (EngineMessage::HidButtons(a), EngineMessage::HidButtons(b)) => {
            assert_eq!(a, &vec![RemoteButton::Up]);
            assert!(b.is_empty());
        }
        other => panic!("unexpected {:?}", other),
    }
}

#[test]
fn only_keyboard_and_hid_interfaces_of_remotes_are_listed() {
    let devices = vec![
        (1u32, Some(XIAOMI.to_owned())),
        (0u32, Some(XIAOMI.to_owned())),
        (2u32, None),
        (2u32, Some(GOOGLE.to_owned())),
        (1u32, Some(r"\\?\HID#VID_1234&PID_0001#kbd".to_owned())),
    ];
    assert_eq!(
        matching_device_paths(&devices),
        vec![XIAOMI.to_owned(), GOOGLE.to_owned()]
    );
}

#[test]
fn the_listener_end_decides_stopped_or_failed() {
    let mut snapshot = RawInputSnapshot::default();
    snapshot.active_buttons = vec![RemoteButton::Up];
    listener_exited(&mut snapshot, Ok(()), true);
    assert_eq!(snapshot.phase, RawInputPhase::Stopped);
    assert!(snapshot.active_buttons.is_empty());
    listener_exited(&mut snapshot, Ok(()), false);
    assert_eq!(snapshot.phase, RawInputPhase::Failed);
    assert_eq!(
        snapshot.last_error.as_deref(),
        Some("Raw Input message loop exited unexpectedly")
    );
    listener_exited(&mut snapshot, Err("GetMessageW failed".to_owned()), true);
    assert_eq!(snapshot.last_error.as_deref(), Some("GetMessageW failed"));
}
