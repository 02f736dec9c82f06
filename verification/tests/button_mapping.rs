use sayall::button_mapping::{
    persistent_suppress_mask, ButtonTrigger, EngineRouter, FireOutcome, InjectionKind,
    InjectorRequest,
};
use sayall::raw_input::{ButtonEdge, RawInputSnapshot, RawKeyboardEvent, RemoteButton};
use sayall::rc003_filter::FilteredKeyEdge;
use sayall::rc003_user_hid::{LinkState, SourceScope, UserHidPermit, UserHidReport};
use sayall::send_input::{
    ButtonAction, KeyChord, KeyCode, MouseClickKind, MoveDirection, ScrollDirection,
};

const KEYDOWN: u32 = 0x0100;
const KEYUP: u32 = 0x0101;
const FILTER_PATH: &str =
    r"\\?\HID#{00001812-0000-1000-8000-00805f9b34fb}_Dev_VID&012717_PID&32B8_REV&00A4#fixture";

fn keyboard_event(virtual_key: u16, message: u32) -> RawKeyboardEvent {
    RawKeyboardEvent {
        make_code: 0,
        flags: 0,
        virtual_key,
        message,
    }
}

fn filtered(vk: u16, pressed: bool) -> FilteredKeyEdge {
    let event = RawKeyboardEvent {
        virtual_key: vk,
        make_code: 0,
        flags: u16::from(!pressed),
        message: if pressed { KEYDOWN } else { KEYUP },
    };
    FilteredKeyEdge::from_device(FILTER_PATH, FILTER_PATH, event).unwrap()
}

fn fire(router: &mut EngineRouter, button: RemoteButton, trigger: ButtonTrigger) -> FireOutcome {
    router.fire_gesture(
        button,
        trigger,
        &LinkState::default(),
        true,
        true,
        up_shortcut(),
        Some(KeyCode::Up),
    )
}

fn up_shortcut() -> ButtonAction {
    ButtonAction::Shortcut { chord: KeyChord { keys: vec![KeyCode::Up] } }
}

fn up_tap() -> FireOutcome {
    FireOutcome::Inject(InjectorRequest::Tap(KeyChord { keys: vec![KeyCode::Up] }))
}

#[test]
fn persistent_suppress_mask_covers_only_home_and_tv() {
    let mapped = (1u64 << RemoteButton::Home.ordinal())
        | (1u64 << RemoteButton::Tv.ordinal())
        | (1u64 << RemoteButton::OkButton.ordinal())
        | (1u64 << RemoteButton::Up.ordinal());
    assert_eq!(
        persistent_suppress_mask(mapped),
        (1u64 << RemoteButton::Home.ordinal()) | (1u64 << RemoteButton::Tv.ordinal()),
    );
    assert_eq!(
        persistent_suppress_mask(1u64 << RemoteButton::OkButton.ordinal()),
        0,
        "未纳入常驻抑制族的键位掩码必须为空"
    );
    assert_eq!(persistent_suppress_mask(0), 0);
}

#[test]
fn a_leaked_press_skips_only_the_first_same_key_single() {
    let mut router = EngineRouter::new();
    let edges = router.on_keyboard(keyboard_event(0x26, KEYDOWN));
    assert_eq!(
        edges,
        vec![ButtonEdge { button: RemoteButton::Up, is_pressed: true }]
    );
    assert_eq!(
        fire(&mut router, RemoteButton::Up, ButtonTrigger::Single),
        FireOutcome::NativeCovered
    );
    assert_eq!(
        fire(&mut router, RemoteButton::Up, ButtonTrigger::Single),
        up_tap(),
        "the mark is consumed by the first gesture"
    );
    router.on_keyboard(keyboard_event(0x26, KEYUP));
    router.on_keyboard(keyboard_event(0x26, KEYDOWN));
    assert_eq!(
        fire(&mut router, RemoteButton::Up, ButtonTrigger::Long),
        up_tap(),
        "long presses are always injected"
    );
    let snapshot = router.mapping_snapshot(true, true, true, 0, 0);
    assert_eq!(snapshot.fired_gestures, 3);
}

#[test]
fn a_swallowed_press_clears_the_native_mark() {
    let mut router = EngineRouter::new();
    router.on_keyboard(keyboard_event(0x26, KEYDOWN));
    router.on_keyboard(keyboard_event(0x26, KEYUP));
    let edges = router.on_gate_edge(ButtonEdge { button: RemoteButton::Up, is_pressed: true });
    assert_eq!(edges.len(), 1);
    assert_eq!(
        fire(&mut router, RemoteButton::Up, ButtonTrigger::Single),
        up_tap()
    );
}

#[test]
fn filter_keys_need_device_attribution() {
    let mut router = EngineRouter::new();
    assert!(router.on_keyboard(keyboard_event(0xAF, KEYDOWN)).is_empty());
    assert!(router
        .on_gate_edge(ButtonEdge { button: RemoteButton::Back, is_pressed: true })
        .is_empty());
    let edges = router.on_hid_usages(vec![0x0052, 0x0080]);
    assert_eq!(
        edges,
        vec![ButtonEdge { button: RemoteButton::Up, is_pressed: true }]
    );
    assert!(router.on_filter_keyboard(filtered(0x7C, true), false).is_empty());
    assert!(router.on_filter_keyboard(filtered(0x7C, true), true).is_empty());
    assert!(router.on_filter_keyboard(filtered(0x7C, false), true).is_empty());
    assert_eq!(router.confirmed_filter_buttons(), vec![RemoteButton::VolumeUp]);
    let edges = router.on_filter_keyboard(filtered(0x7C, true), true);
    assert_eq!(
        edges,
        vec![ButtonEdge { button: RemoteButton::VolumeUp, is_pressed: true }]
    );
    let releases = router.on_filter_session_reset();
    assert_eq!(
        releases,
        vec![ButtonEdge { button: RemoteButton::VolumeUp, is_pressed: false }]
    );
    assert!(router.confirmed_filter_buttons().is_empty());
    assert_eq!(router.active_buttons(), vec![RemoteButton::Up]);
}

#[test]
fn capture_sessions_confirm_then_map_and_reset_by_id() {
    let mut router = EngineRouter::new();
    let link = LinkState::default();
    assert!(!router.on_user_hid_begin(UserHidPermit::fixture(1), false, &link));
    assert!(router.on_user_hid_begin(UserHidPermit::fixture(1), true, &link));
    assert!(!router.on_user_hid_begin(UserHidPermit::fixture(2), true, &link));
    let report = |seq: u64, active: Vec<RemoteButton>| UserHidReport {
        id: 1,
        seq,
        stream: 1,
        scope: SourceScope::ProxyUnverified,
        active,
        received_at_ms: 5_000,
    };
    let (edges, rejected) = router.on_user_hid_state(report(1, vec![RemoteButton::Back]), true, &link, 5_000);
    assert!(edges.is_empty() && !rejected);
    let (edges, _) = router.on_user_hid_state(report(2, vec![]), true, &link, 5_000);
    assert!(edges.is_empty());
    assert_eq!(router.confirmed_user_hid_buttons(), vec![RemoteButton::Back]);
    let (edges, _) = router.on_user_hid_state(report(3, vec![RemoteButton::Back]), true, &link, 5_000);
    assert_eq!(
        edges,
        vec![ButtonEdge { button: RemoteButton::Back, is_pressed: true }]
    );
    assert!(router.on_user_hid_reset(9).is_none());
    let releases = router.on_user_hid_reset(1).unwrap();
    assert_eq!(
        releases,
        vec![ButtonEdge { button: RemoteButton::Back, is_pressed: false }]
    );
    assert!(router.permit().is_none());
}

#[test]
fn a_refused_capture_report_cancels_the_permit_and_releases_filter_keys() {
    let mut router = EngineRouter::new();
    let link = LinkState::default();
    assert!(router.on_user_hid_begin(UserHidPermit::fixture(1), true, &link));
    let bad = UserHidReport {
        id: 1,
        seq: 1,
        stream: 1,
        scope: SourceScope::ProxyUnverified,
        active: vec![RemoteButton::Up],
        received_at_ms: 0,
    };
    let (_, rejected) = router.on_user_hid_state(bad, true, &link, 0);
    assert!(rejected);
    assert!(!router.permit().unwrap().alive);
    assert_eq!(
        router.fire_gesture(
            RemoteButton::Back,
            ButtonTrigger::Long,
            &link,
            true,
            true,
            up_shortcut(),
            None
        ),
        FireOutcome::Rejected,
        "a cancelled capture permit invalidates queued filter-key gestures"
    );
    assert_eq!(router.mapping_snapshot(true, true, true, 0, 0).fired_gestures, 0);
}

#[test]
fn without_the_gate_gestures_are_only_observed() {
    let mut router = EngineRouter::new();
    let link = LinkState::default();
    let outcome = router.fire_gesture(
        RemoteButton::Up,
        ButtonTrigger::Single,
        &link,
        true,
        false,
        up_shortcut(),
        None,
    );
    assert_eq!(outcome, FireOutcome::Observed);
    let snapshot = router.mapping_snapshot(true, false, false, 0, 0);
    assert_eq!(
        snapshot.last_error.as_deref(),
        Some("按键映射门控未运行，已保持观察模式（不注入，避免双输入）")
    );
    assert_eq!(snapshot.fired_gestures, 1);
    assert_eq!(
        router.fire_gesture(
            RemoteButton::Up,
            ButtonTrigger::Single,
            &link,
            true,
            true,
            ButtonAction::Disabled,
            None
        ),
        FireOutcome::Disabled
    );
    router.injection_failed(InjectionKind::Scroll, "wheel injection failed (test)");
    assert_eq!(
        router.mapping_snapshot(true, true, true, 0, 0).last_error.as_deref(),
        Some("滚轮事件发送失败：wheel injection failed (test)")
    );
}

#[test]
fn listener_stop_releases_every_held_button() {
    let mut router = EngineRouter::new();
    router.on_keyboard(keyboard_event(0x26, KEYDOWN));
    router.on_hid_usages(vec![0x0028]);
    let edges = router.on_device_gone();
    assert_eq!(
        edges,
        vec![
            ButtonEdge { button: RemoteButton::OkButton, is_pressed: false },
            ButtonEdge { button: RemoteButton::Up, is_pressed: false },
        ]
    );
    assert!(router.active_buttons().is_empty());
    assert!(router.reset_after_terminal_action().is_empty());
}

#[test]
fn edges_are_published_in_the_diagnostics() {
    let mut router = EngineRouter::new();
    let mut snapshot = RawInputSnapshot::default();
    let edges = router.on_keyboard(keyboard_event(0x26, KEYDOWN));
    assert_eq!(router.note_edges(&mut snapshot, &edges), 1);
    assert_eq!(snapshot.semantic_edge_count, 1);
    assert_eq!(snapshot.active_buttons, vec![RemoteButton::Up]);
    assert_eq!(snapshot.last_button, Some(RemoteButton::Up));
    assert_eq!(snapshot.last_is_pressed, Some(true));
    assert_eq!(router.note_edges(&mut snapshot, &Vec::new()), 0);
    assert_eq!(snapshot.semantic_edge_count, 1);
}

#[test]
fn mouse_mapping_routes_actions_and_respects_disabled_state() {
    let mut router = EngineRouter::new();
    let link = LinkState::default();
    let cases = vec![
        (
            ButtonAction::MouseClick { kind: MouseClickKind::DoubleLeft },
            InjectorRequest::MouseClick(MouseClickKind::DoubleLeft),
        ),
        (
            ButtonAction::MouseMove { direction: MoveDirection::Right, distance: 80 },
            InjectorRequest::MouseMove(MoveDirection::Right, 80),
        ),
        (
            ButtonAction::Scroll { direction: ScrollDirection::Down, steps: 7 },
            InjectorRequest::Scroll(ScrollDirection::Down, 7),
        ),
        (
            ButtonAction::OpenApp { target: "wechat".to_string() },
            InjectorRequest::LaunchApp("wechat".to_string()),
        ),
        (
            ButtonAction::Shortcut {
                chord: KeyChord { keys: vec![KeyCode::LeftControl, KeyCode::Space] },
            },
            InjectorRequest::Tap(KeyChord { keys: vec![KeyCode::LeftControl, KeyCode::Space] }),
        ),
    ];
    for (action, request) in cases {
        assert_eq!(
            router.fire_gesture(
                RemoteButton::Power,
                ButtonTrigger::Single,
                &link,
                true,
                true,
                action,
                None
            ),
            FireOutcome::Inject(request)
        );
    }
    assert_eq!(router.mapping_snapshot(true, true, true, 0, 0).fired_gestures, 5);
    for request in [
        InjectorRequest::MouseClick(MouseClickKind::Right),
        InjectorRequest::MouseMove(MoveDirection::Up, 40),
    ] {
        router.injection_done(&request, Err("injection failed (test)".to_string()));
        assert!(router.mapping_snapshot(true, true, true, 0, 0).last_error.is_some());
    }
    assert_eq!(
        router.fire_gesture(
            RemoteButton::Power,
            ButtonTrigger::Single,
            &link,
            false,
            true,
            ButtonAction::MouseMove { direction: MoveDirection::Right, distance: 80 },
            None
        ),
        FireOutcome::Observed,
        "with mappings off nothing is injected"
    );
}

#[test]
fn only_a_successful_lock_tap_ends_the_gesture() {
    let mut router = EngineRouter::new();
    let lock = InjectorRequest::Tap(KeyChord { keys: vec![KeyCode::LeftWindows, KeyCode::L] });
    let other = InjectorRequest::Tap(KeyChord { keys: vec![KeyCode::LeftWindows] });
    assert!(router.injection_done(&lock, Ok(())));
    assert!(!router.injection_done(&other, Ok(())));
    assert!(!router.injection_done(&InjectorRequest::MouseClick(MouseClickKind::Left), Ok(())));
    assert_eq!(router.mapping_snapshot(true, true, true, 0, 0).last_error, None);
    assert!(!router.injection_done(&lock, Err("denied".to_string())));
    assert_eq!(
        router.mapping_snapshot(true, true, true, 0, 0).last_error.as_deref(),
        Some("注入快捷键失败：denied")
    );
}

#[test]
fn a_failed_injection_records_its_kind() {
    let mut router = EngineRouter::new();
    let cases = vec![
        (InjectorRequest::MouseClick(MouseClickKind::Right), "鼠标点击失败：boom"),
        (InjectorRequest::MouseMove(MoveDirection::Up, 40), "鼠标移动失败：boom"),
        (InjectorRequest::Scroll(ScrollDirection::Up, 1), "滚轮事件发送失败：boom"),
        (InjectorRequest::LaunchApp("x".to_string()), "打开应用失败：boom"),
    ];
    for (request, text) in cases {
        assert!(!router.injection_done(&request, Err("boom".to_string())));
        assert_eq!(
            router.mapping_snapshot(true, true, true, 0, 0).last_error.as_deref(),
            Some(text)
        );
    }
}
