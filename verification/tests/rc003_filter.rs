use sayall::platform::ConnectionPhase;
use sayall::rc003_filter::resets_filter_session;
use sayall::raw_input::{button_for_keyboard, ButtonEdge, RawKeyboardEvent, RemoteButton};
use sayall::rc003_filter::{
    device_path_matches_filter_target, filter_buttons, legacy_gate_mask, requires_filter,
    FilterDecision, FilterSession, FilteredKeyEdge,
};

const TEST_PATH: &str =
    r"\\?\HID#{00001812-0000-1000-8000-00805f9b34fb}_Dev_VID&012717_PID&32B8_REV&00A4#fixture";

fn input(vk: u16, pressed: bool) -> FilteredKeyEdge {
    FilteredKeyEdge::from_device(TEST_PATH, TEST_PATH, keyboard(vk, pressed)).unwrap()
}

fn keyboard(vk: u16, pressed: bool) -> RawKeyboardEvent {
    RawKeyboardEvent {
        virtual_key: vk,
        make_code: 0,
        flags: u16::from(!pressed),
        message: if pressed { 0x0100 } else { 0x0101 },
    }
}

#[test]
fn transport_requires_exact_selected_device_and_revision() {
    for vk in 0x7C..=0x7E {
        for path in [
            TEST_PATH.replace("#fixture", "#other"),
            TEST_PATH.replace("00A4", "00A3"),
            TEST_PATH.replace("00A4", "00A40"),
            TEST_PATH.replace("012717", "002717"),
            TEST_PATH.replace("32B8", "32B9"),
            r"\\?\HID#VID_1234&PID_5678#keyboard".to_owned(),
            String::new(),
        ] {
            assert!(FilteredKeyEdge::from_device(TEST_PATH, &path, keyboard(vk, true)).is_none());
            if !path.ends_with("#other") {
                assert!(FilteredKeyEdge::from_device(&path, &path, keyboard(vk, true)).is_none());
            }
        }
        assert!(FilteredKeyEdge::from_device(
            TEST_PATH,
            &TEST_PATH.to_ascii_lowercase(),
            keyboard(vk, true)
        )
        .is_some());
        let collection = TEST_PATH.replace("#fixture", "&Col01#fixture");
        assert!(
            FilteredKeyEdge::from_device(&collection, &collection, keyboard(vk, true)).is_some()
        );
        let addressed = TEST_PATH.replace("#fixture", "_000000000000#fixture");
        assert!(FilteredKeyEdge::from_device(&addressed, &addressed, keyboard(vk, true)).is_some());
        let other_address = addressed.replace("_000000000000", "_000000000001");
        assert!(
            FilteredKeyEdge::from_device(&addressed, &other_address, keyboard(vk, true)).is_none()
        );
        for suffix in [
            "_00000000000",
            "_0000000000000",
            "_00000000000g",
            "_000000000000junk",
            "&col01extra",
        ] {
            let malformed = TEST_PATH.replace("#fixture", &format!("{suffix}#fixture"));
            assert!(
                FilteredKeyEdge::from_device(&malformed, &malformed, keyboard(vk, true)).is_none()
            );
        }
    }
    assert!(FilteredKeyEdge::from_device(TEST_PATH, TEST_PATH, keyboard(0x74, true)).is_none());
    assert!(FilteredKeyEdge::from_device(TEST_PATH, TEST_PATH, keyboard(0xAF, true)).is_none());
    let mut malformed = keyboard(0x7C, true);
    malformed.flags = 1;
    assert!(FilteredKeyEdge::from_device(TEST_PATH, TEST_PATH, malformed).is_none());
    malformed.message = 0;
    assert!(FilteredKeyEdge::from_device(TEST_PATH, TEST_PATH, malformed).is_none());
}

#[test]
fn each_key_requires_a_complete_pair_and_deduplicates_repeats() {
    let mut session = FilterSession::default();
    for (vk, button) in (0x7C..=0x7E).zip(filter_buttons()) {
        assert_eq!(session.observe(input(vk, false)), FilterDecision::Ignore);
        assert_eq!(
            session.observe(input(vk, true)),
            FilterDecision::Calibrating(button)
        );
        assert_eq!(session.observe(input(vk, true)), FilterDecision::Ignore);
        assert!(!session.confirmed_buttons().contains(&button));
        assert_eq!(
            session.observe(input(vk, false)),
            FilterDecision::Confirmed(button)
        );
        assert!(session.confirmed_buttons().contains(&button));
        assert_eq!(
            session.observe(input(vk, true)),
            FilterDecision::Dispatch(ButtonEdge {
                button,
                is_pressed: true
            })
        );
        assert_eq!(
            session.observe(input(vk, true)),
            FilterDecision::Dispatch(ButtonEdge {
                button,
                is_pressed: true
            })
        );
        assert_eq!(
            session.observe(input(vk, false)),
            FilterDecision::Dispatch(ButtonEdge {
                button,
                is_pressed: false
            })
        );
    }
}

#[test]
fn reset_discards_capability_and_orphan_release() {
    let mut session = FilterSession::default();
    session.observe(input(0x7C, true));
    session.observe(input(0x7C, false));
    session.observe(input(0x7C, true));
    session.reset();
    assert!(session.confirmed_buttons().is_empty());
    assert_eq!(session.observe(input(0x7C, false)), FilterDecision::Ignore);
    assert_eq!(
        session.observe(input(0x7C, true)),
        FilterDecision::Calibrating(RemoteButton::VolumeUp)
    );
}

#[test]
fn global_gate_never_classifies_or_arms_filter_transport() {
    for vk in 0x7C..=0x7E {
        for scan in [0, 0x6A, 0x30, 0x2E] {
            assert_eq!(button_for_keyboard(vk, scan), None);
        }
    }
    for button in filter_buttons() {
        assert_eq!(legacy_gate_mask(1u64 << button.ordinal()), 0);
    }
    assert_eq!(
        legacy_gate_mask(1u64 << RemoteButton::Home.ordinal()),
        1u64 << RemoteButton::Home.ordinal()
    );
}

#[test]
fn filter_buttons_are_the_volume_and_back_keys() {
    assert!(requires_filter(RemoteButton::Back));
    assert!(requires_filter(RemoteButton::VolumeDown));
    assert!(!requires_filter(RemoteButton::Home));
    assert!(device_path_matches_filter_target(TEST_PATH));
    assert!(!device_path_matches_filter_target(r"\\?\HID#VID_2717&PID_32B8#x"));
    assert_eq!(
        FilteredKeyEdge::from_device(TEST_PATH, TEST_PATH, keyboard(0x7E, false))
            .unwrap()
            .get(),
        ButtonEdge { button: RemoteButton::Back, is_pressed: false }
    );
}

#[test]
fn link_boundaries_reset_the_filter_transport() {
    for phase in [
        ConnectionPhase::Idle,
        ConnectionPhase::Connecting,
        ConnectionPhase::Reconnecting,
        ConnectionPhase::Disconnected,
        ConnectionPhase::Suspended,
        ConnectionPhase::Failed,
    ] {
        assert!(resets_filter_session(phase));
    }
    for phase in [
        ConnectionPhase::Discovering,
        ConnectionPhase::AwaitingCapabilities,
        ConnectionPhase::Ready,
        ConnectionPhase::Streaming,
        ConnectionPhase::Draining,
    ] {
        assert!(!resets_filter_session(phase));
    }
}

#[test]
fn confirmed_keys_are_exactly_those_confirmed_since_the_last_reset() {
    let mut session = FilterSession::default();
    assert_eq!(session.observe(input(0x7E, true)), FilterDecision::Calibrating(RemoteButton::Back));
    assert_eq!(session.observe(input(0x7E, false)), FilterDecision::Confirmed(RemoteButton::Back));
    session.observe(input(0x7C, true));
    assert_eq!(
        session.observe(input(0x7C, false)),
        FilterDecision::Confirmed(RemoteButton::VolumeUp)
    );
    session.observe(input(0x7D, true));
    assert_eq!(
        session.confirmed_buttons(),
        vec![RemoteButton::Back, RemoteButton::VolumeUp],
        "a key still calibrating is not confirmed; order is button order"
    );
    session.reset();
    assert!(session.confirmed_buttons().is_empty());
    session.observe(input(0x7D, true));
    session.observe(input(0x7D, false));
    assert_eq!(session.confirmed_buttons(), vec![RemoteButton::VolumeDown]);
}
