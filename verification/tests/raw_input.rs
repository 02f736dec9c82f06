use sayall::raw_input::{
    all_buttons_array, bound_paths_still_present, decode_google_remote_report,
    decode_report_usages, device_path_matches_google_remote, device_path_matches_supported_remote,
    device_path_matches_xiaomi_remote, parse_raw_hid_body, select_remote_hid_selection,
    select_single_device_path, select_single_device_path_preferring, ButtonEdge,
    ButtonStateMerger, DevicePathError, RawInputDecodeError, RawKeyboardEvent, RemoteButton,
    RemoteHidProfile,
};

fn report(usages: &[u16]) -> Vec<u8> {
    let mut bytes = vec![0x01, 0x00, 0x00, 0, 0, 0, 0, 0, 0];
    for (index, usage) in usages.iter().take(3).enumerate() {
        bytes[3 + index * 2..5 + index * 2].copy_from_slice(&usage.to_le_bytes());
    }
    bytes
}

fn keyboard(virtual_key: u16, message: u32) -> RawKeyboardEvent {
    RawKeyboardEvent {
        make_code: 0,
        flags: 0,
        virtual_key,
        message,
    }
}

#[test]
fn matches_both_windows_xiaomi_remote_device_path_shapes() {
    assert!(device_path_matches_xiaomi_remote(
        r"\\?\HID#VID_2717&PID_32B8&REV_00A4#instance"
    ));
    assert!(device_path_matches_xiaomi_remote(
        r"\\?\HID#{1812}_Dev_VID&012717_PID&32B8_REV&00A4_instance"
    ));
    assert!(!device_path_matches_xiaomi_remote(
        r"\\?\HID#VID_2717&PID_0001#instance"
    ));
}

#[test]
fn binding_presence_requires_every_bound_path() {
    let bound = vec!["a".to_owned(), "b".to_owned()];
    assert!(bound_paths_still_present(
        &bound,
        &["x".to_owned(), "a".to_owned(), "b".to_owned()]
    ));
    assert!(!bound_paths_still_present(&bound, &["a".to_owned()]));
    assert!(!bound_paths_still_present(&[], &["a".to_owned()]));
}

#[test]
fn device_selection_fails_closed() {
    assert_eq!(select_single_device_path(&[]), Err(DevicePathError::Missing));
    let paths = vec![
        r"\\?\HID#VID_2717&PID_32B8#one".to_owned(),
        r"\\?\HID#VID_2717&PID_32B8#two".to_owned(),
    ];
    assert_eq!(
        select_single_device_path(&paths),
        Err(DevicePathError::Ambiguous(2))
    );
}

#[test]
fn preferred_binding_is_kept_when_it_is_still_a_candidate() {
    let one = r"\\?\HID#VID_2717&PID_32B8#one".to_owned();
    let two = r"\\?\HID#VID_2717&PID_32B8#two".to_owned();
    let paths = vec![one.clone(), two.clone()];

    assert_eq!(
        select_single_device_path_preferring(&paths, &one),
        Ok(one.clone())
    );
    assert_eq!(
        select_single_device_path_preferring(&paths, &two),
        Ok(two.clone())
    );
    assert_eq!(
        select_single_device_path_preferring(&paths, &one.to_uppercase()),
        Ok(one.clone())
    );
    let gone = r"\\?\HID#VID_2717&PID_32B8#gone".to_owned();
    assert_eq!(
        select_single_device_path_preferring(&paths, &gone),
        Err(DevicePathError::Ambiguous(2))
    );
    assert_eq!(
        select_single_device_path_preferring(&paths, ""),
        Err(DevicePathError::Ambiguous(2))
    );
}

#[test]
fn preferred_binding_does_not_change_single_or_empty_candidates() {
    let only = r"\\?\HID#VID_2717&PID_32B8#only".to_owned();
    assert_eq!(
        select_single_device_path_preferring(std::slice::from_ref(&only), "whatever"),
        Ok(only.clone())
    );
    assert_eq!(
        select_single_device_path_preferring(&[], "whatever"),
        Err(DevicePathError::Missing)
    );
}

#[test]
fn decodes_all_supported_report_shapes_and_unknown_usages() {
    let full = report(&[0x0028, 0x0052, 0xFFFF]);
    let expected: Vec<u16> = vec![0x0028, 0x0052, 0xFFFF];
    let compact = [&[0x01][..], &full[3..]].concat();
    assert_eq!(decode_report_usages(&full).unwrap(), expected);
    assert_eq!(decode_report_usages(&compact).unwrap(), expected);
    assert_eq!(decode_report_usages(&full[3..]).unwrap(), expected);
}

#[test]
fn splits_multiple_raw_hid_reports() {
    let first = report(&[0x0028]);
    let second = report(&[0x0052]);
    let mut body = Vec::from(9u32.to_le_bytes());
    body.extend_from_slice(&2u32.to_le_bytes());
    body.extend_from_slice(&first);
    body.extend_from_slice(&second);
    let parsed = parse_raw_hid_body(&body).unwrap();
    assert_eq!(parsed, vec![&first[..], &second[..]]);
}

#[test]
fn repeated_keyboard_down_emits_one_edge() {
    let mut merger = ButtonStateMerger::default();
    assert_eq!(
        merger.update_keyboard(keyboard(0x26, 0x0100)),
        vec![ButtonEdge {
            button: RemoteButton::Up,
            is_pressed: true,
        }]
    );
    assert!(merger.update_keyboard(keyboard(0x26, 0x0100)).is_empty());
    assert_eq!(
        merger.update_keyboard(keyboard(0x26, 0x0101)),
        vec![ButtonEdge {
            button: RemoteButton::Up,
            is_pressed: false,
        }]
    );
}

#[test]
fn keyboard_and_hid_sources_share_one_logical_hold() {
    let mut merger = ButtonStateMerger::default();
    assert_eq!(merger.update_keyboard(keyboard(0x26, 0x0100)).len(), 1);
    assert!(merger
        .update_hid_report(&report(&[0x0052]))
        .unwrap()
        .is_empty());
    assert!(merger.update_keyboard(keyboard(0x26, 0x0101)).is_empty());
    assert_eq!(merger.update_hid_report(&report(&[])).unwrap().len(), 1);
}

#[test]
fn voice_key_is_excluded_from_ordinary_button_path() {
    let mut merger = ButtonStateMerger::default();
    assert!(merger.update_keyboard(keyboard(0x74, 0x0100)).is_empty());
    assert!(merger
        .update_hid_report(&report(&[0x003E]))
        .unwrap()
        .is_empty());
}

#[test]
fn release_all_clears_every_source_once() {
    let mut merger = ButtonStateMerger::default();
    merger.update_keyboard(keyboard(0x27, 0x0100));
    merger.update_hid_report(&report(&[0x0028])).unwrap();
    let releases = merger.release_all();
    assert_eq!(releases.len(), 2);
    assert!(releases.iter().all(|edge| !edge.is_pressed));
    assert!(merger.release_all().is_empty());
}

#[test]
fn matches_both_windows_google_remote_device_path_shapes() {
    assert!(device_path_matches_google_remote(
        r"\\?\HID#VID_18D1&PID_9450&REV_0110#instance"
    ));
    assert!(device_path_matches_google_remote(
        r"\\?\HID#{1812}_Dev_VID&0118D1_PID&9450_REV&0110_instance_col01"
    ));
    assert!(!device_path_matches_google_remote(
        r"\\?\HID#VID_18D1&PID_0001#instance"
    ));
    assert!(device_path_matches_supported_remote(
        r"\\?\HID#VID_2717&PID_32B8#instance"
    ));
}

#[test]
fn google_remote_profile_and_multi_collection_selection() {
    assert_eq!(
        RemoteHidProfile::for_path(r"HID#DEv_VID&0118D1_PID&9450_x_Col01"),
        Some(RemoteHidProfile::Google)
    );
    let paths = vec![
        r"\\?\HID#{1812}_Dev_VID&0118D1_PID&9450_REV&0110_x&Col01".to_owned(),
        r"\\?\HID#{1812}_Dev_VID&0118D1_PID&9450_REV&0110_x&Col02".to_owned(),
    ];
    let selection = select_remote_hid_selection(&paths, None).unwrap();
    assert_eq!(selection.profile, RemoteHidProfile::Google);
    assert_eq!(selection.paths.len(), 2);
    let mixed = vec![
        r"\\?\HID#VID_2717&PID_32B8#a".to_owned(),
        r"\\?\HID#VID_18D1&PID_9450#b".to_owned(),
    ];
    assert_eq!(
        select_remote_hid_selection(&mixed, None),
        Err(DevicePathError::Ambiguous(2))
    );
    assert_eq!(
        select_remote_hid_selection(&[], None),
        Err(DevicePathError::Missing)
    );
}

#[test]
fn active_profile_selects_only_that_vendor_when_both_are_online() {
    let mixed = vec![
        r"\\?\HID#VID_2717&PID_32B8#a".to_owned(),
        r"\\?\HID#VID_18D1&PID_9450#b".to_owned(),
        r"\\?\HID#VID_18D1&PID_9450#c&Col02".to_owned(),
    ];
    let google = select_remote_hid_selection(&mixed, Some(RemoteHidProfile::Google)).unwrap();
    assert_eq!(google.profile, RemoteHidProfile::Google);
    assert_eq!(google.paths.len(), 2);
    let xiaomi = select_remote_hid_selection(&mixed, Some(RemoteHidProfile::Xiaomi)).unwrap();
    assert_eq!(xiaomi.profile, RemoteHidProfile::Xiaomi);
    assert_eq!(xiaomi.paths.len(), 1);
    let only_google = vec![r"\\?\HID#VID_18D1&PID_9450#b".to_owned()];
    assert_eq!(
        select_remote_hid_selection(&only_google, Some(RemoteHidProfile::Xiaomi)),
        Err(DevicePathError::Missing)
    );
}

#[test]
fn decodes_google_remote_reports() {
    assert_eq!(
        decode_google_remote_report(&[0x01, 0x07, 0x00]),
        Some(Some(RemoteButton::OkButton))
    );
    assert_eq!(
        decode_google_remote_report(&[0x01, 0x0E, 0x00]),
        Some(Some(RemoteButton::Youtube))
    );
    assert_eq!(
        decode_google_remote_report(&[0x01, 0x0C, 0x00]),
        Some(Some(RemoteButton::VolumeUp))
    );
    assert_eq!(
        decode_google_remote_report(&[0x01, 0x0D, 0x00]),
        Some(Some(RemoteButton::VolumeDown))
    );
    assert_eq!(decode_google_remote_report(&[0x01, 0x00, 0x00]), Some(None));
    assert_eq!(decode_google_remote_report(&[0x02, 0x07, 0x00]), None);
    assert_eq!(decode_google_remote_report(&[0x01, 0x07]), None);
    assert_eq!(decode_google_remote_report(&[0x01, 0x7F, 0x00]), Some(None));
}

#[test]
fn google_hid_buttons_follow_press_and_release_edges() {
    let mut merger = ButtonStateMerger::default();
    let press = merger.update_hid_buttons(vec![RemoteButton::Netflix]);
    assert_eq!(
        press,
        vec![ButtonEdge {
            button: RemoteButton::Netflix,
            is_pressed: true,
        }]
    );
    assert!(merger
        .update_hid_buttons(vec![RemoteButton::Netflix])
        .is_empty());
    assert_eq!(
        merger.update_hid_buttons(Vec::new()),
        vec![ButtonEdge {
            button: RemoteButton::Netflix,
            is_pressed: false,
        }]
    );
}

#[test]
fn new_buttons_are_appended_and_keep_existing_ordinals() {
    assert_eq!(RemoteButton::Back.ordinal(), 0);
    assert_eq!(RemoteButton::VolumeDown.ordinal(), 12);
    assert_eq!(RemoteButton::Youtube.ordinal(), 13);
    assert_eq!(RemoteButton::Netflix.ordinal(), 14);
    assert_eq!(RemoteButton::Input.ordinal(), 15);
    assert_eq!(all_buttons_array().len(), 16);
}

#[test]
fn report_errors_name_the_problem() {
    assert_eq!(
        decode_report_usages(&[1, 2, 3]),
        Err(RawInputDecodeError::UnsupportedReportShape(3))
    );
    assert_eq!(
        decode_report_usages(&[2, 0, 0, 0, 0, 0, 0, 0, 0]),
        Err(RawInputDecodeError::InvalidReportPrefix)
    );
    assert_eq!(
        RawInputDecodeError::UnsupportedReportShape(3).message(),
        "unsupported Xiaomi voice remote HID report shape: 3 bytes"
    );
    assert_eq!(
        RawInputDecodeError::TruncatedRawHidBody { expected: 18, actual: 9 }.message(),
        "RAWHID body is truncated: expected 18 bytes, got 9"
    );
    assert_eq!(
        DevicePathError::Ambiguous(2).message(),
        "found 2 RC001/RC003 Raw Input device paths; refusing to choose one"
    );
    assert_eq!(parse_raw_hid_body(&[1, 2]), Err(RawInputDecodeError::RawHidBodyTooShort));
}

#[test]
fn merged_state_lists_active_buttons_in_order() {
    let mut merger = ButtonStateMerger::default();
    merger.update_keyboard(keyboard(0x27, 0x0100));
    merger.update_hid_buttons(vec![RemoteButton::Netflix, RemoteButton::Back]);
    assert_eq!(
        merger.active_button_set(),
        vec![RemoteButton::Back, RemoteButton::Right, RemoteButton::Netflix]
    );
    assert_eq!(
        merger.apply_keyboard_button_edge(RemoteButton::Back, true),
        Vec::<ButtonEdge>::new()
    );
}
