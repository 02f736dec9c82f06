use sayall::platform::{AudioSnapshot, ConnectionPhase, ConnectionSnapshot, PlatformSnapshot};
use sayall::raw_input::{RawInputPhase, RawInputSnapshot};
use sayall::send_input::{KeyChord, KeyCode};
use sayall::send_input::SendInputRuntime;
use sayall::settings::VoiceTriggerMode;
use sayall::platform::{
    is_approved_lowercase_name, is_supported_remote_name, is_virtual_cable_output_name, AudioPhase,
    PlatformError, UsageCounterSnapshot, UsageCounters, WindowsPlatform,
};

#[test]
fn accepts_only_approved_remote_names() {
    for name in [
        "MI RC",
        "  mi rc  ",
        "Xiaomi Bluetooth Remote 2",
        "Xiaomi Bluetooth Remote 2 Pro",
        "小米蓝牙语音遥控器",
        "小米蓝牙遥控器2",
        "ARN9",
    ] {
        assert!(is_supported_remote_name(name), "expected match: {name}");
    }

    for name in ["", "Mi Mouse", "MI RC2", "小米", "Unknown Remote"] {
        assert!(!is_supported_remote_name(name), "unexpected match: {name}");
    }
}

#[test]
fn recognizes_virtual_cable_output_without_auto_selecting_other_devices() {
    assert!(is_virtual_cable_output_name(
        "CABLE Input (VB-Audio Virtual Cable)"
    ));
    assert!(is_virtual_cable_output_name("VB-Audio Virtual Cable"));
    assert!(!is_virtual_cable_output_name("Speakers (Realtek Audio)"));
}

#[test]
fn usage_counters_keep_voice_session_and_sample_updates_consistent() {
    let mut counters = UsageCounters::default();
    counters.record_button_presses(2);
    counters.record_voice_session(16_000);
    counters.record_voice_session(8_000);

    assert_eq!(
        counters.snapshot(),
        UsageCounterSnapshot {
            button_presses: 2,
            voice_sessions: 2,
            voice_samples: 24_000,
        }
    );
}

#[test]
fn non_windows_host_reports_unsupported_instead_of_fake_devices() {
    let platform = WindowsPlatform::default();
    assert_eq!(
        platform.scan_paired_remotes(),
        Err(PlatformError::UnsupportedPlatform)
    );
    assert!(!platform.snapshot().windows_api_available);
    assert_eq!(
        platform.connect_remote("device".to_owned()),
        Err(PlatformError::UnsupportedPlatform)
    );
    assert_eq!(
        platform.list_audio_endpoints(),
        Err(PlatformError::UnsupportedPlatform)
    );
    assert_eq!(platform.audio_snapshot().phase, AudioPhase::Unsupported);
}

#[test]
fn lowercase_name_check_needs_the_exact_lowercase_form() {
    assert!(is_approved_lowercase_name("mi rc"));
    assert!(!is_approved_lowercase_name("MI RC"));
    assert!(!is_approved_lowercase_name(" mi rc"));
}

#[test]
fn counters_saturate_instead_of_wrapping() {
    let mut counters = UsageCounters::default();
    counters.record_button_presses(u64::MAX);
    counters.record_button_presses(5);
    assert_eq!(counters.snapshot().button_presses, u64::MAX);
}

#[test]
fn platform_errors_have_their_texts() {
    assert_eq!(
        PlatformError::BleCleanup("retained owner".to_owned()).message(),
        "BLE cleanup failed: retained owner"
    );
    assert_eq!(
        PlatformError::VoiceCharacteristicMissing("audio").message(),
        "RC003 GATT characteristic audio is missing"
    );
    assert_eq!(
        PlatformError::UnsupportedPlatform.message(),
        "Windows platform APIs are unavailable on this host"
    );
}

#[test]
fn facade_reports_the_host_it_was_given() {
    let platform = WindowsPlatform::with_host_os("linux".to_owned());
    let snapshot = platform.snapshot();
    assert_eq!(snapshot.platform, "linux");
    assert!(!snapshot.send_input_ready);
    assert_eq!(platform.usage_counters().snapshot().voice_sessions, 0);
    assert_eq!(platform.stop_raw_input(), Err(PlatformError::UnsupportedPlatform));
}

#[test]
fn shortcuts_and_injection_need_windows() {
    let platform = WindowsPlatform::default();
    assert_eq!(
        platform.test_shortcut(KeyChord::of(&[KeyCode::LeftControl, KeyCode::Space])),
        Err(PlatformError::UnsupportedPlatform)
    );
    assert!(!platform.send_input_snapshot().available);
}

#[test]
fn injections_are_recorded_by_operation() {
    let mut runtime = SendInputRuntime::new();
    let snapshot = runtime.tap(Ok(4)).unwrap();
    assert_eq!((snapshot.submitted_batches, snapshot.submitted_events), (1, 4));
    runtime.press(Ok(2)).unwrap();
    assert_eq!(
        runtime.release(Err("rejected".to_owned())),
        Err(PlatformError::SendInput("rejected".to_owned()))
    );
    let snapshot = runtime.snapshot();
    assert_eq!((snapshot.submitted_batches, snapshot.submitted_events), (2, 6));
    assert_eq!(snapshot.last_error.as_deref(), Some("SendInput key-up：rejected"));
}

#[test]
fn hold_is_the_only_voice_trigger_mode() {
    assert_eq!(VoiceTriggerMode::default(), VoiceTriggerMode::Hold);
}

#[test]
fn the_windows_snapshot_derives_readiness_from_the_parts() {
    let mut connection = ConnectionSnapshot::default();
    connection.phase = ConnectionPhase::Streaming;
    let audio = AudioSnapshot {
        phase: AudioPhase::Failed,
        ..AudioSnapshot::default()
    };
    let raw_input = RawInputSnapshot {
        phase: RawInputPhase::Ready,
        ..RawInputSnapshot::default()
    };
    let snapshot = PlatformSnapshot::windows(connection, audio, raw_input, true);
    assert_eq!(snapshot.platform, "windows");
    assert!(snapshot.ble_voice_ready);
    assert!(!snapshot.wasapi_ready);
    assert!(snapshot.raw_input_ready);
    assert!(snapshot.send_input_ready);
}
