use sayall::ble::{
    AudioEvent, ControlAction, ControlEvent, DrainFailure, StreamEnd, StreamStartFailure,
    MICROPHONE_EXTEND_INTERVAL_MS,
};
use sayall::platform::VoiceSessionState;
use sayall::ble::{cleanup_result, power_event, voice_session_aborted, PowerEvent};
use sayall::ble::{
    keep_reconnecting_after_cleanup_failure, nearest_deadline, schedule_reconnect, BleSupervisor,
    DueTimer, ReconnectBackoff, RECONNECT_BASE_DELAY_MS, RECONNECT_MAX_DELAY_MS,
};
use sayall::platform::{ConnectionPhase, ConnectionSnapshot, PlatformError};

#[test]
fn reconnect_schedule_reports_attempt_and_exponential_delay() {
    let mut state = ConnectionSnapshot::default();
    let mut backoff = ReconnectBackoff::new(RECONNECT_BASE_DELAY_MS, RECONNECT_MAX_DELAY_MS);
    let mut deadline = None;

    schedule_reconnect(&mut state, &mut backoff, &mut deadline, 1_000, "模拟断连");
    let first = state.clone();
    assert_eq!(first.phase, ConnectionPhase::Reconnecting);
    assert_eq!(first.reconnect_attempt, 1);
    assert!(first.last_error.unwrap().contains("2 秒后"));
    assert!(deadline.is_some());

    schedule_reconnect(&mut state, &mut backoff, &mut deadline, 1_000, "再次失败");
    let second = state.clone();
    assert_eq!(second.reconnect_attempt, 2);
    assert!(second.last_error.unwrap().contains("4 秒后"));
}

#[test]
fn nearest_deadline_selects_the_first_due_operation() {
    let now = 10_000u64;
    let early = now + 1_000;
    let late = now + 2_000;

    assert_eq!(nearest_deadline(Some(late), Some(early)), Some(early));
    assert_eq!(nearest_deadline(Some(late), None), Some(late));
    assert_eq!(nearest_deadline(None, None), None);
}

#[test]
fn cleanup_failure_keeps_retrying_with_scheduled_reconnect() {
    let mut state = ConnectionSnapshot::default();
    let mut preferred = Some("device-id".to_owned());
    let mut backoff = ReconnectBackoff::new(RECONNECT_BASE_DELAY_MS, RECONNECT_MAX_DELAY_MS);
    let mut deadline = Some(12_000u64);
    let error = PlatformError::BleCleanup("retained owner".to_owned());

    keep_reconnecting_after_cleanup_failure(
        &mut state,
        &mut preferred,
        &mut backoff,
        &mut deadline,
        &error,
        10_000,
    );

    assert_eq!(preferred, Some("device-id".to_owned()));
    assert!(deadline.is_some());
    let snapshot = state.clone();
    assert_eq!(snapshot.phase, ConnectionPhase::Reconnecting);
    assert_eq!(snapshot.reconnect_attempt, 1);
    assert!(snapshot.last_error.unwrap().contains("继续重试"));

    let mut preferred_none: Option<String> = None;
    let mut deadline2 = Some(12_000u64);
    keep_reconnecting_after_cleanup_failure(
        &mut state,
        &mut preferred_none,
        &mut backoff,
        &mut deadline2,
        &error,
        10_000,
    );
    assert_eq!(deadline2, None);
    assert_eq!(state.phase, ConnectionPhase::Failed);
}

#[test]
fn backoff_doubles_up_to_thirty_seconds_and_resets() {
    let mut backoff = ReconnectBackoff::new(RECONNECT_BASE_DELAY_MS, RECONNECT_MAX_DELAY_MS);
    let delays: Vec<u64> = (0..7).map(|_| backoff.schedule_next().1).collect();
    assert_eq!(delays, vec![2_000, 4_000, 8_000, 16_000, 30_000, 30_000, 30_000]);
    assert_eq!(backoff.attempt(), 7);
    backoff.reset();
    assert_eq!(backoff.schedule_next(), (1, 2_000));
}

#[test]
fn reconnect_text_names_delay_and_attempt() {
    let mut state = ConnectionSnapshot::default();
    let mut backoff = ReconnectBackoff::new(RECONNECT_BASE_DELAY_MS, RECONNECT_MAX_DELAY_MS);
    let mut deadline = None;
    schedule_reconnect(&mut state, &mut backoff, &mut deadline, 500, "断开");
    assert_eq!(state.last_error.as_deref(), Some("断开；将在 2 秒后进行第 1 次重连"));
    assert_eq!(deadline, Some(2_500));
}

#[test]
fn supervisor_reconnects_and_cycles_the_radio_after_five_timer_failures() {
    let mut sup = BleSupervisor::new();
    sup.on_connect_requested("remote".to_owned());
    sup.begin_attempt(Ok(()), false, 0).unwrap();
    assert_eq!(sup.snapshot.phase, ConnectionPhase::Connecting);
    assert!(!sup.attempt_failed(PlatformError::Gatt("x".to_owned()), false, 0));
    assert_eq!(sup.reconnect_deadline, Some(2_000));
    let mut now = 2_000;
    let mut cycled = false;
    for _ in 0..4 {
        assert_eq!(sup.due_timer(now), DueTimer::Reconnect);
        let (device, attempt) = sup.on_reconnect_due().unwrap();
        assert_eq!(device, "remote");
        sup.begin_attempt(Ok(()), true, attempt).unwrap();
        cycled = sup.attempt_failed(PlatformError::Gatt("x".to_owned()), true, now);
        now = sup.reconnect_deadline.unwrap();
    }
    assert!(cycled);
    assert_eq!(sup.radio_recovery_cycles, 1);
    assert!(sup.snapshot.last_error.as_deref().unwrap().contains("第 1/2 次"));
    sup.radio_cycled(Ok(()), now);
    assert_eq!(sup.snapshot.reconnect_attempt, 0);
    assert_eq!(sup.reconnect_deadline, Some(now + 2_000));
}

#[test]
fn supervisor_suspends_and_resumes() {
    let mut sup = BleSupervisor::new();
    sup.on_connect_requested("remote".to_owned());
    let generation = sup.connection_generation;
    sup.on_suspended(Ok(()), 100);
    assert!(sup.system_suspended);
    assert_ne!(sup.connection_generation, generation);
    assert_eq!(sup.snapshot.phase, ConnectionPhase::Suspended);
    assert!(!sup.is_current(generation));
    sup.on_disconnected(Ok(()), 200);
    assert_eq!(sup.reconnect_deadline, None);
    sup.on_resumed(300);
    assert_eq!(sup.snapshot.phase, ConnectionPhase::Reconnecting);
    assert_eq!(sup.reconnect_deadline, Some(300));
    assert_eq!(sup.next_deadline(), Some(300));
}

#[test]
fn explicit_disconnect_stops_reconnecting() {
    let mut sup = BleSupervisor::new();
    sup.on_connect_requested("remote".to_owned());
    let answer = sup.on_disconnect_requested(Ok(()), 0);
    assert_eq!(answer.unwrap().phase, ConnectionPhase::Idle);
    sup.on_callback_error("boom".to_owned(), Ok(()), 10);
    assert_eq!(sup.reconnect_deadline, None);
    assert_eq!(sup.snapshot.phase, ConnectionPhase::Failed);
    assert_eq!(sup.snapshot.last_error.as_deref(), Some("boom"));
}

#[test]
fn ready_link_forgets_its_failure_streak() {
    let mut sup = BleSupervisor::new();
    sup.on_connect_requested("remote".to_owned());
    sup.begin_attempt(Ok(()), false, 0).unwrap();
    sup.attempt_connected("RC003".to_owned(), 0, 0);
    assert_eq!(sup.capabilities_deadline, Some(10_000));
    sup.snapshot.phase = ConnectionPhase::Ready;
    assert!(!sup.settle_after_control());
    assert_eq!(sup.capabilities_deadline, None);
    assert_eq!(sup.backoff.attempt(), 0);
}

#[test]
fn teardown_errors_are_joined() {
    assert_eq!(cleanup_result(Ok(()), Ok(())), Ok(()));
    assert_eq!(
        cleanup_result(Err(PlatformError::AudioBusy), Err(PlatformError::Gatt("close".to_owned()))),
        Err(PlatformError::BleCleanup(
            "音频中断：WASAPI output is busy with an active voice session；RC003 GATT operation failed: close"
                .to_owned()
        ))
    );
    assert_eq!(
        cleanup_result(Ok(()), Err(PlatformError::WorkerUnavailable)),
        Err(PlatformError::BleCleanup("BLE worker is unavailable".to_owned()))
    );
}

#[test]
fn an_aborted_session_keeps_a_confirmed_link_ready() {
    let mut snapshot = sayall::platform::ConnectionSnapshot::default();
    snapshot.capabilities_confirmed = true;
    voice_session_aborted(&mut snapshot, "WASAPI 音频流失败".to_owned());
    assert_eq!(snapshot.phase, sayall::platform::ConnectionPhase::Ready);
    assert_eq!(snapshot.last_error.as_deref(), Some("WASAPI 音频流失败"));
    snapshot.capabilities_confirmed = false;
    voice_session_aborted(&mut snapshot, "x".to_owned());
    assert_eq!(snapshot.phase, sayall::platform::ConnectionPhase::Failed);
}

#[test]
fn power_notifications_map_to_suspend_and_resume() {
    assert_eq!(power_event(0x4), Some(PowerEvent::Suspended));
    for code in [0x6, 0x7, 0x12] {
        assert_eq!(power_event(code), Some(PowerEvent::Resumed));
    }
    assert_eq!(power_event(0xA), None);
}

fn awaiting_supervisor() -> BleSupervisor {
    let mut s = BleSupervisor::new();
    s.snapshot.phase = ConnectionPhase::AwaitingCapabilities;
    s
}

#[test]
fn control_results_drive_the_status_view() {
    let mut s = awaiting_supervisor();
    assert_eq!(s.on_control_event(ControlEvent::Ready, true, 0), ControlAction::Nothing);
    assert_eq!(s.snapshot.phase, ConnectionPhase::Ready);
    assert!(s.snapshot.capabilities_confirmed);
    assert_eq!(s.snapshot.last_error, None);

    assert_eq!(
        s.on_control_event(ControlEvent::MicrophoneOpenRequested, true, 0),
        ControlAction::OpenMicrophone
    );
    assert_eq!(
        s.on_control_event(ControlEvent::MicrophoneOpenRequested, false, 0),
        ControlAction::Nothing
    );

    let action = s.on_control_event(
        ControlEvent::StreamStarted { session_id: 3, generation: 9 },
        true,
        1_000,
    );
    assert_eq!(action, ControlAction::BeginStream { session_id: 3, generation: 9 });
    assert_eq!(s.extend_deadline, Some(1_000 + MICROPHONE_EXTEND_INTERVAL_MS));
    assert!(!s.stream_begun(9, Ok(())));
    assert_eq!(s.snapshot.phase, ConnectionPhase::Streaming);
    assert_eq!(s.snapshot.voice_state, VoiceSessionState::Streaming);
    assert_eq!(s.snapshot.generation, 9);

    assert!(!s.on_audio_event(
        AudioEvent::Samples { generation: 9, count: 160, queued: Ok(()) },
        true
    ));
    assert!(!s.on_audio_event(
        AudioEvent::Samples { generation: 9, count: 40, queued: Ok(()) },
        true
    ));
    assert_eq!(s.snapshot.decoded_samples, 200);

    assert_eq!(
        s.on_control_event(ControlEvent::StreamStopped { generation: 9 }, false, 2_000),
        ControlAction::FinishStream { generation: 9 }
    );
    assert_eq!(s.snapshot.phase, ConnectionPhase::Draining);
    assert_eq!(s.snapshot.voice_state, VoiceSessionState::Draining);
    assert_eq!(s.extend_deadline, None);
    assert_eq!(s.stream_finished(Ok(())), StreamEnd::Completed { samples: 200 });
    assert_eq!(s.snapshot.phase, ConnectionPhase::Ready);
    assert_eq!(s.snapshot.voice_state, VoiceSessionState::Idle);
    assert_eq!(s.active_voice_samples, 0);
}

#[test]
fn control_failures_and_aborts() {
    let mut s = awaiting_supervisor();
    s.on_control_event(ControlEvent::Failed("bad caps".to_string()), true, 0);
    assert_eq!(s.snapshot.phase, ConnectionPhase::Failed);
    assert_eq!(s.snapshot.last_error.as_deref(), Some("bad caps"));

    let mut s = awaiting_supervisor();
    s.on_control_event(ControlEvent::Ready, true, 0);
    s.on_control_event(ControlEvent::Failed("odd".to_string()), true, 0);
    assert_eq!(s.snapshot.phase, ConnectionPhase::Ready, "a ready link stays ready");
    assert_eq!(
        s.on_control_event(ControlEvent::MicrophoneOpenRequested, true, 0),
        ControlAction::OpenMicrophone
    );
    s.microphone_open_failed("no mic".to_string());
    assert_eq!(s.snapshot.last_error.as_deref(), Some("no mic"));

    s.on_control_event(ControlEvent::StreamStarted { session_id: 1, generation: 2 }, true, 0);
    assert!(s.stream_begun(2, Err(StreamStartFailure::HotkeyPress("denied".to_string()))));
    assert_eq!(s.snapshot.phase, ConnectionPhase::Ready);
    assert_eq!(s.snapshot.voice_state, VoiceSessionState::Idle);
    assert_eq!(s.snapshot.last_error.as_deref(), Some("按住说话快捷键注入失败：denied"));

    s.on_control_event(ControlEvent::StreamStarted { session_id: 1, generation: 3 }, true, 0);
    s.stream_begun(3, Ok(()));
    assert!(s.on_audio_event(AudioEvent::OutputFailed("device lost".to_string()), true));
    assert_eq!(s.snapshot.voice_state, VoiceSessionState::Idle);
    assert_eq!(s.snapshot.last_error.as_deref(), Some("device lost"));
    assert!(!s.on_audio_event(AudioEvent::DecodeFailed("x".to_string()), false));

    s.on_control_event(ControlEvent::StreamStopped { generation: 3 }, false, 0);
    assert_eq!(
        s.stream_finished(Err(DrainFailure::Pipeline("late".to_string()))),
        StreamEnd::DrainRefused
    );
    assert_eq!(s.snapshot.phase, ConnectionPhase::Draining);
    assert_eq!(
        s.stream_finished(Err(DrainFailure::Audio("stuck".to_string()))),
        StreamEnd::Aborted
    );
    assert_eq!(s.snapshot.phase, ConnectionPhase::Ready);
    assert_eq!(s.snapshot.last_error.as_deref(), Some("stuck"));
    assert_eq!(s.on_control_event(ControlEvent::Ignored, true, 0), ControlAction::Nothing);
}
