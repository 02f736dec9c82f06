use sayall::audio::{order_endpoints, restorable_endpoint};
use sayall::platform::AudioEndpoint;
use sayall::audio::{
    audio_error, enqueue_samples, AudioWorker, DrainStatus, MAX_QUEUE_SAMPLES, PREBUFFER_SAMPLES,
};
use sayall::platform::{AudioPhase, AudioSnapshot, PlatformError};
use std::collections::VecDeque;

fn streaming_state(generation: u64) -> AudioSnapshot {
    AudioSnapshot {
        phase: AudioPhase::Streaming,
        generation,
        ..AudioSnapshot::default()
    }
}

#[test]
fn pcm_queue_accepts_only_the_current_generation() {
    let mut state = streaming_state(7);
    let mut queue = VecDeque::new();
    enqueue_samples(&mut queue, &mut state, 7, vec![1, 2, 3]).unwrap();
    assert_eq!(queue.into_iter().collect::<Vec<_>>(), vec![1, 2, 3]);
    assert_eq!(state.queued_samples, 3);

    let mut stale_queue = VecDeque::new();
    assert_eq!(
        enqueue_samples(&mut stale_queue, &mut state, 6, vec![4]),
        Err(PlatformError::AudioSessionMismatch)
    );
    assert!(stale_queue.is_empty());
}

#[test]
fn pcm_queue_fails_closed_at_its_bounded_capacity() {
    let mut state = streaming_state(1);
    let mut queue = VecDeque::from(vec![0; MAX_QUEUE_SAMPLES]);
    assert_eq!(
        enqueue_samples(&mut queue, &mut state, 1, vec![1]),
        Err(PlatformError::AudioQueueOverflow)
    );
    assert_eq!(queue.len(), MAX_QUEUE_SAMPLES);
}

fn ready_worker() -> AudioWorker {
    let mut worker = AudioWorker::new();
    worker.on_select_endpoint().unwrap();
    worker.endpoint_opened("{endpoint}".to_owned(), "CABLE Input".to_owned());
    worker
}

#[test]
fn a_session_needs_an_endpoint_and_an_idle_output() {
    let worker = AudioWorker::new();
    assert_eq!(
        worker.begin_session_check(),
        Err(PlatformError::AudioEndpointNotSelected)
    );
    let mut worker = ready_worker();
    assert_eq!(worker.snapshot.phase, AudioPhase::Ready);
    assert_eq!(worker.snapshot.selected_endpoint_name.as_deref(), Some("CABLE Input"));
    assert_eq!(worker.begin_session_check(), Ok(()));
    let snapshot = worker.session_begun(9);
    assert_eq!(snapshot.phase, AudioPhase::Streaming);
    assert_eq!(snapshot.generation, 9);
    assert_eq!(worker.begin_session_check(), Err(PlatformError::AudioBusy));
    assert_eq!(worker.on_select_endpoint(), Err(PlatformError::AudioBusy));
}

#[test]
fn frames_leave_the_queue_in_order_as_little_endian_bytes() {
    let mut worker = ready_worker();
    worker.session_begun(1);
    assert!(!worker.pump_needs_device());
    assert_eq!(worker.on_samples(1, vec![0x0102, -1, 3]), None);
    assert!(!worker.pump_needs_device(), "below the prebuffer the stream waits");
    let (bytes, frames) = worker.take_frames(2);
    assert_eq!(frames, 2);
    assert_eq!(bytes, vec![0x02, 0x01, 0xFF, 0xFF]);
    worker.pump_finished(frames);
    assert!(worker.sink.as_ref().unwrap().started);
    assert_eq!(worker.snapshot.submitted_samples, 2);
    assert_eq!(worker.snapshot.queued_samples, 1);
    assert!(worker.pump_needs_device());
    let (bytes, frames) = worker.take_frames(10);
    assert_eq!((bytes, frames), (vec![3, 0], 1));
    assert_eq!(PREBUFFER_SAMPLES, 480);
}

#[test]
fn finishing_drains_then_returns_to_ready() {
    let mut worker = ready_worker();
    worker.session_begun(4);
    assert_eq!(worker.on_samples(4, vec![5; 10]), None);
    assert_eq!(
        worker.on_finish_session(3),
        Err(PlatformError::AudioSessionMismatch)
    );
    worker.on_finish_session(4).unwrap();
    assert_eq!(worker.snapshot.phase, AudioPhase::Draining);
    assert_eq!(worker.on_samples(4, vec![1]), None, "a draining session takes no samples");
    assert_eq!(worker.queue.len(), 10);
    assert_eq!(worker.drain_status(), DrainStatus::Queued);
    worker.take_frames(10);
    assert_eq!(worker.drain_status(), DrainStatus::Drained);
    worker.pump_finished(10);
    assert_eq!(worker.drain_status(), DrainStatus::AskDevice);
    assert_eq!(worker.take_pending_drain(), Some(4));
    assert_eq!(worker.finish_drain_check(), Ok(()));
    let snapshot = worker.drain_finished(4).unwrap();
    assert_eq!(snapshot.phase, AudioPhase::Ready);
    assert_eq!(snapshot.submitted_samples, 10);
}

#[test]
fn interrupt_withdraws_the_pending_finish_and_refuses_late_samples() {
    let mut worker = ready_worker();
    worker.session_begun(2);
    worker.on_finish_session(2).unwrap();
    assert_eq!(worker.begin_interrupt(), Some(2));
    let snapshot = worker.interrupt_finished();
    assert_eq!(snapshot.phase, AudioPhase::Ready);
    assert_eq!(snapshot.generation, 0);
    assert_eq!(worker.on_samples(2, vec![1]), None);
    assert!(worker.queue.is_empty());

    let mut lost = AudioWorker::new();
    lost.snapshot.selected_endpoint_id = Some("gone".to_owned());
    assert_eq!(lost.interrupt_finished().phase, AudioPhase::Failed);
    assert_eq!(AudioWorker::new().interrupt_finished().phase, AudioPhase::Unconfigured);
}

#[test]
fn an_overflow_fails_the_output() {
    let mut worker = ready_worker();
    worker.session_begun(1);
    assert_eq!(worker.on_samples(1, vec![0; MAX_QUEUE_SAMPLES]), None);
    assert_eq!(
        worker.on_samples(1, vec![0]),
        Some(PlatformError::AudioQueueOverflow)
    );
    assert_eq!(worker.snapshot.phase, AudioPhase::Failed);
    assert!(worker.sink.is_none());
    assert!(worker.queue.is_empty());
    assert_eq!(
        worker.failure().as_deref(),
        Some("WASAPI PCM queue exceeded its bounded capacity")
    );
    assert_eq!(ready_worker().failure(), None);
}

#[test]
fn audio_errors_name_the_operation() {
    assert_eq!(
        audio_error("重置 WASAPI 会话", "E_FAIL"),
        PlatformError::Audio("重置 WASAPI 会话失败：E_FAIL".to_owned())
    );
    let mut worker = ready_worker();
    worker.endpoint_failed(&PlatformError::Audio("x".to_owned()));
    assert_eq!(worker.failure().as_deref(), Some("WASAPI failed: x"));
}

#[test]
fn endpoints_list_cable_candidates_first_then_by_name() {
    let endpoint = |id: &str, name: &str, cable: bool| AudioEndpoint {
        id: id.to_owned(),
        name: name.to_owned(),
        is_virtual_cable_candidate: cable,
    };
    let ordered = order_endpoints(vec![
        endpoint("1", "speakers", false),
        endpoint("2", "CABLE Input", true),
        endpoint("3", "Headphones", false),
        endpoint("4", "headphones", false),
        endpoint("5", "Alpha", false),
    ]);
    let ids: Vec<&str> = ordered.iter().map(|e| e.id.as_str()).collect();
    assert_eq!(ids, vec!["2", "5", "3", "4", "1"]);
    assert!(order_endpoints(Vec::new()).is_empty());
}

#[test]
fn only_an_endpoint_with_the_same_identity_is_restored() {
    let endpoint = |id: &str, name: &str| AudioEndpoint {
        id: id.to_owned(),
        name: name.to_owned(),
        is_virtual_cable_candidate: false,
    };
    let endpoints = vec![
        endpoint("{a}", "Speakers"),
        endpoint("{b}", "CABLE Input"),
    ];
    assert_eq!(
        restorable_endpoint(&endpoints, "{b}", "CABLE Input"),
        Some(endpoint("{b}", "CABLE Input"))
    );
    assert_eq!(restorable_endpoint(&endpoints, "{b}", "Renamed"), None);
    assert_eq!(restorable_endpoint(&endpoints, "{c}", "CABLE Input"), None);
}
