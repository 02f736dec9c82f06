use sayall::platform::ConnectionPhase;
use sayall::raw_input::{ButtonEdge, RemoteButton};
use sayall::rc003_helper::{
    accepted_message, constant_token, finish_session, hello_accepted, safe_code,
    token_from_nonce, FrameOutcome, HelperFrame, HelperSession, HelperTick, InputHealth,
    LineBuffer, SequenceCheck,
};
use sayall::rc003_user_hid::{
    LinkState, SourceScope, UserHidPermit, UserHidPhase, UserHidReport, UserHidSession,
    UserHidSnapshot,
};

fn report(seq: u64, active: Vec<RemoteButton>) -> UserHidReport {
    UserHidReport {
        id: 1,
        seq,
        stream: 1,
        scope: SourceScope::ProxyUnverified,
        active,
        received_at_ms: 5_000,
    }
}

#[test]
fn confirms_each_pair_without_executing_it_and_deduplicates_states() {
    let link = LinkState::default();
    let now = 5_000;
    let mut session = UserHidSession::new(UserHidPermit::fixture(1));
    assert!(session.observe(report(1, vec![]), &link, now).unwrap().is_empty());
    assert!(session
        .observe(report(2, vec![RemoteButton::Back]), &link, now)
        .unwrap()
        .is_empty());
    assert!(session.observe(report(3, vec![]), &link, now).unwrap().is_empty());
    assert_eq!(session.confirmed(), vec![RemoteButton::Back]);
    assert_eq!(
        session
            .observe(report(4, vec![RemoteButton::Back]), &link, now)
            .unwrap()
            .len(),
        1
    );
    assert!(session
        .observe(report(5, vec![RemoteButton::Back]), &link, now)
        .unwrap()
        .is_empty());
    assert_eq!(
        session.observe(report(6, vec![]), &link, now).unwrap(),
        vec![ButtonEdge {
            button: RemoteButton::Back,
            is_pressed: false
        }]
    );
}

#[test]
fn rejects_other_keys_replays_source_changes_and_stopped_sessions() {
    let link = LinkState::default();
    let now = 5_000;
    for case in 0..5 {
        let mut session = UserHidSession::new(UserHidPermit::fixture(1));
        session.observe(report(1, vec![]), &link, now).unwrap();
        let mut input = report(2, vec![]);
        match case {
            0 => input.active.push(RemoteButton::OkButton),
            1 => input.seq = 1,
            2 => input.stream = 2,
            3 => input.scope = SourceScope::Rc003,
            _ => session.cancel_permit(),
        }
        assert!(session.observe(input, &link, now).is_err());
        assert!(!session.permit().valid(&link));
    }
}

#[test]
fn input_health_bounds_reports_and_missing_release_without_waiting() {
    let now = 1_000u64;
    let mut health = InputHealth::new(now);
    health.observe(&[RemoteButton::Back], now).unwrap();
    assert!(!health.expired(now + 9_000));
    assert!(health.expired(now + 10_000));
    health.observe(&[], now + 10_000).unwrap();
    assert!(!health.expired(now + 11_000));
    assert!(health
        .observe(&[RemoteButton::OkButton], now + 11_000)
        .is_err());
    let mut flood = InputHealth::new(now);
    for _ in 0..256 {
        flood.observe(&[], now).unwrap();
    }
    assert!(flood.observe(&[], now).is_err());
}

#[test]
fn stale_reports_and_old_links_are_refused() {
    let mut link = LinkState::default();
    link.note_peer(0xAABB, true);
    link.note_phase(ConnectionPhase::Ready);
    let (permit, peer) = UserHidPermit::for_link(&link, 7).unwrap();
    assert_eq!(peer, 0xAABB);
    assert!(permit.valid(&link));
    let mut session = UserHidSession::new(permit);
    let mut late = report(1, vec![]);
    late.id = 7;
    late.received_at_ms = 1_000;
    assert_eq!(session.observe(late, &link, 3_001), Err("invalid_report_or_source"));
    link.note_phase(ConnectionPhase::Disconnected);
    assert!(UserHidPermit::for_link(&link, 8).is_err());
    let mut fresh = report(2, vec![]);
    fresh.id = 7;
    assert_eq!(session.observe(fresh, &link, 5_000), Err("stale_session"));
    link.invalidate_link();
    assert_eq!(link.peer, None);
}

#[test]
fn helper_protocol_frames_lines_and_checks_tokens() {
    let mut reader = LineBuffer::new();
    assert!(reader.feed(b"{\"kind\":\"heart").unwrap().is_empty());
    let lines = reader
        .feed(b"beat\",\"seq\":0}\n{\"kind\":\"heartbeat\",\"seq\":1}\n")
        .unwrap();
    assert_eq!(lines.len(), 2);
    assert_eq!(lines[0], b"{\"kind\":\"heartbeat\",\"seq\":0}".to_vec());
    assert!(LineBuffer::new().feed(&vec![b'x'; 8193]).is_err());
    assert!(LineBuffer::new().feed(&vec![b'\n'; 65]).is_err());
    let mut seq = SequenceCheck { next: 0 };
    assert!(seq.accept(0).is_ok());
    assert!(seq.accept(0).is_err());
    assert!(constant_token(&"a".repeat(64), &"a".repeat(64)));
    assert!(!constant_token(&"b".repeat(64), &"a".repeat(64)));
    assert!(!constant_token("abc", "abc"));
    assert!(!safe_code("private/path"));
    assert!(safe_code("stop_requested"));
}

#[test]
fn helper_session_handshake_and_loop_decisions() {
    let token = token_from_nonce(&[0xAB; 32]);
    assert_eq!(token, "ab".repeat(32));
    let hello = vec![HelperFrame::Hello { seq: 0, token: token.clone(), protocol: 1 }];
    assert!(hello_accepted(&hello, &token));
    let wrong = vec![HelperFrame::Hello { seq: 0, token: token.clone(), protocol: 2 }];
    assert!(!hello_accepted(&wrong, &token));
    assert_eq!(
        accepted_message(0x1234),
        "{\"kind\":\"accepted\",\"peer\":\"000000001234\"}\n"
    );
    let mut session = HelperSession::new(0, 40_000);
    assert_eq!(session.tick(10, true), HelperTick::Continue { send_lease: true });
    assert_eq!(session.tick(20, true), HelperTick::Continue { send_lease: false });
    assert_eq!(
        session.on_frame(HelperFrame::Ready { seq: 1, scope: SourceScope::Rc003 }, 30),
        FrameOutcome::Begin(SourceScope::Rc003)
    );
    assert_eq!(
        session.on_frame(
            HelperFrame::State {
                seq: 2,
                stream: 1,
                scope: SourceScope::Rc003,
                active: vec![RemoteButton::Back]
            },
            40
        ),
        FrameOutcome::Forward {
            seq: 2,
            stream: 1,
            scope: SourceScope::Rc003,
            active: vec![RemoteButton::Back]
        }
    );
    assert_eq!(
        session.tick(10_040, true),
        HelperTick::Stop(Err("held_key_timeout".to_owned()))
    );
    assert_eq!(
        session.on_frame(HelperFrame::Heartbeat { seq: 3 }, 50),
        FrameOutcome::Continue
    );
    assert_eq!(
        session.on_frame(HelperFrame::Hello { seq: 4, token, protocol: 1 }, 60),
        FrameOutcome::Stop("ipc_unexpected_message".to_owned())
    );
    assert_eq!(
        finish_session(Ok("session_ended".to_owned()), false),
        Err("helper_cleanup_unconfirmed".to_owned())
    );
    assert_eq!(
        finish_session(Ok("session_ended".to_owned()), true),
        Ok(("session_ended".to_owned(), true))
    );
}

fn frame_seqs(reader: &mut LineBuffer, sequence: &mut SequenceCheck, bytes: &[u8]) -> Result<usize, String> {
    let lines = reader.feed(bytes).map_err(str::to_owned)?;
    for line in &lines {
        let value: serde_json::Value =
            serde_json::from_slice(line).map_err(|_| "ipc_invalid_message".to_owned())?;
        let seq = value["seq"].as_u64().ok_or("ipc_invalid_message")?;
        sequence.accept(seq).map_err(str::to_owned)?;
    }
    Ok(lines.len())
}

#[test]
fn protocol_handles_split_frames_and_rejects_replay_unknown_fields_and_flood() {
    let mut reader = LineBuffer::new();
    let mut sequence = SequenceCheck { next: 0 };
    assert_eq!(frame_seqs(&mut reader, &mut sequence, b"{\"kind\":\"heart"), Ok(0));
    assert_eq!(
        frame_seqs(
            &mut reader,
            &mut sequence,
            b"beat\",\"seq\":0}\n{\"kind\":\"heartbeat\",\"seq\":1}\n"
        ),
        Ok(2)
    );
    assert!(frame_seqs(&mut reader, &mut sequence, b"{\"kind\":\"heartbeat\",\"seq\":1}\n").is_err());
    assert!(LineBuffer::new().feed(&vec![b'x'; 8193]).is_err());
    assert!(constant_token(&"a".repeat(64), &"a".repeat(64)));
    assert!(!constant_token(&"b".repeat(64), &"a".repeat(64)));
    assert!(!safe_code("private/path"));
}

#[test]
fn only_a_ready_helper_has_an_unverified_source() {
    let ready = UserHidSnapshot::status(UserHidPhase::Ready, None, false);
    assert!(ready.available);
    assert_eq!(ready.scope, Some(SourceScope::ProxyUnverified));
    let stopped = UserHidSnapshot::status(UserHidPhase::Stopped, Some("helper_exited".to_owned()), true);
    assert_eq!(stopped.scope, None);
    assert!(stopped.cleanup_confirmed);
    assert_eq!(stopped.reason.as_deref(), Some("helper_exited"));
}
