//! The audio output worker: the bounded PCM queue of the current voice
//! session, the session phases (ready, streaming, draining), and what each
//! request does to them. Opening the render endpoint, writing frames and
//! resetting the stream are platform work; the worker is told their outcome.
use vstd::prelude::*;
use std::collections::VecDeque;
use crate::platform::{
    copy_opt_string, platform_error_text, AudioEndpoint, AudioPhase, AudioSnapshot, PlatformError,
};
use crate::text::{chars_of, to_unicode_lowercase, unicode_lowercase};
use crate::text::push_str;

verus! {

/// Sample rate of the decoded voice, in Hz.
pub const SOURCE_SAMPLE_RATE: u32 = 16000;

/// The decoded voice is mono.
pub const SOURCE_CHANNELS: u32 = 1;

/// Samples queued before the stream starts (30 ms of voice).
pub const PREBUFFER_SAMPLES: usize = 480;

/// At most two seconds of voice wait in the queue.
pub const MAX_QUEUE_SAMPLES: usize = 32000;

/// Requests that may wait for the worker at once.
pub const MESSAGE_QUEUE_CAPACITY: usize = 32;

/// How often an active worker pumps the queue, in milliseconds.
pub const POLL_INTERVAL_MS: u64 = 5;

/// How long a request waits for the worker's reply, in milliseconds.
pub const REQUEST_TIMEOUT_MS: u64 = 10000;

/// How long finishing a session may wait for the output to drain, in milliseconds.
pub const DRAIN_TIMEOUT_MS: u64 = 3000;

/// Whether `generation` is the session that is streaming now.
pub open spec fn session_matches(s: AudioSnapshot, generation: u64) -> bool {
    s.phase == AudioPhase::Streaming && s.generation == generation
}

/// An equal copy of a snapshot.
pub fn copy_snapshot(s: &AudioSnapshot) -> (r: AudioSnapshot)
    ensures
        r == *s,
{
    AudioSnapshot {
        phase: s.phase,
        selected_endpoint_id: copy_opt_string(&s.selected_endpoint_id),
        selected_endpoint_name: copy_opt_string(&s.selected_endpoint_name),
        queued_samples: s.queued_samples,
        submitted_samples: s.submitted_samples,
        generation: s.generation,
        last_error: copy_opt_string(&s.last_error),
    }
}

/// Queues the samples of session `generation`. Samples of any other session
/// are refused with `AudioSessionMismatch`; samples that would take the queue
/// past `MAX_QUEUE_SAMPLES` are refused whole with `AudioQueueOverflow`.
/// A refusal changes nothing.
pub fn enqueue_samples(
    queue: &mut VecDeque<i16>,
    state: &mut AudioSnapshot,
    generation: u64,
    samples: Vec<i16>,
) -> (r: Result<(), PlatformError>)
    ensures
        !session_matches(*old(state), generation) ==> {
            &&& r == Err::<(), PlatformError>(PlatformError::AudioSessionMismatch)
            &&& final(queue)@ == old(queue)@
            &&& *final(state) == *old(state)
        },
        session_matches(*old(state), generation) && old(queue)@.len() + samples@.len()
            > MAX_QUEUE_SAMPLES ==> {
            &&& r == Err::<(), PlatformError>(PlatformError::AudioQueueOverflow)
            &&& final(queue)@ == old(queue)@
            &&& *final(state) == *old(state)
        },
        session_matches(*old(state), generation) && old(queue)@.len() + samples@.len()
            <= MAX_QUEUE_SAMPLES ==> {
            &&& r is Ok
            &&& final(queue)@ == old(queue)@ + samples@
            &&& *final(state) == (AudioSnapshot {
                queued_samples: final(queue)@.len() as u64,
                ..*old(state)
            })
        },
{
    if !(state.phase == AudioPhase::Streaming && state.generation == generation) {
        return Err(PlatformError::AudioSessionMismatch);
    }
    let len = queue.len();
    if len > MAX_QUEUE_SAMPLES || samples.len() > MAX_QUEUE_SAMPLES - len {
        return Err(PlatformError::AudioQueueOverflow);
    }
    let ghost start = queue@;
    let mut i: usize = 0;
    while i < samples.len()
        invariant
            i <= samples@.len(),
            queue@ == start + samples@.subrange(0, i as int),
        decreases samples@.len() - i,
    {
        queue.push_back(samples[i]);
        i = i + 1;
        assert(queue@ =~= start + samples@.subrange(0, i as int));
    }
    assert(samples@.subrange(0, samples@.len() as int) =~= samples@);
    state.queued_samples = queue.len() as u64;
    Ok(())
}

/// The error of a failed audio operation: `"<operation>失败：<detail>"`.
pub fn audio_error(operation: &str, detail: &str) -> (r: PlatformError)
    ensures
        r matches PlatformError::Audio(d) && d@ == operation@ + "失败："@ + detail@,
{
    let mut d = String::from_str(operation);
    push_str(&mut d, "失败：");
    push_str(&mut d, detail);
    PlatformError::Audio(d)
}

/// The snapshot of a failed output: phase `Failed` with `error`, all else initial.
pub fn failed_snapshot(error: String) -> (r: AudioSnapshot)
    ensures
        r.phase == AudioPhase::Failed,
        r.last_error == Some(error),
        r.selected_endpoint_id is None && r.selected_endpoint_name is None,
        r.queued_samples == 0 && r.submitted_samples == 0 && r.generation == 0,
{
    AudioSnapshot {
        phase: AudioPhase::Failed,
        selected_endpoint_id: None,
        selected_endpoint_name: None,
        queued_samples: 0,
        submitted_samples: 0,
        generation: 0,
        last_error: Some(error),
    }
}


/// The render endpoint the worker holds open.
#[derive(Debug, Clone, PartialEq, Eq)]
pub struct SinkStatus {
    /// The endpoint's friendly name.
    pub name: String,
    /// Whether the stream was started (after the first frames were written).
    pub started: bool,
}

/// What the worker knows: the published snapshot, the queued samples of the
/// current session, the open endpoint, and the session whose drain a finish
/// request waits for.
#[derive(Debug)]
pub struct AudioWorker {
    pub snapshot: AudioSnapshot,
    pub queue: VecDeque<i16>,
    pub sink: Option<SinkStatus>,
    pub pending_drain: Option<u64>,
}

/// Where the drain of a finishing session stands.
#[derive(Debug, Clone, Copy, PartialEq, Eq, Structural)]
pub enum DrainStatus {
    /// Samples are still queued.
    Queued,
    /// Nothing is queued and nothing was ever written: drained.
    Drained,
    /// Nothing is queued; the device's padding decides.
    AskDevice,
}

/// Whether `n` is the snapshot `s` after `error` failed the output: phase
/// `Failed`, nothing queued, the error's text recorded, all else kept.
pub open spec fn failed_after(n: AudioSnapshot, s: AudioSnapshot, error: PlatformError) -> bool {
    &&& n.phase == AudioPhase::Failed
    &&& n.queued_samples == 0
    &&& (n.last_error matches Some(t) && t@ == platform_error_text(error))
    &&& n.selected_endpoint_id == s.selected_endpoint_id
    &&& n.selected_endpoint_name == s.selected_endpoint_name
    &&& n.submitted_samples == s.submitted_samples
    &&& n.generation == s.generation
}

/// The snapshot after an interrupt: ready again with an open endpoint, else
/// failed if an endpoint had been chosen, else unconfigured; nothing queued
/// and no session.
pub open spec fn interrupted(s: AudioSnapshot, has_sink: bool) -> AudioSnapshot {
    AudioSnapshot {
        phase: if has_sink {
            AudioPhase::Ready
        } else if s.selected_endpoint_id is Some {
            AudioPhase::Failed
        } else {
            AudioPhase::Unconfigured
        },
        last_error: if has_sink { None } else { s.last_error },
        queued_samples: 0,
        generation: 0,
        ..s
    }
}

/// Whether the published snapshot and the worker's own state agree: only a
/// draining session has a pending finish, and the queue stays bounded.
pub open spec fn worker_wf(w: AudioWorker) -> bool {
    &&& w.queue@.len() <= MAX_QUEUE_SAMPLES
    &&& w.pending_drain is Some ==> w.snapshot.phase == AudioPhase::Draining
}

/// The two little-endian bytes of a sample.
pub open spec fn le_bytes(s: i16) -> Seq<u8> {
    seq![((s as u16) % 256) as u8, ((s as u16) / 256) as u8]
}

/// The little-endian bytes of the samples, in order.
pub open spec fn pcm_bytes(samples: Seq<i16>) -> Seq<u8>
    decreases samples.len(),
{
    if samples.len() == 0 {
        Seq::empty()
    } else {
        pcm_bytes(samples.drop_last()) + le_bytes(samples.last())
    }
}

fn sample_bytes(s: i16) -> (r: (u8, u8))
    ensures
        seq![r.0, r.1] == le_bytes(s),
{
    let u = s as u16;
    let lo = (u & 0xff) as u8;
    let hi = (u >> 8) as u8;
    assert((u & 0xff) == u % 256) by (bit_vector);
    assert((u >> 8) == u / 256) by (bit_vector);
    (lo, hi)
}

impl AudioWorker {
    /// A worker with no endpoint: the initial snapshot, nothing queued.
    pub fn new() -> (r: Self)
        ensures
            r.snapshot.is_initial(),
            r.queue@.len() == 0,
            r.sink is None,
            r.pending_drain is None,
            worker_wf(r),
    {
        AudioWorker {
            snapshot: AudioSnapshot::default(),
            queue: VecDeque::new(),
            sink: None,
            pending_drain: None,
        }
    }

    /// The output's failure, if it failed: its recorded error, else a
    /// generic text.
    pub fn failure(&self) -> (r: Option<String>)
        ensures
            self.snapshot.phase != AudioPhase::Failed ==> r is None,
            self.snapshot.phase == AudioPhase::Failed ==> (r matches Some(t) && (match self.snapshot.last_error {
                Some(e) => t@ == e@,
                None => t@ == "WASAPI 音频流失败"@,
            })),
    {
        if self.snapshot.phase == AudioPhase::Failed {
            match &self.snapshot.last_error {
                Some(e) => Some(e.clone()),
                None => Some(String::from_str("WASAPI 音频流失败")),
            }
        } else {
            None
        }
    }

    /// Fails the output with `error`: the endpoint is dropped, the queue
    /// emptied, the snapshot failed. Returns the session whose pending finish
    /// must now be answered with `error`.
    pub fn fail_audio(&mut self, error: &PlatformError) -> (pending: Option<u64>)
        ensures
            pending == old(self).pending_drain,
            final(self).pending_drain is None,
            final(self).queue@.len() == 0,
            final(self).sink is None,
            failed_after(final(self).snapshot, old(self).snapshot, *error),
            worker_wf(*final(self)),
    {
        let pending = self.pending_drain;
        self.pending_drain = None;
        self.queue.clear();
        self.sink = None;
        self.snapshot.phase = AudioPhase::Failed;
        self.snapshot.queued_samples = 0;
        self.snapshot.last_error = Some(error.message());
        pending
    }

    /// A request to select an endpoint: refused with `AudioBusy` while a
    /// session streams or drains (nothing changes); otherwise the current
    /// endpoint is closed and the queue emptied, and the new endpoint is to
    /// be opened.
    pub fn on_select_endpoint(&mut self) -> (r: Result<(), PlatformError>)
        ensures
            ({
                let busy = old(self).pending_drain is Some || old(self).snapshot.phase
                    == AudioPhase::Streaming || old(self).snapshot.phase == AudioPhase::Draining;
                &&& busy ==> r == Err::<(), PlatformError>(PlatformError::AudioBusy)
                    && final(self).snapshot == old(self).snapshot && final(self).queue@ == old(
                    self,
                ).queue@ && final(self).sink == old(self).sink && final(self).pending_drain
                    == old(self).pending_drain
                &&& !busy ==> r is Ok && final(self).sink is None && final(self).queue@.len() == 0
                    && final(self).snapshot == old(self).snapshot && final(self).pending_drain
                    is None
            }),
            worker_wf(*old(self)) ==> worker_wf(*final(self)),
    {
        if self.pending_drain.is_some() || self.snapshot.phase == AudioPhase::Streaming
            || self.snapshot.phase == AudioPhase::Draining {
            return Err(PlatformError::AudioBusy);
        }
        self.sink = None;
        self.queue.clear();
        Ok(())
    }

    /// The endpoint `endpoint_id`, named `name`, was opened: the output is
    /// ready on it with a fresh snapshot, which is returned.
    pub fn endpoint_opened(&mut self, endpoint_id: String, name: String) -> (r: AudioSnapshot)
        ensures
            r == final(self).snapshot,
            r.phase == AudioPhase::Ready,
            r.selected_endpoint_id == Some(endpoint_id),
            r.selected_endpoint_name == Some(name),
            r.queued_samples == 0 && r.submitted_samples == 0 && r.generation == 0,
            r.last_error is None,
            final(self).sink == Some(SinkStatus { name: name, started: false }),
            final(self).queue@ == old(self).queue@,
            final(self).pending_drain == old(self).pending_drain,
            worker_wf(*old(self)) && old(self).pending_drain is None ==> worker_wf(*final(self)),
    {
        let snapshot = AudioSnapshot {
            phase: AudioPhase::Ready,
            selected_endpoint_id: Some(endpoint_id),
            selected_endpoint_name: Some(name.clone()),
            queued_samples: 0,
            submitted_samples: 0,
            generation: 0,
            last_error: None,
        };
        self.sink = Some(SinkStatus { name, started: false });
        self.snapshot = copy_snapshot(&snapshot);
        snapshot
    }

    /// Opening the endpoint failed with `error`: the output is failed.
    pub fn endpoint_failed(&mut self, error: &PlatformError)
        ensures
            final(self).snapshot.phase == AudioPhase::Failed,
            final(self).snapshot.last_error matches Some(t) && t@ == platform_error_text(*error),
            final(self).snapshot.selected_endpoint_id is None,
            final(self).snapshot.selected_endpoint_name is None,
            final(self).snapshot.queued_samples == 0,
            final(self).snapshot.submitted_samples == 0,
            final(self).snapshot.generation == 0,
            final(self).sink == old(self).sink,
            final(self).queue@ == old(self).queue@,
            final(self).pending_drain == old(self).pending_drain,
            worker_wf(*old(self)) && old(self).pending_drain is None ==> worker_wf(*final(self)),
    {
        self.snapshot = failed_snapshot(error.message());
    }

    /// Whether a session may begin: an endpoint must be open
    /// (`AudioEndpointNotSelected`) and no session may stream or drain
    /// (`AudioBusy`). When it may, the stream is to be reset.
    pub fn begin_session_check(&self) -> (r: Result<(), PlatformError>)
        ensures
            self.sink is None ==> r == Err::<(), PlatformError>(
                PlatformError::AudioEndpointNotSelected,
            ),
            self.sink is Some && (self.snapshot.phase == AudioPhase::Streaming
                || self.snapshot.phase == AudioPhase::Draining) ==> r == Err::<(), PlatformError>(
                PlatformError::AudioBusy,
            ),
            self.sink is Some && self.snapshot.phase != AudioPhase::Streaming
                && self.snapshot.phase != AudioPhase::Draining ==> r is Ok,
    {
        if self.sink.is_none() {
            return Err(PlatformError::AudioEndpointNotSelected);
        }
        if self.snapshot.phase == AudioPhase::Streaming || self.snapshot.phase
            == AudioPhase::Draining {
            return Err(PlatformError::AudioBusy);
        }
        Ok(())
    }

    /// The stream was reset for session `generation`: the session streams
    /// from an empty queue with zeroed counters; the snapshot is returned.
    pub fn session_begun(&mut self, generation: u64) -> (r: AudioSnapshot)
        requires
            old(self).sink is Some,
        ensures
            r == final(self).snapshot,
            r == (AudioSnapshot {
                phase: AudioPhase::Streaming,
                queued_samples: 0,
                submitted_samples: 0,
                generation: generation,
                last_error: None,
                ..old(self).snapshot
            }),
            final(self).queue@.len() == 0,
            final(self).sink == Some(SinkStatus { name: old(self).sink->0.name, started: false }),
            final(self).pending_drain == old(self).pending_drain,
            worker_wf(*old(self)) && old(self).snapshot.phase != AudioPhase::Draining ==> worker_wf(
                *final(self),
            ),
    {
        match self.sink.take() {
            Some(s) => {
                self.sink = Some(SinkStatus { name: s.name, started: false });
            },
            None => {},
        }
        self.queue.clear();
        self.snapshot.phase = AudioPhase::Streaming;
        self.snapshot.queued_samples = 0;
        self.snapshot.submitted_samples = 0;
        self.snapshot.generation = generation;
        self.snapshot.last_error = None;
        copy_snapshot(&self.snapshot)
    }

    /// Samples of session `generation` arrived. They are queued as
    /// `enqueue_samples` says; samples of another session are dropped
    /// silently, and an overflow fails the output (the error is returned).
    pub fn on_samples(&mut self, generation: u64, samples: Vec<i16>) -> (r: Option<PlatformError>)
        requires
            worker_wf(*old(self)),
        ensures
            worker_wf(*final(self)),
            !session_matches(old(self).snapshot, generation) ==> r is None && final(self).snapshot
                == old(self).snapshot && final(self).queue@ == old(self).queue@ && final(self).sink
                == old(self).sink && final(self).pending_drain == old(self).pending_drain,
            session_matches(old(self).snapshot, generation) && old(self).queue@.len()
                + samples@.len() > MAX_QUEUE_SAMPLES ==> r == Some(PlatformError::AudioQueueOverflow)
                && failed_after(
                final(self).snapshot,
                old(self).snapshot,
                PlatformError::AudioQueueOverflow,
            ) && final(self).queue@.len() == 0 && final(self).sink is None,
            session_matches(old(self).snapshot, generation) && old(self).queue@.len()
                + samples@.len() <= MAX_QUEUE_SAMPLES ==> r is None && final(self).queue@ == old(
                self,
            ).queue@ + samples@ && final(self).snapshot == (AudioSnapshot {
                queued_samples: final(self).queue@.len() as u64,
                ..old(self).snapshot
            }) && final(self).sink == old(self).sink && final(self).pending_drain == old(
                self,
            ).pending_drain,
    {
        match enqueue_samples(&mut self.queue, &mut self.snapshot, generation, samples) {
            Ok(()) => None,
            Err(PlatformError::AudioSessionMismatch) => None,
            Err(e) => {
                let _ = self.fail_audio(&e);
                Some(e)
            },
        }
    }

    /// A request to finish session `generation`: refused with
    /// `AudioSessionMismatch` unless that session streams; otherwise the
    /// session drains and the finish waits for the drain.
    pub fn on_finish_session(&mut self, generation: u64) -> (r: Result<(), PlatformError>)
        ensures
            !session_matches(old(self).snapshot, generation) ==> r == Err::<(), PlatformError>(
                PlatformError::AudioSessionMismatch,
            ) && final(self).snapshot == old(self).snapshot && final(self).pending_drain == old(
                self,
            ).pending_drain,
            session_matches(old(self).snapshot, generation) ==> r is Ok && final(self).snapshot
                == (AudioSnapshot { phase: AudioPhase::Draining, ..old(self).snapshot })
                && final(self).pending_drain == Some(generation),
            final(self).queue@ == old(self).queue@,
            final(self).sink == old(self).sink,
            worker_wf(*old(self)) ==> worker_wf(*final(self)),
    {
        if !(self.snapshot.phase == AudioPhase::Streaming && self.snapshot.generation
            == generation) {
            return Err(PlatformError::AudioSessionMismatch);
        }
        self.snapshot.phase = AudioPhase::Draining;
        self.pending_drain = Some(generation);
        Ok(())
    }

    /// An interrupt begins: the pending finish, if any, is withdrawn (and
    /// returned, to be answered `AudioSessionInterrupted`) and the queue is
    /// emptied. An open endpoint is then to be reset.
    pub fn begin_interrupt(&mut self) -> (pending: Option<u64>)
        ensures
            pending == old(self).pending_drain,
            final(self).pending_drain is None,
            final(self).queue@.len() == 0,
            final(self).snapshot == old(self).snapshot,
            final(self).sink == old(self).sink,
    {
        let pending = self.pending_drain;
        self.pending_drain = None;
        self.queue.clear();
        pending
    }

    /// The interrupt completed (the endpoint, if open, was reset): see
    /// `interrupted`. The snapshot is returned.
    pub fn interrupt_finished(&mut self) -> (r: AudioSnapshot)
        ensures
            r == final(self).snapshot,
            r == interrupted(old(self).snapshot, old(self).sink is Some),
            final(self).queue@.len() == 0,
            final(self).pending_drain == old(self).pending_drain,
            old(self).sink is None ==> final(self).sink is None,
            old(self).sink matches Some(s) ==> final(self).sink == Some(
                SinkStatus { name: s.name, started: false },
            ),
            old(self).pending_drain is None ==> worker_wf(*final(self)),
    {
        self.queue.clear();
        match self.sink.take() {
            Some(s) => {
                self.sink = Some(SinkStatus { name: s.name, started: false });
                self.snapshot.last_error = None;
                self.snapshot.phase = AudioPhase::Ready;
            },
            None => {
                if self.snapshot.selected_endpoint_id.is_some() {
                    self.snapshot.phase = AudioPhase::Failed;
                } else {
                    self.snapshot.phase = AudioPhase::Unconfigured;
                }
            },
        }
        self.snapshot.queued_samples = 0;
        self.snapshot.generation = 0;
        copy_snapshot(&self.snapshot)
    }

    /// Whether a pump asks the device for room: an open endpoint whose stream
    /// started, or which has the prebuffer queued, or which must drain.
    pub fn pump_needs_device(&self) -> (r: bool)
        ensures
            r == (self.sink is Some && (self.sink->0.started || self.queue@.len()
                >= PREBUFFER_SAMPLES || self.pending_drain is Some)),
    {
        match &self.sink {
            Some(s) => s.started || self.queue.len() >= PREBUFFER_SAMPLES
                || self.pending_drain.is_some(),
            None => false,
        }
    }

    /// Takes the frames to write when the device has room for `available`:
    /// the oldest `min(available, queued)` samples leave the queue, and their
    /// little-endian bytes are returned with their count.
    pub fn take_frames(&mut self, available: u64) -> (r: (Vec<u8>, u64))
        ensures
            r.1 as int == (if available < old(self).queue@.len() {
                available as int
            } else {
                old(self).queue@.len() as int
            }),
            r.0@ == pcm_bytes(old(self).queue@.take(r.1 as int)),
            final(self).queue@ == old(self).queue@.skip(r.1 as int),
            final(self).snapshot == old(self).snapshot,
            final(self).sink == old(self).sink,
            final(self).pending_drain == old(self).pending_drain,
            worker_wf(*old(self)) ==> worker_wf(*final(self)),
    {
        let len = self.queue.len() as u64;
        let frames: u64 = if available < len {
            available
        } else {
            len
        };
        let ghost start = self.queue@;
        let mut bytes: Vec<u8> = Vec::new();
        let mut i: u64 = 0;
        while i < frames
            invariant
                i <= frames,
                frames <= start.len(),
                self.queue@ == start.skip(i as int),
                bytes@ == pcm_bytes(start.take(i as int)),
                self.snapshot == old(self).snapshot,
                self.sink == old(self).sink,
                self.pending_drain == old(self).pending_drain,
            decreases frames - i,
        {
            let s = self.queue.pop_front();
            match s {
                Some(x) => {
                    let (lo, hi) = sample_bytes(x);
                    bytes.push(lo);
                    bytes.push(hi);
                    proof {
                        let t = start.take(i as int + 1);
                        assert(t.drop_last() =~= start.take(i as int));
                        assert(t.last() == x);
                        assert(start.skip(i as int + 1) =~= start.skip(i as int).subrange(
                            1,
                            start.skip(i as int).len() as int,
                        ));
                    }
                },
                None => {},
            }
            i = i + 1;
        }
        (bytes, frames)
    }

    /// A pump ended, having written `submitted` frames: a non-empty write
    /// started the stream; the snapshot shows what is queued and the total
    /// submitted (saturating).
    pub fn pump_finished(&mut self, submitted: u64)
        ensures
            final(self).snapshot == (AudioSnapshot {
                queued_samples: old(self).queue@.len() as u64,
                submitted_samples: crate::platform::saturating_sum(
                    old(self).snapshot.submitted_samples,
                    submitted,
                ),
                ..old(self).snapshot
            }),
            submitted > 0 && old(self).sink is Some ==> final(self).sink == Some(
                SinkStatus { name: old(self).sink->0.name, started: true },
            ),
            submitted == 0 || old(self).sink is None ==> final(self).sink == old(self).sink,
            final(self).queue@ == old(self).queue@,
            final(self).pending_drain == old(self).pending_drain,
            worker_wf(*old(self)) ==> worker_wf(*final(self)),
    {
        if submitted > 0 {
            match self.sink.take() {
                Some(s) => {
                    self.sink = Some(SinkStatus { name: s.name, started: true });
                },
                None => {},
            }
        }
        self.snapshot.queued_samples = self.queue.len() as u64;
        self.snapshot.submitted_samples = self.snapshot.submitted_samples.saturating_add(
            submitted,
        );
    }

    /// Where the drain stands: queued samples first; with none queued, an
    /// absent or never started stream is drained, else the device decides.
    pub fn drain_status(&self) -> (r: DrainStatus)
        ensures
            self.queue@.len() > 0 ==> r == DrainStatus::Queued,
            self.queue@.len() == 0 && (self.sink is None || !self.sink->0.started) ==> r
                == DrainStatus::Drained,
            self.queue@.len() == 0 && self.sink is Some && self.sink->0.started ==> r
                == DrainStatus::AskDevice,
    {
        if self.queue.len() > 0 {
            return DrainStatus::Queued;
        }
        match &self.sink {
            Some(s) => if s.started {
                DrainStatus::AskDevice
            } else {
                DrainStatus::Drained
            },
            None => DrainStatus::Drained,
        }
    }

    /// Whether a drained session can be finished: it needs an open endpoint
    /// (`AudioEndpointNotSelected`), which is then to be reset.
    pub fn finish_drain_check(&self) -> (r: Result<(), PlatformError>)
        ensures
            self.sink is None ==> r == Err::<(), PlatformError>(
                PlatformError::AudioEndpointNotSelected,
            ),
            self.sink is Some ==> r is Ok,
    {
        if self.sink.is_none() {
            Err(PlatformError::AudioEndpointNotSelected)
        } else {
            Ok(())
        }
    }

    /// The drained session `generation` finished (the stream was reset): the
    /// queue is emptied; if the snapshot still shows that session, the output
    /// is ready again and the snapshot returned, else `AudioSessionMismatch`.
    pub fn drain_finished(&mut self, generation: u64) -> (r: Result<AudioSnapshot, PlatformError>)
        requires
            old(self).sink is Some,
        ensures
            final(self).queue@.len() == 0,
            final(self).sink == Some(SinkStatus { name: old(self).sink->0.name, started: false }),
            final(self).pending_drain == old(self).pending_drain,
            old(self).snapshot.generation != generation ==> r == Err::<
                AudioSnapshot,
                PlatformError,
            >(PlatformError::AudioSessionMismatch) && final(self).snapshot == old(self).snapshot,
            old(self).snapshot.generation == generation ==> final(self).snapshot == (AudioSnapshot {
                phase: AudioPhase::Ready,
                queued_samples: 0,
                last_error: None,
                ..old(self).snapshot
            }) && r == Ok::<AudioSnapshot, PlatformError>(final(self).snapshot),
            old(self).pending_drain is None && worker_wf(*old(self)) ==> worker_wf(*final(self)),
    {
        match self.sink.take() {
            Some(s) => {
                self.sink = Some(SinkStatus { name: s.name, started: false });
            },
            None => {},
        }
        self.queue.clear();
        if self.snapshot.generation != generation {
            return Err(PlatformError::AudioSessionMismatch);
        }
        self.snapshot.phase = AudioPhase::Ready;
        self.snapshot.queued_samples = 0;
        self.snapshot.last_error = None;
        Ok(copy_snapshot(&self.snapshot))
    }

    /// The pending finish, taken for the drain check.
    pub fn take_pending_drain(&mut self) -> (r: Option<u64>)
        ensures
            r == old(self).pending_drain,
            final(self).pending_drain is None,
            final(self).snapshot == old(self).snapshot,
            final(self).queue@ == old(self).queue@,
            final(self).sink == old(self).sink,
    {
        let p = self.pending_drain;
        self.pending_drain = None;
        p
    }

    /// The finish of session `generation` keeps waiting.
    pub fn keep_pending_drain(&mut self, generation: u64)
        ensures
            final(self).pending_drain == Some(generation),
            final(self).snapshot == old(self).snapshot,
            final(self).queue@ == old(self).queue@,
            final(self).sink == old(self).sink,
    {
        self.pending_drain = Some(generation);
    }
}


/// Lexicographic order of character sequences from position `i` on, by
/// code point (the order of Rust strings).
pub open spec fn lex_lt_from(a: Seq<char>, b: Seq<char>, i: int) -> bool
    decreases a.len() - i,
{
    if i < 0 || i >= a.len() {
        0 <= i < b.len()
    } else if i >= b.len() {
        false
    } else if (a[i] as u32) < (b[i] as u32) {
        true
    } else if a[i] == b[i] {
        lex_lt_from(a, b, i + 1)
    } else {
        false
    }
}

pub open spec fn lex_lt(a: Seq<char>, b: Seq<char>) -> bool {
    lex_lt_from(a, b, 0)
}

/// What endpoints are ordered by: virtual-cable candidates first, then the
/// lowercased name.
pub open spec fn endpoint_key(e: AudioEndpoint) -> (bool, Seq<char>) {
    (e.is_virtual_cable_candidate, unicode_lowercase(e.name@))
}

/// Whether key `a` comes strictly before key `b`.
pub open spec fn key_before(a: (bool, Seq<char>), b: (bool, Seq<char>)) -> bool {
    (a.0 && !b.0) || (a.0 == b.0 && lex_lt(a.1, b.1))
}

/// Whether `out` is `input` stably sorted by `endpoint_key`, with `perm`
/// saying where each entry came from.
pub open spec fn endpoints_ordered(input: Seq<AudioEndpoint>, out: Seq<AudioEndpoint>, perm: Seq<int>) -> bool {
    &&& perm.len() == input.len()
    &&& out.len() == input.len()
    &&& forall|k: int| 0 <= k < perm.len() ==> 0 <= #[trigger] perm[k] < input.len() && out[k] == input[perm[k]]
    &&& forall|a: int, b: int| 0 <= a < b < perm.len() ==> perm[a] != perm[b]
    &&& forall|a: int, b: int|
        0 <= a < b < out.len() ==> !key_before(endpoint_key(out[b]), endpoint_key(out[a]))
    &&& forall|a: int, b: int|
        0 <= a < b < out.len() && endpoint_key(out[a]) == endpoint_key(out[b]) ==> perm[a] < perm[b]
}

proof fn lemma_lex_irreflexive(a: Seq<char>, i: int)
    requires
        0 <= i,
    ensures
        !lex_lt_from(a, a, i),
    decreases a.len() - i,
{
    if i < a.len() {
        lemma_lex_irreflexive(a, i + 1);
    }
}

proof fn lemma_lex_asymmetric(a: Seq<char>, b: Seq<char>, i: int)
    requires
        0 <= i,
        lex_lt_from(a, b, i),
    ensures
        !lex_lt_from(b, a, i),
    decreases a.len() - i,
{
    if i < a.len() && i < b.len() && a[i] == b[i] {
        lemma_lex_asymmetric(a, b, i + 1);
    }
}

proof fn lemma_lex_transitive(a: Seq<char>, b: Seq<char>, c: Seq<char>, i: int)
    requires
        0 <= i,
        lex_lt_from(a, b, i),
        lex_lt_from(b, c, i),
    ensures
        lex_lt_from(a, c, i),
    decreases a.len() - i,
{
    if i < a.len() && i < b.len() && i < c.len() && a[i] == b[i] && b[i] == c[i] {
        lemma_lex_transitive(a, b, c, i + 1);
    }
}

proof fn lemma_key_order(x: (bool, Seq<char>), y: (bool, Seq<char>), z: (bool, Seq<char>))
    ensures
        !key_before(x, x),
        key_before(x, y) ==> !key_before(y, x),
        key_before(x, y) && key_before(y, z) ==> key_before(x, z),
{
    lemma_lex_irreflexive(x.1, 0);
    if key_before(x, y) && x.0 == y.0 {
        lemma_lex_asymmetric(x.1, y.1, 0);
    }
    if key_before(x, y) && key_before(y, z) && x.0 == y.0 && y.0 == z.0 {
        lemma_lex_transitive(x.1, y.1, z.1, 0);
    }
}

fn chars_lt(a: &Vec<char>, b: &Vec<char>) -> (r: bool)
    ensures
        r == lex_lt(a@, b@),
{
    let mut i: usize = 0;
    while i < a.len() && i < b.len() && a[i] == b[i]
        invariant
            i <= a@.len(),
            i <= b@.len(),
            lex_lt(a@, b@) == lex_lt_from(a@, b@, i as int),
        decreases a@.len() - i,
    {
        i = i + 1;
    }
    if i >= a.len() {
        i < b.len()
    } else if i >= b.len() {
        false
    } else {
        let x = a[i] as u32;
        let y = b[i] as u32;
        x < y
    }
}

fn copy_endpoint(e: &AudioEndpoint) -> (r: AudioEndpoint)
    ensures
        r == *e,
{
    AudioEndpoint {
        id: e.id.clone(),
        name: e.name.clone(),
        is_virtual_cable_candidate: e.is_virtual_cable_candidate,
    }
}

/// Orders the render endpoints for the settings window: virtual-cable
/// candidates first, then by lowercased name; equal keys keep their order.
pub fn order_endpoints(endpoints: Vec<AudioEndpoint>) -> (r: Vec<AudioEndpoint>)
    ensures
        exists|perm: Seq<int>| endpoints_ordered(endpoints@, r@, perm),
{
    let n = endpoints.len();
    let mut names: Vec<Vec<char>> = Vec::new();
    let mut k: usize = 0;
    while k < n
        invariant
            k <= n,
            n == endpoints@.len(),
            names@.len() == k,
            forall|j: int| 0 <= j < k ==> (#[trigger] names@[j])@ == unicode_lowercase(endpoints@[j].name@),
        decreases n - k,
    {
        let lowered = to_unicode_lowercase(endpoints[k].name.as_str());
        names.push(chars_of(lowered.as_str()));
        k = k + 1;
    }
    let ghost keys = Seq::new(n as nat, |j: int| endpoint_key(endpoints@[j]));
    let mut idx: Vec<usize> = Vec::new();
    let mut i: usize = 0;
    while i < n
        invariant
            i <= n,
            n == endpoints@.len(),
            names@.len() == n,
            forall|j: int| 0 <= j < n ==> (#[trigger] names@[j])@ == unicode_lowercase(endpoints@[j].name@),
            keys == Seq::new(n as nat, |j: int| endpoint_key(endpoints@[j])),
            idx@.len() == i,
            forall|a: int| 0 <= a < i ==> #[trigger] idx@[a] < i,
            forall|a: int, b: int| 0 <= a < b < i ==> idx@[a] != idx@[b],
            forall|a: int, b: int|
                0 <= a < b < i ==> !key_before(keys[idx@[b] as int], keys[idx@[a] as int]),
            forall|a: int, b: int|
                0 <= a < b < i && keys[idx@[a] as int] == keys[idx@[b] as int] ==> idx@[a] < idx@[b],
        decreases n - i,
    {
        let mut p: usize = 0;
        let mut found = false;
        while p < idx.len() && !found
            invariant
                p <= idx@.len(),
                idx@.len() == i,
                i < n,
                n == endpoints@.len(),
                names@.len() == n,
                forall|j: int| 0 <= j < n ==> (#[trigger] names@[j])@ == unicode_lowercase(endpoints@[j].name@),
                keys == Seq::new(n as nat, |j: int| endpoint_key(endpoints@[j])),
                forall|a: int| 0 <= a < i ==> #[trigger] idx@[a] < i,
                forall|q: int| 0 <= q < p ==> !key_before(keys[i as int], keys[#[trigger] idx@[q] as int]),
                found ==> p < i && key_before(keys[i as int], keys[idx@[p as int] as int]),
            decreases idx@.len() - p + (if found { 0int } else { 1int }),
        {
            let other = idx[p];
            let a = endpoints[i].is_virtual_cable_candidate;
            let b = endpoints[other].is_virtual_cable_candidate;
            let before = (a && !b) || (a == b && chars_lt(&names[i], &names[other]));
            if before {
                found = true;
            } else {
                p = p + 1;
            }
        }
        let ghost old_idx = idx@;
        idx.insert(p, i);
        proof {
            assert(idx@ == old_idx.insert(p as int, i));
            assert forall|a: int, b: int| 0 <= a < b < i + 1 implies !key_before(
                keys[idx@[b] as int],
                keys[idx@[a] as int],
            ) by {
                let ka = keys[idx@[a] as int];
                let kb = keys[idx@[b] as int];
                if b < p {
                    assert(idx@[a] == old_idx[a] && idx@[b] == old_idx[b]);
                } else if b == p {
                    assert(idx@[a] == old_idx[a]);
                } else if a == p {
                    assert(idx@[b] == old_idx[b - 1]);
                    let kp = keys[old_idx[p as int] as int];
                    lemma_key_order(kb, keys[i as int], kp);
                    lemma_key_order(keys[i as int], kp, kb);
                    if b - 1 > p {
                        assert(!key_before(keys[old_idx[b - 1] as int], kp));
                    } else {
                        lemma_key_order(kp, keys[i as int], kp);
                    }
                } else if a < p {
                    assert(idx@[a] == old_idx[a] && idx@[b] == old_idx[b - 1]);
                } else {
                    assert(idx@[a] == old_idx[a - 1] && idx@[b] == old_idx[b - 1]);
                }
            }
            assert forall|a: int, b: int|
                0 <= a < b < i + 1 && keys[idx@[a] as int] == keys[idx@[b] as int] implies idx@[a]
                < idx@[b] by {
                if b < p {
                    assert(idx@[a] == old_idx[a] && idx@[b] == old_idx[b]);
                } else if b == p {
                    assert(idx@[a] == old_idx[a]);
                } else if a == p {
                    assert(idx@[b] == old_idx[b - 1]);
                    let kp = keys[old_idx[p as int] as int];
                    lemma_key_order(keys[i as int], kp, kp);
                    if b - 1 > p {
                        assert(!key_before(keys[old_idx[b - 1] as int], kp));
                    }
                } else if a < p {
                    assert(idx@[a] == old_idx[a] && idx@[b] == old_idx[b - 1]);
                } else {
                    assert(idx@[a] == old_idx[a - 1] && idx@[b] == old_idx[b - 1]);
                }
            }
            assert forall|a: int, b: int| 0 <= a < b < i + 1 implies idx@[a] != idx@[b] by {
                if b < p {
                    assert(idx@[a] == old_idx[a] && idx@[b] == old_idx[b]);
                } else if b == p {
                    assert(idx@[a] == old_idx[a]);
                } else if a == p {
                    assert(idx@[b] == old_idx[b - 1]);
                } else if a < p {
                    assert(idx@[a] == old_idx[a] && idx@[b] == old_idx[b - 1]);
                } else {
                    assert(idx@[a] == old_idx[a - 1] && idx@[b] == old_idx[b - 1]);
                }
            }
            assert forall|a: int| 0 <= a < i + 1 implies #[trigger] idx@[a] < i + 1 by {
                if a < p {
                    assert(idx@[a] == old_idx[a]);
                } else if a > p {
                    assert(idx@[a] == old_idx[a - 1]);
                }
            }
        }
        i = i + 1;
    }
    let mut out: Vec<AudioEndpoint> = Vec::new();
    let mut m: usize = 0;
    while m < n
        invariant
            m <= n,
            n == endpoints@.len(),
            idx@.len() == n,
            forall|a: int| 0 <= a < n ==> #[trigger] idx@[a] < n,
            out@.len() == m,
            forall|a: int| 0 <= a < m ==> (#[trigger] out@[a]) == endpoints@[idx@[a] as int],
        decreases n - m,
    {
        out.push(copy_endpoint(&endpoints[idx[m]]));
        m = m + 1;
    }
    let ghost perm = Seq::new(n as nat, |a: int| idx@[a] as int);
    assert(endpoints_ordered(endpoints@, out@, perm)) by {
        assert forall|a: int, b: int| 0 <= a < b < out@.len() implies !key_before(
            endpoint_key(out@[b]),
            endpoint_key(out@[a]),
        ) by {
            assert(keys[idx@[a] as int] == endpoint_key(out@[a]));
            assert(keys[idx@[b] as int] == endpoint_key(out@[b]));
        }
        assert forall|a: int, b: int|
            0 <= a < b < out@.len() && endpoint_key(out@[a]) == endpoint_key(out@[b]) implies perm[a]
            < perm[b] by {
            assert(keys[idx@[a] as int] == endpoint_key(out@[a]));
            assert(keys[idx@[b] as int] == endpoint_key(out@[b]));
        }
    }
    out
}


/// After an interrupt no session streams, so samples that arrive late for
/// any session are refused; the same holds after a failure.
pub proof fn law_interrupt_refuses_late_samples(
    s: AudioSnapshot,
    has_sink: bool,
    failed: AudioSnapshot,
    error: PlatformError,
    generation: u64,
)
    requires
        failed_after(failed, s, error),
    ensures
        !session_matches(interrupted(s, has_sink), generation),
        !session_matches(failed, generation),
{
}

/// Every queued sample becomes exactly two bytes on the wire, in order.
pub proof fn law_pcm_bytes_are_two_per_sample(samples: Seq<i16>)
    ensures
        pcm_bytes(samples).len() == 2 * samples.len(),
    decreases samples.len(),
{
    if samples.len() > 0 {
        law_pcm_bytes_are_two_per_sample(samples.drop_last());
    }
}


/// Whether an endpoint has exactly the remembered identity.
pub open spec fn same_identity(e: AudioEndpoint, id: Seq<char>, name: Seq<char>) -> bool {
    e.id@ == id && e.name@ == name
}

/// The endpoint to restore at start-up: the first enumerated endpoint whose
/// id and name both equal the remembered ones. An endpoint that kept its id
/// but changed its name is not restored.
pub fn restorable_endpoint(endpoints: &[AudioEndpoint], endpoint_id: &str, expected_name: &str) -> (r:
    Option<AudioEndpoint>)
    ensures
        match r {
            Some(e) => exists|k: int|
                0 <= k < endpoints@.len() && endpoints@[k] == e && same_identity(
                    e,
                    endpoint_id@,
                    expected_name@,
                ) && forall|j: int|
                    0 <= j < k ==> !same_identity(#[trigger] endpoints@[j], endpoint_id@, expected_name@),
            None => forall|j: int|
                0 <= j < endpoints@.len() ==> !same_identity(#[trigger] endpoints@[j], endpoint_id@, expected_name@),
        },
{
    let id = chars_of(endpoint_id);
    let name = chars_of(expected_name);
    let mut i: usize = 0;
    while i < endpoints.len()
        invariant
            i <= endpoints@.len(),
            id@ == endpoint_id@,
            name@ == expected_name@,
            forall|j: int| 0 <= j < i ==> !same_identity(#[trigger] endpoints@[j], endpoint_id@, expected_name@),
        decreases endpoints@.len() - i,
    {
        let a = chars_of(endpoints[i].id.as_str());
        let b = chars_of(endpoints[i].name.as_str());
        if crate::text::chars_equal(&a, &id) && crate::text::chars_equal(&b, &name) {
            return Some(copy_endpoint(&endpoints[i]));
        }
        i = i + 1;
    }
    None
}

} // verus!
