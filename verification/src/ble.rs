//! Supervision of the link to the voice remote: exponential reconnect
//! backoff, the timers of the link worker, and the decisions it takes on each
//! request, timer and link event. The worker performs the Bluetooth work
//! itself and hands each outcome to these functions. Times are milliseconds
//! on a monotonic clock.
use vstd::prelude::*;
use crate::bluetooth_radio::{should_cycle, RADIO_RECOVERY_MAX_CYCLES};
use crate::platform::{
    platform_error_text, saturating_sum, ConnectionPhase, ConnectionSnapshot, PlatformError,
    VoiceSessionState,
};
use crate::text::{decimal_seq, decimal_string, push_str};

verus! {

/// Delay before the first reconnect.
pub const RECONNECT_BASE_DELAY_MS: u64 = 2_000;

/// Longest delay between reconnects.
pub const RECONNECT_MAX_DELAY_MS: u64 = 30_000;

/// How long a new link may take to confirm its voice capabilities.
pub const CAPABILITIES_TIMEOUT_MS: u64 = 10_000;

/// How long a request to the link worker may take.
pub const REQUEST_TIMEOUT_MS: u64 = 30_000;

/// Period of the microphone-extend command while a voice session streams.
pub const MICROPHONE_EXTEND_INTERVAL_MS: u64 = 2_500;

/// Delay of the quick retry after a radio cycle.
pub const RADIO_RETRY_DELAY_MS: u64 = 2_000;

/// `a + b`, or the largest `u64` when that does not fit.
pub open spec fn clock_add(a: u64, b: u64) -> u64 {
    if a + b > u64::MAX {
        u64::MAX
    } else {
        (a + b) as u64
    }
}

/// The delay of reconnect attempt `n` (from 1): the base delay, doubled per
/// attempt, capped at the maximum.
pub open spec fn backoff_delay(base: u64, max: u64, n: nat) -> u64
    decreases n,
{
    if n <= 1 {
        if base <= max {
            base
        } else {
            max
        }
    } else {
        let prev = backoff_delay(base, max, (n - 1) as nat);
        if 2 * prev <= max {
            (2 * prev) as u64
        } else {
            max
        }
    }
}

/// The abstract state of a backoff: its parameters, the number of the last
/// scheduled attempt (0 when none) and that attempt's delay.
#[derive(Debug, Clone, Copy, PartialEq, Eq, Structural)]
pub struct BackoffState {
    pub base_ms: u64,
    pub max_ms: u64,
    pub attempt: u32,
    pub delay_ms: u64,
}

/// A backoff whose recorded delay is the delay of its recorded attempt.
pub open spec fn backoff_wf(b: BackoffState) -> bool {
    b.attempt < u32::MAX ==> b.delay_ms == (if b.attempt == 0 {
        0
    } else {
        backoff_delay(b.base_ms, b.max_ms, b.attempt as nat)
    })
}

/// Exponential reconnect backoff: 2, 4, 8, 16, then 30 seconds with the
/// default parameters.
#[derive(Debug)]
pub struct ReconnectBackoff {
    base_ms: u64,
    max_ms: u64,
    attempt: u32,
    delay_ms: u64,
}

impl View for ReconnectBackoff {
    type V = BackoffState;

    closed spec fn view(&self) -> BackoffState {
        BackoffState {
            base_ms: self.base_ms,
            max_ms: self.max_ms,
            attempt: self.attempt,
            delay_ms: self.delay_ms,
        }
    }
}

impl ReconnectBackoff {
    pub fn new(base_ms: u64, max_ms: u64) -> (r: Self)
        ensures
            r@ == (BackoffState { base_ms, max_ms, attempt: 0, delay_ms: 0 }),
            backoff_wf(r@),
    {
        ReconnectBackoff { base_ms, max_ms, attempt: 0, delay_ms: 0 }
    }

    /// Number of the last scheduled attempt; 0 after a reset.
    pub fn attempt(&self) -> (r: u32)
        ensures
            r == self@.attempt,
    {
        self.attempt
    }

    /// Forgets all attempts (after a successful connection or a fresh request).
    pub fn reset(&mut self)
        ensures
            final(self)@ == (BackoffState { attempt: 0, delay_ms: 0, ..old(self)@ }),
    {
        self.attempt = 0;
        self.delay_ms = 0;
    }

    /// Schedules the next attempt; returns its number and its delay.
    pub fn schedule_next(&mut self) -> (r: (u32, u64))
        requires
            backoff_wf(old(self)@),
        ensures
            backoff_wf(final(self)@),
            final(self)@.base_ms == old(self)@.base_ms,
            final(self)@.max_ms == old(self)@.max_ms,
            final(self)@.attempt == (if old(self)@.attempt == u32::MAX {
                u32::MAX
            } else {
                (old(self)@.attempt + 1) as u32
            }),
            r == (final(self)@.attempt, final(self)@.delay_ms),
            old(self)@.attempt < u32::MAX ==> r.1 == backoff_delay(
                old(self)@.base_ms,
                old(self)@.max_ms,
                (old(self)@.attempt + 1) as nat,
            ),
            r.1 <= old(self)@.max_ms,
    {
        let delay = if self.attempt == 0 {
            if self.base_ms <= self.max_ms {
                self.base_ms
            } else {
                self.max_ms
            }
        } else if self.delay_ms <= self.max_ms / 2 {
            self.delay_ms * 2
        } else {
            self.max_ms
        };
        proof {
            if self.attempt > 0 && self.attempt < u32::MAX {
                lemma_backoff_delay_bounded(self.base_ms, self.max_ms, self.attempt as nat);
            }
        }
        self.attempt = self.attempt.saturating_add(1);
        self.delay_ms = delay;
        (self.attempt, delay)
    }
}

proof fn lemma_backoff_delay_bounded(base: u64, max: u64, n: nat)
    ensures
        backoff_delay(base, max, n) <= max,
    decreases n,
{
    if n > 1 {
        lemma_backoff_delay_bounded(base, max, (n - 1) as nat);
    }
}

/// The reconnect delays never exceed the maximum, never shrink from one
/// attempt to the next, and start at the base delay when it is within the
/// maximum.
pub proof fn law_backoff_grows_to_its_cap(base: u64, max: u64, n: nat)
    requires
        n >= 1,
    ensures
        backoff_delay(base, max, n) <= max,
        backoff_delay(base, max, n) <= backoff_delay(base, max, n + 1),
        base <= max ==> backoff_delay(base, max, 1) == base,
    decreases n,
{
    lemma_backoff_delay_bounded(base, max, n);
    lemma_backoff_delay_bounded(base, max, n + 1);
}

/// The earlier of two optional deadlines.
pub fn nearest_deadline(left: Option<u64>, right: Option<u64>) -> (r: Option<u64>)
    ensures
        r == (match (left, right) {
            (Some(l), Some(q)) => Some(if l <= q { l } else { q }),
            (Some(d), None) => Some(d),
            (None, Some(d)) => Some(d),
            (None, None) => None,
        }),
{
    match (left, right) {
        (Some(l), Some(q)) => Some(if l <= q { l } else { q }),
        (Some(d), None) => Some(d),
        (None, Some(d)) => Some(d),
        (None, None) => None,
    }
}

/// The snapshot of a link that failed with `error`.
pub open spec fn is_failed_with(s: ConnectionSnapshot, error: Seq<char>) -> bool {
    &&& s.phase == ConnectionPhase::Failed
    &&& s.remote_name is None
    &&& !s.capabilities_confirmed
    &&& s.voice_state == VoiceSessionState::Idle
    &&& s.decoded_samples == 0
    &&& s.generation == 0
    &&& s.reconnect_attempt == 0
    &&& !s.power_notifications_available
    &&& s.last_error matches Some(e) && e@ == error
}

pub fn failed_snapshot(error: String) -> (r: ConnectionSnapshot)
    ensures
        is_failed_with(r, error@),
{
    ConnectionSnapshot {
        phase: ConnectionPhase::Failed,
        remote_name: None,
        capabilities_confirmed: false,
        voice_state: VoiceSessionState::Idle,
        decoded_samples: 0,
        generation: 0,
        reconnect_attempt: 0,
        power_notifications_available: false,
        last_error: Some(error),
    }
}

/// The text shown while a reconnect is pending.
pub open spec fn reconnect_text(reason: Seq<char>, delay_ms: u64, attempt: u32) -> Seq<char> {
    reason + "；将在 "@ + decimal_seq((delay_ms / 1000) as nat) + " 秒后进行第 "@ + decimal_seq(
        attempt as nat,
    ) + " 次重连"@
}

/// What `schedule_reconnect` leaves in the snapshot: reconnecting, with the
/// attempt number and the text, capabilities and voice session cleared; the
/// name, sample count and power flag kept.
pub open spec fn reconnecting_from(
    before: ConnectionSnapshot,
    after: ConnectionSnapshot,
    attempt: u32,
    text: Seq<char>,
) -> bool {
    &&& after.phase == ConnectionPhase::Reconnecting
    &&& !after.capabilities_confirmed
    &&& after.voice_state == VoiceSessionState::Idle
    &&& after.generation == 0
    &&& after.reconnect_attempt == attempt
    &&& after.last_error matches Some(e) && e@ == text
    &&& after.remote_name == before.remote_name
    &&& after.decoded_samples == before.decoded_samples
    &&& after.power_notifications_available == before.power_notifications_available
}

/// Schedules the next reconnect attempt after `reason`, at `now_ms` plus the
/// backoff delay, and reports it in the snapshot.
pub fn schedule_reconnect(
    snapshot: &mut ConnectionSnapshot,
    backoff: &mut ReconnectBackoff,
    reconnect_deadline: &mut Option<u64>,
    now_ms: u64,
    reason: &str,
)
    requires
        backoff_wf(old(backoff)@),
    ensures
        backoff_wf(final(backoff)@),
        final(backoff)@.base_ms == old(backoff)@.base_ms,
        final(backoff)@.max_ms == old(backoff)@.max_ms,
        final(backoff)@.attempt == (if old(backoff)@.attempt == u32::MAX {
            u32::MAX
        } else {
            (old(backoff)@.attempt + 1) as u32
        }),
        *final(reconnect_deadline) == Some(clock_add(now_ms, final(backoff)@.delay_ms)),
        reconnecting_from(
            *old(snapshot),
            *final(snapshot),
            final(backoff)@.attempt,
            reconnect_text(reason@, final(backoff)@.delay_ms, final(backoff)@.attempt),
        ),
{
    let (attempt, delay) = backoff.schedule_next();
    *reconnect_deadline = Some(now_ms.saturating_add(delay));
    let mut text = String::from_str(reason);
    push_str(&mut text, "；将在 ");
    let secs = decimal_string(delay / 1000);
    push_str(&mut text, secs.as_str());
    push_str(&mut text, " 秒后进行第 ");
    let n = decimal_string(attempt as u64);
    push_str(&mut text, n.as_str());
    push_str(&mut text, " 次重连");
    snapshot.phase = ConnectionPhase::Reconnecting;
    snapshot.capabilities_confirmed = false;
    snapshot.voice_state = VoiceSessionState::Idle;
    snapshot.generation = 0;
    snapshot.reconnect_attempt = attempt;
    snapshot.last_error = Some(text);
}

/// The reason given when the old link could not be cleaned up.
pub open spec fn cleanup_failure_reason(error: PlatformError) -> Seq<char> {
    platform_error_text(error) + "；旧会话清理失败，将继续重试并再次清理"@
}

/// After a failed cleanup of the old link: keep reconnecting (the next
/// attempt cleans up again) while a remote is chosen; otherwise report the
/// failure and stop.
pub fn keep_reconnecting_after_cleanup_failure(
    snapshot: &mut ConnectionSnapshot,
    preferred_device_id: &mut Option<String>,
    backoff: &mut ReconnectBackoff,
    reconnect_deadline: &mut Option<u64>,
    error: &PlatformError,
    now_ms: u64,
)
    requires
        backoff_wf(old(backoff)@),
    ensures
        *final(preferred_device_id) == *old(preferred_device_id),
        backoff_wf(final(backoff)@),
        final(backoff)@.base_ms == old(backoff)@.base_ms,
        final(backoff)@.max_ms == old(backoff)@.max_ms,
        old(preferred_device_id).is_some() ==> {
            &&& final(backoff)@.attempt == (if old(backoff)@.attempt == u32::MAX {
                u32::MAX
            } else {
                (old(backoff)@.attempt + 1) as u32
            })
            &&& *final(reconnect_deadline) == Some(clock_add(now_ms, final(backoff)@.delay_ms))
            &&& reconnecting_from(
                *old(snapshot),
                *final(snapshot),
                final(backoff)@.attempt,
                reconnect_text(
                    cleanup_failure_reason(*error),
                    final(backoff)@.delay_ms,
                    final(backoff)@.attempt,
                ),
            )
        },
        old(preferred_device_id).is_none() ==> {
            &&& final(backoff)@ == old(backoff)@
            &&& *final(reconnect_deadline) == None::<u64>
            &&& is_failed_with(*final(snapshot), platform_error_text(*error))
        },
{
    if preferred_device_id.is_some() {
        let mut reason = error.message();
        push_str(&mut reason, "；旧会话清理失败，将继续重试并再次清理");
        schedule_reconnect(snapshot, backoff, reconnect_deadline, now_ms, reason.as_str());
    } else {
        *reconnect_deadline = None;
        *snapshot = failed_snapshot(error.message());
    }
}


/// Which timer of the link worker is due.
#[derive(Debug, Clone, Copy, PartialEq, Eq, Structural)]
pub enum DueTimer {
    /// The new link did not confirm its voice capabilities in time.
    Capabilities,
    /// The next reconnect attempt is due.
    Reconnect,
    /// The streaming voice session must be extended.
    MicrophoneExtend,
    /// Nothing is due yet.
    Nothing,
}

/// Whether an optional deadline has passed at `now`.
pub open spec fn is_due(deadline: Option<u64>, now: u64) -> bool {
    deadline matches Some(t) && t <= now
}

/// What the voice pipeline made of one control message of the remote.
#[derive(Debug, Clone, PartialEq, Eq)]
pub enum ControlEvent {
    /// The remote confirmed its voice capabilities.
    Ready,
    /// The remote asks for its microphone to be opened.
    MicrophoneOpenRequested,
    /// A voice stream of `session_id` started; its audio is tagged `generation`.
    StreamStarted { session_id: u8, generation: u64 },
    /// The voice stream of `generation` stopped.
    StreamStopped { generation: u64 },
    /// Nothing to do (a message of no consequence, or a stop while idle).
    Ignored,
    /// The control message was refused with this error.
    Failed(String),
}

/// What the worker does after a control event.
#[derive(Debug, Clone, Copy, PartialEq, Eq, Structural)]
pub enum ControlAction {
    Nothing,
    /// Ask the remote to open its microphone.
    OpenMicrophone,
    /// Arm the voice-key suppressor, press the hold hotkey if one is set,
    /// then begin the audio session of `generation`; report to `stream_begun`.
    BeginStream { session_id: u8, generation: u64 },
    /// Release the hold hotkey and disarm the suppressor, then finish the
    /// audio session of `generation` and complete the drain; report to
    /// `stream_finished`.
    FinishStream { generation: u64 },
}

/// Why a voice stream could not begin.
#[derive(Debug, Clone, PartialEq, Eq)]
pub enum StreamStartFailure {
    /// Pressing the hold hotkey failed.
    HotkeyPress(String),
    /// The audio session could not begin.
    Audio(String),
}

/// The error shown when a voice stream could not begin.
pub open spec fn start_failure_text(f: StreamStartFailure) -> Seq<char> {
    match f {
        StreamStartFailure::HotkeyPress(e) => "按住说话快捷键注入失败："@ + e@,
        StreamStartFailure::Audio(e) => e@,
    }
}

/// Why a stopped voice stream could not be drained.
#[derive(Debug, Clone, PartialEq, Eq)]
pub enum DrainFailure {
    /// Finishing the audio session failed.
    Audio(String),
    /// The pipeline refused to complete the drain.
    Pipeline(String),
}

/// How a stopped voice stream ended.
#[derive(Debug, Clone, Copy, PartialEq, Eq, Structural)]
pub enum StreamEnd {
    /// Drained; a voice session of `samples` decoded samples is to be counted.
    Completed { samples: u64 },
    /// Aborted: interrupt the audio session and the pipeline.
    Aborted,
    /// The drain was refused; the error is shown and nothing else changes.
    DrainRefused,
}

/// What the voice pipeline made of one audio message while streaming.
#[derive(Debug, PartialEq, Eq)]
pub enum AudioEvent {
    /// The audio output had already failed with this error.
    OutputFailed(String),
    /// `count` samples of `generation` were decoded and handed to the audio
    /// output with result `queued`.
    Samples { generation: u64, count: u64, queued: Result<(), String> },
    /// The message held no samples.
    NoSamples,
    /// The message could not be decoded.
    DecodeFailed(String),
}

/// The snapshot after a voice session was aborted with `error`.
pub open spec fn aborted_snapshot(old: ConnectionSnapshot, new: ConnectionSnapshot, error: Seq<char>) -> bool {
    &&& new == (ConnectionSnapshot {
        phase: if old.capabilities_confirmed {
            ConnectionPhase::Ready
        } else {
            ConnectionPhase::Failed
        },
        voice_state: VoiceSessionState::Idle,
        last_error: new.last_error,
        ..old
    })
    &&& new.last_error matches Some(t) && t@ == error
}

/// The decisions of the link worker: which remote it keeps, whether the
/// system sleeps, its three timers, the reconnect backoff, the radio cycles of
/// the current failure streak and the generation that tags every callback of
/// the current link.
#[derive(Debug)]
pub struct BleSupervisor {
    pub snapshot: ConnectionSnapshot,
    pub preferred_device_id: Option<String>,
    pub system_suspended: bool,
    pub capabilities_deadline: Option<u64>,
    pub reconnect_deadline: Option<u64>,
    pub extend_deadline: Option<u64>,
    pub backoff: ReconnectBackoff,
    pub radio_recovery_cycles: u32,
    pub connection_generation: u64,
    /// Samples decoded in the running voice session.
    pub active_voice_samples: u64,
}

/// `g + 1`, wrapping to 0.
pub open spec fn next_generation(g: u64) -> u64 {
    if g == u64::MAX {
        0
    } else {
        (g + 1) as u64
    }
}

/// A backoff state after a reset.
pub open spec fn backoff_reset(b: BackoffState) -> BackoffState {
    BackoffState { attempt: 0, delay_ms: 0, ..b }
}

/// A backoff state after one more scheduled attempt.
pub open spec fn backoff_advanced(before: BackoffState, after: BackoffState) -> bool {
    &&& after.base_ms == before.base_ms
    &&& after.max_ms == before.max_ms
    &&& after.attempt == (if before.attempt == u32::MAX {
        u32::MAX
    } else {
        (before.attempt + 1) as u32
    })
    &&& backoff_wf(after)
}

impl BleSupervisor {
    /// The worker's own consistency: the backoff records its last delay.
    pub open spec fn wf(&self) -> bool {
        backoff_wf(self.backoff@)
    }

    /// What follows a reconnect scheduled after `reason`: the backoff moved on
    /// and the deadline and snapshot report it.
    pub open spec fn rescheduled(old: &Self, new: &Self, now: u64, reason: Seq<char>) -> bool {
        &&& backoff_advanced(old.backoff@, new.backoff@)
        &&& new.reconnect_deadline == Some(clock_add(now, new.backoff@.delay_ms))
        &&& reconnecting_from(
            old.snapshot,
            new.snapshot,
            new.backoff@.attempt,
            reconnect_text(reason, new.backoff@.delay_ms, new.backoff@.attempt),
        )
    }

    /// What follows a failed cleanup: reconnect while a remote is chosen,
    /// otherwise report the failure.
    pub open spec fn after_cleanup_failure(
        old: &Self,
        new: &Self,
        now: u64,
        error: PlatformError,
    ) -> bool {
        &&& new.preferred_device_id == old.preferred_device_id
        &&& old.preferred_device_id is Some ==> Self::rescheduled(
            old,
            new,
            now,
            cleanup_failure_reason(error),
        )
        &&& old.preferred_device_id is None ==> {
            &&& new.backoff@ == old.backoff@
            &&& new.reconnect_deadline is None
            &&& is_failed_with(new.snapshot, platform_error_text(error))
        }
    }

    /// A worker that has not been asked for anything yet.
    pub fn new() -> (r: Self)
        ensures
            r.wf(),
            r.snapshot.is_initial(),
            r.preferred_device_id is None,
            !r.system_suspended,
            r.capabilities_deadline is None && r.reconnect_deadline is None
                && r.extend_deadline is None,
            r.backoff@ == (BackoffState {
                base_ms: RECONNECT_BASE_DELAY_MS,
                max_ms: RECONNECT_MAX_DELAY_MS,
                attempt: 0,
                delay_ms: 0,
            }),
            r.radio_recovery_cycles == 0,
            r.connection_generation == 0,
            r.active_voice_samples == 0,
    {
        BleSupervisor {
            snapshot: ConnectionSnapshot::default(),
            preferred_device_id: None,
            system_suspended: false,
            capabilities_deadline: None,
            reconnect_deadline: None,
            extend_deadline: None,
            backoff: ReconnectBackoff::new(RECONNECT_BASE_DELAY_MS, RECONNECT_MAX_DELAY_MS),
            radio_recovery_cycles: 0,
            connection_generation: 0,
            active_voice_samples: 0,
        }
    }

    /// The earliest pending deadline, if any; the worker waits for a message
    /// until then.
    pub fn next_deadline(&self) -> (r: Option<u64>)
        ensures
            r is None <==> (self.capabilities_deadline is None && self.reconnect_deadline is None
                && self.extend_deadline is None),
            r matches Some(t) ==> (self.capabilities_deadline == Some(t)
                || self.reconnect_deadline == Some(t) || self.extend_deadline == Some(t)),
            r matches Some(t) ==> (forall|d: u64|
                (self.capabilities_deadline == Some(d) || self.reconnect_deadline == Some(d)
                    || self.extend_deadline == Some(d)) ==> t <= d),
    {
        nearest_deadline(
            nearest_deadline(self.capabilities_deadline, self.reconnect_deadline),
            self.extend_deadline,
        )
    }

    /// The timer to handle at `now`: the capabilities timeout first, then the
    /// reconnect, then the microphone extension.
    pub fn due_timer(&self, now: u64) -> (r: DueTimer)
        ensures
            r == (if is_due(self.capabilities_deadline, now) {
                DueTimer::Capabilities
            } else if is_due(self.reconnect_deadline, now) {
                DueTimer::Reconnect
            } else if is_due(self.extend_deadline, now) {
                DueTimer::MicrophoneExtend
            } else {
                DueTimer::Nothing
            }),
    {
        let cap = match self.capabilities_deadline {
            Some(t) => t <= now,
            None => false,
        };
        let rec = match self.reconnect_deadline {
            Some(t) => t <= now,
            None => false,
        };
        let ext = match self.extend_deadline {
            Some(t) => t <= now,
            None => false,
        };
        if cap {
            DueTimer::Capabilities
        } else if rec {
            DueTimer::Reconnect
        } else if ext {
            DueTimer::MicrophoneExtend
        } else {
            DueTimer::Nothing
        }
    }

    /// Whether a callback tagged with `generation` belongs to the current link.
    pub fn is_current(&self, generation: u64) -> (r: bool)
        ensures
            r == (generation == self.connection_generation),
    {
        generation == self.connection_generation
    }

    fn bump_generation(&mut self)
        ensures
            final(self).connection_generation == next_generation(old(self).connection_generation),
            final(self).snapshot == old(self).snapshot,
            final(self).preferred_device_id == old(self).preferred_device_id,
            final(self).system_suspended == old(self).system_suspended,
            final(self).capabilities_deadline == old(self).capabilities_deadline,
            final(self).reconnect_deadline == old(self).reconnect_deadline,
            final(self).extend_deadline == old(self).extend_deadline,
            final(self).backoff@ == old(self).backoff@,
            final(self).radio_recovery_cycles == old(self).radio_recovery_cycles,
    {
        self.connection_generation = self.connection_generation.wrapping_add(1);
    }

    fn reschedule(&mut self, now: u64, reason: &str)
        requires
            old(self).wf(),
        ensures
            final(self).wf(),
            Self::rescheduled(old(self), final(self), now, reason@),
            final(self).preferred_device_id == old(self).preferred_device_id,
            final(self).system_suspended == old(self).system_suspended,
            final(self).capabilities_deadline == old(self).capabilities_deadline,
            final(self).extend_deadline == old(self).extend_deadline,
            final(self).radio_recovery_cycles == old(self).radio_recovery_cycles,
            final(self).connection_generation == old(self).connection_generation,
    {
        schedule_reconnect(
            &mut self.snapshot,
            &mut self.backoff,
            &mut self.reconnect_deadline,
            now,
            reason,
        );
    }

    fn cleanup_failed(&mut self, now: u64, error: &PlatformError)
        requires
            old(self).wf(),
        ensures
            final(self).wf(),
            Self::after_cleanup_failure(old(self), final(self), now, *error),
            final(self).system_suspended == old(self).system_suspended,
            final(self).capabilities_deadline == old(self).capabilities_deadline,
            final(self).extend_deadline == old(self).extend_deadline,
            final(self).radio_recovery_cycles == old(self).radio_recovery_cycles,
            final(self).connection_generation == old(self).connection_generation,
    {
        keep_reconnecting_after_cleanup_failure(
            &mut self.snapshot,
            &mut self.preferred_device_id,
            &mut self.backoff,
            &mut self.reconnect_deadline,
            error,
            now,
        );
    }

    /// An explicit connect request for `device_id`: it becomes the chosen
    /// remote and every timer, the backoff and the radio cycles start afresh.
    /// The worker then cleans up and attempts a first connection.
    pub fn on_connect_requested(&mut self, device_id: String)
        requires
            old(self).wf(),
        ensures
            final(self).wf(),
            final(self).preferred_device_id == Some(device_id),
            !final(self).system_suspended,
            final(self).reconnect_deadline is None,
            final(self).capabilities_deadline is None,
            final(self).extend_deadline == old(self).extend_deadline,
            final(self).backoff@ == backoff_reset(old(self).backoff@),
            final(self).radio_recovery_cycles == 0,
            final(self).snapshot == old(self).snapshot,
            final(self).connection_generation == old(self).connection_generation,
    {
        self.preferred_device_id = Some(device_id);
        self.system_suspended = false;
        self.reconnect_deadline = None;
        self.capabilities_deadline = None;
        self.backoff.reset();
        self.radio_recovery_cycles = 0;
    }

    /// A reconnect timer fired: clears it and names the remote and attempt
    /// number to try, if a remote is chosen.
    pub fn on_reconnect_due(&mut self) -> (r: Option<(String, u32)>)
        requires
            old(self).wf(),
        ensures
            final(self).wf(),
            final(self).reconnect_deadline is None,
            match old(self).preferred_device_id {
                Some(id) => r matches Some((d, a)) && d@ == id@ && a
                    == old(self).snapshot.reconnect_attempt,
                None => r is None,
            },
            final(self).snapshot == old(self).snapshot,
            final(self).preferred_device_id == old(self).preferred_device_id,
            final(self).system_suspended == old(self).system_suspended,
            final(self).capabilities_deadline == old(self).capabilities_deadline,
            final(self).extend_deadline == old(self).extend_deadline,
            final(self).backoff@ == old(self).backoff@,
            final(self).radio_recovery_cycles == old(self).radio_recovery_cycles,
            final(self).connection_generation == old(self).connection_generation,
    {
        self.reconnect_deadline = None;
        match &self.preferred_device_id {
            Some(id) => Some((id.clone(), self.snapshot.reconnect_attempt)),
            None => None,
        }
    }

    /// Starts a connection attempt once the old link was cleaned up with
    /// result `cleanup`: the generation moves on; a failed cleanup fails the
    /// attempt with that error, otherwise the snapshot shows the attempt (a
    /// reconnect keeps the remote's name).
    pub fn begin_attempt(
        &mut self,
        cleanup: Result<(), PlatformError>,
        reconnecting: bool,
        reconnect_attempt: u32,
    ) -> (r: Result<(), PlatformError>)
        requires
            old(self).wf(),
        ensures
            final(self).wf(),
            final(self).connection_generation == next_generation(old(self).connection_generation),
            match cleanup {
                Err(e) => r == Err::<(), PlatformError>(e) && final(self).snapshot == old(
                    self,
                ).snapshot,
                Ok(()) => r is Ok && final(self).snapshot == (ConnectionSnapshot {
                    phase: if reconnecting {
                        ConnectionPhase::Reconnecting
                    } else {
                        ConnectionPhase::Connecting
                    },
                    remote_name: if reconnecting {
                        old(self).snapshot.remote_name
                    } else {
                        None
                    },
                    capabilities_confirmed: false,
                    voice_state: VoiceSessionState::Idle,
                    decoded_samples: 0,
                    generation: 0,
                    reconnect_attempt,
                    power_notifications_available: false,
                    last_error: None,
                }),
            },
            final(self).preferred_device_id == old(self).preferred_device_id,
            final(self).system_suspended == old(self).system_suspended,
            final(self).capabilities_deadline == old(self).capabilities_deadline,
            final(self).reconnect_deadline == old(self).reconnect_deadline,
            final(self).extend_deadline == old(self).extend_deadline,
            final(self).backoff@ == old(self).backoff@,
            final(self).radio_recovery_cycles == old(self).radio_recovery_cycles,
    {
        self.bump_generation();
        match cleanup {
            Err(e) => Err(e),
            Ok(()) => {
                let remote_name = if reconnecting {
                    self.snapshot.remote_name.clone()
                } else {
                    None
                };
                self.snapshot = ConnectionSnapshot {
                    phase: if reconnecting {
                        ConnectionPhase::Reconnecting
                    } else {
                        ConnectionPhase::Connecting
                    },
                    remote_name,
                    capabilities_confirmed: false,
                    voice_state: VoiceSessionState::Idle,
                    decoded_samples: 0,
                    generation: 0,
                    reconnect_attempt,
                    power_notifications_available: false,
                    last_error: None,
                };
                Ok(())
            },
        }
    }

    /// The link to the remote called `name` is up: wait for its voice
    /// capabilities until `now` plus the capabilities timeout.
    pub fn attempt_connected(&mut self, name: String, reconnect_attempt: u32, now: u64) -> (r:
        ConnectionSnapshot)
        requires
            old(self).wf(),
        ensures
            final(self).wf(),
            r == final(self).snapshot,
            r.phase == ConnectionPhase::AwaitingCapabilities,
            r.remote_name == Some(name),
            r.reconnect_attempt == reconnect_attempt,
            !r.capabilities_confirmed && r.voice_state == VoiceSessionState::Idle,
            r.decoded_samples == 0 && r.generation == 0,
            !r.power_notifications_available && r.last_error is None,
            final(self).capabilities_deadline == Some(clock_add(now, CAPABILITIES_TIMEOUT_MS)),
            final(self).preferred_device_id == old(self).preferred_device_id,
            final(self).system_suspended == old(self).system_suspended,
            final(self).reconnect_deadline == old(self).reconnect_deadline,
            final(self).extend_deadline == old(self).extend_deadline,
            final(self).backoff@ == old(self).backoff@,
            final(self).radio_recovery_cycles == old(self).radio_recovery_cycles,
            final(self).connection_generation == old(self).connection_generation,
    {
        let snapshot = ConnectionSnapshot {
            phase: ConnectionPhase::AwaitingCapabilities,
            remote_name: Some(name),
            capabilities_confirmed: false,
            voice_state: VoiceSessionState::Idle,
            decoded_samples: 0,
            generation: 0,
            reconnect_attempt,
            power_notifications_available: false,
            last_error: None,
        };
        self.snapshot = snapshot.duplicate();
        self.capabilities_deadline = Some(now.saturating_add(CAPABILITIES_TIMEOUT_MS));
        snapshot
    }

    /// A connection attempt failed with `error`. The generation moves on; a
    /// cleanup failure keeps reconnecting, any other failure schedules the
    /// next attempt. When the attempt came from the reconnect timer and the
    /// failure streak has reached the threshold with budget left, one radio
    /// cycle is granted and counted: the result is then `true` and the worker
    /// cycles the radio.
    pub fn attempt_failed(&mut self, error: PlatformError, from_timer: bool, now: u64) -> (r: bool)
        requires
            old(self).wf(),
        ensures
            final(self).wf(),
            final(self).connection_generation == next_generation(old(self).connection_generation),
            final(self).preferred_device_id == old(self).preferred_device_id,
            final(self).system_suspended == old(self).system_suspended,
            final(self).capabilities_deadline == old(self).capabilities_deadline,
            final(self).extend_deadline == old(self).extend_deadline,
            error is BleCleanup ==> {
                &&& Self::after_cleanup_failure(old(self), final(self), now, error)
                &&& !r
                &&& final(self).radio_recovery_cycles == old(self).radio_recovery_cycles
            },
            !(error is BleCleanup) ==> {
                let cycle = from_timer && final(self).backoff@.attempt
                    >= crate::bluetooth_radio::RADIO_RECOVERY_AFTER_FAILURES
                    && old(self).radio_recovery_cycles < RADIO_RECOVERY_MAX_CYCLES;
                &&& backoff_advanced(old(self).backoff@, final(self).backoff@)
                &&& final(self).reconnect_deadline == Some(
                    clock_add(now, final(self).backoff@.delay_ms),
                )
                &&& r == cycle
                &&& final(self).radio_recovery_cycles == (if cycle {
                    (old(self).radio_recovery_cycles + 1) as u32
                } else {
                    old(self).radio_recovery_cycles
                })
                &&& final(self).snapshot.phase == ConnectionPhase::Reconnecting
                &&& final(self).snapshot.reconnect_attempt == final(self).backoff@.attempt
                &&& !cycle ==> (final(self).snapshot.last_error matches Some(t) && t@
                    == reconnect_text(
                    platform_error_text(error),
                    final(self).backoff@.delay_ms,
                    final(self).backoff@.attempt,
                ))
                &&& cycle ==> (final(self).snapshot.last_error matches Some(t) && t@
                    == radio_cycle_notice(final(self).backoff@.attempt, final(self).radio_recovery_cycles))
            },
    {
        self.bump_generation();
        match &error {
            PlatformError::BleCleanup(_) => {
                self.cleanup_failed(now, &error);
                false
            },
            _ => {
                let reason = error.message();
                self.reschedule(now, reason.as_str());
                if from_timer && should_cycle(self.backoff.attempt(), self.radio_recovery_cycles) {
                    self.radio_recovery_cycles = self.radio_recovery_cycles + 1;
                    self.snapshot.last_error = Some(
                        radio_cycle_notice_text(self.backoff.attempt(), self.radio_recovery_cycles),
                    );
                    true
                } else {
                    false
                }
            },
        }
    }

    /// The radio cycle granted by `attempt_failed` finished with `result`:
    /// report it, forget the failure streak and retry soon.
    pub fn radio_cycled(&mut self, result: Result<(), String>, now: u64)
        requires
            old(self).wf(),
        ensures
            final(self).wf(),
            final(self).snapshot.last_error matches Some(t) && t@ == match result {
                Ok(()) => "蓝牙无线电已重启，正在重新连接小米语音遥控器…"@,
                Err(e) => "蓝牙自动恢复失败："@ + e@ + "。请检查遥控器电量，或手动开关一次蓝牙后重试。"@,
            },
            final(self).backoff@ == backoff_reset(old(self).backoff@),
            final(self).snapshot.reconnect_attempt == 0,
            final(self).snapshot.phase == old(self).snapshot.phase,
            final(self).snapshot.remote_name == old(self).snapshot.remote_name,
            final(self).reconnect_deadline == Some(clock_add(now, RADIO_RETRY_DELAY_MS)),
            final(self).preferred_device_id == old(self).preferred_device_id,
            final(self).system_suspended == old(self).system_suspended,
            final(self).capabilities_deadline == old(self).capabilities_deadline,
            final(self).extend_deadline == old(self).extend_deadline,
            final(self).radio_recovery_cycles == old(self).radio_recovery_cycles,
            final(self).connection_generation == old(self).connection_generation,
    {
        let text = match result {
            Ok(()) => String::from_str("蓝牙无线电已重启，正在重新连接小米语音遥控器…"),
            Err(e) => {
                let mut s = String::from_str("蓝牙自动恢复失败：");
                push_str(&mut s, e.as_str());
                push_str(&mut s, "。请检查遥控器电量，或手动开关一次蓝牙后重试。");
                s
            },
        };
        self.snapshot.last_error = Some(text);
        self.backoff.reset();
        self.snapshot.reconnect_attempt = 0;
        self.reconnect_deadline = Some(now.saturating_add(RADIO_RETRY_DELAY_MS));
    }

    /// The capabilities timer fired; the worker cleaned up the link with
    /// result `cleanup`.
    pub fn on_capabilities_timeout(&mut self, cleanup: Result<(), PlatformError>, now: u64)
        requires
            old(self).wf(),
        ensures
            final(self).wf(),
            final(self).capabilities_deadline is None,
            final(self).connection_generation == next_generation(old(self).connection_generation),
            Self::after_link_loss(
                old(self),
                final(self),
                now,
                cleanup,
                "等待小米语音遥控器返回 ATVV 能力超时"@,
            ),
            (cleanup is Ok && !(old(self).preferred_device_id is Some
                && !old(self).system_suspended)) ==> is_failed_with(
                final(self).snapshot,
                "等待小米语音遥控器返回 ATVV 能力超时"@,
            ),
    {
        self.capabilities_deadline = None;
        self.bump_generation();
        match cleanup {
            Err(e) => self.cleanup_failed(now, &e),
            Ok(()) => {
                if self.preferred_device_id.is_some() && !self.system_suspended {
                    self.reschedule(now, "等待小米语音遥控器返回 ATVV 能力超时");
                } else {
                    self.snapshot = failed_snapshot(
                        String::from_str("等待小米语音遥控器返回 ATVV 能力超时"),
                    );
                }
            },
        }
    }

    /// Common outcome of losing a link after cleanup result `cleanup`: a
    /// failed cleanup keeps reconnecting; otherwise a chosen remote is
    /// reconnected unless the system sleeps.
    pub open spec fn after_link_loss(
        old: &Self,
        new: &Self,
        now: u64,
        cleanup: Result<(), PlatformError>,
        reason: Seq<char>,
    ) -> bool {
        &&& new.preferred_device_id == old.preferred_device_id
        &&& new.system_suspended == old.system_suspended
        &&& new.extend_deadline == old.extend_deadline
        &&& new.radio_recovery_cycles == old.radio_recovery_cycles
        &&& match cleanup {
            Err(e) => Self::after_cleanup_failure(old, new, now, e),
            Ok(()) => if old.preferred_device_id is Some && !old.system_suspended {
                Self::rescheduled(old, new, now, reason)
            } else {
                new.backoff@ == old.backoff@ && new.reconnect_deadline == old.reconnect_deadline
            },
        }
    }

    /// The link reported a disconnect; the worker cleaned up with result
    /// `cleanup`.
    pub fn on_disconnected(&mut self, cleanup: Result<(), PlatformError>, now: u64)
        requires
            old(self).wf(),
        ensures
            final(self).wf(),
            final(self).capabilities_deadline is None,
            final(self).connection_generation == next_generation(old(self).connection_generation),
            Self::after_link_loss(old(self), final(self), now, cleanup, "小米语音遥控器蓝牙连接已断开"@),
            (cleanup is Ok && !(old(self).preferred_device_id is Some
                && !old(self).system_suspended)) ==> (final(self).snapshot == (ConnectionSnapshot {
                phase: ConnectionPhase::Disconnected,
                voice_state: VoiceSessionState::Idle,
                last_error: final(self).snapshot.last_error,
                ..old(self).snapshot
            }) && (final(self).snapshot.last_error matches Some(t) && t@ == "小米语音遥控器蓝牙连接已断开"@)),
    {
        self.capabilities_deadline = None;
        self.bump_generation();
        match cleanup {
            Err(e) => self.cleanup_failed(now, &e),
            Ok(()) => {
                if self.preferred_device_id.is_some() && !self.system_suspended {
                    self.reschedule(now, "小米语音遥控器蓝牙连接已断开");
                } else {
                    self.snapshot.phase = ConnectionPhase::Disconnected;
                    self.snapshot.voice_state = VoiceSessionState::Idle;
                    self.snapshot.last_error = Some(String::from_str("小米语音遥控器蓝牙连接已断开"));
                }
            },
        }
    }

    /// A callback of the link failed with `error`; the worker cleaned up with
    /// result `cleanup`.
    pub fn on_callback_error(
        &mut self,
        error: String,
        cleanup: Result<(), PlatformError>,
        now: u64,
    )
        requires
            old(self).wf(),
        ensures
            final(self).wf(),
            final(self).capabilities_deadline is None,
            final(self).connection_generation == next_generation(old(self).connection_generation),
            Self::after_link_loss(old(self), final(self), now, cleanup, error@),
            (cleanup is Ok && !(old(self).preferred_device_id is Some
                && !old(self).system_suspended)) ==> is_failed_with(final(self).snapshot, error@),
    {
        self.capabilities_deadline = None;
        self.bump_generation();
        match cleanup {
            Err(e) => self.cleanup_failed(now, &e),
            Ok(()) => {
                if self.preferred_device_id.is_some() && !self.system_suspended {
                    self.reschedule(now, error.as_str());
                } else {
                    self.snapshot = failed_snapshot(error);
                }
            },
        }
    }

    /// After a control message was handled: the capabilities timer only runs
    /// while capabilities are awaited, a ready link forgets its failure
    /// streak, and a failed link must be torn down (the result is then `true`).
    pub fn settle_after_control(&mut self) -> (r: bool)
        requires
            old(self).wf(),
        ensures
            final(self).wf(),
            r == (old(self).snapshot.phase == ConnectionPhase::Failed),
            final(self).capabilities_deadline == (if old(self).snapshot.phase
                != ConnectionPhase::AwaitingCapabilities {
                None
            } else {
                old(self).capabilities_deadline
            }),
            old(self).snapshot.phase == ConnectionPhase::Ready ==> {
                &&& final(self).backoff@ == backoff_reset(old(self).backoff@)
                &&& final(self).radio_recovery_cycles == 0
                &&& final(self).snapshot == (ConnectionSnapshot {
                    reconnect_attempt: 0,
                    ..old(self).snapshot
                })
            },
            old(self).snapshot.phase != ConnectionPhase::Ready ==> {
                &&& final(self).backoff@ == old(self).backoff@
                &&& final(self).radio_recovery_cycles == old(self).radio_recovery_cycles
                &&& final(self).snapshot == old(self).snapshot
            },
            final(self).preferred_device_id == old(self).preferred_device_id,
            final(self).system_suspended == old(self).system_suspended,
            final(self).reconnect_deadline == old(self).reconnect_deadline,
            final(self).extend_deadline == old(self).extend_deadline,
            final(self).connection_generation == old(self).connection_generation,
    {
        let phase = self.snapshot.phase;
        if phase != ConnectionPhase::AwaitingCapabilities {
            self.capabilities_deadline = None;
        }
        if phase == ConnectionPhase::Ready {
            self.backoff.reset();
            self.radio_recovery_cycles = 0;
            self.snapshot.reconnect_attempt = 0;
        }
        phase == ConnectionPhase::Failed
    }

    /// A link that failed its capability exchange was torn down with result
    /// `cleanup`: reconnect with the reported error.
    pub fn on_link_failed(&mut self, cleanup: Result<(), PlatformError>, now: u64)
        requires
            old(self).wf(),
        ensures
            final(self).wf(),
            final(self).capabilities_deadline == old(self).capabilities_deadline,
            final(self).connection_generation == next_generation(old(self).connection_generation),
            Self::after_link_loss(
                old(self),
                final(self),
                now,
                cleanup,
                match old(self).snapshot.last_error {
                    Some(e) => e@,
                    None => "ATVV 能力确认失败"@,
                },
            ),
            (cleanup is Ok && !(old(self).preferred_device_id is Some
                && !old(self).system_suspended)) ==> final(self).snapshot == old(self).snapshot,
    {
        let error = match &self.snapshot.last_error {
            Some(e) => e.clone(),
            None => String::from_str("ATVV 能力确认失败"),
        };
        self.bump_generation();
        match cleanup {
            Err(e) => self.cleanup_failed(now, &e),
            Ok(()) => {
                if self.preferred_device_id.is_some() && !self.system_suspended {
                    self.reschedule(now, error.as_str());
                }
            },
        }
    }

    /// An explicit disconnect: forget the chosen remote and all timers; the
    /// worker cleaned up the link with result `cleanup`, which is also the
    /// answer to the request.
    pub fn on_disconnect_requested(&mut self, cleanup: Result<(), PlatformError>, now: u64) -> (r:
        Result<ConnectionSnapshot, PlatformError>)
        requires
            old(self).wf(),
        ensures
            final(self).wf(),
            final(self).preferred_device_id is None,
            !final(self).system_suspended,
            final(self).capabilities_deadline is None,
            final(self).reconnect_deadline is None,
            final(self).radio_recovery_cycles == 0,
            final(self).backoff@ == backoff_reset(old(self).backoff@),
            final(self).connection_generation == next_generation(old(self).connection_generation),
            match cleanup {
                Ok(()) => r matches Ok(s) && s.is_initial() && final(self).snapshot.is_initial(),
                Err(e) => r == Err::<ConnectionSnapshot, PlatformError>(e) && is_failed_with(
                    final(self).snapshot,
                    platform_error_text(e),
                ),
            },
    {
        self.preferred_device_id = None;
        self.system_suspended = false;
        self.reconnect_deadline = None;
        self.capabilities_deadline = None;
        self.backoff.reset();
        self.radio_recovery_cycles = 0;
        self.bump_generation();
        match cleanup {
            Ok(()) => {
                let snapshot = ConnectionSnapshot::default();
                self.snapshot = ConnectionSnapshot::default();
                Ok(snapshot)
            },
            Err(e) => {
                self.cleanup_failed(now, &e);
                Err(e)
            },
        }
    }

    /// Restores the remote chosen in an earlier run: reconnect now, or after
    /// the system wakes up when it sleeps.
    pub fn on_restore_requested(&mut self, device_id: String, now: u64) -> (r: ConnectionSnapshot)
        requires
            old(self).wf(),
        ensures
            final(self).wf(),
            r == final(self).snapshot,
            final(self).preferred_device_id == Some(device_id),
            final(self).backoff@ == backoff_reset(old(self).backoff@),
            final(self).radio_recovery_cycles == 0,
            final(self).system_suspended == old(self).system_suspended,
            old(self).system_suspended ==> {
                &&& final(self).reconnect_deadline is None
                &&& r.phase == ConnectionPhase::Suspended
                &&& r.last_error matches Some(t) && t@
                    == "Windows 当前处于睡眠状态，恢复后将重新连接小米语音遥控器"@
            },
            !old(self).system_suspended ==> {
                &&& final(self).reconnect_deadline == Some(now)
                &&& r.phase == ConnectionPhase::Reconnecting
                &&& r.last_error matches Some(t) && t@ == "正在恢复上次选择的小米语音遥控器"@
            },
            r.remote_name is None && !r.capabilities_confirmed,
            r.voice_state == VoiceSessionState::Idle,
            r.decoded_samples == 0 && r.generation == 0 && r.reconnect_attempt == 0,
            !r.power_notifications_available,
            final(self).capabilities_deadline == old(self).capabilities_deadline,
            final(self).extend_deadline == old(self).extend_deadline,
            final(self).connection_generation == old(self).connection_generation,
    {
        self.preferred_device_id = Some(device_id);
        self.backoff.reset();
        self.radio_recovery_cycles = 0;
        self.reconnect_deadline = None;
        let (phase, text) = if self.system_suspended {
            (
                ConnectionPhase::Suspended,
                String::from_str("Windows 当前处于睡眠状态，恢复后将重新连接小米语音遥控器"),
            )
        } else {
            self.reconnect_deadline = Some(now);
            (ConnectionPhase::Reconnecting, String::from_str("正在恢复上次选择的小米语音遥控器"))
        };
        let snapshot = ConnectionSnapshot {
            phase,
            remote_name: None,
            capabilities_confirmed: false,
            voice_state: VoiceSessionState::Idle,
            decoded_samples: 0,
            generation: 0,
            reconnect_attempt: 0,
            power_notifications_available: false,
            last_error: Some(text),
        };
        self.snapshot = snapshot.duplicate();
        snapshot
    }

    /// The system goes to sleep; the worker released the link with result
    /// `cleanup`.
    pub fn on_suspended(&mut self, cleanup: Result<(), PlatformError>, now: u64)
        requires
            old(self).wf(),
        ensures
            final(self).wf(),
            final(self).system_suspended,
            final(self).capabilities_deadline is None,
            final(self).connection_generation == next_generation(old(self).connection_generation),
            final(self).preferred_device_id == old(self).preferred_device_id,
            final(self).radio_recovery_cycles == old(self).radio_recovery_cycles,
            match cleanup {
                Err(e) => {
                    &&& old(self).preferred_device_id is Some ==> backoff_advanced(
                        old(self).backoff@,
                        final(self).backoff@,
                    ) && final(self).reconnect_deadline == Some(
                        clock_add(now, final(self).backoff@.delay_ms),
                    )
                    &&& old(self).preferred_device_id is None ==> final(self).reconnect_deadline is None
                        && is_failed_with(final(self).snapshot, platform_error_text(e))
                },
                Ok(()) => {
                    &&& final(self).reconnect_deadline is None
                    &&& final(self).backoff@ == old(self).backoff@
                    &&& final(self).snapshot.phase == ConnectionPhase::Suspended
                    &&& final(self).snapshot.remote_name == old(self).snapshot.remote_name
                    &&& final(self).snapshot.last_error matches Some(t) && t@
                        == "Windows 已进入睡眠，小米语音遥控器资源已释放"@
                    &&& !final(self).snapshot.capabilities_confirmed
                    &&& final(self).snapshot.voice_state == VoiceSessionState::Idle
                    &&& final(self).snapshot.decoded_samples == 0
                    &&& final(self).snapshot.generation == 0
                    &&& final(self).snapshot.reconnect_attempt == 0
                },
            },
    {
        self.system_suspended = true;
        self.capabilities_deadline = None;
        self.reconnect_deadline = None;
        self.bump_generation();
        match cleanup {
            Err(e) => self.cleanup_failed(now, &e),
            Ok(()) => {
                let remote_name = self.snapshot.remote_name.clone();
                self.snapshot = ConnectionSnapshot {
                    phase: ConnectionPhase::Suspended,
                    remote_name,
                    capabilities_confirmed: false,
                    voice_state: VoiceSessionState::Idle,
                    decoded_samples: 0,
                    generation: 0,
                    reconnect_attempt: 0,
                    power_notifications_available: false,
                    last_error: Some(String::from_str("Windows 已进入睡眠，小米语音遥控器资源已释放")),
                };
            },
        }
    }

    /// The system woke up: reconnect the chosen remote at once.
    pub fn on_resumed(&mut self, now: u64)
        requires
            old(self).wf(),
        ensures
            final(self).wf(),
            !old(self).system_suspended ==> final(self).snapshot == old(self).snapshot
                && final(self).reconnect_deadline == old(self).reconnect_deadline
                && final(self).backoff@ == old(self).backoff@
                && final(self).radio_recovery_cycles == old(self).radio_recovery_cycles,
            old(self).system_suspended ==> {
                &&& !final(self).system_suspended
                &&& final(self).backoff@ == backoff_reset(old(self).backoff@)
                &&& final(self).radio_recovery_cycles == 0
                &&& old(self).preferred_device_id is Some ==> {
                    &&& final(self).reconnect_deadline == Some(now)
                    &&& final(self).snapshot.phase == ConnectionPhase::Reconnecting
                    &&& final(self).snapshot.remote_name == old(self).snapshot.remote_name
                    &&& final(self).snapshot.last_error matches Some(t) && t@
                        == "Windows 已恢复，正在重新连接小米语音遥控器"@
                }
                &&& old(self).preferred_device_id is None ==> final(self).snapshot.is_initial()
                    && final(self).reconnect_deadline == old(self).reconnect_deadline
            },
            final(self).preferred_device_id == old(self).preferred_device_id,
            final(self).capabilities_deadline == old(self).capabilities_deadline,
            final(self).connection_generation == old(self).connection_generation,
    {
        if !self.system_suspended {
            return;
        }
        self.system_suspended = false;
        self.backoff.reset();
        self.radio_recovery_cycles = 0;
        if self.preferred_device_id.is_some() {
            self.reconnect_deadline = Some(now);
            let remote_name = self.snapshot.remote_name.clone();
            self.snapshot = ConnectionSnapshot {
                phase: ConnectionPhase::Reconnecting,
                remote_name,
                capabilities_confirmed: false,
                voice_state: VoiceSessionState::Idle,
                decoded_samples: 0,
                generation: 0,
                reconnect_attempt: 0,
                power_notifications_available: false,
                last_error: Some(String::from_str("Windows 已恢复，正在重新连接小米语音遥控器")),
            };
        } else {
            self.snapshot = ConnectionSnapshot::default();
        }
    }

    /// The microphone-extend timer fired: clear it. The worker sends the
    /// command only while a voice session streams and reports its result to
    /// `extend_sent`.
    pub fn on_extend_due(&mut self)
        ensures
            final(self).extend_deadline is None,
            final(self).snapshot == old(self).snapshot,
            final(self).preferred_device_id == old(self).preferred_device_id,
            final(self).system_suspended == old(self).system_suspended,
            final(self).capabilities_deadline == old(self).capabilities_deadline,
            final(self).reconnect_deadline == old(self).reconnect_deadline,
            final(self).backoff@ == old(self).backoff@,
            final(self).radio_recovery_cycles == old(self).radio_recovery_cycles,
            final(self).connection_generation == old(self).connection_generation,
    {
        self.extend_deadline = None;
    }

    /// The microphone-extend command was written with result `result`: on
    /// success the next extension is due one interval later; a failure is
    /// reported and no further extension is scheduled.
    pub fn extend_sent(&mut self, result: Result<(), PlatformError>, now: u64)
        ensures
            match result {
                Ok(()) => final(self).extend_deadline == Some(
                    clock_add(now, MICROPHONE_EXTEND_INTERVAL_MS),
                ) && final(self).snapshot == old(self).snapshot,
                Err(e) => final(self).extend_deadline == old(self).extend_deadline
                    && final(self).snapshot.phase == old(self).snapshot.phase
                    && (final(self).snapshot.last_error matches Some(t) && t@ == "发送 MIC_EXTEND 失败："@
                    + platform_error_text(e)),
            },
            final(self).preferred_device_id == old(self).preferred_device_id,
            final(self).system_suspended == old(self).system_suspended,
            final(self).capabilities_deadline == old(self).capabilities_deadline,
            final(self).reconnect_deadline == old(self).reconnect_deadline,
            final(self).backoff@ == old(self).backoff@,
            final(self).radio_recovery_cycles == old(self).radio_recovery_cycles,
            final(self).connection_generation == old(self).connection_generation,
    {
        match result {
            Ok(()) => {
                self.extend_deadline = Some(now.saturating_add(MICROPHONE_EXTEND_INTERVAL_MS));
            },
            Err(e) => {
                let mut t = String::from_str("发送 MIC_EXTEND 失败：");
                let m = e.message();
                push_str(&mut t, m.as_str());
                self.snapshot.last_error = Some(t);
            },
        }
    }

    /// Nothing but the voice session moved: the chosen remote, sleep, the
    /// capabilities and reconnect timers, the backoff, the radio cycles and
    /// the link generation are as they were.
    pub open spec fn same_link(old: &Self, new: &Self) -> bool {
        &&& new.preferred_device_id == old.preferred_device_id
        &&& new.system_suspended == old.system_suspended
        &&& new.capabilities_deadline == old.capabilities_deadline
        &&& new.reconnect_deadline == old.reconnect_deadline
        &&& new.backoff@ == old.backoff@
        &&& new.radio_recovery_cycles == old.radio_recovery_cycles
        &&& new.connection_generation == old.connection_generation
    }

    fn abort_voice(&mut self, error: String)
        ensures
            aborted_snapshot(old(self).snapshot, final(self).snapshot, error@),
            final(self).active_voice_samples == 0,
            final(self).extend_deadline == old(self).extend_deadline,
            Self::same_link(old(self), final(self)),
    {
        voice_session_aborted(&mut self.snapshot, error);
        self.active_voice_samples = 0;
    }

    /// A control message of the remote was handled by the voice pipeline
    /// with result `event`; `voice_idle` says whether no voice session runs.
    pub fn on_control_event(&mut self, event: ControlEvent, voice_idle: bool, now: u64) -> (r:
        ControlAction)
        requires
            old(self).wf(),
        ensures
            final(self).wf(),
            Self::same_link(old(self), final(self)),
            match event {
                ControlEvent::Ready => {
                    &&& r == ControlAction::Nothing
                    &&& final(self).snapshot == (ConnectionSnapshot {
                        phase: ConnectionPhase::Ready,
                        capabilities_confirmed: true,
                        voice_state: VoiceSessionState::Idle,
                        last_error: None,
                        ..old(self).snapshot
                    })
                    &&& final(self).extend_deadline == old(self).extend_deadline
                    &&& final(self).active_voice_samples == old(self).active_voice_samples
                },
                ControlEvent::Failed(e) => {
                    &&& r == ControlAction::Nothing
                    &&& final(self).snapshot == (if old(self).snapshot.phase
                        == ConnectionPhase::AwaitingCapabilities {
                        ConnectionSnapshot {
                            phase: ConnectionPhase::Failed,
                            voice_state: VoiceSessionState::Idle,
                            last_error: Some(e),
                            ..old(self).snapshot
                        }
                    } else {
                        ConnectionSnapshot { last_error: Some(e), ..old(self).snapshot }
                    })
                    &&& final(self).extend_deadline == old(self).extend_deadline
                    &&& final(self).active_voice_samples == old(self).active_voice_samples
                },
                ControlEvent::MicrophoneOpenRequested => {
                    &&& r == (if voice_idle && old(self).snapshot.capabilities_confirmed {
                        ControlAction::OpenMicrophone
                    } else {
                        ControlAction::Nothing
                    })
                    &&& final(self).snapshot == old(self).snapshot
                    &&& final(self).extend_deadline == old(self).extend_deadline
                    &&& final(self).active_voice_samples == old(self).active_voice_samples
                },
                ControlEvent::StreamStarted { session_id, generation } => {
                    &&& r == ControlAction::BeginStream { session_id, generation }
                    &&& final(self).snapshot == old(self).snapshot
                    &&& final(self).extend_deadline == Some(
                        clock_add(now, MICROPHONE_EXTEND_INTERVAL_MS),
                    )
                    &&& final(self).active_voice_samples == 0
                },
                ControlEvent::StreamStopped { generation } => {
                    &&& r == ControlAction::FinishStream { generation }
                    &&& final(self).snapshot == (ConnectionSnapshot {
                        phase: ConnectionPhase::Draining,
                        voice_state: VoiceSessionState::Draining,
                        ..old(self).snapshot
                    })
                    &&& final(self).extend_deadline is None
                    &&& final(self).active_voice_samples == old(self).active_voice_samples
                },
                ControlEvent::Ignored => {
                    &&& r == ControlAction::Nothing
                    &&& final(self).snapshot == old(self).snapshot
                    &&& final(self).extend_deadline == old(self).extend_deadline
                    &&& final(self).active_voice_samples == old(self).active_voice_samples
                },
            },
    {
        match event {
            ControlEvent::Ready => {
                self.snapshot.phase = ConnectionPhase::Ready;
                self.snapshot.capabilities_confirmed = true;
                self.snapshot.voice_state = VoiceSessionState::Idle;
                self.snapshot.last_error = None;
                ControlAction::Nothing
            },
            ControlEvent::Failed(e) => {
                self.snapshot.last_error = Some(e);
                if self.snapshot.phase == ConnectionPhase::AwaitingCapabilities {
                    self.snapshot.phase = ConnectionPhase::Failed;
                    self.snapshot.voice_state = VoiceSessionState::Idle;
                }
                ControlAction::Nothing
            },
            ControlEvent::MicrophoneOpenRequested => {
                if voice_idle && self.snapshot.capabilities_confirmed {
                    ControlAction::OpenMicrophone
                } else {
                    ControlAction::Nothing
                }
            },
            ControlEvent::StreamStarted { session_id, generation } => {
                self.active_voice_samples = 0;
                self.extend_deadline = Some(now.saturating_add(MICROPHONE_EXTEND_INTERVAL_MS));
                ControlAction::BeginStream { session_id, generation }
            },
            ControlEvent::StreamStopped { generation } => {
                self.extend_deadline = None;
                self.snapshot.phase = ConnectionPhase::Draining;
                self.snapshot.voice_state = VoiceSessionState::Draining;
                ControlAction::FinishStream { generation }
            },
            ControlEvent::Ignored => ControlAction::Nothing,
        }
    }

    /// Asking the remote to open its microphone failed with `error`: it is shown.
    pub fn microphone_open_failed(&mut self, error: String)
        ensures
            final(self).snapshot == (ConnectionSnapshot {
                last_error: Some(error),
                ..old(self).snapshot
            }),
            final(self).extend_deadline == old(self).extend_deadline,
            final(self).active_voice_samples == old(self).active_voice_samples,
            Self::same_link(old(self), final(self)),
    {
        self.snapshot.last_error = Some(error);
    }

    /// The actions of a started voice stream of `generation` came back with
    /// `result`. On success the link streams that generation; otherwise the
    /// session is aborted (the result is `true`: release the hotkey, ask the
    /// remote to close the microphone, interrupt the audio and the pipeline).
    pub fn stream_begun(&mut self, generation: u64, result: Result<(), StreamStartFailure>) -> (aborted:
        bool)
        ensures
            aborted == (result is Err),
            match result {
                Ok(()) => {
                    &&& final(self).snapshot == (ConnectionSnapshot {
                        phase: ConnectionPhase::Streaming,
                        voice_state: VoiceSessionState::Streaming,
                        generation,
                        last_error: None,
                        ..old(self).snapshot
                    })
                    &&& final(self).active_voice_samples == old(self).active_voice_samples
                },
                Err(f) => {
                    &&& aborted_snapshot(old(self).snapshot, final(self).snapshot, start_failure_text(f))
                    &&& final(self).active_voice_samples == 0
                },
            },
            final(self).extend_deadline == old(self).extend_deadline,
            Self::same_link(old(self), final(self)),
    {
        match result {
            Ok(()) => {
                self.snapshot.phase = ConnectionPhase::Streaming;
                self.snapshot.voice_state = VoiceSessionState::Streaming;
                self.snapshot.generation = generation;
                self.snapshot.last_error = None;
                false
            },
            Err(StreamStartFailure::HotkeyPress(e)) => {
                let mut t = String::from_str("按住说话快捷键注入失败：");
                push_str(&mut t, e.as_str());
                self.abort_voice(t);
                true
            },
            Err(StreamStartFailure::Audio(e)) => {
                self.abort_voice(e);
                true
            },
        }
    }

    /// The actions of a stopped voice stream came back with `result`. A
    /// drained stream leaves the link ready and its session is counted with
    /// the samples it decoded; an audio failure aborts the session; a refused
    /// drain is shown and the link stays draining.
    pub fn stream_finished(&mut self, result: Result<(), DrainFailure>) -> (r: StreamEnd)
        ensures
            match result {
                Ok(()) => {
                    &&& r == StreamEnd::Completed { samples: old(self).active_voice_samples }
                    &&& final(self).snapshot == (ConnectionSnapshot {
                        phase: ConnectionPhase::Ready,
                        voice_state: VoiceSessionState::Idle,
                        ..old(self).snapshot
                    })
                    &&& final(self).active_voice_samples == 0
                },
                Err(DrainFailure::Audio(e)) => {
                    &&& r == StreamEnd::Aborted
                    &&& aborted_snapshot(old(self).snapshot, final(self).snapshot, e@)
                    &&& final(self).active_voice_samples == 0
                },
                Err(DrainFailure::Pipeline(e)) => {
                    &&& r == StreamEnd::DrainRefused
                    &&& final(self).snapshot == (ConnectionSnapshot {
                        last_error: Some(e),
                        ..old(self).snapshot
                    })
                    &&& final(self).active_voice_samples == old(self).active_voice_samples
                },
            },
            final(self).extend_deadline == old(self).extend_deadline,
            Self::same_link(old(self), final(self)),
    {
        match result {
            Ok(()) => {
                let samples = self.active_voice_samples;
                self.active_voice_samples = 0;
                self.snapshot.phase = ConnectionPhase::Ready;
                self.snapshot.voice_state = VoiceSessionState::Idle;
                StreamEnd::Completed { samples }
            },
            Err(DrainFailure::Audio(e)) => {
                self.abort_voice(e);
                StreamEnd::Aborted
            },
            Err(DrainFailure::Pipeline(e)) => {
                self.snapshot.last_error = Some(e);
                StreamEnd::DrainRefused
            },
        }
    }

    /// An audio message was handled by the voice pipeline with result
    /// `event`; `voice_streaming` says whether a voice session streams (audio
    /// outside a stream is dropped). Decoded samples are counted; a failed
    /// audio output aborts the session (the result is `true`: release the
    /// hotkey, ask the remote to close the microphone, interrupt the audio
    /// and the pipeline); a decoding error is shown.
    pub fn on_audio_event(&mut self, event: AudioEvent, voice_streaming: bool) -> (aborted: bool)
        ensures
            !voice_streaming ==> !aborted && final(self).snapshot == old(self).snapshot
                && final(self).active_voice_samples == old(self).active_voice_samples,
            voice_streaming ==> match event {
                AudioEvent::OutputFailed(e) => aborted && aborted_snapshot(
                    old(self).snapshot,
                    final(self).snapshot,
                    e@,
                ) && final(self).active_voice_samples == 0,
                AudioEvent::Samples { generation, count, queued } => match queued {
                    Err(e) => aborted && aborted_snapshot(
                        old(self).snapshot,
                        final(self).snapshot,
                        e@,
                    ) && final(self).active_voice_samples == 0,
                    Ok(()) => !aborted && final(self).snapshot == (ConnectionSnapshot {
                        decoded_samples: saturating_sum(old(self).snapshot.decoded_samples, count),
                        generation,
                        ..old(self).snapshot
                    }) && final(self).active_voice_samples == saturating_sum(
                        old(self).active_voice_samples,
                        count,
                    ),
                },
                AudioEvent::NoSamples => !aborted && final(self).snapshot == old(self).snapshot
                    && final(self).active_voice_samples == old(self).active_voice_samples,
                AudioEvent::DecodeFailed(e) => !aborted && final(self).snapshot == (
                ConnectionSnapshot { last_error: Some(e), ..old(self).snapshot })
                    && final(self).active_voice_samples == old(self).active_voice_samples,
            },
            final(self).extend_deadline == old(self).extend_deadline,
            Self::same_link(old(self), final(self)),
    {
        if !voice_streaming {
            return false;
        }
        match event {
            AudioEvent::OutputFailed(e) => {
                self.abort_voice(e);
                true
            },
            AudioEvent::Samples { generation, count, queued } => match queued {
                Err(e) => {
                    self.abort_voice(e);
                    true
                },
                Ok(()) => {
                    self.snapshot.decoded_samples = self.snapshot.decoded_samples.saturating_add(
                        count,
                    );
                    self.snapshot.generation = generation;
                    self.active_voice_samples = self.active_voice_samples.saturating_add(count);
                    false
                },
            },
            AudioEvent::NoSamples => false,
            AudioEvent::DecodeFailed(e) => {
                self.snapshot.last_error = Some(e);
                false
            },
        }
    }

}

/// The text shown while the radio is cycled.
pub open spec fn radio_cycle_notice(failures: u32, cycle: u32) -> Seq<char> {
    "连续 "@ + decimal_seq(failures as nat) + " 次重连失败，正在自动重启蓝牙无线电以清除僵死链路（第 "@
        + decimal_seq(cycle as nat) + "/"@ + decimal_seq(RADIO_RECOVERY_MAX_CYCLES as nat)
        + " 次）…"@
}

fn radio_cycle_notice_text(failures: u32, cycle: u32) -> (r: String)
    ensures
        r@ == radio_cycle_notice(failures, cycle),
{
    let mut s = String::from_str("连续 ");
    let a = decimal_string(failures as u64);
    push_str(&mut s, a.as_str());
    push_str(&mut s, " 次重连失败，正在自动重启蓝牙无线电以清除僵死链路（第 ");
    let b = decimal_string(cycle as u64);
    push_str(&mut s, b.as_str());
    push_str(&mut s, "/");
    let c = decimal_string(RADIO_RECOVERY_MAX_CYCLES as u64);
    push_str(&mut s, c.as_str());
    push_str(&mut s, " 次）…");
    s
}

/// Every teardown moves the generation on, so callbacks tagged with the
/// generation of a link that was torn down are never taken for the new link.
pub proof fn law_teardown_retires_old_callbacks(g: u64)
    ensures
        next_generation(g) != g,
{
}

/// Without a chosen remote nothing schedules a reconnect: losing the link,
/// failing its cleanup, or timing out leaves no reconnect deadline behind
/// that was not already there.
pub proof fn law_no_reconnect_without_chosen_remote(
    old: BleSupervisor,
    new: BleSupervisor,
    now: u64,
    cleanup: Result<(), PlatformError>,
    reason: Seq<char>,
)
    requires
        old.preferred_device_id is None,
        BleSupervisor::after_link_loss(&old, &new, now, cleanup, reason),
    ensures
        new.reconnect_deadline is None || new.reconnect_deadline == old.reconnect_deadline,
        new.backoff@ == old.backoff@,
{
}

/// While the system sleeps a lost link is not reconnected; only a failed
/// cleanup with a chosen remote schedules another attempt.
pub proof fn law_no_reconnect_while_suspended(
    old: BleSupervisor,
    new: BleSupervisor,
    now: u64,
    reason: Seq<char>,
)
    requires
        old.system_suspended,
        BleSupervisor::after_link_loss(&old, &new, now, Ok(()), reason),
    ensures
        new.reconnect_deadline == old.reconnect_deadline,
        new.backoff@ == old.backoff@,
{
}


/// The error of a connection teardown: the audio interrupt's error (as
/// `"音频中断：<error>"`) and the session close's error, joined with `；`;
/// no error when both succeeded.
pub open spec fn cleanup_text(audio: Result<(), PlatformError>, close: Result<(), PlatformError>) -> Seq<char> {
    match (audio, close) {
        (Err(a), Err(c)) => "音频中断："@ + crate::platform::platform_error_text(a) + "；"@
            + crate::platform::platform_error_text(c),
        (Err(a), Ok(())) => "音频中断："@ + crate::platform::platform_error_text(a),
        (Ok(()), Err(c)) => crate::platform::platform_error_text(c),
        (Ok(()), Ok(())) => Seq::empty(),
    }
}

/// Combines the outcomes of the two teardown steps of a connection.
pub fn cleanup_result(audio: Result<(), PlatformError>, close: Result<(), PlatformError>) -> (r: Result<(), PlatformError>)
    ensures
        audio is Ok && close is Ok ==> r is Ok,
        !(audio is Ok && close is Ok) ==> (r matches Err(PlatformError::BleCleanup(t)) && t@
            == cleanup_text(audio, close)),
{
    match (&audio, &close) {
        (Ok(()), Ok(())) => Ok(()),
        (Err(a), Ok(())) => {
            let mut t = String::from_str("音频中断：");
            let m = a.message();
            crate::text::push_str(&mut t, m.as_str());
            Err(PlatformError::BleCleanup(t))
        },
        (Ok(()), Err(c)) => Err(PlatformError::BleCleanup(c.message())),
        (Err(a), Err(c)) => {
            let mut t = String::from_str("音频中断：");
            let m = a.message();
            crate::text::push_str(&mut t, m.as_str());
            crate::text::push_str(&mut t, "；");
            let n = c.message();
            crate::text::push_str(&mut t, n.as_str());
            Err(PlatformError::BleCleanup(t))
        },
    }
}

/// A voice session was aborted with `error`: the link stays ready when the
/// remote's capabilities are known (else it failed), no session runs, and
/// the error is shown.
pub fn voice_session_aborted(snapshot: &mut ConnectionSnapshot, error: String)
    ensures
        final(snapshot).phase == (if old(snapshot).capabilities_confirmed {
            ConnectionPhase::Ready
        } else {
            ConnectionPhase::Failed
        }),
        final(snapshot).voice_state == VoiceSessionState::Idle,
        final(snapshot).last_error == Some(error),
        final(snapshot).remote_name == old(snapshot).remote_name,
        final(snapshot).capabilities_confirmed == old(snapshot).capabilities_confirmed,
        final(snapshot).decoded_samples == old(snapshot).decoded_samples,
        final(snapshot).generation == old(snapshot).generation,
        final(snapshot).reconnect_attempt == old(snapshot).reconnect_attempt,
        final(snapshot).power_notifications_available == old(snapshot).power_notifications_available,
{
    snapshot.phase = if snapshot.capabilities_confirmed {
        ConnectionPhase::Ready
    } else {
        ConnectionPhase::Failed
    };
    snapshot.voice_state = VoiceSessionState::Idle;
    snapshot.last_error = Some(error);
}

/// What a Windows power event means for the link.
#[derive(Debug, Clone, Copy, PartialEq, Eq, Structural)]
pub enum PowerEvent {
    Suspended,
    Resumed,
}

/// `PBT_APMSUSPEND`, and the three resume events (`PBT_APMRESUMECRITICAL`,
/// `PBT_APMRESUMESUSPEND`, `PBT_APMRESUMEAUTOMATIC`).
pub const PBT_APMSUSPEND: u32 = 4;
pub const PBT_APMRESUMECRITICAL: u32 = 6;
pub const PBT_APMRESUMESUSPEND: u32 = 7;
pub const PBT_APMRESUMEAUTOMATIC: u32 = 18;

/// The power event a notification code stands for; other codes mean nothing.
pub fn power_event(event_type: u32) -> (r: Option<PowerEvent>)
    ensures
        event_type == PBT_APMSUSPEND ==> r == Some(PowerEvent::Suspended),
        event_type == PBT_APMRESUMECRITICAL || event_type == PBT_APMRESUMESUSPEND || event_type
            == PBT_APMRESUMEAUTOMATIC ==> r == Some(PowerEvent::Resumed),
        event_type != PBT_APMSUSPEND && event_type != PBT_APMRESUMECRITICAL && event_type
            != PBT_APMRESUMESUSPEND && event_type != PBT_APMRESUMEAUTOMATIC ==> r is None,
{
    if event_type == PBT_APMSUSPEND {
        Some(PowerEvent::Suspended)
    } else if event_type == PBT_APMRESUMECRITICAL || event_type == PBT_APMRESUMESUSPEND
        || event_type == PBT_APMRESUMEAUTOMATIC {
        Some(PowerEvent::Resumed)
    } else {
        None
    }
}

} // verus!
