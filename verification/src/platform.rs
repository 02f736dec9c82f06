//! Snapshots the platform layer reports, its error type, usage counters, the
//! name checks for remotes and audio endpoints, and the platform facade as it
//! behaves on a host without the Windows APIs.
use vstd::prelude::*;
use crate::raw_input::{RawInputPhase, RawInputSnapshot};
use crate::text::{
    chars_equal, chars_of, contains_chars, decimal_seq, push_str, seq_contains, to_unicode_lowercase,
    trim_chars, trim_seq, unicode_lowercase,
};

verus! {

/// Everything the settings window shows about the platform layer.
#[derive(Debug, Clone, PartialEq, Eq)]
pub struct PlatformSnapshot {
    pub platform: String,
    pub windows_api_available: bool,
    pub ble_scan_available: bool,
    pub ble_voice_ready: bool,
    pub wasapi_ready: bool,
    pub raw_input_ready: bool,
    pub send_input_ready: bool,
    pub verification_status: String,
    pub connection: ConnectionSnapshot,
    pub audio: AudioSnapshot,
    pub raw_input: RawInputSnapshot,
}

/// A paired Bluetooth LE device whose name is one of the approved remotes.
#[derive(Debug, Clone, PartialEq, Eq)]
pub struct PairedRemote {
    pub id: String,
    pub name: String,
    pub is_supported_candidate: bool,
}

/// An audio render endpoint the user may choose.
#[derive(Debug, Clone, PartialEq, Eq)]
pub struct AudioEndpoint {
    pub id: String,
    pub name: String,
    pub is_virtual_cable_candidate: bool,
}

#[derive(Debug, Clone, Copy, PartialEq, Eq, Structural)]
pub enum AudioPhase {
    Unconfigured,
    Ready,
    Streaming,
    Draining,
    Failed,
    Unsupported,
}

impl Default for AudioPhase {
    fn default() -> (r: Self)
        ensures
            r == AudioPhase::Unconfigured,
    {
        AudioPhase::Unconfigured
    }
}

/// State of the audio output.
#[derive(Debug, Clone, PartialEq, Eq)]
pub struct AudioSnapshot {
    pub phase: AudioPhase,
    pub selected_endpoint_id: Option<String>,
    pub selected_endpoint_name: Option<String>,
    pub queued_samples: u64,
    pub submitted_samples: u64,
    pub generation: u64,
    pub last_error: Option<String>,
}

impl AudioSnapshot {
    /// The snapshot of an output that nobody configured yet.
    pub open spec fn is_initial(&self) -> bool {
        &&& self.phase == AudioPhase::Unconfigured
        &&& self.selected_endpoint_id is None
        &&& self.selected_endpoint_name is None
        &&& self.queued_samples == 0
        &&& self.submitted_samples == 0
        &&& self.generation == 0
        &&& self.last_error is None
    }
}

impl Default for AudioSnapshot {
    fn default() -> (r: Self)
        ensures
            r.is_initial(),
    {
        AudioSnapshot {
            phase: AudioPhase::Unconfigured,
            selected_endpoint_id: None,
            selected_endpoint_name: None,
            queued_samples: 0,
            submitted_samples: 0,
            generation: 0,
            last_error: None,
        }
    }
}

/// Phase of the link to the voice remote.
#[derive(Debug, Clone, Copy, PartialEq, Eq, Structural)]
pub enum ConnectionPhase {
    Idle,
    Connecting,
    Discovering,
    AwaitingCapabilities,
    Ready,
    Streaming,
    Draining,
    Reconnecting,
    Suspended,
    Disconnected,
    Failed,
}

impl Default for ConnectionPhase {
    fn default() -> (r: Self)
        ensures
            r == ConnectionPhase::Idle,
    {
        ConnectionPhase::Idle
    }
}

/// Phase of a voice session as the link reports it.
#[derive(Debug, Clone, Copy, PartialEq, Eq, Structural)]
pub enum VoiceSessionState {
    Idle,
    Streaming,
    Draining,
}

/// State of the link to the voice remote.
#[derive(Debug, Clone, PartialEq, Eq)]
pub struct ConnectionSnapshot {
    pub phase: ConnectionPhase,
    pub remote_name: Option<String>,
    /// Whether the remote confirmed its voice capabilities on this link.
    pub capabilities_confirmed: bool,
    pub voice_state: VoiceSessionState,
    pub decoded_samples: u64,
    pub generation: u64,
    pub reconnect_attempt: u32,
    pub power_notifications_available: bool,
    pub last_error: Option<String>,
}

/// An equal copy of an optional string.
pub fn copy_opt_string(o: &Option<String>) -> (r: Option<String>)
    ensures
        r == *o,
{
    match o {
        Some(s) => Some(s.clone()),
        None => None,
    }
}

impl ConnectionSnapshot {
    /// An equal copy of the snapshot.
    pub fn duplicate(&self) -> (r: Self)
        ensures
            r == *self,
    {
        ConnectionSnapshot {
            phase: self.phase,
            remote_name: copy_opt_string(&self.remote_name),
            capabilities_confirmed: self.capabilities_confirmed,
            voice_state: self.voice_state,
            decoded_samples: self.decoded_samples,
            generation: self.generation,
            reconnect_attempt: self.reconnect_attempt,
            power_notifications_available: self.power_notifications_available,
            last_error: copy_opt_string(&self.last_error),
        }
    }

    /// The snapshot of a link that was never opened.
    pub open spec fn is_initial(&self) -> bool {
        &&& self.phase == ConnectionPhase::Idle
        &&& self.remote_name is None
        &&& !self.capabilities_confirmed
        &&& self.voice_state == VoiceSessionState::Idle
        &&& self.decoded_samples == 0
        &&& self.generation == 0
        &&& self.reconnect_attempt == 0
        &&& !self.power_notifications_available
        &&& self.last_error is None
    }
}

impl Default for ConnectionSnapshot {
    fn default() -> (r: Self)
        ensures
            r.is_initial(),
    {
        ConnectionSnapshot {
            phase: ConnectionPhase::Idle,
            remote_name: None,
            capabilities_confirmed: false,
            voice_state: VoiceSessionState::Idle,
            decoded_samples: 0,
            generation: 0,
            reconnect_attempt: 0,
            power_notifications_available: false,
            last_error: None,
        }
    }
}

/// Local usage statistics of this run.
#[derive(Debug, Clone, Copy, PartialEq, Eq, Structural)]
pub struct UsageCounterSnapshot {
    pub button_presses: u64,
    pub voice_sessions: u64,
    pub voice_samples: u64,
}

impl Default for UsageCounterSnapshot {
    fn default() -> (r: Self)
        ensures
            r.button_presses == 0 && r.voice_sessions == 0 && r.voice_samples == 0,
    {
        UsageCounterSnapshot { button_presses: 0, voice_sessions: 0, voice_samples: 0 }
    }
}

/// `a + b`, or the largest `u64` when that does not fit.
pub open spec fn saturating_sum(a: u64, b: u64) -> u64 {
    if a + b > u64::MAX {
        u64::MAX
    } else {
        (a + b) as u64
    }
}

/// Counters of button presses and completed voice sessions; each count
/// saturates instead of wrapping.
#[derive(Debug)]
pub struct UsageCounters {
    state: UsageCounterSnapshot,
}

impl Default for UsageCounters {
    fn default() -> (r: Self)
        ensures
            r@ == (UsageCounterSnapshot { button_presses: 0, voice_sessions: 0, voice_samples: 0 }),
    {
        UsageCounters { state: UsageCounterSnapshot::default() }
    }
}

impl View for UsageCounters {
    type V = UsageCounterSnapshot;

    closed spec fn view(&self) -> UsageCounterSnapshot {
        self.state
    }
}

impl UsageCounters {
    pub fn snapshot(&self) -> (r: UsageCounterSnapshot)
        ensures
            r == self@,
    {
        self.state
    }

    pub fn record_button_presses(&mut self, count: u64)
        ensures
            final(self)@ == (UsageCounterSnapshot {
                button_presses: saturating_sum(old(self)@.button_presses, count),
                ..old(self)@
            }),
    {
        self.state.button_presses = self.state.button_presses.saturating_add(count);
    }

    /// Counts one completed voice session of `samples` decoded samples.
    pub fn record_voice_session(&mut self, samples: u64)
        ensures
            final(self)@ == (UsageCounterSnapshot {
                button_presses: old(self)@.button_presses,
                voice_sessions: saturating_sum(old(self)@.voice_sessions, 1),
                voice_samples: saturating_sum(old(self)@.voice_samples, samples),
            }),
    {
        self.state.voice_sessions = self.state.voice_sessions.saturating_add(1);
        self.state.voice_samples = self.state.voice_samples.saturating_add(samples);
    }
}

/// Why a platform operation failed.
#[derive(Debug, Clone, PartialEq, Eq)]
pub enum PlatformError {
    UnsupportedPlatform,
    WindowsApi(String),
    WorkerUnavailable,
    OperationTimedOut,
    VoiceServiceMissing,
    VoiceCharacteristicMissing(&'static str),
    Gatt(String),
    Protocol(String),
    AudioWorkerUnavailable,
    AudioOperationTimedOut,
    AudioEndpointNotSelected,
    AudioBusy,
    AudioSessionMismatch,
    AudioSessionInterrupted,
    AudioQueueOverflow,
    Audio(String),
    BleCleanup(String),
    RawInput(String),
    SendInput(String),
}

/// The user-facing text of a platform error.
pub open spec fn platform_error_text(e: PlatformError) -> Seq<char> {
    match e {
        PlatformError::UnsupportedPlatform => "Windows platform APIs are unavailable on this host"@,
        PlatformError::WindowsApi(d) => "Windows API failed: "@ + d@,
        PlatformError::WorkerUnavailable => "BLE worker is unavailable"@,
        PlatformError::OperationTimedOut => "BLE operation timed out"@,
        PlatformError::VoiceServiceMissing => "RC003 GATT service is missing"@,
        PlatformError::VoiceCharacteristicMissing(label) => "RC003 GATT characteristic "@ + label@
            + " is missing"@,
        PlatformError::Gatt(d) => "RC003 GATT operation failed: "@ + d@,
        PlatformError::Protocol(d) => "ATVV protocol failed: "@ + d@,
        PlatformError::AudioWorkerUnavailable => "WASAPI audio worker is unavailable"@,
        PlatformError::AudioOperationTimedOut => "WASAPI operation timed out"@,
        PlatformError::AudioEndpointNotSelected => "select an output endpoint before starting voice"@,
        PlatformError::AudioBusy => "WASAPI output is busy with an active voice session"@,
        PlatformError::AudioSessionMismatch => "WASAPI audio belongs to another voice session"@,
        PlatformError::AudioSessionInterrupted => "WASAPI voice session was interrupted"@,
        PlatformError::AudioQueueOverflow => "WASAPI PCM queue exceeded its bounded capacity"@,
        PlatformError::Audio(d) => "WASAPI failed: "@ + d@,
        PlatformError::BleCleanup(d) => "BLE cleanup failed: "@ + d@,
        PlatformError::RawInput(d) => "Raw Input failed: "@ + d@,
        PlatformError::SendInput(d) => "SendInput failed: "@ + d@,
    }
}

fn prefixed(prefix: &str, detail: &str) -> (r: String)
    ensures
        r@ == prefix@ + detail@,
{
    let mut s = String::from_str(prefix);
    push_str(&mut s, detail);
    s
}

impl PlatformError {
    /// The user-facing text of the error.
    pub fn message(&self) -> (r: String)
        ensures
            r@ == platform_error_text(*self),
    {
        match self {
            PlatformError::UnsupportedPlatform => String::from_str(
                "Windows platform APIs are unavailable on this host",
            ),
            PlatformError::WindowsApi(d) => prefixed("Windows API failed: ", d.as_str()),
            PlatformError::WorkerUnavailable => String::from_str("BLE worker is unavailable"),
            PlatformError::OperationTimedOut => String::from_str("BLE operation timed out"),
            PlatformError::VoiceServiceMissing => String::from_str("RC003 GATT service is missing"),
            PlatformError::VoiceCharacteristicMissing(label) => {
                let mut s = prefixed("RC003 GATT characteristic ", label);
                push_str(&mut s, " is missing");
                s
            },
            PlatformError::Gatt(d) => prefixed("RC003 GATT operation failed: ", d.as_str()),
            PlatformError::Protocol(d) => prefixed("ATVV protocol failed: ", d.as_str()),
            PlatformError::AudioWorkerUnavailable => String::from_str(
                "WASAPI audio worker is unavailable",
            ),
            PlatformError::AudioOperationTimedOut => String::from_str("WASAPI operation timed out"),
            PlatformError::AudioEndpointNotSelected => String::from_str(
                "select an output endpoint before starting voice",
            ),
            PlatformError::AudioBusy => String::from_str(
                "WASAPI output is busy with an active voice session",
            ),
            PlatformError::AudioSessionMismatch => String::from_str(
                "WASAPI audio belongs to another voice session",
            ),
            PlatformError::AudioSessionInterrupted => String::from_str(
                "WASAPI voice session was interrupted",
            ),
            PlatformError::AudioQueueOverflow => String::from_str(
                "WASAPI PCM queue exceeded its bounded capacity",
            ),
            PlatformError::Audio(d) => prefixed("WASAPI failed: ", d.as_str()),
            PlatformError::BleCleanup(d) => prefixed("BLE cleanup failed: ", d.as_str()),
            PlatformError::RawInput(d) => prefixed("Raw Input failed: ", d.as_str()),
            PlatformError::SendInput(d) => prefixed("SendInput failed: ", d.as_str()),
        }
    }
}

/// The lowercase names of the approved remotes (RC001, RC003 and their
/// Chinese-market names).
pub open spec fn approved_remote_names() -> Seq<Seq<char>> {
    seq![
        "mi rc"@,
        "xiaomi bluetooth remote 2"@,
        "xiaomi bluetooth remote 2 pro"@,
        "小米蓝牙语音遥控器"@,
        "小米蓝牙遥控器2"@,
        "小米蓝牙遥控器2 pro"@,
        "arn9"@,
    ]
}

fn equals_literal(s: &[char], lit: &str) -> (r: bool)
    ensures
        r == (s@ == lit@),
{
    let l = chars_of(lit);
    chars_equal(s, l.as_slice())
}

/// Whether an already trimmed and lowercased name is one of the approved
/// remote names.
pub fn is_approved_lowercase_name(normalized: &str) -> (r: bool)
    ensures
        r == approved_remote_names().contains(normalized@),
{
    let n = chars_of(normalized);
    let names = [
        "mi rc",
        "xiaomi bluetooth remote 2",
        "xiaomi bluetooth remote 2 pro",
        "小米蓝牙语音遥控器",
        "小米蓝牙遥控器2",
        "小米蓝牙遥控器2 pro",
        "arn9",
    ];
    let ghost expected = approved_remote_names();
    assert(names@.len() == 7);
    assert forall|k: int| 0 <= k < 7 implies names@[k]@ == expected[k] by {}
    let mut i: usize = 0;
    while i < 7
        invariant
            i <= 7,
            n@ == normalized@,
            names@.len() == 7,
            expected == approved_remote_names(),
            forall|k: int| 0 <= k < 7 ==> names@[k]@ == expected[k],
            forall|k: int| 0 <= k < i ==> expected[k] != normalized@,
        decreases 7 - i,
    {
        if equals_literal(n.as_slice(), names[i]) {
            assert(expected[i as int] == normalized@);
            return true;
        }
        i = i + 1;
    }
    proof {
        if expected.contains(normalized@) {
            let k = choose|k: int| 0 <= k < expected.len() && expected[k] == normalized@;
        }
    }
    false
}

/// Whether a device name, trimmed and lowercased, is one of the approved
/// RC001/RC003 remote names.
pub fn is_supported_remote_name(raw_name: &str) -> (r: bool)
    ensures
        r == approved_remote_names().contains(unicode_lowercase(trim_seq(raw_name@))),
        (forall|i: int|
            0 <= i < trim_seq(raw_name@).len() ==> (#[trigger] trim_seq(raw_name@)[i] as u32)
                < 128) ==> r == approved_remote_names().contains(
            crate::text::lower_seq(trim_seq(raw_name@)),
        ),
{
    let cs = chars_of(raw_name);
    let trimmed = trim_chars(cs.as_slice());
    let t = crate::text::string_of(trimmed.as_slice());
    let lowered = to_unicode_lowercase(t.as_str());
    is_approved_lowercase_name(lowered.as_str())
}

/// Whether an already trimmed and lowercased endpoint name names the
/// VB-Audio virtual cable input.
pub fn is_virtual_cable_lowercase_name(normalized: &str) -> (r: bool)
    ensures
        r == (seq_contains(normalized@, "cable input"@) || seq_contains(
            normalized@,
            "vb-audio virtual cable"@,
        )),
{
    let n = chars_of(normalized);
    let a = chars_of("cable input");
    let b = chars_of("vb-audio virtual cable");
    contains_chars(n.as_slice(), a.as_slice()) || contains_chars(n.as_slice(), b.as_slice())
}

/// Whether an endpoint name, trimmed and lowercased, names the VB-Audio
/// virtual cable input. Other endpoints are never chosen automatically.
pub fn is_virtual_cable_output_name(raw_name: &str) -> (r: bool)
    ensures
        r == ({
            let n = unicode_lowercase(trim_seq(raw_name@));
            seq_contains(n, "cable input"@) || seq_contains(n, "vb-audio virtual cable"@)
        }),
{
    let cs = chars_of(raw_name);
    let trimmed = trim_chars(cs.as_slice());
    let t = crate::text::string_of(trimmed.as_slice());
    let lowered = to_unicode_lowercase(t.as_str());
    is_virtual_cable_lowercase_name(lowered.as_str())
}


/// The status line shown on a Windows host.
pub open spec fn windows_status_text() -> Seq<char> {
    "BLE/ATVV/WASAPI/Raw Input、退避重连与睡眠恢复代码已实现，等待 Windows 主机与 RC003 真机验证"@
}

impl PlatformSnapshot {
    /// The snapshot of a Windows host from the parts' own snapshots: voice is
    /// ready while the link is ready, streaming or draining; the audio output
    /// likewise; Raw Input when the listener is ready.
    pub fn windows(
        connection: ConnectionSnapshot,
        audio: AudioSnapshot,
        raw_input: RawInputSnapshot,
        send_input_ready: bool,
    ) -> (r: Self)
        ensures
            r.platform@ == "windows"@,
            r.windows_api_available && r.ble_scan_available,
            r.ble_voice_ready == (connection.phase == ConnectionPhase::Ready || connection.phase
                == ConnectionPhase::Streaming || connection.phase == ConnectionPhase::Draining),
            r.wasapi_ready == (audio.phase == AudioPhase::Ready || audio.phase == AudioPhase::Streaming
                || audio.phase == AudioPhase::Draining),
            r.raw_input_ready == (raw_input.phase == RawInputPhase::Ready),
            r.send_input_ready == send_input_ready,
            r.verification_status@ == windows_status_text(),
            r.connection == connection,
            r.audio == audio,
            r.raw_input == raw_input,
    {
        let ble_voice_ready = match connection.phase {
            ConnectionPhase::Ready | ConnectionPhase::Streaming | ConnectionPhase::Draining => true,
            _ => false,
        };
        let wasapi_ready = match audio.phase {
            AudioPhase::Ready | AudioPhase::Streaming | AudioPhase::Draining => true,
            _ => false,
        };
        let raw_input_ready = raw_input.phase == RawInputPhase::Ready;
        PlatformSnapshot {
            platform: String::from_str("windows"),
            windows_api_available: true,
            ble_scan_available: true,
            ble_voice_ready,
            wasapi_ready,
            raw_input_ready,
            send_input_ready,
            verification_status: String::from_str(
                "BLE/ATVV/WASAPI/Raw Input、退避重连与睡眠恢复代码已实现，等待 Windows 主机与 RC003 真机验证",
            ),
            connection,
            audio,
            raw_input,
        }
    }
}

/// The platform facade on a host without the Windows APIs: every device
/// operation reports `UnsupportedPlatform` and no device is ever invented.
#[derive(Debug)]
pub struct WindowsPlatform {
    usage: UsageCounters,
    host_os: String,
}

impl Default for WindowsPlatform {
    fn default() -> (r: Self)
        ensures
            r.usage_view() == (UsageCounterSnapshot {
                button_presses: 0,
                voice_sessions: 0,
                voice_samples: 0,
            }),
            r.host_os_view() == Seq::<char>::empty(),
    {
        WindowsPlatform { usage: UsageCounters::default(), host_os: String::new() }
    }
}

impl WindowsPlatform {
    pub closed spec fn usage_view(&self) -> UsageCounterSnapshot {
        self.usage@
    }

    pub closed spec fn host_os_view(&self) -> Seq<char> {
        self.host_os@
    }

    /// A facade that reports `host_os` as the name of the host.
    pub fn with_host_os(host_os: String) -> (r: Self)
        ensures
            r.usage_view() == (UsageCounterSnapshot {
                button_presses: 0,
                voice_sessions: 0,
                voice_samples: 0,
            }),
            r.host_os_view() == host_os@,
    {
        WindowsPlatform { usage: UsageCounters::default(), host_os }
    }

    pub fn usage_counters(&self) -> (r: &UsageCounters)
        ensures
            r@ == self.usage_view(),
    {
        &self.usage
    }

    pub fn snapshot(&self) -> (r: PlatformSnapshot)
        ensures
            r.platform@ == self.host_os_view(),
            !r.windows_api_available && !r.ble_scan_available && !r.ble_voice_ready,
            !r.wasapi_ready && !r.raw_input_ready && !r.send_input_ready,
            r.verification_status@ == "当前主机不是 Windows，仅可验证界面与纯 Rust 核心"@,
            r.connection.is_initial(),
            r.audio.phase == AudioPhase::Unsupported,
            r.audio.selected_endpoint_id is None && r.audio.selected_endpoint_name is None,
            r.audio.queued_samples == 0 && r.audio.submitted_samples == 0,
            r.audio.generation == 0 && r.audio.last_error is None,
            r.raw_input.is_fresh(RawInputPhase::Unsupported),
    {
        let raw_input = RawInputSnapshot::fresh(RawInputPhase::Unsupported);
        PlatformSnapshot {
            platform: self.host_os.clone(),
            windows_api_available: false,
            ble_scan_available: false,
            ble_voice_ready: false,
            wasapi_ready: false,
            raw_input_ready: false,
            send_input_ready: false,
            verification_status: String::from_str("当前主机不是 Windows，仅可验证界面与纯 Rust 核心"),
            connection: ConnectionSnapshot::default(),
            audio: AudioSnapshot { phase: AudioPhase::Unsupported, ..AudioSnapshot::default() },
            raw_input,
        }
    }

    pub fn scan_paired_remotes(&self) -> (r: Result<Vec<PairedRemote>, PlatformError>)
        ensures
            r == Err::<Vec<PairedRemote>, PlatformError>(PlatformError::UnsupportedPlatform),
    {
        Err(PlatformError::UnsupportedPlatform)
    }

    pub fn connection_snapshot(&self) -> (r: ConnectionSnapshot)
        ensures
            r.is_initial(),
    {
        ConnectionSnapshot::default()
    }

    pub fn connect_remote(&self, device_id: String) -> (r: Result<ConnectionSnapshot, PlatformError>)
        ensures
            r == Err::<ConnectionSnapshot, PlatformError>(PlatformError::UnsupportedPlatform),
    {
        Err(PlatformError::UnsupportedPlatform)
    }

    pub fn disconnect_remote(&self) -> (r: Result<ConnectionSnapshot, PlatformError>)
        ensures
            r == Err::<ConnectionSnapshot, PlatformError>(PlatformError::UnsupportedPlatform),
    {
        Err(PlatformError::UnsupportedPlatform)
    }

    pub fn restore_remote(&self, device_id: String) -> (r: Result<ConnectionSnapshot, PlatformError>)
        ensures
            r == Err::<ConnectionSnapshot, PlatformError>(PlatformError::UnsupportedPlatform),
    {
        Err(PlatformError::UnsupportedPlatform)
    }

    pub fn list_audio_endpoints(&self) -> (r: Result<Vec<AudioEndpoint>, PlatformError>)
        ensures
            r == Err::<Vec<AudioEndpoint>, PlatformError>(PlatformError::UnsupportedPlatform),
    {
        Err(PlatformError::UnsupportedPlatform)
    }

    pub fn select_audio_endpoint(&self, endpoint_id: String) -> (r: Result<
        AudioSnapshot,
        PlatformError,
    >)
        ensures
            r == Err::<AudioSnapshot, PlatformError>(PlatformError::UnsupportedPlatform),
    {
        Err(PlatformError::UnsupportedPlatform)
    }

    pub fn restore_audio_endpoint(&self, endpoint_id: String, expected_name: String) -> (r: Result<
        AudioSnapshot,
        PlatformError,
    >)
        ensures
            r == Err::<AudioSnapshot, PlatformError>(PlatformError::UnsupportedPlatform),
    {
        Err(PlatformError::UnsupportedPlatform)
    }

    pub fn audio_snapshot(&self) -> (r: AudioSnapshot)
        ensures
            r.phase == AudioPhase::Unsupported,
            r.selected_endpoint_id is None && r.selected_endpoint_name is None,
            r.queued_samples == 0 && r.submitted_samples == 0,
            r.generation == 0 && r.last_error is None,
    {
        AudioSnapshot { phase: AudioPhase::Unsupported, ..AudioSnapshot::default() }
    }

    pub fn raw_input_snapshot(&self) -> (r: RawInputSnapshot)
        ensures
            r.is_fresh(RawInputPhase::Unsupported),
    {
        RawInputSnapshot::fresh(RawInputPhase::Unsupported)
    }

    pub fn start_raw_input(&self) -> (r: Result<RawInputSnapshot, PlatformError>)
        ensures
            r == Err::<RawInputSnapshot, PlatformError>(PlatformError::UnsupportedPlatform),
    {
        Err(PlatformError::UnsupportedPlatform)
    }

    pub fn stop_raw_input(&self) -> (r: Result<RawInputSnapshot, PlatformError>)
        ensures
            r == Err::<RawInputSnapshot, PlatformError>(PlatformError::UnsupportedPlatform),
    {
        Err(PlatformError::UnsupportedPlatform)
    }

    /// Without the Windows input API nothing has been injected.
    pub fn send_input_snapshot(&self) -> (r: crate::send_input::SendInputSnapshot)
        ensures
            !r.available && r.submitted_batches == 0 && r.submitted_events == 0 && r.last_error is None,
    {
        crate::send_input::SendInputSnapshot::default()
    }

    /// Testing a shortcut needs the Windows input API.
    pub fn test_shortcut(&self, chord: crate::send_input::KeyChord) -> (r: Result<
        crate::send_input::SendInputSnapshot,
        PlatformError,
    >)
        ensures
            r matches Err(PlatformError::UnsupportedPlatform),
    {
        Err(PlatformError::UnsupportedPlatform)
    }
}

} // verus!
