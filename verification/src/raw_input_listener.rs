//! The decisions of the Raw Input listener: which remote HID interfaces it
//! binds, how it follows device arrival, removal and its periodic binding
//! audit, and what each raw packet of a bound interface becomes. The window,
//! the message loop and the Raw Input calls are platform work; the listener
//! is told what they returned.
use vstd::prelude::*;
use crate::raw_input::{
    button_for_usage, decode_google_remote_report, decode_report_usages, message_is_pressed,
    normalize_device_path, normalized, parse_raw_hid_body, select_remote_hid_selection,
    select_single_device_path_preferring, string_views, DevicePathError, RawInputPhase,
    RawInputSnapshot, RawKeyboardEvent, RemoteButton, RemoteHidProfile,
};
use crate::button_mapping::EngineMessage;

verus! {

/// How long starting the listener may take, in milliseconds.
pub const START_TIMEOUT_MS: u64 = 5000;

/// How long stopping the listener may take, in milliseconds.
pub const STOP_TIMEOUT_MS: u64 = 2000;

/// How long the keyboard hook stays armed for a button after the listener
/// saw the remote use it, in milliseconds.
pub const GATE_ARM_GRACE_MS: u64 = 4000;

/// `WM_INPUT_DEVICE_CHANGE` codes: a device arrived, a device was removed.
pub const GIDC_ARRIVAL: u32 = 1;
pub const GIDC_REMOVAL: u32 = 2;

/// How often the listener checks that its bound interfaces still exist, in
/// milliseconds (removal notices can be lost).
pub const BINDING_AUDIT_INTERVAL_MS: u32 = 10000;

/// The virtual key of the remote's voice key (F5).
pub const VOICE_F5_VIRTUAL_KEY: u16 = 0x74;

/// The size of a `RAWKEYBOARD` record.
pub const RAW_KEYBOARD_SIZE: usize = 16;

/// What the user is told while no remote HID interface is bound.
pub const AWAITING_DEVICE_MESSAGE: &'static str = "未找到小米遥控器 HID 接口（Windows 侧 HOGP 链路尚未就绪，常见于断连、睡眠唤醒或蓝牙栈僵死）。监听已就位，系统恢复该接口后会自动重新绑定，无需手动重连或重启应用。";

/// The code of a remote model as the listener shares it across threads:
/// 0 for none, 1 for Xiaomi, 2 for Google.
pub open spec fn profile_code(profile: Option<RemoteHidProfile>) -> u8 {
    match profile {
        None => 0,
        Some(RemoteHidProfile::Xiaomi) => 1,
        Some(RemoteHidProfile::Google) => 2,
    }
}

pub fn encode_profile(profile: Option<RemoteHidProfile>) -> (r: u8)
    ensures
        r == profile_code(profile),
{
    match profile {
        None => 0,
        Some(RemoteHidProfile::Xiaomi) => 1,
        Some(RemoteHidProfile::Google) => 2,
    }
}

/// The model of a code; unknown codes are none.
pub fn decode_profile(value: u8) -> (r: Option<RemoteHidProfile>)
    ensures
        value == 1 ==> r == Some(RemoteHidProfile::Xiaomi),
        value == 2 ==> r == Some(RemoteHidProfile::Google),
        value != 1 && value != 2 ==> r is None,
{
    if value == 1 {
        Some(RemoteHidProfile::Xiaomi)
    } else if value == 2 {
        Some(RemoteHidProfile::Google)
    } else {
        None
    }
}

/// Decoding the code of a model gives the model back.
pub proof fn law_profile_code_round_trips(profile: Option<RemoteHidProfile>)
    ensures
        profile_code(profile) <= 2,
        (profile_code(profile) == 1) == (profile == Some(RemoteHidProfile::Xiaomi)),
        (profile_code(profile) == 2) == (profile == Some(RemoteHidProfile::Google)),
        (profile_code(profile) == 0) == (profile is None),
{
}

/// A press of the voice key wakes a reconnect once per physical hold: only
/// the edge from released to pressed counts, not the key repeats.
pub fn voice_f5_wake_edge(was_pressed: bool, is_pressed: bool) -> (r: bool)
    ensures
        r == (is_pressed && !was_pressed),
{
    is_pressed && !was_pressed
}

/// The `RAWKEYBOARD` record at the start of `body` (little-endian): make
/// code, flags, a reserved word, virtual key, message.
pub open spec fn le_u16(b: Seq<u8>, at: int) -> u16 {
    (b[at] as int + b[at + 1] as int * 256) as u16
}

pub open spec fn le_u32(b: Seq<u8>, at: int) -> u32 {
    (b[at] as int + b[at + 1] as int * 256 + b[at + 2] as int * 65536 + b[at + 3] as int
        * 16777216) as u32
}

pub open spec fn keyboard_record(body: Seq<u8>) -> RawKeyboardEvent {
    RawKeyboardEvent {
        make_code: le_u16(body, 0),
        flags: le_u16(body, 2),
        virtual_key: le_u16(body, 6),
        message: le_u32(body, 8),
    }
}

/// Reads the keyboard record of a packet body; a body shorter than a record
/// is refused.
pub fn parse_keyboard_record(body: &[u8]) -> (r: Result<RawKeyboardEvent, &'static str>)
    ensures
        body@.len() < RAW_KEYBOARD_SIZE ==> (r matches Err(e) && e@
            == "RAWKEYBOARD packet is truncated"@),
        body@.len() >= RAW_KEYBOARD_SIZE ==> r == Ok::<RawKeyboardEvent, &'static str>(
            keyboard_record(body@),
        ),
{
    if body.len() < RAW_KEYBOARD_SIZE {
        return Err("RAWKEYBOARD packet is truncated");
    }
    let make_code = body[0] as u16 + body[1] as u16 * 256;
    let flags = body[2] as u16 + body[3] as u16 * 256;
    let virtual_key = body[6] as u16 + body[7] as u16 * 256;
    let message = body[8] as u32 + body[9] as u32 * 256 + body[10] as u32 * 65536 + body[11] as u32
        * 16777216;
    Ok(RawKeyboardEvent { make_code, flags, virtual_key, message })
}


/// The two bytes of `v`, least significant first.
pub open spec fn u16_bytes(v: u16) -> Seq<u8> {
    seq![(v % 256) as u8, (v / 256) as u8]
}

/// The four bytes of `v`, least significant first.
pub open spec fn u32_bytes(v: u32) -> Seq<u8> {
    seq![
        (v % 256) as u8,
        ((v / 256) % 256) as u8,
        ((v / 65536) % 256) as u8,
        (v / 16777216) as u8,
    ]
}

/// A RAWKEYBOARD record as Windows lays it out: MakeCode, Flags, Reserved
/// and VKey (each a little-endian u16), then Message and ExtraInformation
/// (each a little-endian u32).
pub open spec fn raw_keyboard_bytes(
    make_code: u16,
    flags: u16,
    reserved: u16,
    virtual_key: u16,
    message: u32,
    extra: u32,
) -> Seq<u8> {
    u16_bytes(make_code) + u16_bytes(flags) + u16_bytes(reserved) + u16_bytes(virtual_key)
        + u32_bytes(message) + u32_bytes(extra)
}

/// Reading a RAWKEYBOARD record gives back the make code, flags, virtual
/// key and message that Windows wrote into it, whatever the reserved word
/// and the extra information hold.
pub proof fn law_keyboard_record_reads_its_fields(
    make_code: u16,
    flags: u16,
    reserved: u16,
    virtual_key: u16,
    message: u32,
    extra: u32,
)
    ensures
        raw_keyboard_bytes(make_code, flags, reserved, virtual_key, message, extra).len()
            == RAW_KEYBOARD_SIZE,
        keyboard_record(raw_keyboard_bytes(make_code, flags, reserved, virtual_key, message, extra))
            == (RawKeyboardEvent { make_code, flags, virtual_key, message }),
{
    let b = raw_keyboard_bytes(make_code, flags, reserved, virtual_key, message, extra);
    assert(b.len() == 16);
    assert(b[0] == (make_code % 256) as u8 && b[1] == (make_code / 256) as u8);
    assert(b[2] == (flags % 256) as u8 && b[3] == (flags / 256) as u8);
    assert(b[6] == (virtual_key % 256) as u8 && b[7] == (virtual_key / 256) as u8);
    assert(b[8] == (message % 256) as u8 && b[9] == ((message / 256) % 256) as u8);
    assert(b[10] == ((message / 65536) % 256) as u8 && b[11] == (message / 16777216) as u8);
    assert(le_u16(b, 0) == make_code) by (nonlinear_arith)
        requires
            b[0] == (make_code % 256) as u8,
            b[1] == (make_code / 256) as u8,
    {
    }
    assert(le_u16(b, 2) == flags) by (nonlinear_arith)
        requires
            b[2] == (flags % 256) as u8,
            b[3] == (flags / 256) as u8,
    {
    }
    assert(le_u16(b, 6) == virtual_key) by (nonlinear_arith)
        requires
            b[6] == (virtual_key % 256) as u8,
            b[7] == (virtual_key / 256) as u8,
    {
    }
    assert(le_u32(b, 8) == message) by (nonlinear_arith)
        requires
            b[8] == (message % 256) as u8,
            b[9] == ((message / 256) % 256) as u8,
            b[10] == ((message / 65536) % 256) as u8,
            b[11] == (message / 16777216) as u8,
    {
    }
}

/// The text shown while the selection waits for the remote's interface.
pub open spec fn awaiting_text(e: DevicePathError) -> Seq<char> {
    match e {
        DevicePathError::Missing => "未找到当前遥控器的 HID 接口（Windows 侧 HOGP 链路尚未就绪，常见于断连、睡眠唤醒或蓝牙栈僵死）。监听已就位，接口恢复后会自动重新绑定。"@,
        DevicePathError::Ambiguous(count) => "检测到 "@ + crate::text::decimal_seq(count as nat)
            + " 个遥控器 HID 接口但当前型号未定；连接确定型号后会自动绑定。"@,
    }
}

/// The text shown after the last bound interface was removed.
pub open spec fn removed_text() -> Seq<char> {
    "遥控器 HID 接口已移除（断连/睡眠），等待重新连接后自动恢复"@
}

/// The normalized form of each path.
pub open spec fn normalized_all(paths: Seq<Seq<char>>) -> Seq<Seq<char>> {
    Seq::new(paths.len(), |i: int| normalized(paths[i]))
}

/// What the periodic binding audit concluded.
#[derive(Debug, Clone, Copy, PartialEq, Eq, Structural)]
pub enum AuditOutcome {
    /// Nothing changed (and nothing is worth logging).
    Unchanged,
    /// Enumeration failed; the binding is kept but no longer known present.
    ProbeFailed,
    /// The bound interfaces are present again.
    Present,
    /// The interfaces were bound anew; the keyboard hook may attribute again.
    Rebound,
    /// The interfaces are gone: the engine must release everything and the
    /// keyboard hook stops attributing.
    Unbound,
    /// Several candidates and the old binding is not among them: nothing is
    /// guessed.
    Ambiguous,
}

/// One message for the mapping engine, with the buttons to arm the
/// keyboard hook for (for `GATE_ARM_GRACE_MS`) before sending it.
#[derive(Debug)]
pub struct ListenerMessage {
    pub arms: Vec<RemoteButton>,
    pub message: EngineMessage,
}

/// What a raw packet of a bound interface leads to: whether the voice key
/// moved (and whether that press wakes a reconnect), the messages in order,
/// and the error that stopped the packet, if any.
#[derive(Debug)]
pub struct PacketOutcome {
    pub voice_f5_wake: Option<bool>,
    pub messages: Vec<ListenerMessage>,
    pub error: Option<String>,
}

/// The kind of a raw packet.
#[derive(Debug, Clone, Copy, PartialEq, Eq, Structural)]
pub enum PacketKind {
    Keyboard,
    Hid,
    Other,
}


/// What the audit binds when the old binding is gone: a Xiaomi binding keeps
/// its old path when that path is still a candidate; any other model chooses
/// anew. The paths bound are normalized.
pub open spec fn audit_selection(
    selected: Seq<Seq<char>>,
    profile: Option<RemoteHidProfile>,
    paths: Seq<Seq<char>>,
    active: Option<RemoteHidProfile>,
) -> Result<(Option<RemoteHidProfile>, Seq<Seq<char>>), DevicePathError> {
    match profile {
        Some(RemoteHidProfile::Xiaomi) => match crate::raw_input::single_path_selection(
            paths,
            if selected.len() > 0 {
                selected[0]
            } else {
                Seq::empty()
            },
        ) {
            Ok(p) => Ok((Some(RemoteHidProfile::Xiaomi), seq![normalized(p)])),
            Err(e) => Err(e),
        },
        _ => match crate::raw_input::hid_selection(paths, active) {
            Ok((p, sel)) => Ok((Some(p), normalized_all(sel))),
            Err(e) => Err(e),
        },
    }
}

/// Whether the usages increase strictly.
pub open spec fn strictly_increasing_u16(s: Seq<u16>) -> bool {
    forall|i: int, j: int| 0 <= i < j < s.len() ==> s[i] < s[j]
}

/// A message that forwards the usage set of a payload, arming the buttons
/// of its usages.
pub open spec fn usage_message(m: ListenerMessage, payload: Seq<u8>) -> bool {
    &&& m.message matches EngineMessage::HidUsages(v)
    &&& strictly_increasing_u16(v@)
    &&& forall|u: u16| v@.contains(u) <==> crate::raw_input::payload_has_usage(payload, u)
    &&& m.arms@ == usage_arms(v@)
}

/// The buttons the usages name, in usage order (each is armed).
pub open spec fn usage_arms(v: Seq<u16>) -> Seq<RemoteButton>
    decreases v.len(),
{
    if v.len() == 0 {
        Seq::empty()
    } else {
        let rest = usage_arms(v.drop_last());
        match crate::raw_input::usage_button(v.last()) {
            Some(b) => rest.push(b),
            None => rest,
        }
    }
}

/// The reports of a Raw Input HID body whose layout is `(size, count)`.
pub open spec fn body_reports(body: Seq<u8>, size: int, count: int) -> Seq<Seq<u8>> {
    Seq::new(count as nat, |k: int| body.subrange(8 + k * size, 8 + (k + 1) * size))
}

/// The button states of the Chromecast Remote reports that decode, in order.
pub open spec fn google_states(reports: Seq<Seq<u8>>) -> Seq<Option<RemoteButton>>
    decreases reports.len(),
{
    if reports.len() == 0 {
        Seq::empty()
    } else {
        let rest = google_states(reports.drop_last());
        let r = reports.last();
        if r.len() != 3 || r[0] != 0x01 {
            rest
        } else {
            rest.push(crate::raw_input::google_code_button(r[1]))
        }
    }
}

/// The index of the first report whose payload does not decode (or the
/// number of reports).
pub open spec fn first_bad_report(reports: Seq<Seq<u8>>, from: int) -> int
    decreases reports.len() - from,
{
    if from >= reports.len() {
        reports.len() as int
    } else if crate::raw_input::report_payload(reports[from]) is Err {
        from
    } else {
        first_bad_report(reports, from + 1)
    }
}

/// The keyboard event the listener forwards, what it arms, and whether the
/// voice key moved.
pub open spec fn keyboard_arms(e: RawKeyboardEvent) -> Seq<RemoteButton> {
    match crate::raw_input::keyboard_button(e.virtual_key, e.make_code) {
        Some(b) => seq![b],
        None => Seq::empty(),
    }
}


proof fn lemma_first_bad(reports: Seq<Seq<u8>>, j: int, i: int)
    requires
        0 <= j <= i <= reports.len(),
        forall|k: int| j <= k < i ==> crate::raw_input::report_payload(#[trigger] reports[k]) is Ok,
        i < reports.len() ==> crate::raw_input::report_payload(reports[i]) is Err,
    ensures
        first_bad_report(reports, j) == i,
    decreases i - j,
{
    if j < i {
        lemma_first_bad(reports, j + 1, i);
    }
}

fn arms_of(usages: &Vec<u16>) -> (r: Vec<RemoteButton>)
    ensures
        r@ == usage_arms(usages@),
{
    let mut out: Vec<RemoteButton> = Vec::new();
    let mut i: usize = 0;
    while i < usages.len()
        invariant
            i <= usages@.len(),
            out@ == usage_arms(usages@.subrange(0, i as int)),
        decreases usages@.len() - i,
    {
        assert(usages@.subrange(0, i + 1).drop_last() =~= usages@.subrange(0, i as int));
        match button_for_usage(usages[i]) {
            Some(b) => out.push(b),
            None => {},
        }
        i = i + 1;
    }
    assert(usages@.subrange(0, usages@.len() as int) =~= usages@);
    out
}

/// The listener's own state: the bound model and interfaces, whether the
/// voice key is held, and whether the last audit found the binding present.
#[derive(Debug)]
pub struct ListenerContext {
    pub profile: Option<RemoteHidProfile>,
    pub selected_paths: Vec<String>,
    pub remote_voice_f5_pressed: bool,
    pub binding_present: bool,
}

fn contains_string(v: &Vec<String>, s: &String) -> (r: bool)
    ensures
        r == string_views(v@).contains(s@),
{
    let ghost views = string_views(v@);
    let mut i: usize = 0;
    while i < v.len()
        invariant
            i <= v@.len(),
            views == string_views(v@),
            forall|k: int| 0 <= k < i ==> views[k] != s@,
        decreases v@.len() - i,
    {
        let a = crate::text::chars_of(v[i].as_str());
        let b = crate::text::chars_of(s.as_str());
        if crate::text::chars_equal(&a, &b) {
            assert(views[i as int] == s@);
            return true;
        }
        i = i + 1;
    }
    false
}

fn normalize_all(paths: &Vec<String>) -> (r: Vec<String>)
    ensures
        string_views(r@) == normalized_all(string_views(paths@)),
{
    let mut out: Vec<String> = Vec::new();
    let mut i: usize = 0;
    while i < paths.len()
        invariant
            i <= paths@.len(),
            out@.len() == i,
            forall|k: int| 0 <= k < i ==> (#[trigger] out@[k])@ == normalized(paths@[k]@),
        decreases paths@.len() - i,
    {
        out.push(normalize_device_path(paths[i].as_str()));
        i = i + 1;
    }
    assert(string_views(out@) =~= normalized_all(string_views(paths@)));
    out
}

impl ListenerContext {
    /// A listener that bound nothing yet, for the model `profile`.
    pub fn new(profile: Option<RemoteHidProfile>) -> (r: Self)
        ensures
            r.profile == profile,
            r.selected_paths@.len() == 0,
            !r.remote_voice_f5_pressed,
            !r.binding_present,
    {
        ListenerContext {
            profile,
            selected_paths: Vec::new(),
            remote_voice_f5_pressed: false,
            binding_present: false,
        }
    }

    /// Binds what `hid_selection` chooses among the enumerated `paths` for
    /// the model `active`. A failed choice is no error: the listener waits
    /// (phase `Awaiting`) with the reason shown. Returns whether the keyboard
    /// hook may attribute keys (an interface is bound).
    pub fn apply_selection(
        &mut self,
        snapshot: &mut RawInputSnapshot,
        paths: &[String],
        active: Option<RemoteHidProfile>,
    ) -> (listener_active: bool)
        ensures
            final(snapshot).matched_device_count == paths@.len() as u32,
            final(snapshot).raw_event_count == old(snapshot).raw_event_count,
            final(snapshot).semantic_edge_count == old(snapshot).semantic_edge_count,
            final(snapshot).stale_remote_event_count == old(snapshot).stale_remote_event_count,
            final(self).remote_voice_f5_pressed == old(self).remote_voice_f5_pressed,
            match crate::raw_input::hid_selection(string_views(paths@), active) {
                Ok((p, sel)) => {
                    &&& listener_active
                    &&& final(self).profile == Some(p)
                    &&& string_views(final(self).selected_paths@) == sel
                    &&& final(self).binding_present
                    &&& final(snapshot).phase == RawInputPhase::Ready
                    &&& final(snapshot).last_error is None
                },
                Err(e) => {
                    &&& !listener_active
                    &&& final(self).profile == active
                    &&& final(self).selected_paths@.len() == 0
                    &&& !final(self).binding_present
                    &&& final(snapshot).phase == RawInputPhase::Awaiting
                    &&& final(snapshot).last_error matches Some(t) && t@ == awaiting_text(e)
                },
            },
    {
        match select_remote_hid_selection(paths, active) {
            Ok(selection) => {
                self.profile = Some(selection.profile);
                self.selected_paths = selection.paths;
                self.binding_present = true;
                snapshot.phase = RawInputPhase::Ready;
                snapshot.matched_device_count = paths.len() as u32;
                snapshot.last_error = None;
                true
            },
            Err(error) => {
                self.profile = active;
                self.selected_paths = Vec::new();
                self.binding_present = false;
                snapshot.phase = RawInputPhase::Awaiting;
                snapshot.matched_device_count = paths.len() as u32;
                let text = match error {
                    DevicePathError::Missing => String::from_str(
                        "未找到当前遥控器的 HID 接口（Windows 侧 HOGP 链路尚未就绪，常见于断连、睡眠唤醒或蓝牙栈僵死）。监听已就位，接口恢复后会自动重新绑定。",
                    ),
                    DevicePathError::Ambiguous(count) => {
                        let mut t = String::from_str("检测到 ");
                        let digits = crate::text::decimal_string(count as u64);
                        crate::text::push_str(&mut t, digits.as_str());
                        crate::text::push_str(
                            &mut t,
                            " 个遥控器 HID 接口但当前型号未定；连接确定型号后会自动绑定。",
                        );
                        t
                    },
                };
                snapshot.last_error = Some(text);
                false
            },
        }
    }

    /// Whether a device arrival is worth a new enumeration: a remote arrived,
    /// or nothing is bound.
    pub fn arrival_wants_rebind(&self, is_remote: bool) -> (r: bool)
        ensures
            r == (is_remote || self.selected_paths@.len() == 0),
    {
        is_remote || self.selected_paths.len() == 0
    }

    /// A device arrived and the enumeration found `paths`: the selection is
    /// applied; a listener that was unbound and is now ready counts packets
    /// from zero.
    pub fn on_arrival(
        &mut self,
        snapshot: &mut RawInputSnapshot,
        paths: &[String],
        active: Option<RemoteHidProfile>,
    ) -> (listener_active: bool)
        ensures
            final(snapshot).phase == (if crate::raw_input::hid_selection(string_views(paths@), active) is Ok {
                RawInputPhase::Ready
            } else {
                RawInputPhase::Awaiting
            }),
            listener_active == crate::raw_input::hid_selection(string_views(paths@), active) is Ok,
            final(snapshot).raw_event_count == (if old(self).selected_paths@.len() == 0
                && listener_active {
                0
            } else {
                old(snapshot).raw_event_count
            }),
            final(snapshot).matched_device_count == paths@.len() as u32,
    {
        let was_unbound = self.selected_paths.len() == 0;
        let active_now = self.apply_selection(snapshot, paths, active);
        if was_unbound && snapshot.phase == RawInputPhase::Ready {
            snapshot.raw_event_count = 0;
        }
        active_now
    }

    /// A device was removed. Its path (normalized) leaves the binding; when
    /// that was the last bound interface the listener waits, and `true` says
    /// the engine must release everything and the keyboard hook stop
    /// attributing.
    pub fn on_removal(&mut self, snapshot: &mut RawInputSnapshot, device_path: &str) -> (removed_last: bool)
        ensures
            !string_views(old(self).selected_paths@).contains(normalized(device_path@)) ==> {
                &&& !removed_last
                &&& final(self).selected_paths@ == old(self).selected_paths@
                &&& final(self).profile == old(self).profile
                &&& *final(snapshot) == *old(snapshot)
            },
            string_views(old(self).selected_paths@).contains(normalized(device_path@)) ==> {
                &&& string_views(final(self).selected_paths@) == string_views(
                    old(self).selected_paths@,
                ).filter(|p: Seq<char>| p != normalized(device_path@))
                &&& removed_last == (final(self).selected_paths@.len() == 0)
                &&& removed_last ==> final(self).profile is None && final(snapshot).phase
                    == RawInputPhase::Awaiting && (final(snapshot).last_error matches Some(t) && t@
                    == removed_text())
                &&& !removed_last ==> final(self).profile == old(self).profile && *final(snapshot)
                    == *old(snapshot)
            },
            final(self).binding_present == old(self).binding_present,
            final(self).remote_voice_f5_pressed == old(self).remote_voice_f5_pressed,
    {
        let n = normalize_device_path(device_path);
        if !contains_string(&self.selected_paths, &n) {
            return false;
        }
        let ghost pred = |p: Seq<char>| p != n@;
        let ghost old_views = string_views(self.selected_paths@);
        let mut kept: Vec<String> = Vec::new();
        let mut i: usize = 0;
        while i < self.selected_paths.len()
            invariant
                i <= self.selected_paths@.len(),
                old_views == string_views(self.selected_paths@),
                pred == (|p: Seq<char>| p != n@),
                string_views(kept@) == old_views.subrange(0, i as int).filter(pred),
            decreases self.selected_paths@.len() - i,
        {
            let ghost prev = old_views.subrange(0, i as int);
            let ghost next = old_views.subrange(0, i + 1);
            assert(next.drop_last() =~= prev);
            let a = crate::text::chars_of(self.selected_paths[i].as_str());
            let b = crate::text::chars_of(n.as_str());
            let same = crate::text::chars_equal(&a, &b);
            let ghost before = kept@;
            if !same {
                kept.push(self.selected_paths[i].clone());
            }
            proof {
                reveal(Seq::filter);
                assert(next.last() == self.selected_paths@[i as int]@);
                if !same {
                    assert(string_views(kept@) =~= string_views(before).push(next.last()));
                } else {
                    assert(string_views(kept@) =~= string_views(before));
                }
            }
            i = i + 1;
        }
        assert(old_views.subrange(0, old_views.len() as int) =~= old_views);
        assert(pred =~= (|p: Seq<char>| p != normalized(device_path@)));
        self.selected_paths = kept;
        if self.selected_paths.len() == 0 {
            self.profile = None;
            snapshot.phase = RawInputPhase::Awaiting;
            snapshot.last_error = Some(
                String::from_str("遥控器 HID 接口已移除（断连/睡眠），等待重新连接后自动恢复"),
            );
            return true;
        }
        false
    }

    /// The periodic binding audit, with the enumeration's result and the
    /// current model `active`. A failed enumeration keeps the binding. A
    /// binding whose paths are all still enumerated stays. Otherwise the
    /// interfaces are bound anew as `audit_selection` says; when nothing can
    /// be bound a present binding is dropped (the listener waits), and with
    /// several candidates nothing is guessed.
    pub fn audit_binding(
        &mut self,
        snapshot: &mut RawInputSnapshot,
        enumerated: Result<Vec<String>, String>,
        active: Option<RemoteHidProfile>,
    ) -> (r: AuditOutcome)
        ensures
            final(self).remote_voice_f5_pressed == old(self).remote_voice_f5_pressed,
            final(snapshot).raw_event_count == old(snapshot).raw_event_count,
            final(snapshot).semantic_edge_count == old(snapshot).semantic_edge_count,
            final(snapshot).stale_remote_event_count == old(snapshot).stale_remote_event_count,
            match enumerated {
                Err(_) => {
                    &&& r == (if old(self).binding_present {
                        AuditOutcome::ProbeFailed
                    } else {
                        AuditOutcome::Unchanged
                    })
                    &&& !final(self).binding_present
                    &&& final(self).profile == old(self).profile
                    &&& final(self).selected_paths@ == old(self).selected_paths@
                    &&& *final(snapshot) == *old(snapshot)
                },
                Ok(paths) => {
                    let views = string_views(paths@);
                    let still = crate::raw_input::paths_present(
                        string_views(old(self).selected_paths@),
                        normalized_all(views),
                    );
                    let sel = audit_selection(
                        string_views(old(self).selected_paths@),
                        old(self).profile,
                        views,
                        active,
                    );
                    &&& still ==> {
                        &&& r == (if old(self).binding_present {
                            AuditOutcome::Unchanged
                        } else {
                            AuditOutcome::Present
                        })
                        &&& final(self).binding_present
                        &&& final(self).profile == old(self).profile
                        &&& final(self).selected_paths@ == old(self).selected_paths@
                        &&& final(snapshot).phase == old(snapshot).phase
                        &&& final(snapshot).matched_device_count == old(snapshot).matched_device_count
                        &&& final(snapshot).last_error == (if old(self).binding_present {
                            old(snapshot).last_error
                        } else {
                            None
                        })
                    }
                    &&& !still && sel is Ok ==> {
                        &&& r == AuditOutcome::Rebound
                        &&& final(self).binding_present
                        &&& final(self).profile == sel->Ok_0.0
                        &&& string_views(final(self).selected_paths@) == sel->Ok_0.1
                        &&& final(snapshot).phase == RawInputPhase::Ready
                        &&& final(snapshot).matched_device_count == paths@.len() as u32
                        &&& final(snapshot).last_error is None
                    }
                    &&& !still && sel == Err::<(Option<RemoteHidProfile>, Seq<Seq<char>>), DevicePathError>(DevicePathError::Missing) ==> {
                        &&& old(self).binding_present ==> {
                            &&& r == AuditOutcome::Unbound
                            &&& !final(self).binding_present
                            &&& final(self).profile is None
                            &&& final(self).selected_paths@.len() == 0
                            &&& final(snapshot).phase == RawInputPhase::Awaiting
                            &&& final(snapshot).matched_device_count == 0
                            &&& final(snapshot).last_error matches Some(t) && t@ == AWAITING_DEVICE_MESSAGE@
                        }
                        &&& !old(self).binding_present ==> {
                            &&& r == AuditOutcome::Unchanged
                            &&& !final(self).binding_present
                            &&& final(self).profile == old(self).profile
                            &&& final(self).selected_paths@ == old(self).selected_paths@
                            &&& *final(snapshot) == *old(snapshot)
                        }
                    }
                    &&& !still && (sel matches Err(DevicePathError::Ambiguous(_))) ==> {
                        &&& r == (if old(self).binding_present {
                            AuditOutcome::Ambiguous
                        } else {
                            AuditOutcome::Unchanged
                        })
                        &&& !final(self).binding_present
                        &&& final(self).profile == old(self).profile
                        &&& final(self).selected_paths@ == old(self).selected_paths@
                        &&& *final(snapshot) == *old(snapshot)
                    }
                },
            },
    {
        let paths = match enumerated {
            Err(_) => {
                if self.binding_present {
                    self.binding_present = false;
                    return AuditOutcome::ProbeFailed;
                }
                return AuditOutcome::Unchanged;
            },
            Ok(paths) => paths,
        };
        let normalized_paths = normalize_all(&paths);
        let still = crate::raw_input::bound_paths_still_present(
            self.selected_paths.as_slice(),
            normalized_paths.as_slice(),
        );
        if still {
            if !self.binding_present {
                self.binding_present = true;
                snapshot.last_error = None;
                return AuditOutcome::Present;
            }
            return AuditOutcome::Unchanged;
        }
        let candidate_count = paths.len();
        let selection: Result<(Option<RemoteHidProfile>, Vec<String>), DevicePathError> = match self.profile {
            Some(RemoteHidProfile::Xiaomi) => {
                proof {
                    reveal_strlit("");
                }
                let preferred: &str = if self.selected_paths.len() > 0 {
                    self.selected_paths[0].as_str()
                } else {
                    ""
                };
                match select_single_device_path_preferring(paths.as_slice(), preferred) {
                    Ok(path) => {
                        let mut v: Vec<String> = Vec::new();
                        v.push(normalize_device_path(path.as_str()));
                        assert(string_views(v@) =~= seq![normalized(path@)]);
                        Ok((Some(RemoteHidProfile::Xiaomi), v))
                    },
                    Err(e) => Err(e),
                }
            },
            _ => match select_remote_hid_selection(paths.as_slice(), active) {
                Ok(selection) => Ok((Some(selection.profile), normalize_all(&selection.paths))),
                Err(e) => Err(e),
            },
        };
        match selection {
            Ok((profile, rebound)) => {
                self.profile = profile;
                self.selected_paths = rebound;
                self.binding_present = true;
                snapshot.phase = RawInputPhase::Ready;
                snapshot.matched_device_count = candidate_count as u32;
                snapshot.last_error = None;
                AuditOutcome::Rebound
            },
            Err(DevicePathError::Missing) => {
                if !self.binding_present {
                    return AuditOutcome::Unchanged;
                }
                self.binding_present = false;
                self.profile = None;
                self.selected_paths = Vec::new();
                snapshot.phase = RawInputPhase::Awaiting;
                snapshot.matched_device_count = 0;
                snapshot.last_error = Some(String::from_str(AWAITING_DEVICE_MESSAGE));
                AuditOutcome::Unbound
            },
            Err(DevicePathError::Ambiguous(_)) => {
                if self.binding_present {
                    self.binding_present = false;
                    return AuditOutcome::Ambiguous;
                }
                AuditOutcome::Unchanged
            },
        }
    }

    /// A raw packet from `device_path`. A packet of an interface that is not
    /// bound is dropped (counted as stale when it came from a remote). Else
    /// it is counted, and: a keyboard packet forwards its event (arming its
    /// button; the voice key wakes a reconnect once per hold); a HID packet
    /// forwards each report's state, Chromecast reports as buttons and
    /// Xiaomi reports as usage sets (arming their buttons), up to the first
    /// report that does not decode.
    pub fn on_packet(
        &mut self,
        snapshot: &mut RawInputSnapshot,
        device_path: &str,
        kind: PacketKind,
        body: &[u8],
    ) -> (r: PacketOutcome)
        ensures
            final(self).profile == old(self).profile,
            final(self).selected_paths@ == old(self).selected_paths@,
            final(self).binding_present == old(self).binding_present,
            final(snapshot).phase == old(snapshot).phase,
            final(snapshot).matched_device_count == old(snapshot).matched_device_count,
            final(snapshot).semantic_edge_count == old(snapshot).semantic_edge_count,
            final(snapshot).last_error == old(snapshot).last_error,
            final(snapshot).active_buttons == old(snapshot).active_buttons,
            final(snapshot).last_button == old(snapshot).last_button,
            final(snapshot).last_is_pressed == old(snapshot).last_is_pressed,
            !string_views(old(self).selected_paths@).contains(normalized(device_path@)) ==> {
                &&& r.voice_f5_wake is None && r.messages@.len() == 0 && r.error is None
                &&& final(self).remote_voice_f5_pressed == old(self).remote_voice_f5_pressed
                &&& final(snapshot).raw_event_count == old(snapshot).raw_event_count
                &&& final(snapshot).stale_remote_event_count == (if (crate::raw_input::xiaomi_normalized(
                    normalized(device_path@),
                ) || crate::raw_input::google_normalized(normalized(device_path@))) {
                    crate::platform::saturating_sum(old(snapshot).stale_remote_event_count, 1)
                } else {
                    old(snapshot).stale_remote_event_count
                })
            },
            string_views(old(self).selected_paths@).contains(normalized(device_path@)) ==> {
                &&& final(snapshot).raw_event_count == crate::platform::saturating_sum(
                    old(snapshot).raw_event_count,
                    1,
                )
                &&& final(snapshot).stale_remote_event_count == old(snapshot).stale_remote_event_count
                &&& kind == PacketKind::Other ==> r.voice_f5_wake is None && r.messages@.len() == 0
                    && r.error is None && final(self).remote_voice_f5_pressed == old(
                    self,
                ).remote_voice_f5_pressed
                &&& kind == PacketKind::Keyboard && body@.len() < RAW_KEYBOARD_SIZE ==> {
                    &&& r.voice_f5_wake is None && r.messages@.len() == 0
                    &&& r.error matches Some(t) && t@ == "RAWKEYBOARD packet is truncated"@
                    &&& final(self).remote_voice_f5_pressed == old(self).remote_voice_f5_pressed
                }
                &&& kind == PacketKind::Keyboard && body@.len() >= RAW_KEYBOARD_SIZE ==> {
                    let e = keyboard_record(body@);
                    let pressed = message_is_pressed(e.message);
                    &&& r.error is None
                    &&& r.voice_f5_wake == (if e.virtual_key == VOICE_F5_VIRTUAL_KEY {
                        Some(pressed && !old(self).remote_voice_f5_pressed)
                    } else {
                        None
                    })
                    &&& final(self).remote_voice_f5_pressed == (if e.virtual_key
                        == VOICE_F5_VIRTUAL_KEY {
                        pressed
                    } else {
                        old(self).remote_voice_f5_pressed
                    })
                    &&& r.messages@.len() == 1
                    &&& r.messages@[0].arms@ == keyboard_arms(e)
                    &&& r.messages@[0].message == EngineMessage::Keyboard(e)
                }
                &&& kind == PacketKind::Hid ==> {
                    &&& r.voice_f5_wake is None
                    &&& final(self).remote_voice_f5_pressed == old(self).remote_voice_f5_pressed
                    &&& match crate::raw_input::hid_body_layout(body@) {
                        Err(de) => r.messages@.len() == 0 && (r.error matches Some(t) && t@
                            == crate::raw_input::decode_error_text(de)),
                        Ok((size, count)) => {
                            let reports = body_reports(body@, size, count);
                            &&& old(self).profile == Some(RemoteHidProfile::Google) ==> {
                                &&& r.error is None
                                &&& r.messages@.len() == google_states(reports).len()
                                &&& forall|j: int|
                                    0 <= j < r.messages@.len() ==> (#[trigger] r.messages@[j]).arms@.len() == 0
                                        && (r.messages@[j].message matches EngineMessage::HidButtons(v)
                                        && v@ == match google_states(reports)[j] {
                                        Some(b) => seq![b],
                                        None => Seq::<RemoteButton>::empty(),
                                    })
                            }
                            &&& old(self).profile != Some(RemoteHidProfile::Google) ==> {
                                let m = first_bad_report(reports, 0);
                                &&& r.messages@.len() == m
                                &&& forall|k: int|
                                    0 <= k < m ==> usage_message(
                                        #[trigger] r.messages@[k],
                                        crate::raw_input::report_payload(reports[k])->Ok_0,
                                    )
                                &&& m < count ==> (r.error matches Some(t) && t@
                                    == crate::raw_input::decode_error_text(
                                    crate::raw_input::report_payload(reports[m])->Err_0,
                                ))
                                &&& m == count ==> r.error is None
                            }
                        },
                    }
                }
            },
    {
        let n = normalize_device_path(device_path);
        let mut out = PacketOutcome { voice_f5_wake: None, messages: Vec::new(), error: None };
        if !contains_string(&self.selected_paths, &n) {
            if crate::raw_input::device_path_matches_supported_remote(device_path) {
                snapshot.stale_remote_event_count = snapshot.stale_remote_event_count.saturating_add(
                    1,
                );
            }
            return out;
        }
        snapshot.raw_event_count = snapshot.raw_event_count.saturating_add(1);
        match kind {
            PacketKind::Other => out,
            PacketKind::Keyboard => {
                let event = match parse_keyboard_record(body) {
                    Ok(e) => e,
                    Err(t) => {
                        out.error = Some(String::from_str(t));
                        return out;
                    },
                };
                if event.virtual_key == VOICE_F5_VIRTUAL_KEY {
                    let pressed = event.is_pressed();
                    let wake = voice_f5_wake_edge(self.remote_voice_f5_pressed, pressed);
                    self.remote_voice_f5_pressed = pressed;
                    out.voice_f5_wake = Some(wake);
                }
                let mut arms: Vec<RemoteButton> = Vec::new();
                match event.button() {
                    Some(b) => arms.push(b),
                    None => {},
                }
                assert(arms@ =~= keyboard_arms(event));
                out.messages.push(ListenerMessage { arms, message: EngineMessage::Keyboard(event) });
                out
            },
            PacketKind::Hid => {
                let reports = match parse_raw_hid_body(body) {
                    Ok(reports) => reports,
                    Err(e) => {
                        out.error = Some(e.message());
                        return out;
                    },
                };
                let ghost size = crate::raw_input::hid_body_layout(body@)->Ok_0.0;
                let ghost count = crate::raw_input::hid_body_layout(body@)->Ok_0.1;
                let ghost rs = body_reports(body@, size, count);
                assert forall|k: int| 0 <= k < count implies #[trigger] reports@[k]@ == rs[k] by {}
                let google = match self.profile {
                    Some(RemoteHidProfile::Google) => true,
                    _ => false,
                };
                let mut i: usize = 0;
                if google {
                    while i < reports.len()
                        invariant
                            i <= reports@.len(),
                            reports@.len() == count,
                            rs.len() == count,
                            forall|k: int| 0 <= k < count ==> #[trigger] reports@[k]@ == rs[k],
                            out.voice_f5_wake is None,
                            out.error is None,
                            out.messages@.len() == google_states(rs.subrange(0, i as int)).len(),
                            forall|j: int|
                                0 <= j < out.messages@.len() ==> (#[trigger] out.messages@[j]).arms@.len() == 0
                                    && (out.messages@[j].message matches EngineMessage::HidButtons(v)
                                    && v@ == match google_states(rs.subrange(0, i as int))[j] {
                                    Some(b) => seq![b],
                                    None => Seq::<RemoteButton>::empty(),
                                }),
                        decreases reports@.len() - i,
                    {
                        let ghost prev = rs.subrange(0, i as int);
                        let ghost next = rs.subrange(0, i + 1);
                        assert(next.drop_last() =~= prev);
                        assert(next.last() == reports@[i as int]@);
                        match decode_google_remote_report(reports[i]) {
                            Some(state) => {
                                let mut buttons: Vec<RemoteButton> = Vec::new();
                                match state {
                                    Some(b) => buttons.push(b),
                                    None => {},
                                }
                                out.messages.push(
                                    ListenerMessage {
                                        arms: Vec::new(),
                                        message: EngineMessage::HidButtons(buttons),
                                    },
                                );
                            },
                            None => {},
                        }
                        proof {
                            assert(google_states(next) =~= if next.last().len() != 3 || next.last()[0] != 0x01 {
                                google_states(prev)
                            } else {
                                google_states(prev).push(crate::raw_input::google_code_button(next.last()[1]))
                            });
                        }
                        i = i + 1;
                    }
                    assert(rs.subrange(0, count) =~= rs);
                } else {
                    let mut failed = false;
                    while i < reports.len() && !failed
                        invariant
                            i <= reports@.len(),
                            reports@.len() == count,
                            rs.len() == count,
                            forall|k: int| 0 <= k < count ==> #[trigger] reports@[k]@ == rs[k],
                            out.voice_f5_wake is None,
                            !failed ==> out.error is None,
                            !failed ==> out.messages@.len() == i,
                            !failed ==> forall|k: int| 0 <= k < i ==> crate::raw_input::report_payload(#[trigger] rs[k]) is Ok,
                            failed ==> i < count && out.messages@.len() == i && (forall|k: int| 0 <= k < i ==> crate::raw_input::report_payload(#[trigger] rs[k]) is Ok)
                                && crate::raw_input::report_payload(rs[i as int]) is Err
                                && (out.error matches Some(t) && t@ == crate::raw_input::decode_error_text(
                                    crate::raw_input::report_payload(rs[i as int])->Err_0,
                                )),
                            forall|k: int|
                                0 <= k < out.messages@.len() ==> usage_message(
                                    #[trigger] out.messages@[k],
                                    crate::raw_input::report_payload(rs[k])->Ok_0,
                                ),
                        decreases reports@.len() - i + (if failed { 0int } else { 1int }),
                    {
                        match decode_report_usages(reports[i]) {
                            Ok(usages) => {
                                let arms = arms_of(&usages);
                                out.messages.push(ListenerMessage { arms, message: EngineMessage::HidUsages(usages) });
                                i = i + 1;
                            },
                            Err(e) => {
                                out.error = Some(e.message());
                                failed = true;
                            },
                        }
                    }
                    proof {
                        lemma_first_bad(rs, 0, i as int);
                    }
                }
                out
            },
        }
    }
}


/// The Raw Input device types the listener considers: keyboards and HID.
pub open spec fn listened_type(t: u32) -> bool {
    t == 1 || t == 2
}

/// The names of the keyboard and HID devices whose path names a supported
/// remote, in order (devices whose name could not be read are skipped).
pub open spec fn matching_paths(devices: Seq<(u32, Option<String>)>) -> Seq<Seq<char>>
    decreases devices.len(),
{
    if devices.len() == 0 {
        Seq::empty()
    } else {
        let rest = matching_paths(devices.drop_last());
        let (t, name) = devices.last();
        match name {
            Some(n) => if listened_type(t) && (crate::raw_input::xiaomi_normalized(normalized(n@))
                || crate::raw_input::google_normalized(normalized(n@))) {
                rest.push(n@)
            } else {
                rest
            },
            None => rest,
        }
    }
}

/// Keeps the device paths of supported remotes among the enumerated Raw
/// Input devices `(type, name)`.
pub fn matching_device_paths(devices: &[(u32, Option<String>)]) -> (r: Vec<String>)
    ensures
        string_views(r@) == matching_paths(devices@),
{
    let mut out: Vec<String> = Vec::new();
    let mut i: usize = 0;
    while i < devices.len()
        invariant
            i <= devices@.len(),
            string_views(out@) == matching_paths(devices@.subrange(0, i as int)),
        decreases devices@.len() - i,
    {
        let ghost prev = devices@.subrange(0, i as int);
        let ghost next = devices@.subrange(0, i + 1);
        assert(next.drop_last() =~= prev);
        let t = devices[i].0;
        match &devices[i].1 {
            Some(name) => {
                if (t == 1 || t == 2) && crate::raw_input::device_path_matches_supported_remote(
                    name.as_str(),
                ) {
                    out.push(name.clone());
                    assert(string_views(out@) =~= matching_paths(prev).push(name@));
                }
            },
            None => {},
        }
        i = i + 1;
    }
    assert(devices@.subrange(0, devices@.len() as int) =~= devices@);
    out
}

/// The listener thread ended with `result`: a requested stop is `Stopped`;
/// a loop that ended by itself, or an error, is `Failed` with its reason.
/// Nothing is held any more either way.
pub fn listener_exited(snapshot: &mut RawInputSnapshot, result: Result<(), String>, stop_requested: bool)
    ensures
        final(snapshot).active_buttons@.len() == 0,
        final(snapshot).raw_event_count == old(snapshot).raw_event_count,
        final(snapshot).matched_device_count == old(snapshot).matched_device_count,
        match result {
            Ok(()) => if stop_requested {
                final(snapshot).phase == RawInputPhase::Stopped && final(snapshot).last_error
                    == old(snapshot).last_error
            } else {
                final(snapshot).phase == RawInputPhase::Failed && (final(snapshot).last_error matches Some(
                    t,
                ) && t@ == "Raw Input message loop exited unexpectedly"@)
            },
            Err(e) => final(snapshot).phase == RawInputPhase::Failed && final(snapshot).last_error
                == Some(e),
        },
{
    match result {
        Ok(()) => {
            if stop_requested {
                snapshot.phase = RawInputPhase::Stopped;
            } else {
                snapshot.phase = RawInputPhase::Failed;
                snapshot.last_error = Some(String::from_str("Raw Input message loop exited unexpectedly"));
            }
        },
        Err(e) => {
            snapshot.phase = RawInputPhase::Failed;
            snapshot.last_error = Some(e);
        },
    }
    snapshot.active_buttons = Vec::new();
}

} // verus!
