//! Remote-control buttons, HID report decoding, device-path selection and the
//! merger that turns two input sources into one stream of button edges.
use vstd::prelude::*;
use crate::text::{
    chars_equal, chars_of, contains_chars, decimal_seq, decimal_string, lower_chars, lower_seq, push_str,
    seq_contains, string_of, trim_chars, trim_seq,
};

verus! {

pub const XIAOMI_REMOTE_VENDOR_ID: u16 = 0x2717;

pub const XIAOMI_REMOTE_PRODUCT_ID: u16 = 0x32B8;

pub const GOOGLE_REMOTE_VENDOR_ID: u16 = 0x18D1;

pub const GOOGLE_REMOTE_PRODUCT_ID: u16 = 0x9450;

/// A semantic remote-control button. The voice key is not one of them.
#[derive(Debug, Clone, Copy, PartialEq, Eq, Structural, PartialOrd, Ord, Hash)]
pub enum RemoteButton {
    Back,
    /// The centre confirm key (OK).
    OkButton,
    Tv,
    Home,
    Right,
    Left,
    Down,
    Up,
    Menu,
    Power,
    VolumeMute,
    VolumeUp,
    VolumeDown,
    /// Chromecast Remote only: the YouTube key.
    Youtube,
    /// Chromecast Remote only: the Netflix key.
    Netflix,
    /// Chromecast Remote only: the input-source key.
    Input,
}

/// Number of semantic buttons.
pub const BUTTON_COUNT: usize = 16;

/// Stable position of a button; mapping bit masks and layouts depend on it,
/// so new buttons are only ever appended.
pub open spec fn button_ordinal(b: RemoteButton) -> int {
    match b {
        RemoteButton::Back => 0,
        RemoteButton::OkButton => 1,
        RemoteButton::Tv => 2,
        RemoteButton::Home => 3,
        RemoteButton::Right => 4,
        RemoteButton::Left => 5,
        RemoteButton::Down => 6,
        RemoteButton::Up => 7,
        RemoteButton::Menu => 8,
        RemoteButton::Power => 9,
        RemoteButton::VolumeMute => 10,
        RemoteButton::VolumeUp => 11,
        RemoteButton::VolumeDown => 12,
        RemoteButton::Youtube => 13,
        RemoteButton::Netflix => 14,
        RemoteButton::Input => 15,
    }
}

/// The button at a position (positions outside 0..16 give `Input`).
pub open spec fn button_at(i: int) -> RemoteButton {
    if i == 0 {
        RemoteButton::Back
    } else if i == 1 {
        RemoteButton::OkButton
    } else if i == 2 {
        RemoteButton::Tv
    } else if i == 3 {
        RemoteButton::Home
    } else if i == 4 {
        RemoteButton::Right
    } else if i == 5 {
        RemoteButton::Left
    } else if i == 6 {
        RemoteButton::Down
    } else if i == 7 {
        RemoteButton::Up
    } else if i == 8 {
        RemoteButton::Menu
    } else if i == 9 {
        RemoteButton::Power
    } else if i == 10 {
        RemoteButton::VolumeMute
    } else if i == 11 {
        RemoteButton::VolumeUp
    } else if i == 12 {
        RemoteButton::VolumeDown
    } else if i == 13 {
        RemoteButton::Youtube
    } else if i == 14 {
        RemoteButton::Netflix
    } else {
        RemoteButton::Input
    }
}

/// All buttons in their stable order.
pub open spec fn all_buttons() -> Seq<RemoteButton> {
    Seq::new(16, |i: int| button_at(i))
}

pub broadcast proof fn lemma_button_ordinal(b: RemoteButton)
    ensures
        0 <= #[trigger] button_ordinal(b) < 16,
        button_at(button_ordinal(b)) == b,
{
}

pub broadcast proof fn lemma_button_at(i: int)
    requires
        0 <= i < 16,
    ensures
        button_ordinal(#[trigger] button_at(i)) == i,
{
}

/// All buttons in their stable order.
pub fn all_buttons_array() -> (r: [RemoteButton; 16])
    ensures
        r@ == all_buttons(),
{
    let r = [
        RemoteButton::Back,
        RemoteButton::OkButton,
        RemoteButton::Tv,
        RemoteButton::Home,
        RemoteButton::Right,
        RemoteButton::Left,
        RemoteButton::Down,
        RemoteButton::Up,
        RemoteButton::Menu,
        RemoteButton::Power,
        RemoteButton::VolumeMute,
        RemoteButton::VolumeUp,
        RemoteButton::VolumeDown,
        RemoteButton::Youtube,
        RemoteButton::Netflix,
        RemoteButton::Input,
    ];
    assert(r@ =~= all_buttons());
    r
}

/// The button at a position, for positions below 16.
pub fn button_from_ordinal(i: usize) -> (b: RemoteButton)
    requires
        i < 16,
    ensures
        b == button_at(i as int),
        button_ordinal(b) == i,
{
    match i {
        0 => RemoteButton::Back,
        1 => RemoteButton::OkButton,
        2 => RemoteButton::Tv,
        3 => RemoteButton::Home,
        4 => RemoteButton::Right,
        5 => RemoteButton::Left,
        6 => RemoteButton::Down,
        7 => RemoteButton::Up,
        8 => RemoteButton::Menu,
        9 => RemoteButton::Power,
        10 => RemoteButton::VolumeMute,
        11 => RemoteButton::VolumeUp,
        12 => RemoteButton::VolumeDown,
        13 => RemoteButton::Youtube,
        14 => RemoteButton::Netflix,
        _ => RemoteButton::Input,
    }
}

/// Auto-repeat interval in milliseconds of a held single-click action.
pub open spec fn repeat_interval_ms(b: RemoteButton) -> Option<u64> {
    match b {
        RemoteButton::Back => Some(50),
        RemoteButton::Up | RemoteButton::Down | RemoteButton::Left | RemoteButton::Right
        | RemoteButton::VolumeUp | RemoteButton::VolumeDown => Some(100),
        _ => None,
    }
}

impl RemoteButton {
    /// Position of the button in the stable order (0..16).
    pub fn ordinal(self) -> (r: usize)
        ensures
            r == button_ordinal(self),
            r < 16,
            all_buttons()[r as int] == self,
    {
        match self {
            RemoteButton::Back => 0,
            RemoteButton::OkButton => 1,
            RemoteButton::Tv => 2,
            RemoteButton::Home => 3,
            RemoteButton::Right => 4,
            RemoteButton::Left => 5,
            RemoteButton::Down => 6,
            RemoteButton::Up => 7,
            RemoteButton::Menu => 8,
            RemoteButton::Power => 9,
            RemoteButton::VolumeMute => 10,
            RemoteButton::VolumeUp => 11,
            RemoteButton::VolumeDown => 12,
            RemoteButton::Youtube => 13,
            RemoteButton::Netflix => 14,
            RemoteButton::Input => 15,
        }
    }

    /// Hold-to-repeat interval in milliseconds: 50 for Back, 100 for the
    /// arrows and volume keys, none for the rest.
    pub fn repeat_interval(self) -> (r: Option<u64>)
        ensures
            r == repeat_interval_ms(self),
    {
        match self {
            RemoteButton::Back => Some(50),
            RemoteButton::Up | RemoteButton::Down | RemoteButton::Left | RemoteButton::Right
            | RemoteButton::VolumeUp | RemoteButton::VolumeDown => Some(100),
            _ => None,
        }
    }
}

/// One press or release of a semantic button.
#[derive(Debug, Clone, Copy, PartialEq, Eq, Structural)]
pub struct ButtonEdge {
    pub button: RemoteButton,
    pub is_pressed: bool,
}

/// State of the Raw Input listener.
#[derive(Debug, Clone, Copy, PartialEq, Eq, Structural)]
pub enum RawInputPhase {
    Stopped,
    Starting,
    Ready,
    /// Listening, but no matching remote HID interface is present yet.
    Awaiting,
    Failed,
    Unsupported,
}

impl Default for RawInputPhase {
    fn default() -> (r: Self)
        ensures
            r == RawInputPhase::Stopped,
    {
        RawInputPhase::Stopped
    }
}

/// Diagnostics of the Raw Input listener.
#[derive(Debug, Clone, PartialEq, Eq)]
pub struct RawInputSnapshot {
    pub phase: RawInputPhase,
    pub matched_device_count: u32,
    pub raw_event_count: u64,
    pub semantic_edge_count: u64,
    pub last_button: Option<RemoteButton>,
    pub last_is_pressed: Option<bool>,
    /// Buttons held right now, as the mapping engine sees them.
    pub active_buttons: Vec<RemoteButton>,
    pub last_error: Option<String>,
    /// Reports that came from a remote but from a path other than the bound one.
    pub stale_remote_event_count: u64,
}

impl RawInputSnapshot {
    /// The diagnostics of a listener in `phase` that has seen nothing yet.
    pub open spec fn is_fresh(&self, phase: RawInputPhase) -> bool {
        &&& self.phase == phase
        &&& self.matched_device_count == 0
        &&& self.raw_event_count == 0
        &&& self.semantic_edge_count == 0
        &&& self.last_button is None
        &&& self.last_is_pressed is None
        &&& self.active_buttons@.len() == 0
        &&& self.last_error is None
        &&& self.stale_remote_event_count == 0
    }

    /// Fresh diagnostics of a listener in `phase`.
    pub fn fresh(phase: RawInputPhase) -> (r: Self)
        ensures
            r.is_fresh(phase),
    {
        RawInputSnapshot {
            phase,
            matched_device_count: 0,
            raw_event_count: 0,
            semantic_edge_count: 0,
            last_button: None,
            last_is_pressed: None,
            active_buttons: Vec::new(),
            last_error: None,
            stale_remote_event_count: 0,
        }
    }
}

impl Default for RawInputSnapshot {
    fn default() -> (r: Self)
        ensures
            r.is_fresh(RawInputPhase::Stopped),
    {
        RawInputSnapshot::fresh(RawInputPhase::Stopped)
    }
}

/// A keyboard event as Raw Input delivers it.
#[derive(Debug, Clone, Copy, PartialEq, Eq, Structural)]
pub struct RawKeyboardEvent {
    pub make_code: u16,
    pub flags: u16,
    pub virtual_key: u16,
    pub message: u32,
}

/// Key-up messages (WM_KEYUP, WM_SYSKEYUP) release; every other message presses.
pub open spec fn message_is_pressed(message: u32) -> bool {
    !(message == 0x0101 || message == 0x0105)
}

/// The button that a keyboard event of the remote stands for.
pub open spec fn keyboard_button(virtual_key: u16, make_code: u16) -> Option<RemoteButton> {
    if virtual_key == 0xFF {
        if make_code == 0x5E {
            Some(RemoteButton::Power)
        } else if make_code == 0x6A {
            Some(RemoteButton::Back)
        } else if make_code == 0x30 {
            Some(RemoteButton::VolumeUp)
        } else if make_code == 0x2E {
            Some(RemoteButton::VolumeDown)
        } else if make_code == 0x20 {
            Some(RemoteButton::VolumeMute)
        } else {
            None
        }
    } else if virtual_key == 0x27 {
        Some(RemoteButton::Right)
    } else if virtual_key == 0x25 {
        Some(RemoteButton::Left)
    } else if virtual_key == 0x28 {
        Some(RemoteButton::Down)
    } else if virtual_key == 0x26 {
        Some(RemoteButton::Up)
    } else if virtual_key == 0x0D {
        Some(RemoteButton::OkButton)
    } else if virtual_key == 0x24 {
        Some(RemoteButton::Home)
    } else if virtual_key == 0x5D {
        Some(RemoteButton::Menu)
    } else if virtual_key == 0xC0 {
        Some(RemoteButton::Tv)
    } else if virtual_key == 0x5F {
        Some(RemoteButton::Power)
    } else if virtual_key == 0xAD {
        Some(RemoteButton::VolumeMute)
    } else if virtual_key == 0xAF {
        Some(RemoteButton::VolumeUp)
    } else if virtual_key == 0xAE {
        Some(RemoteButton::VolumeDown)
    } else {
        None
    }
}

/// The button that a HID consumer/keyboard usage of the remote stands for.
/// The voice usage 0x003E is deliberately none.
pub open spec fn usage_button(usage: u16) -> Option<RemoteButton> {
    if usage == 0x00F1 {
        Some(RemoteButton::Back)
    } else if usage == 0x0028 {
        Some(RemoteButton::OkButton)
    } else if usage == 0x0035 {
        Some(RemoteButton::Tv)
    } else if usage == 0x004A {
        Some(RemoteButton::Home)
    } else if usage == 0x004F {
        Some(RemoteButton::Right)
    } else if usage == 0x0050 {
        Some(RemoteButton::Left)
    } else if usage == 0x0051 {
        Some(RemoteButton::Down)
    } else if usage == 0x0052 {
        Some(RemoteButton::Up)
    } else if usage == 0x0065 {
        Some(RemoteButton::Menu)
    } else if usage == 0x0066 {
        Some(RemoteButton::Power)
    } else if usage == 0x007F {
        Some(RemoteButton::VolumeMute)
    } else if usage == 0x0080 {
        Some(RemoteButton::VolumeUp)
    } else if usage == 0x0081 {
        Some(RemoteButton::VolumeDown)
    } else {
        None
    }
}

/// The button that a Chromecast Remote key code stands for.
pub open spec fn google_code_button(code: u8) -> Option<RemoteButton> {
    if code == 0x01 {
        Some(RemoteButton::Power)
    } else if code == 0x03 {
        Some(RemoteButton::Up)
    } else if code == 0x04 {
        Some(RemoteButton::Down)
    } else if code == 0x05 {
        Some(RemoteButton::Left)
    } else if code == 0x06 {
        Some(RemoteButton::Right)
    } else if code == 0x07 {
        Some(RemoteButton::OkButton)
    } else if code == 0x08 {
        Some(RemoteButton::VolumeMute)
    } else if code == 0x0A {
        Some(RemoteButton::Home)
    } else if code == 0x0B {
        Some(RemoteButton::Back)
    } else if code == 0x0C {
        Some(RemoteButton::VolumeUp)
    } else if code == 0x0D {
        Some(RemoteButton::VolumeDown)
    } else if code == 0x0E {
        Some(RemoteButton::Youtube)
    } else if code == 0x0F {
        Some(RemoteButton::Netflix)
    } else if code == 0x11 {
        Some(RemoteButton::Input)
    } else {
        None
    }
}

/// The usage each button of the Xiaomi remote reports, from the HID usage
/// tables: the Keyboard/Keypad page's Return (0x28), Grave Accent (0x35,
/// the TV key), Home (0x4A), Right/Left/Down/Up Arrow (0x4F-0x52),
/// Application (0x65, the menu key), Power (0x66), Mute (0x7F),
/// Volume Up/Down (0x80/0x81) and the remote's back key (0xF1).
pub open spec fn remote_usage(b: RemoteButton) -> Option<u16> {
    match b {
        RemoteButton::Back => Some(0x00F1u16),
        RemoteButton::OkButton => Some(0x0028u16),
        RemoteButton::Tv => Some(0x0035u16),
        RemoteButton::Home => Some(0x004Au16),
        RemoteButton::Right => Some(0x004Fu16),
        RemoteButton::Left => Some(0x0050u16),
        RemoteButton::Down => Some(0x0051u16),
        RemoteButton::Up => Some(0x0052u16),
        RemoteButton::Menu => Some(0x0065u16),
        RemoteButton::Power => Some(0x0066u16),
        RemoteButton::VolumeMute => Some(0x007Fu16),
        RemoteButton::VolumeUp => Some(0x0080u16),
        RemoteButton::VolumeDown => Some(0x0081u16),
        RemoteButton::Youtube => None,
        RemoteButton::Netflix => None,
        RemoteButton::Input => None,
    }
}

/// The Windows virtual key each button of the remote sends: VK_RIGHT (0x27),
/// VK_LEFT (0x25), VK_DOWN (0x28), VK_UP (0x26), VK_RETURN (0x0D), VK_HOME
/// (0x24), VK_APPS (0x5D), VK_OEM_3 (0xC0, the TV key), VK_SLEEP (0x5F),
/// VK_VOLUME_MUTE (0xAD), VK_VOLUME_UP (0xAF), VK_VOLUME_DOWN (0xAE).
pub open spec fn remote_virtual_key(b: RemoteButton) -> Option<u16> {
    match b {
        RemoteButton::Right => Some(0x27u16),
        RemoteButton::Left => Some(0x25u16),
        RemoteButton::Down => Some(0x28u16),
        RemoteButton::Up => Some(0x26u16),
        RemoteButton::OkButton => Some(0x0Du16),
        RemoteButton::Home => Some(0x24u16),
        RemoteButton::Menu => Some(0x5Du16),
        RemoteButton::Tv => Some(0xC0u16),
        RemoteButton::Power => Some(0x5Fu16),
        RemoteButton::VolumeMute => Some(0xADu16),
        RemoteButton::VolumeUp => Some(0xAFu16),
        RemoteButton::VolumeDown => Some(0xAEu16),
        _ => None,
    }
}

/// The scan code each button sends when Windows has no virtual key for it
/// (virtual key 0xFF): the set-1 extended codes of Power (0x5E), Browser
/// Back (0x6A), Volume Up (0x30), Volume Down (0x2E) and Mute (0x20).
pub open spec fn remote_scan_code(b: RemoteButton) -> Option<u16> {
    match b {
        RemoteButton::Power => Some(0x5Eu16),
        RemoteButton::Back => Some(0x6Au16),
        RemoteButton::VolumeUp => Some(0x30u16),
        RemoteButton::VolumeDown => Some(0x2Eu16),
        RemoteButton::VolumeMute => Some(0x20u16),
        _ => None,
    }
}

/// The key code each button of the Chromecast Remote reports in its
/// three-byte report `01 <code> 00`.
pub open spec fn google_remote_code(b: RemoteButton) -> Option<u8> {
    match b {
        RemoteButton::Power => Some(0x01u8),
        RemoteButton::Up => Some(0x03u8),
        RemoteButton::Down => Some(0x04u8),
        RemoteButton::Left => Some(0x05u8),
        RemoteButton::Right => Some(0x06u8),
        RemoteButton::OkButton => Some(0x07u8),
        RemoteButton::VolumeMute => Some(0x08u8),
        RemoteButton::Home => Some(0x0Au8),
        RemoteButton::Back => Some(0x0Bu8),
        RemoteButton::VolumeUp => Some(0x0Cu8),
        RemoteButton::VolumeDown => Some(0x0Du8),
        RemoteButton::Youtube => Some(0x0Eu8),
        RemoteButton::Netflix => Some(0x0Fu8),
        RemoteButton::Input => Some(0x11u8),
        _ => None,
    }
}

/// A usage decodes to a button exactly when it is the usage that button
/// reports: every remote usage names its own button, and no other usage
/// names any button.
pub proof fn law_usages_decode_to_their_buttons(u: u16, b: RemoteButton)
    ensures
        usage_button(u) == Some(b) <==> remote_usage(b) == Some(u),
{
}

/// A keyboard event decodes to a button exactly when it carries that
/// button's virtual key, whatever its scan code; when the virtual key is
/// 0xFF, exactly when it carries that button's scan code.
pub proof fn law_keyboard_events_decode_to_their_buttons(vk: u16, make_code: u16, b: RemoteButton)
    ensures
        vk != 0xFF ==> (keyboard_button(vk, make_code) == Some(b) <==> remote_virtual_key(b)
            == Some(vk)),
        vk == 0xFF ==> (keyboard_button(vk, make_code) == Some(b) <==> remote_scan_code(b)
            == Some(make_code)),
{
}

/// A Chromecast Remote key code decodes to a button exactly when it is that
/// button's code.
pub proof fn law_google_codes_decode_to_their_buttons(code: u8, b: RemoteButton)
    ensures
        google_code_button(code) == Some(b) <==> google_remote_code(b) == Some(code),
{
}

impl RawKeyboardEvent {
    pub fn is_pressed(self) -> (r: bool)
        ensures
            r == message_is_pressed(self.message),
    {
        !(self.message == 0x0101 || self.message == 0x0105)
    }

    pub fn button(self) -> (r: Option<RemoteButton>)
        ensures
            r == keyboard_button(self.virtual_key, self.make_code),
    {
        button_for_keyboard(self.virtual_key, self.make_code)
    }
}

pub fn button_for_usage(usage: u16) -> (r: Option<RemoteButton>)
    ensures
        r == usage_button(usage),
{
    match usage {
        0x00F1 => Some(RemoteButton::Back),
        0x0028 => Some(RemoteButton::OkButton),
        0x0035 => Some(RemoteButton::Tv),
        0x004A => Some(RemoteButton::Home),
        0x004F => Some(RemoteButton::Right),
        0x0050 => Some(RemoteButton::Left),
        0x0051 => Some(RemoteButton::Down),
        0x0052 => Some(RemoteButton::Up),
        0x0065 => Some(RemoteButton::Menu),
        0x0066 => Some(RemoteButton::Power),
        0x007F => Some(RemoteButton::VolumeMute),
        0x0080 => Some(RemoteButton::VolumeUp),
        0x0081 => Some(RemoteButton::VolumeDown),
        _ => None,
    }
}

pub fn button_for_keyboard(virtual_key: u16, make_code: u16) -> (r: Option<RemoteButton>)
    ensures
        r == keyboard_button(virtual_key, make_code),
{
    if virtual_key == 0xFF {
        return match make_code {
            0x5E => Some(RemoteButton::Power),
            0x6A => Some(RemoteButton::Back),
            0x30 => Some(RemoteButton::VolumeUp),
            0x2E => Some(RemoteButton::VolumeDown),
            0x20 => Some(RemoteButton::VolumeMute),
            _ => None,
        };
    }
    match virtual_key {
        0x27 => Some(RemoteButton::Right),
        0x25 => Some(RemoteButton::Left),
        0x28 => Some(RemoteButton::Down),
        0x26 => Some(RemoteButton::Up),
        0x0D => Some(RemoteButton::OkButton),
        0x24 => Some(RemoteButton::Home),
        0x5D => Some(RemoteButton::Menu),
        0xC0 => Some(RemoteButton::Tv),
        0x5F => Some(RemoteButton::Power),
        0xAD => Some(RemoteButton::VolumeMute),
        0xAF => Some(RemoteButton::VolumeUp),
        0xAE => Some(RemoteButton::VolumeDown),
        _ => None,
    }
}

/// Chromecast Remote key codes (Col01, report ID 0x01, `01 <code> 00`).
pub fn button_for_google_remote_code(code: u8) -> (r: Option<RemoteButton>)
    ensures
        r == google_code_button(code),
{
    match code {
        0x01 => Some(RemoteButton::Power),
        0x03 => Some(RemoteButton::Up),
        0x04 => Some(RemoteButton::Down),
        0x05 => Some(RemoteButton::Left),
        0x06 => Some(RemoteButton::Right),
        0x07 => Some(RemoteButton::OkButton),
        0x08 => Some(RemoteButton::VolumeMute),
        0x0A => Some(RemoteButton::Home),
        0x0B => Some(RemoteButton::Back),
        0x0C => Some(RemoteButton::VolumeUp),
        0x0D => Some(RemoteButton::VolumeDown),
        0x0E => Some(RemoteButton::Youtube),
        0x0F => Some(RemoteButton::Netflix),
        0x11 => Some(RemoteButton::Input),
        _ => None,
    }
}

/// Decodes one Chromecast Remote report: `Some(Some(b))` means `b` is held
/// (absolute state), `Some(None)` means nothing is held, `None` means the
/// report is not of this remote's shape and must be ignored.
pub fn decode_google_remote_report(report: &[u8]) -> (r: Option<Option<RemoteButton>>)
    ensures
        r == (if report@.len() != 3 || report@[0] != 0x01 {
            None
        } else {
            Some(google_code_button(report@[1]))
        }),
{
    if report.len() != 3 || report[0] != 0x01 {
        return None;
    }
    Some(button_for_google_remote_code(report[1]))
}


/// A device path as the selection compares it: trimmed and ASCII-lowercased.
pub open spec fn normalized(path: Seq<char>) -> Seq<char> {
    lower_seq(trim_seq(path))
}

/// A normalized path names the Xiaomi remote (classic HID or BLE HOGP shape).
pub open spec fn xiaomi_normalized(n: Seq<char>) -> bool {
    (seq_contains(n, "vid_2717"@) && seq_contains(n, "pid_32b8"@)) || ((seq_contains(
        n,
        "dev_vid&002717"@,
    ) || seq_contains(n, "dev_vid&012717"@)) && seq_contains(n, "pid&32b8"@))
}

/// A normalized path names the Chromecast remote (classic HID or BLE HOGP shape).
pub open spec fn google_normalized(n: Seq<char>) -> bool {
    (seq_contains(n, "vid_18d1"@) && seq_contains(n, "pid_9450"@)) || ((seq_contains(
        n,
        "dev_vid&0018d1"@,
    ) || seq_contains(n, "dev_vid&0118d1"@)) && seq_contains(n, "pid&9450"@))
}

/// `lit` occurs in `n`.
fn has_literal(n: &[char], lit: &str) -> (r: bool)
    ensures
        r == seq_contains(n@, lit@),
{
    let t = chars_of(lit);
    contains_chars(n, &t)
}

pub(crate) fn normalized_chars(path: &str) -> (r: Vec<char>)
    ensures
        r@ == normalized(path@),
{
    let cs = chars_of(path);
    let trimmed = trim_chars(&cs);
    lower_chars(&trimmed)
}

fn xiaomi_chars(n: &[char]) -> (r: bool)
    ensures
        r == xiaomi_normalized(n@),
{
    (has_literal(n, "vid_2717") && has_literal(n, "pid_32b8")) || ((has_literal(n, "dev_vid&002717")
        || has_literal(n, "dev_vid&012717")) && has_literal(n, "pid&32b8"))
}

fn google_chars(n: &[char]) -> (r: bool)
    ensures
        r == google_normalized(n@),
{
    (has_literal(n, "vid_18d1") && has_literal(n, "pid_9450")) || ((has_literal(n, "dev_vid&0018d1")
        || has_literal(n, "dev_vid&0118d1")) && has_literal(n, "pid&9450"))
}

/// Trims a device path and lowercases its ASCII letters.
pub fn normalize_device_path(path: &str) -> (r: String)
    ensures
        r@ == normalized(path@),
{
    let n = normalized_chars(path);
    string_of(&n)
}

pub fn device_path_matches_xiaomi_remote(path: &str) -> (r: bool)
    ensures
        r == xiaomi_normalized(normalized(path@)),
{
    let n = normalized_chars(path);
    xiaomi_chars(&n)
}

pub fn device_path_matches_google_remote(path: &str) -> (r: bool)
    ensures
        r == google_normalized(normalized(path@)),
{
    let n = normalized_chars(path);
    google_chars(&n)
}

pub fn device_path_matches_supported_remote(path: &str) -> (r: bool)
    ensures
        r == (xiaomi_normalized(normalized(path@)) || google_normalized(normalized(path@))),
{
    device_path_matches_xiaomi_remote(path) || device_path_matches_google_remote(path)
}

/// How the Raw Input reports of a remote model are decoded.
#[derive(Debug, Clone, Copy, PartialEq, Eq, Structural)]
pub enum RemoteHidProfile {
    /// Xiaomi RC001/RC003: usage sets.
    Xiaomi,
    /// Chromecast Remote: 3-byte vendor-code reports with report ID 0x01.
    Google,
}

/// The model a path belongs to; a Chromecast match wins over a Xiaomi match.
pub open spec fn profile_for(path: Seq<char>) -> Option<RemoteHidProfile> {
    if google_normalized(normalized(path)) {
        Some(RemoteHidProfile::Google)
    } else if xiaomi_normalized(normalized(path)) {
        Some(RemoteHidProfile::Xiaomi)
    } else {
        None
    }
}

impl RemoteHidProfile {
    pub fn for_path(path: &str) -> (r: Option<RemoteHidProfile>)
        ensures
            r == profile_for(path@),
    {
        if device_path_matches_google_remote(path) {
            Some(RemoteHidProfile::Google)
        } else if device_path_matches_xiaomi_remote(path) {
            Some(RemoteHidProfile::Xiaomi)
        } else {
            None
        }
    }
}

/// The model and all matching paths chosen for one binding.
#[derive(Debug, Clone, PartialEq, Eq)]
pub struct RemoteHidSelection {
    pub profile: RemoteHidProfile,
    pub paths: Vec<String>,
}

#[derive(Debug, Clone, PartialEq, Eq, Structural)]
pub enum DevicePathError {
    /// No RC001/RC003 Raw Input device path was found.
    Missing,
    /// Several candidate paths were found and none could be preferred.
    Ambiguous(usize),
}

/// The user-facing text of a device-path error.
pub open spec fn device_path_error_text(e: DevicePathError) -> Seq<char> {
    match e {
        DevicePathError::Missing => "no RC001/RC003 Raw Input device path was found"@,
        DevicePathError::Ambiguous(count) => "found "@ + decimal_seq(count as nat)
            + " RC001/RC003 Raw Input device paths; refusing to choose one"@,
    }
}

impl DevicePathError {
    /// The user-facing text of the error.
    pub fn message(&self) -> (r: String)
        ensures
            r@ == device_path_error_text(*self),
    {
        match self {
            DevicePathError::Missing => String::from_str(
                "no RC001/RC003 Raw Input device path was found",
            ),
            DevicePathError::Ambiguous(count) => {
                let mut s = String::from_str("found ");
                let digits = decimal_string(*count as u64);
                push_str(&mut s, digits.as_str());
                push_str(&mut s, " RC001/RC003 Raw Input device paths; refusing to choose one");
                s
            },
        }
    }
}

/// The views of a sequence of strings.
pub open spec fn string_views(v: Seq<String>) -> Seq<Seq<char>> {
    Seq::new(v.len(), |i: int| v[i]@)
}

/// The normalized paths, in order, whose model is `p`.
pub open spec fn normalized_of_profile(
    paths: Seq<Seq<char>>,
    p: RemoteHidProfile,
) -> Seq<Seq<char>>
    decreases paths.len(),
{
    if paths.len() == 0 {
        Seq::empty()
    } else {
        let rest = normalized_of_profile(paths.drop_last(), p);
        if profile_for(paths.last()) == Some(p) {
            rest.push(normalized(paths.last()))
        } else {
            rest
        }
    }
}

/// Which remote to bind: with a known model only that model's paths; with
/// none, a single vendor binds and two vendors at once are ambiguous.
pub open spec fn hid_selection(
    paths: Seq<Seq<char>>,
    active: Option<RemoteHidProfile>,
) -> Result<(RemoteHidProfile, Seq<Seq<char>>), DevicePathError> {
    let xiaomi = normalized_of_profile(paths, RemoteHidProfile::Xiaomi);
    let google = normalized_of_profile(paths, RemoteHidProfile::Google);
    match active {
        Some(RemoteHidProfile::Xiaomi) => if xiaomi.len() == 0 {
            Err(DevicePathError::Missing)
        } else {
            Ok((RemoteHidProfile::Xiaomi, xiaomi))
        },
        Some(RemoteHidProfile::Google) => if google.len() == 0 {
            Err(DevicePathError::Missing)
        } else {
            Ok((RemoteHidProfile::Google, google))
        },
        None => if xiaomi.len() == 0 && google.len() == 0 {
            Err(DevicePathError::Missing)
        } else if xiaomi.len() > 0 && google.len() > 0 {
            Err(DevicePathError::Ambiguous((xiaomi.len() + google.len()) as usize))
        } else if xiaomi.len() > 0 {
            Ok((RemoteHidProfile::Xiaomi, xiaomi))
        } else {
            Ok((RemoteHidProfile::Google, google))
        },
    }
}

proof fn lemma_normalized_of_profile_len(paths: Seq<Seq<char>>, p: RemoteHidProfile)
    ensures
        normalized_of_profile(paths, p).len() <= paths.len(),
    decreases paths.len(),
{
    if paths.len() > 0 {
        lemma_normalized_of_profile_len(paths.drop_last(), p);
    }
}

/// Chooses the remote HID interfaces to bind (see [`hid_selection`]).
pub fn select_remote_hid_selection(
    paths: &[String],
    active: Option<RemoteHidProfile>,
) -> (r: Result<RemoteHidSelection, DevicePathError>)
    ensures
        match r {
            Ok(sel) => hid_selection(string_views(paths@), active) == Ok::<
                (RemoteHidProfile, Seq<Seq<char>>),
                DevicePathError,
            >((sel.profile, string_views(sel.paths@))),
            Err(e) => hid_selection(string_views(paths@), active) == Err::<
                (RemoteHidProfile, Seq<Seq<char>>),
                DevicePathError,
            >(e),
        },
{
    let mut xiaomi: Vec<String> = Vec::new();
    let mut google: Vec<String> = Vec::new();
    let ghost views = string_views(paths@);
    let mut i: usize = 0;
    while i < paths.len()
        invariant
            i <= paths@.len(),
            views == string_views(paths@),
            string_views(xiaomi@) == normalized_of_profile(
                views.subrange(0, i as int),
                RemoteHidProfile::Xiaomi,
            ),
            string_views(google@) == normalized_of_profile(
                views.subrange(0, i as int),
                RemoteHidProfile::Google,
            ),
            xiaomi@.len() + google@.len() <= i,
        decreases paths@.len() - i,
    {
        let ghost prefix = views.subrange(0, i as int);
        let ghost next = views.subrange(0, i + 1);
        assert(next.drop_last() =~= prefix);
        assert(next.last() == paths@[i as int]@);
        let p = &paths[i];
        let profile = RemoteHidProfile::for_path(p.as_str());
        match profile {
            Some(RemoteHidProfile::Xiaomi) => {
                let n = normalize_device_path(p.as_str());
                xiaomi.push(n);
            },
            Some(RemoteHidProfile::Google) => {
                let n = normalize_device_path(p.as_str());
                google.push(n);
            },
            None => {},
        }
        assert(string_views(xiaomi@) =~= normalized_of_profile(next, RemoteHidProfile::Xiaomi));
        assert(string_views(google@) =~= normalized_of_profile(next, RemoteHidProfile::Google));
        i = i + 1;
    }
    assert(views.subrange(0, paths@.len() as int) =~= views);
    match active {
        Some(RemoteHidProfile::Xiaomi) => {
            if xiaomi.len() == 0 {
                Err(DevicePathError::Missing)
            } else {
                Ok(RemoteHidSelection { profile: RemoteHidProfile::Xiaomi, paths: xiaomi })
            }
        },
        Some(RemoteHidProfile::Google) => {
            if google.len() == 0 {
                Err(DevicePathError::Missing)
            } else {
                Ok(RemoteHidSelection { profile: RemoteHidProfile::Google, paths: google })
            }
        },
        None => {
            if xiaomi.len() == 0 && google.len() == 0 {
                Err(DevicePathError::Missing)
            } else if xiaomi.len() > 0 && google.len() > 0 {
                Err(DevicePathError::Ambiguous(xiaomi.len() + google.len()))
            } else if xiaomi.len() > 0 {
                Ok(RemoteHidSelection { profile: RemoteHidProfile::Xiaomi, paths: xiaomi })
            } else {
                Ok(RemoteHidSelection { profile: RemoteHidProfile::Google, paths: google })
            }
        },
    }
}

/// Every bound path is among the enumerated ones, and something is bound.
pub open spec fn paths_present(bound: Seq<Seq<char>>, enumerated: Seq<Seq<char>>) -> bool {
    bound.len() > 0 && forall|i: int|
        0 <= i < bound.len() ==> #[trigger] enumerated.contains(bound[i])
}

fn string_eq(a: &String, b: &String) -> (r: bool)
    ensures
        r == (a@ == b@),
{
    let x = chars_of(a.as_str());
    let y = chars_of(b.as_str());
    chars_equal(&x, &y)
}

/// Whether every bound path is still enumerated (an empty binding is never present).
pub fn bound_paths_still_present(bound: &[String], enumerated: &[String]) -> (r: bool)
    ensures
        r == paths_present(string_views(bound@), string_views(enumerated@)),
{
    let ghost b = string_views(bound@);
    let ghost e = string_views(enumerated@);
    if bound.len() == 0 {
        return false;
    }
    let mut i: usize = 0;
    while i < bound.len()
        invariant
            i <= bound@.len(),
            b == string_views(bound@),
            e == string_views(enumerated@),
            forall|k: int| 0 <= k < i ==> #[trigger] e.contains(b[k]),
        decreases bound@.len() - i,
    {
        let mut j: usize = 0;
        let mut found = false;
        while j < enumerated.len() && !found
            invariant
                i < bound@.len(),
                j <= enumerated@.len(),
                b == string_views(bound@),
                e == string_views(enumerated@),
                found ==> e.contains(b[i as int]),
                !found ==> forall|m: int| 0 <= m < j ==> e[m] != b[i as int],
            decreases enumerated@.len() - j + (if found {
                0int
            } else {
                1int
            }),
        {
            if string_eq(&enumerated[j], &bound[i]) {
                found = true;
                assert(e[j as int] == b[i as int]);
            } else {
                j = j + 1;
            }
        }
        if !found {
            assert(!e.contains(b[i as int]));
            return false;
        }
        i = i + 1;
    }
    true
}

/// The paths, in order, that name the Xiaomi remote.
pub open spec fn xiaomi_candidates(paths: Seq<Seq<char>>) -> Seq<Seq<char>>
    decreases paths.len(),
{
    if paths.len() == 0 {
        Seq::empty()
    } else {
        let rest = xiaomi_candidates(paths.drop_last());
        if xiaomi_normalized(normalized(paths.last())) {
            rest.push(paths.last())
        } else {
            rest
        }
    }
}

/// Position of the first candidate whose normalized form is `pref` (the length if none).
pub open spec fn first_normalized_match(ms: Seq<Seq<char>>, pref: Seq<char>) -> int
    decreases ms.len(),
{
    if ms.len() == 0 {
        0
    } else if normalized(ms[0]) == pref {
        0
    } else {
        1 + first_normalized_match(ms.drop_first(), pref)
    }
}

/// The single Xiaomi path to bind; among several, the one that the previous
/// binding `preferred` still names, else ambiguity.
pub open spec fn single_path_selection(paths: Seq<Seq<char>>, preferred: Seq<char>) -> Result<
    Seq<char>,
    DevicePathError,
> {
    let ms = xiaomi_candidates(paths);
    let pref = normalized(preferred);
    let k = first_normalized_match(ms, pref);
    if ms.len() == 0 {
        Err(DevicePathError::Missing)
    } else if ms.len() == 1 {
        Ok(ms[0])
    } else if pref.len() > 0 && k < ms.len() {
        Ok(ms[k])
    } else {
        Err(DevicePathError::Ambiguous(ms.len() as usize))
    }
}

proof fn lemma_first_match_bounds(ms: Seq<Seq<char>>, pref: Seq<char>)
    ensures
        0 <= first_normalized_match(ms, pref) <= ms.len(),
        first_normalized_match(ms, pref) < ms.len() ==> normalized(
            ms[first_normalized_match(ms, pref)],
        ) == pref,
        forall|j: int|
            0 <= j < first_normalized_match(ms, pref) ==> normalized(#[trigger] ms[j]) != pref,
    decreases ms.len(),
{
    if ms.len() > 0 && normalized(ms[0]) != pref {
        let t = ms.drop_first();
        lemma_first_match_bounds(t, pref);
        assert forall|j: int|
            0 <= j < first_normalized_match(ms, pref) implies normalized(#[trigger] ms[j])
            != pref by {
            if j > 0 {
                assert(ms[j] == t[j - 1]);
            }
        }
    }
}

proof fn lemma_xiaomi_candidates_len(paths: Seq<Seq<char>>)
    ensures
        xiaomi_candidates(paths).len() <= paths.len(),
    decreases paths.len(),
{
    if paths.len() > 0 {
        lemma_xiaomi_candidates_len(paths.drop_last());
    }
}

pub fn select_single_device_path(paths: &[String]) -> (r: Result<String, DevicePathError>)
    ensures
        match r {
            Ok(p) => single_path_selection(string_views(paths@), Seq::empty()) == Ok::<
                Seq<char>,
                DevicePathError,
            >(p@),
            Err(e) => single_path_selection(string_views(paths@), Seq::empty()) == Err::<
                Seq<char>,
                DevicePathError,
            >(e),
        },
{
    proof {
        reveal_strlit("");
    }
    select_single_device_path_preferring(paths, "")
}

/// Chooses the one Xiaomi path to bind, keeping the previous binding when it
/// is still a candidate (see [`single_path_selection`]).
pub fn select_single_device_path_preferring(paths: &[String], preferred: &str) -> (r: Result<
    String,
    DevicePathError,
>)
    ensures
        match r {
            Ok(p) => single_path_selection(string_views(paths@), preferred@) == Ok::<
                Seq<char>,
                DevicePathError,
            >(p@),
            Err(e) => single_path_selection(string_views(paths@), preferred@) == Err::<
                Seq<char>,
                DevicePathError,
            >(e),
        },
{
    let ghost views = string_views(paths@);
    let mut matches: Vec<String> = Vec::new();
    let mut i: usize = 0;
    while i < paths.len()
        invariant
            i <= paths@.len(),
            views == string_views(paths@),
            string_views(matches@) == xiaomi_candidates(views.subrange(0, i as int)),
            matches@.len() <= i,
        decreases paths@.len() - i,
    {
        let ghost prefix = views.subrange(0, i as int);
        let ghost next = views.subrange(0, i + 1);
        assert(next.drop_last() =~= prefix);
        assert(next.last() == paths@[i as int]@);
        if device_path_matches_xiaomi_remote(paths[i].as_str()) {
            matches.push(paths[i].clone());
        }
        assert(string_views(matches@) =~= xiaomi_candidates(next));
        i = i + 1;
    }
    assert(views.subrange(0, paths@.len() as int) =~= views);
    let ghost ms = string_views(matches@);
    if matches.len() == 0 {
        return Err(DevicePathError::Missing);
    }
    if matches.len() == 1 {
        return Ok(matches[0].clone());
    }
    let pref = normalized_chars(preferred);
    let ghost k = first_normalized_match(ms, pref@);
    proof {
        lemma_first_match_bounds(ms, pref@);
    }
    if pref.len() > 0 {
        let mut j: usize = 0;
        while j < matches.len()
            invariant
                j <= matches@.len(),
                ms == string_views(matches@),
                k == first_normalized_match(ms, pref@),
                0 <= k <= ms.len(),
                k < ms.len() ==> normalized(ms[k]) == pref@,
                forall|m: int| 0 <= m < k ==> normalized(#[trigger] ms[m]) != pref@,
                j <= k,
                ms.len() > 1,
                pref@.len() > 0,
                ms == xiaomi_candidates(string_views(paths@)),
                pref@ == normalized(preferred@),
            decreases matches@.len() - j,
        {
            let n = normalized_chars(matches[j].as_str());
            if chars_equal(&n, &pref) {
                assert(normalized(ms[j as int]) == pref@);
                assert(j == k);
                return Ok(matches[j].clone());
            }
            assert(j != k);
            j = j + 1;
        }
    }
    Err(DevicePathError::Ambiguous(matches.len()))
}


/// Why a remote HID report or Raw Input HID body could not be decoded.
#[derive(Debug, Clone, PartialEq, Eq, Structural)]
pub enum RawInputDecodeError {
    /// A report of a length that no Xiaomi report has.
    UnsupportedReportShape(usize),
    InvalidReportPrefix,
    RawHidBodyTooShort,
    EmptyRawHidReport,
    RawHidLengthOverflow,
    TruncatedRawHidBody { expected: usize, actual: usize },
}

/// The user-facing text of a decode error.
pub open spec fn decode_error_text(e: RawInputDecodeError) -> Seq<char> {
    match e {
        RawInputDecodeError::UnsupportedReportShape(n) => "unsupported Xiaomi voice remote HID report shape: "@
            + decimal_seq(n as nat) + " bytes"@,
        RawInputDecodeError::InvalidReportPrefix => "invalid Xiaomi voice remote HID report prefix"@,
        RawInputDecodeError::RawHidBodyTooShort => "RAWHID body is shorter than its 8-byte header"@,
        RawInputDecodeError::EmptyRawHidReport => "RAWHID body declares an empty report"@,
        RawInputDecodeError::RawHidLengthOverflow => "RAWHID body length overflow"@,
        RawInputDecodeError::TruncatedRawHidBody { expected, actual } => "RAWHID body is truncated: expected "@
            + decimal_seq(expected as nat) + " bytes, got "@ + decimal_seq(actual as nat),
    }
}

impl RawInputDecodeError {
    /// The user-facing text of the error.
    pub fn message(&self) -> (r: String)
        ensures
            r@ == decode_error_text(*self),
    {
        match self {
            RawInputDecodeError::UnsupportedReportShape(n) => {
                let mut s = String::from_str("unsupported Xiaomi voice remote HID report shape: ");
                let d = decimal_string(*n as u64);
                push_str(&mut s, d.as_str());
                push_str(&mut s, " bytes");
                s
            },
            RawInputDecodeError::InvalidReportPrefix => String::from_str(
                "invalid Xiaomi voice remote HID report prefix",
            ),
            RawInputDecodeError::RawHidBodyTooShort => String::from_str(
                "RAWHID body is shorter than its 8-byte header",
            ),
            RawInputDecodeError::EmptyRawHidReport => String::from_str(
                "RAWHID body declares an empty report",
            ),
            RawInputDecodeError::RawHidLengthOverflow => String::from_str(
                "RAWHID body length overflow",
            ),
            RawInputDecodeError::TruncatedRawHidBody { expected, actual } => {
                let mut s = String::from_str("RAWHID body is truncated: expected ");
                let d = decimal_string(*expected as u64);
                push_str(&mut s, d.as_str());
                push_str(&mut s, " bytes, got ");
                let d = decimal_string(*actual as u64);
                push_str(&mut s, d.as_str());
                s
            },
        }
    }
}

/// The usage bytes of a Xiaomi report: 9 bytes with prefix `01 00 00`,
/// 7 bytes with prefix `01`, or the bare 6 bytes.
pub open spec fn report_payload(r: Seq<u8>) -> Result<Seq<u8>, RawInputDecodeError> {
    if r.len() == 9 {
        if r[0] == 1 && r[1] == 0 && r[2] == 0 {
            Ok(r.subrange(3, 9))
        } else {
            Err(RawInputDecodeError::InvalidReportPrefix)
        }
    } else if r.len() == 7 {
        if r[0] == 1 {
            Ok(r.subrange(1, 7))
        } else {
            Err(RawInputDecodeError::InvalidReportPrefix)
        }
    } else if r.len() == 6 {
        Ok(r)
    } else {
        Err(RawInputDecodeError::UnsupportedReportShape(r.len() as usize))
    }
}

/// The little-endian 16-bit usage in slot `k` of a payload.
pub open spec fn slot_usage(p: Seq<u8>, k: int) -> int {
    p[2 * k] + p[2 * k + 1] * 256
}

/// The nonzero usages that a payload carries.
pub open spec fn payload_has_usage(p: Seq<u8>, u: u16) -> bool {
    u != 0 && exists|k: int| 0 <= k < p.len() / 2 && #[trigger] slot_usage(p, k) == u
}

pub open spec fn strictly_increasing(s: Seq<u16>) -> bool {
    forall|i: int, j: int| 0 <= i < j < s.len() ==> s[i] < s[j]
}

/// Inserts `x` into a strictly increasing vector, keeping it so.
fn insert_sorted(v: &mut Vec<u16>, x: u16)
    requires
        strictly_increasing(old(v)@),
    ensures
        strictly_increasing(final(v)@),
        forall|y: u16| #[trigger] final(v)@.contains(y) <==> (old(v)@.contains(y) || y == x),
{
    let mut i: usize = 0;
    while i < v.len() && v[i] < x
        invariant
            i <= v@.len(),
            forall|k: int| 0 <= k < i ==> v@[k] < x,
        decreases v@.len() - i,
    {
        i = i + 1;
    }
    if i < v.len() && v[i] == x {
        assert(v@[i as int] == x);
        assert forall|y: u16| v@.contains(y) <==> (v@.contains(y) || y == x) by {
            if y == x {
                assert(v@[i as int] == y);
            }
        }
        return;
    }
    let ghost old_v = v@;
    assert(old_v == old(v)@);
    v.insert(i, x);
    assert(v@ =~= old_v.insert(i as int, x));
    assert forall|y: u16| #[trigger] v@.contains(y) <==> (old_v.contains(y) || y == x) by {
        if v@.contains(y) {
            let k = choose|k: int| 0 <= k < v@.len() && v@[k] == y;
            if k < i {
                assert(old_v[k] == y);
            } else if k > i {
                assert(old_v[k - 1] == y);
            }
        }
        if old_v.contains(y) {
            let k = choose|k: int| 0 <= k < old_v.len() && old_v[k] == y;
            if k < i {
                assert(v@[k] == y);
            } else {
                assert(v@[k + 1] == y);
            }
        }
        if y == x {
            assert(v@[i as int] == x);
        }
    }
}

/// Decodes the usage set of one Xiaomi report: the nonzero 16-bit slots,
/// in increasing order without repeats.
pub fn decode_report_usages(report: &[u8]) -> (r: Result<Vec<u16>, RawInputDecodeError>)
    ensures
        match r {
            Ok(v) => report_payload(report@) is Ok && strictly_increasing(v@) && forall|u: u16|
                v@.contains(u) <==> payload_has_usage(report_payload(report@)->Ok_0, u),
            Err(e) => report_payload(report@) == Err::<Seq<u8>, RawInputDecodeError>(e),
        },
{
    let payload: &[u8] = if report.len() == 9 {
        if report[0] == 0x01 && report[1] == 0x00 && report[2] == 0x00 {
            &report[3..9]
        } else {
            return Err(RawInputDecodeError::InvalidReportPrefix);
        }
    } else if report.len() == 7 {
        if report[0] == 0x01 {
            &report[1..7]
        } else {
            return Err(RawInputDecodeError::InvalidReportPrefix);
        }
    } else if report.len() == 6 {
        report
    } else {
        return Err(RawInputDecodeError::UnsupportedReportShape(report.len()));
    };
    assert(report_payload(report@) == Ok::<Seq<u8>, RawInputDecodeError>(payload@));
    let mut usages: Vec<u16> = Vec::new();
    let mut k: usize = 0;
    while k < 3
        invariant
            payload@.len() == 6,
            k <= 3,
            strictly_increasing(usages@),
            forall|u: u16|
                usages@.contains(u) <==> (u != 0 && exists|m: int|
                    0 <= m < k && #[trigger] slot_usage(payload@, m) == u),
        decreases 3 - k,
    {
        let lo = payload[2 * k];
        let hi = payload[2 * k + 1];
        let usage: u16 = (lo as u16) + (hi as u16) * 256;
        assert(usage == slot_usage(payload@, k as int));
        let ghost before = usages@;
        if usage != 0 {
            insert_sorted(&mut usages, usage);
        }
        assert forall|u: u16|
            usages@.contains(u) <==> (u != 0 && exists|m: int|
                0 <= m < k + 1 && #[trigger] slot_usage(payload@, m) == u) by {
            if u != 0 && exists|m: int| 0 <= m < k + 1 && #[trigger] slot_usage(payload@, m) == u {
                let m = choose|m: int| 0 <= m < k + 1 && #[trigger] slot_usage(payload@, m) == u;
                if m < k {
                    assert(before.contains(u));
                }
            }
        }
        k = k + 1;
    }
    Ok(usages)
}

/// Little-endian 32-bit number at offset `o`.
pub open spec fn le32(b: Seq<u8>, o: int) -> int {
    b[o] + b[o + 1] * 256 + b[o + 2] * 65536 + b[o + 3] * 16777216
}

/// Header check of a Raw Input HID body: `(report size, report count)` or why not.
pub open spec fn hid_body_layout(b: Seq<u8>) -> Result<(int, int), RawInputDecodeError> {
    if b.len() < 8 {
        Err(RawInputDecodeError::RawHidBodyTooShort)
    } else if le32(b, 0) == 0 {
        Err(RawInputDecodeError::EmptyRawHidReport)
    } else if le32(b, 0) * le32(b, 4) > usize::MAX || 8 + le32(b, 0) * le32(b, 4) > usize::MAX {
        Err(RawInputDecodeError::RawHidLengthOverflow)
    } else if b.len() < 8 + le32(b, 0) * le32(b, 4) {
        Err(
            RawInputDecodeError::TruncatedRawHidBody {
                expected: (8 + le32(b, 0) * le32(b, 4)) as usize,
                actual: b.len() as usize,
            },
        )
    } else {
        Ok((le32(b, 0), le32(b, 4)))
    }
}

fn read_le32(b: &[u8], o: usize) -> (r: usize)
    requires
        o + 4 <= b@.len(),
    ensures
        r == le32(b@, o as int),
{
    let v: u32 = (b[o] as u32) + (b[o + 1] as u32) * 256 + (b[o + 2] as u32) * 65536 + (b[o
        + 3] as u32) * 16777216;
    v as usize
}

/// Splits a Raw Input HID body (size, count, then `count` reports of `size`
/// bytes) into its reports.
pub fn parse_raw_hid_body(body: &[u8]) -> (r: Result<Vec<&[u8]>, RawInputDecodeError>)
    ensures
        match r {
            Ok(reports) => hid_body_layout(body@) is Ok && {
                let size = hid_body_layout(body@)->Ok_0.0;
                let count = hid_body_layout(body@)->Ok_0.1;
                &&& reports@.len() == count
                &&& forall|k: int|
                    0 <= k < count ==> #[trigger] reports@[k]@ == body@.subrange(
                        8 + k * size,
                        8 + (k + 1) * size,
                    )
            },
            Err(e) => hid_body_layout(body@) == Err::<(int, int), RawInputDecodeError>(e),
        },
{
    if body.len() < 8 {
        return Err(RawInputDecodeError::RawHidBodyTooShort);
    }
    let report_size = read_le32(body, 0);
    let report_count = read_le32(body, 4);
    if report_size == 0 {
        return Err(RawInputDecodeError::EmptyRawHidReport);
    }
    let reports_length = match report_size.checked_mul(report_count) {
        Some(n) => n,
        None => return Err(RawInputDecodeError::RawHidLengthOverflow),
    };
    let expected = match 8usize.checked_add(reports_length) {
        Some(n) => n,
        None => return Err(RawInputDecodeError::RawHidLengthOverflow),
    };
    if body.len() < expected {
        return Err(RawInputDecodeError::TruncatedRawHidBody { expected, actual: body.len() });
    }
    let mut reports: Vec<&[u8]> = Vec::new();
    let mut k: usize = 0;
    let mut offset: usize = 8;
    while k < report_count
        invariant
            report_size > 0,
            reports_length == report_size * report_count,
            expected == 8 + reports_length,
            expected <= body@.len(),
            k <= report_count,
            offset == 8 + k * report_size,
            reports@.len() == k,
            forall|m: int|
                0 <= m < k ==> #[trigger] reports@[m]@ == body@.subrange(
                    8 + m * report_size,
                    8 + (m + 1) * report_size,
                ),
        decreases report_count - k,
    {
        assert((k + 1) * report_size <= report_count * report_size) by (nonlinear_arith)
            requires
                k < report_count,
                report_size > 0,
        ;
        assert((k + 1) * report_size == k * report_size + report_size) by (nonlinear_arith);
        let end = offset + report_size;
        reports.push(&body[offset..end]);
        k = k + 1;
        offset = end;
    }
    Ok(reports)
}


/// The buttons that a sequence of HID usages names.
pub open spec fn usage_buttons(s: Seq<u16>) -> Set<RemoteButton> {
    Set::new(|b: RemoteButton| exists|k: int| 0 <= k < s.len() && usage_button(#[trigger] s[k]) == Some(b))
}

/// The buttons marked held in a per-ordinal table.
pub open spec fn held_set(a: Seq<bool>) -> Set<RemoteButton> {
    Set::new(|b: RemoteButton| a[button_ordinal(b)])
}

/// Release edges, in button order, of the buttons among the first `n` that
/// `before` holds and `after` does not.
pub open spec fn release_edges(before: Set<RemoteButton>, after: Set<RemoteButton>, n: int) -> Seq<
    ButtonEdge,
>
    decreases n,
{
    if n <= 0 {
        Seq::empty()
    } else {
        let rest = release_edges(before, after, n - 1);
        let b = button_at(n - 1);
        if before.contains(b) && !after.contains(b) {
            rest.push(ButtonEdge { button: b, is_pressed: false })
        } else {
            rest
        }
    }
}

/// Press edges, in button order, of the buttons among the first `n` that
/// `after` holds and `before` does not.
pub open spec fn press_edges(before: Set<RemoteButton>, after: Set<RemoteButton>, n: int) -> Seq<
    ButtonEdge,
>
    decreases n,
{
    if n <= 0 {
        Seq::empty()
    } else {
        let rest = press_edges(before, after, n - 1);
        let b = button_at(n - 1);
        if after.contains(b) && !before.contains(b) {
            rest.push(ButtonEdge { button: b, is_pressed: true })
        } else {
            rest
        }
    }
}

/// The edges that take the held set `before` to `after`: all releases, then
/// all presses, each group in button order.
pub open spec fn edges_between(before: Set<RemoteButton>, after: Set<RemoteButton>) -> Seq<
    ButtonEdge,
> {
    release_edges(before, after, 16) + press_edges(before, after, 16)
}

/// The buttons among the first `n` that `s` holds, in button order.
pub open spec fn ordered_prefix(s: Set<RemoteButton>, n: int) -> Seq<RemoteButton>
    decreases n,
{
    if n <= 0 {
        Seq::empty()
    } else {
        let rest = ordered_prefix(s, n - 1);
        if s.contains(button_at(n - 1)) {
            rest.push(button_at(n - 1))
        } else {
            rest
        }
    }
}

/// The buttons that `s` holds, in button order.
pub open spec fn ordered_buttons(s: Set<RemoteButton>) -> Seq<RemoteButton> {
    ordered_prefix(s, 16)
}

/// The buttons of `ordered_prefix(s, n)` are those of `s` below ordinal `n`,
/// each once, in strictly ascending order.
pub proof fn lemma_ordered_prefix(s: Set<RemoteButton>, n: int)
    requires
        0 <= n <= 16,
    ensures
        forall|i: int, j: int|
            0 <= i < j < ordered_prefix(s, n).len() ==> button_ordinal(
                #[trigger] ordered_prefix(s, n)[i],
            ) < button_ordinal(#[trigger] ordered_prefix(s, n)[j]),
        forall|i: int|
            0 <= i < ordered_prefix(s, n).len() ==> s.contains(#[trigger] ordered_prefix(s, n)[i])
                && button_ordinal(ordered_prefix(s, n)[i]) < n,
        forall|b: RemoteButton|
            s.contains(b) && button_ordinal(b) < n ==> #[trigger] ordered_prefix(s, n).contains(b),
    decreases n,
{
    broadcast use lemma_button_ordinal, lemma_button_at;

    if n > 0 {
        lemma_ordered_prefix(s, n - 1);
        let rest = ordered_prefix(s, n - 1);
        let r = ordered_prefix(s, n);
        assert forall|b: RemoteButton| s.contains(b) && button_ordinal(b) < n implies #[trigger] r.contains(b) by {
            if button_ordinal(b) < n - 1 {
                assert(rest.contains(b));
                let k = choose|k: int| 0 <= k < rest.len() && rest[k] == b;
                if s.contains(button_at(n - 1)) {
                    assert(r[k] == b);
                }
            } else {
                assert(b == button_at(n - 1));
                assert(r[rest.len() as int] == b);
            }
        }
    }
}

pub(crate) fn edges_between_tables(before: &[bool; 16], after: &[bool; 16]) -> (r: Vec<ButtonEdge>)
    ensures
        r@ == edges_between(held_set(before@), held_set(after@)),
{
    broadcast use lemma_button_at;

    let ghost bs = held_set(before@);
    let ghost as_ = held_set(after@);
    let mut r: Vec<ButtonEdge> = Vec::new();
    let mut i: usize = 0;
    while i < 16
        invariant
            i <= 16,
            bs == held_set(before@),
            as_ == held_set(after@),
            r@ == release_edges(bs, as_, i as int),
        decreases 16 - i,
    {
        let b = button_from_ordinal(i);
        assert(bs.contains(b) == before@[i as int]);
        assert(as_.contains(b) == after@[i as int]);
        if before[i] && !after[i] {
            r.push(ButtonEdge { button: b, is_pressed: false });
        }
        i = i + 1;
    }
    let ghost releases = r@;
    let mut j: usize = 0;
    while j < 16
        invariant
            j <= 16,
            bs == held_set(before@),
            as_ == held_set(after@),
            releases == release_edges(bs, as_, 16),
            r@ == releases + press_edges(bs, as_, j as int),
        decreases 16 - j,
    {
        let b = button_from_ordinal(j);
        assert(bs.contains(b) == before@[j as int]);
        assert(as_.contains(b) == after@[j as int]);
        if after[j] && !before[j] {
            r.push(ButtonEdge { button: b, is_pressed: true });
        }
        assert(r@ =~= releases + press_edges(bs, as_, j + 1));
        j = j + 1;
    }
    r
}

pub(crate) fn ordered_from_table(t: &[bool; 16]) -> (r: Vec<RemoteButton>)
    ensures
        r@ == ordered_buttons(held_set(t@)),
{
    broadcast use lemma_button_at;

    let ghost s = held_set(t@);
    let mut r: Vec<RemoteButton> = Vec::new();
    let mut i: usize = 0;
    while i < 16
        invariant
            i <= 16,
            s == held_set(t@),
            r@ == ordered_prefix(s, i as int),
        decreases 16 - i,
    {
        let b = button_from_ordinal(i);
        assert(s.contains(b) == t@[i as int]);
        if t[i] {
            r.push(b);
        }
        i = i + 1;
    }
    r
}

/// Merges the keyboard and HID views of the remote into one logical state
/// per button: a button is held while either source holds it.
#[derive(Debug)]
pub struct ButtonStateMerger {
    keyboard: [bool; 16],
    hid: [bool; 16],
}

impl Default for ButtonStateMerger {
    fn default() -> (r: Self)
        ensures
            r.keyboard_held() == Set::<RemoteButton>::empty(),
            r.hid_held() == Set::<RemoteButton>::empty(),
    {
        let r = ButtonStateMerger { keyboard: [false; 16], hid: [false; 16] };
        assert(r.keyboard_held() =~= Set::<RemoteButton>::empty());
        assert(r.hid_held() =~= Set::<RemoteButton>::empty());
        r
    }
}

impl ButtonStateMerger {
    /// Buttons that the keyboard source holds.
    pub closed spec fn keyboard_held(&self) -> Set<RemoteButton> {
        held_set(self.keyboard@)
    }

    /// Buttons that the HID source holds.
    pub closed spec fn hid_held(&self) -> Set<RemoteButton> {
        held_set(self.hid@)
    }

    /// Buttons held by either source.
    pub open spec fn active(&self) -> Set<RemoteButton> {
        self.keyboard_held().union(self.hid_held())
    }

    fn active_table(&self) -> (r: [bool; 16])
        ensures
            held_set(r@) == self.active(),
    {
        let mut r = [false; 16];
        let mut i: usize = 0;
        while i < 16
            invariant
                i <= 16,
                forall|k: int| 0 <= k < i ==> r@[k] == (self.keyboard@[k] || self.hid@[k]),
            decreases 16 - i,
        {
            r[i] = self.keyboard[i] || self.hid[i];
            i = i + 1;
        }
        assert(held_set(r@) =~= self.active()) by {
            broadcast use lemma_button_ordinal;

        }
        r
    }

    fn set_keyboard(&mut self, button: RemoteButton, is_pressed: bool)
        ensures
            final(self).keyboard_held() == (if is_pressed {
                old(self).keyboard_held().insert(button)
            } else {
                old(self).keyboard_held().remove(button)
            }),
            final(self).hid_held() == old(self).hid_held(),
    {
        broadcast use lemma_button_ordinal;

        let i = button.ordinal();
        self.keyboard[i] = is_pressed;
        proof {
            if is_pressed {
                assert(self.keyboard_held() =~= old(self).keyboard_held().insert(button));
            } else {
                assert(self.keyboard_held() =~= old(self).keyboard_held().remove(button));
            }
            assert(self.hid_held() =~= old(self).hid_held());
        }
    }

    /// Applies a keyboard event of the remote; returns the semantic edges
    /// that the change of the merged state produces.
    pub fn update_keyboard(&mut self, event: RawKeyboardEvent) -> (r: Vec<ButtonEdge>)
        ensures
            match keyboard_button(event.virtual_key, event.make_code) {
                None => final(self).keyboard_held() == old(self).keyboard_held() && r@
                    == Seq::<ButtonEdge>::empty(),
                Some(b) => final(self).keyboard_held() == (if message_is_pressed(event.message) {
                    old(self).keyboard_held().insert(b)
                } else {
                    old(self).keyboard_held().remove(b)
                }),
            },
            final(self).hid_held() == old(self).hid_held(),
            r@ == edges_between(old(self).active(), final(self).active()),
    {
        let button = match event.button() {
            None => {
                let r: Vec<ButtonEdge> = Vec::new();
                proof {
                    lemma_edges_between_same(self.active());
                }
                return r;
            },
            Some(b) => b,
        };
        self.apply_keyboard_button_edge(button, event.is_pressed())
    }

    /// Applies a keyboard edge already attributed to the remote (one that the
    /// keyboard gate swallowed); returns the edges of the merged state.
    pub fn apply_keyboard_button_edge(&mut self, button: RemoteButton, is_pressed: bool) -> (r: Vec<
        ButtonEdge,
    >)
        ensures
            final(self).keyboard_held() == (if is_pressed {
                old(self).keyboard_held().insert(button)
            } else {
                old(self).keyboard_held().remove(button)
            }),
            final(self).hid_held() == old(self).hid_held(),
            r@ == edges_between(old(self).active(), final(self).active()),
    {
        let before = self.active_table();
        self.set_keyboard(button, is_pressed);
        let after = self.active_table();
        edges_between_tables(&before, &after)
    }

    /// The buttons held by either source, in button order.
    pub fn active_button_set(&self) -> (r: Vec<RemoteButton>)
        ensures
            r@ == ordered_buttons(self.active()),
    {
        let t = self.active_table();
        ordered_from_table(&t)
    }

    /// Decodes a Xiaomi report and applies its usage set as the HID state.
    /// A report that does not decode leaves the state unchanged.
    pub fn update_hid_report(&mut self, report: &[u8]) -> (r: Result<
        Vec<ButtonEdge>,
        RawInputDecodeError,
    >)
        ensures
            final(self).keyboard_held() == old(self).keyboard_held(),
            match r {
                Ok(edges) => report_payload(report@) is Ok && final(self).hid_held() == Set::new(
                    |b: RemoteButton|
                        exists|u: u16|
                            payload_has_usage(report_payload(report@)->Ok_0, u) && usage_button(u)
                                == Some(b),
                ) && edges@ == edges_between(old(self).active(), final(self).active()),
                Err(e) => report_payload(report@) == Err::<Seq<u8>, RawInputDecodeError>(e)
                    && final(self).hid_held() == old(self).hid_held(),
            },
    {
        let usages = decode_report_usages(report)?;
        let ghost payload = report_payload(report@)->Ok_0;
        let ghost us = usages@;
        let edges = self.update_hid_usages(usages);
        proof {
            let target = Set::new(
                |b: RemoteButton|
                    exists|u: u16| payload_has_usage(payload, u) && usage_button(u) == Some(b),
            );
            assert forall|b: RemoteButton| usage_buttons(us).contains(b) implies target.contains(
                b,
            ) by {
                let k = choose|k: int| 0 <= k < us.len() && usage_button(#[trigger] us[k]) == Some(b);
                assert(us.contains(us[k]));
            }
            assert forall|b: RemoteButton| target.contains(b) implies usage_buttons(us).contains(
                b,
            ) by {
                let u = choose|u: u16| payload_has_usage(payload, u) && usage_button(u) == Some(b);
                assert(us.contains(u));
                let k = choose|k: int| 0 <= k < us.len() && us[k] == u;
                assert(usage_button(us[k]) == Some(b));
            }
            assert(self.hid_held() =~= target);
        }
        Ok(edges)
    }

    /// Replaces the HID state with the buttons of a usage set (absolute state).
    pub fn update_hid_usages(&mut self, usages: Vec<u16>) -> (r: Vec<ButtonEdge>)
        ensures
            final(self).keyboard_held() == old(self).keyboard_held(),
            final(self).hid_held() == usage_buttons(usages@),
            r@ == edges_between(old(self).active(), final(self).active()),
    {
        broadcast use lemma_button_ordinal;

        let before = self.active_table();
        let mut table = [false; 16];
        let mut i: usize = 0;
        while i < usages.len()
            invariant
                i <= usages@.len(),
                held_set(table@) == usage_buttons(usages@.subrange(0, i as int)),
            decreases usages@.len() - i,
        {
            let ghost prev = usages@.subrange(0, i as int);
            let u = usages[i];
            match button_for_usage(u) {
                Some(b) => {
                    table[b.ordinal()] = true;
                },
                None => {},
            }
            let ghost next = usages@.subrange(0, i + 1);
            assert(next =~= prev.push(u));
            assert(held_set(table@) =~= usage_buttons(next)) by {
                assert forall|b: RemoteButton| usage_buttons(prev).contains(b) implies usage_buttons(
                    next,
                ).contains(b) by {
                    let k = choose|k: int| 0 <= k < prev.len() && usage_button(#[trigger] prev[k]) == Some(b);
                    assert(next[k] == prev[k]);
                }
                assert forall|b: RemoteButton| usage_buttons(next).contains(b) implies (
                usage_buttons(prev).contains(b) || usage_button(u) == Some(b)) by {
                    let k = choose|k: int| 0 <= k < next.len() && usage_button(#[trigger] next[k]) == Some(b);
                    if k < prev.len() {
                        assert(prev[k] == next[k]);
                    }
                }
                if usage_button(u) is Some {
                    assert(next[prev.len() as int] == u);
                }
            }
            i = i + 1;
        }
        assert(usages@.subrange(0, usages@.len() as int) =~= usages@);
        self.hid = table;
        let after = self.active_table();
        edges_between_tables(&before, &after)
    }

    /// Replaces the HID state with an already decoded button set (Chromecast Remote).
    pub fn update_hid_buttons(&mut self, buttons: Vec<RemoteButton>) -> (r: Vec<ButtonEdge>)
        ensures
            final(self).keyboard_held() == old(self).keyboard_held(),
            final(self).hid_held() == buttons@.to_set(),
            r@ == edges_between(old(self).active(), final(self).active()),
    {
        broadcast use lemma_button_ordinal;

        let before = self.active_table();
        let mut table = [false; 16];
        let mut i: usize = 0;
        while i < buttons.len()
            invariant
                i <= buttons@.len(),
                held_set(table@) == buttons@.subrange(0, i as int).to_set(),
            decreases buttons@.len() - i,
        {
            let ghost prev = table@;
            let b = buttons[i];
            table[b.ordinal()] = true;
            assert(buttons@.subrange(0, i + 1) =~= buttons@.subrange(0, i as int).push(b));
            proof {
                buttons@.subrange(0, i as int).lemma_push_to_set_commute(b);
            }
            assert(held_set(table@) =~= buttons@.subrange(0, i as int).to_set().insert(b));
            i = i + 1;
        }
        assert(buttons@.subrange(0, buttons@.len() as int) =~= buttons@);
        self.hid = table;
        let after = self.active_table();
        edges_between_tables(&before, &after)
    }

    /// Releases everything held by either source; returns one release edge
    /// per held button, in button order.
    pub fn release_all(&mut self) -> (r: Vec<ButtonEdge>)
        ensures
            final(self).keyboard_held() == Set::<RemoteButton>::empty(),
            final(self).hid_held() == Set::<RemoteButton>::empty(),
            r@ == edges_between(old(self).active(), Set::<RemoteButton>::empty()),
    {
        let before = self.active_table();
        self.keyboard = [false; 16];
        self.hid = [false; 16];
        let after = [false; 16];
        assert(held_set(after@) =~= Set::<RemoteButton>::empty());
        assert(self.keyboard_held() =~= Set::<RemoteButton>::empty());
        assert(self.hid_held() =~= Set::<RemoteButton>::empty());
        edges_between_tables(&before, &after)
    }
}

proof fn lemma_release_edges_same(s: Set<RemoteButton>, n: int)
    ensures
        release_edges(s, s, n) == Seq::<ButtonEdge>::empty(),
        press_edges(s, s, n) == Seq::<ButtonEdge>::empty(),
    decreases n,
{
    if n > 0 {
        lemma_release_edges_same(s, n - 1);
    }
}

proof fn lemma_edges_between_same(s: Set<RemoteButton>)
    ensures
        edges_between(s, s) == Seq::<ButtonEdge>::empty(),
{
    lemma_release_edges_same(s, 16);
    assert(edges_between(s, s) =~= Seq::<ButtonEdge>::empty());
}


proof fn lemma_release_edges_shape(before: Set<RemoteButton>, after: Set<RemoteButton>, n: int)
    requires
        0 <= n <= 16,
    ensures
        ({
            let e = release_edges(before, after, n);
            &&& forall|k: int|
                0 <= k < e.len() ==> {
                    &&& !(#[trigger] e[k]).is_pressed
                    &&& before.contains(e[k].button)
                    &&& !after.contains(e[k].button)
                    &&& button_ordinal(e[k].button) < n
                }
            &&& forall|i: int, j: int|
                0 <= i < j < e.len() ==> button_ordinal(e[i].button) < button_ordinal(
                    e[j].button,
                )
            &&& forall|m: int|
                0 <= m < n && before.contains(#[trigger] button_at(m)) && !after.contains(
                    button_at(m),
                ) ==> exists|k: int| 0 <= k < e.len() && e[k].button == button_at(m)
        }),
    decreases n,
{
    broadcast use lemma_button_ordinal, lemma_button_at;

    if n > 0 {
        lemma_release_edges_shape(before, after, n - 1);
        let rest = release_edges(before, after, n - 1);
        let e = release_edges(before, after, n);
        assert forall|m: int|
            0 <= m < n && before.contains(#[trigger] button_at(m)) && !after.contains(
                button_at(m),
            ) implies exists|k: int| 0 <= k < e.len() && e[k].button == button_at(m) by {
            if m < n - 1 {
                let k = choose|k: int| 0 <= k < rest.len() && rest[k].button == button_at(m);
                assert(e[k] == rest[k]);
            } else {
                assert(e[rest.len() as int].button == button_at(m));
            }
        }
    }
}

proof fn lemma_press_edges_shape(before: Set<RemoteButton>, after: Set<RemoteButton>, n: int)
    requires
        0 <= n <= 16,
    ensures
        ({
            let e = press_edges(before, after, n);
            &&& forall|k: int|
                0 <= k < e.len() ==> {
                    &&& (#[trigger] e[k]).is_pressed
                    &&& !before.contains(e[k].button)
                    &&& after.contains(e[k].button)
                    &&& button_ordinal(e[k].button) < n
                }
            &&& forall|i: int, j: int|
                0 <= i < j < e.len() ==> button_ordinal(e[i].button) < button_ordinal(
                    e[j].button,
                )
            &&& forall|m: int|
                0 <= m < n && after.contains(#[trigger] button_at(m)) && !before.contains(
                    button_at(m),
                ) ==> exists|k: int| 0 <= k < e.len() && e[k].button == button_at(m)
        }),
    decreases n,
{
    broadcast use lemma_button_ordinal, lemma_button_at;

    if n > 0 {
        lemma_press_edges_shape(before, after, n - 1);
        let rest = press_edges(before, after, n - 1);
        let e = press_edges(before, after, n);
        assert forall|m: int|
            0 <= m < n && after.contains(#[trigger] button_at(m)) && !before.contains(
                button_at(m),
            ) implies exists|k: int| 0 <= k < e.len() && e[k].button == button_at(m) by {
            if m < n - 1 {
                let k = choose|k: int| 0 <= k < rest.len() && rest[k].button == button_at(m);
                assert(e[k] == rest[k]);
            } else {
                assert(e[rest.len() as int].button == button_at(m));
            }
        }
    }
}

proof fn lemma_edges_sound(before: Set<RemoteButton>, after: Set<RemoteButton>)
    ensures
        ({
            let e = edges_between(before, after);
            forall|k: int|
                0 <= k < e.len() ==> before.contains((#[trigger] e[k]).button) != after.contains(
                    e[k].button,
                ) && e[k].is_pressed == after.contains(e[k].button)
        }),
{
    lemma_release_edges_shape(before, after, 16);
    lemma_press_edges_shape(before, after, 16);
    let rel = release_edges(before, after, 16);
    let pre = press_edges(before, after, 16);
    let e = edges_between(before, after);
    assert forall|k: int|
        0 <= k < e.len() implies before.contains((#[trigger] e[k]).button) != after.contains(
        e[k].button,
    ) && e[k].is_pressed == after.contains(e[k].button) by {
        if k < rel.len() {
            assert(e[k] == rel[k]);
        } else {
            assert(e[k] == pre[k - rel.len()]);
        }
    }
}

proof fn lemma_edges_complete(before: Set<RemoteButton>, after: Set<RemoteButton>)
    ensures
        ({
            let e = edges_between(before, after);
            forall|b: RemoteButton|
                before.contains(b) != after.contains(b) ==> exists|k: int|
                    0 <= k < e.len() && (#[trigger] e[k]).button == b
        }),
{
    lemma_release_edges_shape(before, after, 16);
    lemma_press_edges_shape(before, after, 16);
    let rel = release_edges(before, after, 16);
    let pre = press_edges(before, after, 16);
    let e = edges_between(before, after);
    assert forall|b: RemoteButton| before.contains(b) != after.contains(b) implies exists|k: int|
        0 <= k < e.len() && (#[trigger] e[k]).button == b by {
        lemma_button_ordinal(b);
        let m = button_ordinal(b);
        if before.contains(b) {
            assert(before.contains(button_at(m)));
            let k = choose|k: int| 0 <= k < rel.len() && rel[k].button == button_at(m);
            assert(e[k] == rel[k]);
        } else {
            assert(after.contains(button_at(m)));
            let k = choose|k: int| 0 <= k < pre.len() && pre[k].button == button_at(m);
            assert(e[rel.len() + k] == pre[k]);
        }
    }
}

proof fn lemma_edges_distinct(before: Set<RemoteButton>, after: Set<RemoteButton>)
    ensures
        ({
            let e = edges_between(before, after);
            forall|i: int, j: int|
                0 <= i < j < e.len() ==> (#[trigger] e[i]).button != (#[trigger] e[j]).button
        }),
{
    lemma_release_edges_shape(before, after, 16);
    lemma_press_edges_shape(before, after, 16);
    let rel = release_edges(before, after, 16);
    let pre = press_edges(before, after, 16);
    let e = edges_between(before, after);
    assert forall|i: int, j: int| 0 <= i < j < e.len() implies (#[trigger] e[i]).button != (
    #[trigger] e[j]).button by {
        if j < rel.len() {
            assert(e[i] == rel[i]);
            assert(e[j] == rel[j]);
        } else if i >= rel.len() {
            assert(e[i] == pre[i - rel.len()]);
            assert(e[j] == pre[j - rel.len()]);
        } else {
            assert(e[i] == rel[i]);
            assert(e[j] == pre[j - rel.len()]);
        }
    }
}

/// The edges between two held sets describe exactly the change: every edge
/// names a button whose state differs and says its new state, every button
/// whose state differs gets an edge, no button gets two, and there are no
/// edges at all exactly when nothing changed.
pub proof fn law_edges_describe_change(before: Set<RemoteButton>, after: Set<RemoteButton>)
    ensures
        ({
            let e = edges_between(before, after);
            &&& forall|k: int|
                0 <= k < e.len() ==> before.contains((#[trigger] e[k]).button) != after.contains(
                    e[k].button,
                ) && e[k].is_pressed == after.contains(e[k].button)
            &&& forall|b: RemoteButton|
                before.contains(b) != after.contains(b) ==> exists|k: int|
                    0 <= k < e.len() && (#[trigger] e[k]).button == b
            &&& forall|i: int, j: int|
                0 <= i < j < e.len() ==> (#[trigger] e[i]).button != (#[trigger] e[j]).button
            &&& (e.len() == 0 <==> before == after)
        }),
{
    lemma_edges_sound(before, after);
    lemma_edges_complete(before, after);
    lemma_edges_distinct(before, after);
    let e = edges_between(before, after);
    if e.len() == 0 {
        assert forall|b: RemoteButton| before.contains(b) == after.contains(b) by {
            if before.contains(b) != after.contains(b) {
                let k = choose|k: int| 0 <= k < e.len() && (#[trigger] e[k]).button == b;
            }
        }
        assert(before =~= after);
    }
    if before == after {
        lemma_edges_between_same(before);
    }
}

/// Pressing a button that the merged state already holds (a repeated key
/// down, or the same button from the other source) produces no edge;
/// releasing it in one source while the other still holds it produces none
/// either.
pub proof fn law_hold_is_shared_by_both_sources(
    keyboard: Set<RemoteButton>,
    hid: Set<RemoteButton>,
    b: RemoteButton,
)
    ensures
        keyboard.union(hid).contains(b) ==> edges_between(
            keyboard.union(hid),
            keyboard.insert(b).union(hid),
        ) == Seq::<ButtonEdge>::empty(),
        hid.contains(b) ==> edges_between(keyboard.union(hid), keyboard.remove(b).union(hid))
            == Seq::<ButtonEdge>::empty(),
{
    if keyboard.union(hid).contains(b) {
        assert(keyboard.insert(b).union(hid) =~= keyboard.union(hid));
        lemma_edges_between_same(keyboard.union(hid));
    }
    if hid.contains(b) {
        assert(keyboard.remove(b).union(hid) =~= keyboard.union(hid));
        lemma_edges_between_same(keyboard.union(hid));
    }
}

/// After everything has been released, releasing everything again produces
/// no edge.
pub proof fn law_release_all_twice_is_silent()
    ensures
        edges_between(Set::<RemoteButton>::empty(), Set::<RemoteButton>::empty())
            == Seq::<ButtonEdge>::empty(),
{
    lemma_edges_between_same(Set::<RemoteButton>::empty());
}

} // verus!
