//! The voice target: which input method the voice key drives, its default
//! hold-to-talk chord, whether the input method is activated for the
//! session, and how the voice key's press and release become injected events.
use vstd::prelude::*;
use crate::send_input::{KeyChord, KeyCode};

verus! {

/// The tool that receives the voice key's chord.
#[derive(Debug, Clone, Copy, PartialEq, Eq, Structural)]
pub enum VoiceTarget {
    /// The WeType input method (the default target).
    WeType,
    /// The Doubao input method.
    Doubao,
    /// A chord of the user's choice, without input-method activation.
    Custom,
}

impl Default for VoiceTarget {
    fn default() -> (r: Self)
        ensures
            r == VoiceTarget::WeType,
    {
        VoiceTarget::WeType
    }
}

/// Doubao's two voice modes, which differ in chord and in press semantics.
#[derive(Debug, Clone, Copy, PartialEq, Eq, Structural)]
pub enum DoubaoVoiceMode {
    /// Hold to talk, release to stop (Doubao's factory default).
    Hold,
    /// Press once to start, press any key to stop.
    HandsFree,
}

impl Default for DoubaoVoiceMode {
    fn default() -> (r: Self)
        ensures
            r == DoubaoVoiceMode::Hold,
    {
        DoubaoVoiceMode::Hold
    }
}

/// How the voice key's press and release map to injected events.
#[derive(Debug, Clone, Copy, PartialEq, Eq, Structural)]
pub enum InjectionShape {
    /// Voice key down = chord down (held); voice key up = chord up.
    HoldWhileKeyDown,
    /// Voice key down = one full tap of the chord (toggles on or off).
    TogglePerKeyDown,
}

/// The factory chord of a Doubao mode: right Alt, or right Alt + Space.
pub open spec fn doubao_default_keys(mode: DoubaoVoiceMode) -> Seq<KeyCode> {
    match mode {
        DoubaoVoiceMode::Hold => seq![KeyCode::RightAlt],
        DoubaoVoiceMode::HandsFree => seq![KeyCode::RightAlt, KeyCode::Space],
    }
}

/// The factory chord of a target, if it has one (Doubao's hold mode for Doubao).
pub open spec fn target_default_keys(target: VoiceTarget) -> Option<Seq<KeyCode>> {
    match target {
        VoiceTarget::WeType => Some(seq![KeyCode::LeftControl, KeyCode::LeftWindows]),
        VoiceTarget::Doubao => Some(doubao_default_keys(DoubaoVoiceMode::Hold)),
        VoiceTarget::Custom => None,
    }
}

/// The keys of an optional chord.
pub open spec fn chord_keys(c: Option<KeyChord>) -> Option<Seq<KeyCode>> {
    match c {
        Some(k) => Some(k.keys@),
        None => None,
    }
}

pub open spec fn doubao_shape(mode: DoubaoVoiceMode) -> InjectionShape {
    match mode {
        DoubaoVoiceMode::Hold => InjectionShape::HoldWhileKeyDown,
        DoubaoVoiceMode::HandsFree => InjectionShape::TogglePerKeyDown,
    }
}

impl DoubaoVoiceMode {
    /// The factory chord of the mode as Doubao's settings show it.
    pub fn default_hotkey(self) -> (r: Option<KeyChord>)
        ensures
            chord_keys(r) == Some(doubao_default_keys(self)),
    {
        match self {
            DoubaoVoiceMode::Hold => Some(KeyChord::of(&[KeyCode::RightAlt])),
            DoubaoVoiceMode::HandsFree => Some(KeyChord::of(&[KeyCode::RightAlt, KeyCode::Space])),
        }
    }

    pub fn injection_shape(self) -> (r: InjectionShape)
        ensures
            r == doubao_shape(self),
    {
        match self {
            DoubaoVoiceMode::Hold => InjectionShape::HoldWhileKeyDown,
            DoubaoVoiceMode::HandsFree => InjectionShape::TogglePerKeyDown,
        }
    }

    /// Stable identifier for logs.
    pub fn as_log_str(self) -> (r: &'static str)
        ensures
            r@ == (match self {
                DoubaoVoiceMode::Hold => "hold"@,
                DoubaoVoiceMode::HandsFree => "handsfree"@,
            }),
    {
        match self {
            DoubaoVoiceMode::Hold => "hold",
            DoubaoVoiceMode::HandsFree => "handsfree",
        }
    }

    /// The mode's name as Doubao's settings show it.
    pub fn display_name(self) -> (r: &'static str)
        ensures
            r@ == (match self {
                DoubaoVoiceMode::Hold => "长按模式"@,
                DoubaoVoiceMode::HandsFree => "免按模式"@,
            }),
    {
        match self {
            DoubaoVoiceMode::Hold => "长按模式",
            DoubaoVoiceMode::HandsFree => "免按模式",
        }
    }

    /// Guidance for the user about the mode.
    pub fn user_hint(self) -> (r: &'static str)
        ensures
            r@ == (match self {
                DoubaoVoiceMode::Hold => "按住说话，松手结束。豆包出厂默认即此模式。"@,
                DoubaoVoiceMode::HandsFree => "按一次开始说话，再按任意键结束。需要在豆包设置里先切换成此模式。"@,
            }),
    {
        match self {
            DoubaoVoiceMode::Hold => "按住说话，松手结束。豆包出厂默认即此模式。",
            DoubaoVoiceMode::HandsFree => "按一次开始说话，再按任意键结束。需要在豆包设置里先切换成此模式。",
        }
    }
}

impl InjectionShape {
    /// Stable identifier for logs.
    pub fn as_log_str(self) -> (r: &'static str)
        ensures
            r@ == (match self {
                InjectionShape::HoldWhileKeyDown => "hold_while_key_down"@,
                InjectionShape::TogglePerKeyDown => "toggle_per_key_down"@,
            }),
    {
        match self {
            InjectionShape::HoldWhileKeyDown => "hold_while_key_down",
            InjectionShape::TogglePerKeyDown => "toggle_per_key_down",
        }
    }
}

impl VoiceTarget {
    /// The factory hold-to-talk chord of the target; Doubao's is that of its
    /// hold mode; a custom target has none.
    pub fn default_hotkey(self) -> (r: Option<KeyChord>)
        ensures
            chord_keys(r) == target_default_keys(self),
    {
        match self {
            VoiceTarget::WeType => Some(KeyChord::of(&[KeyCode::LeftControl, KeyCode::LeftWindows])),
            VoiceTarget::Doubao => DoubaoVoiceMode::Hold.default_hotkey(),
            VoiceTarget::Custom => None,
        }
    }

    /// Whether the target's input method is activated for the session
    /// (never for a custom chord).
    pub fn supports_session_activation(self) -> (r: bool)
        ensures
            r == (self != VoiceTarget::Custom),
    {
        match self {
            VoiceTarget::WeType | VoiceTarget::Doubao => true,
            VoiceTarget::Custom => false,
        }
    }

    /// Stable identifier for logs.
    pub fn as_log_str(self) -> (r: &'static str)
        ensures
            r@ == (match self {
                VoiceTarget::WeType => "wetype"@,
                VoiceTarget::Doubao => "doubao"@,
                VoiceTarget::Custom => "custom"@,
            }),
    {
        match self {
            VoiceTarget::WeType => "wetype",
            VoiceTarget::Doubao => "doubao",
            VoiceTarget::Custom => "custom",
        }
    }

    pub fn display_name(self) -> (r: &'static str)
        ensures
            r@ == (match self {
                VoiceTarget::WeType => "微信输入法"@,
                VoiceTarget::Doubao => "豆包输入法"@,
                VoiceTarget::Custom => "自定义快捷键"@,
            }),
    {
        match self {
            VoiceTarget::WeType => "微信输入法",
            VoiceTarget::Doubao => "豆包输入法",
            VoiceTarget::Custom => "自定义快捷键",
        }
    }
}

/// The saved voice-target settings. `hotkey` is the chord the user recorded
/// (`None`: use the target's default); a recorded chord equal to the default
/// stays recorded.
#[derive(Debug, Clone, PartialEq, Eq)]
pub struct VoiceTargetConfig {
    pub target: VoiceTarget,
    pub hotkey: Option<KeyChord>,
    /// Whether the voice key injects a chord at all.
    pub enabled: bool,
    /// Doubao's voice mode; only read for the Doubao target.
    pub doubao_mode: DoubaoVoiceMode,
}

impl Default for VoiceTargetConfig {
    fn default() -> (r: Self)
        ensures
            r.target == VoiceTarget::WeType && r.hotkey is None && r.enabled && r.doubao_mode
                == DoubaoVoiceMode::Hold,
    {
        VoiceTargetConfig {
            target: VoiceTarget::WeType,
            hotkey: None,
            enabled: true,
            doubao_mode: DoubaoVoiceMode::Hold,
        }
    }
}

/// The factory chord for a configuration, with Doubao's mode taken into account.
pub open spec fn config_default_keys(target: VoiceTarget, mode: DoubaoVoiceMode) -> Option<
    Seq<KeyCode>,
> {
    match target {
        VoiceTarget::Doubao => Some(doubao_default_keys(mode)),
        _ => target_default_keys(target),
    }
}

/// The chord a configuration injects: none when disabled, else the recorded
/// chord, else the factory chord of the target and mode.
pub open spec fn resolved_keys(
    target: VoiceTarget,
    hotkey: Option<Seq<KeyCode>>,
    enabled: bool,
    mode: DoubaoVoiceMode,
) -> Option<Seq<KeyCode>> {
    if !enabled {
        None
    } else {
        match hotkey {
            Some(k) => Some(k),
            None => config_default_keys(target, mode),
        }
    }
}

/// The injection shape of a configuration: toggling only for Doubao's
/// hands-free mode.
pub open spec fn config_shape(target: VoiceTarget, mode: DoubaoVoiceMode) -> InjectionShape {
    match target {
        VoiceTarget::Doubao => doubao_shape(mode),
        _ => InjectionShape::HoldWhileKeyDown,
    }
}

impl VoiceTargetConfig {
    pub fn default_hotkey_for_target(&self) -> (r: Option<KeyChord>)
        ensures
            chord_keys(r) == config_default_keys(self.target, self.doubao_mode),
    {
        match self.target {
            VoiceTarget::Doubao => self.doubao_mode.default_hotkey(),
            other => other.default_hotkey(),
        }
    }

    /// The chord to inject; `None` injects nothing.
    pub fn resolved_hotkey(&self) -> (r: Option<KeyChord>)
        ensures
            chord_keys(r) == resolved_keys(
                self.target,
                chord_keys(self.hotkey),
                self.enabled,
                self.doubao_mode,
            ),
    {
        if !self.enabled {
            return None;
        }
        match &self.hotkey {
            Some(chord) => Some(chord.duplicate()),
            None => self.default_hotkey_for_target(),
        }
    }

    pub fn injection_shape(&self) -> (r: InjectionShape)
        ensures
            r == config_shape(self.target, self.doubao_mode),
    {
        match self.target {
            VoiceTarget::Doubao => self.doubao_mode.injection_shape(),
            _ => InjectionShape::HoldWhileKeyDown,
        }
    }

    /// The configuration with nothing to correct: it is returned as it is.
    pub fn normalized(self) -> (r: Self)
        ensures
            r == self,
    {
        self
    }
}

/// A recorded chord always wins over every default, and disabling injects
/// nothing while keeping the recorded chord; the WeType and custom targets
/// always hold while the key is down, whatever Doubao mode is stored.
pub proof fn law_recorded_chord_wins_and_disabling_keeps_it(
    target: VoiceTarget,
    keys: Seq<KeyCode>,
    mode: DoubaoVoiceMode,
)
    ensures
        resolved_keys(target, Some(keys), true, mode) == Some(keys),
        resolved_keys(target, Some(keys), false, mode) is None,
        target != VoiceTarget::Doubao ==> config_shape(target, mode)
            == InjectionShape::HoldWhileKeyDown,
        resolved_keys(target, None, true, mode) == config_default_keys(target, mode),
{
}

/// Doubao's two modes resolve to different chords and different shapes.
pub proof fn law_doubao_modes_differ()
    ensures
        config_default_keys(VoiceTarget::Doubao, DoubaoVoiceMode::Hold) != config_default_keys(
            VoiceTarget::Doubao,
            DoubaoVoiceMode::HandsFree,
        ),
        config_shape(VoiceTarget::Doubao, DoubaoVoiceMode::Hold) != config_shape(
            VoiceTarget::Doubao,
            DoubaoVoiceMode::HandsFree,
        ),
{
    assert(doubao_default_keys(DoubaoVoiceMode::Hold).len() != doubao_default_keys(
        DoubaoVoiceMode::HandsFree,
    ).len());
}

} // verus!
