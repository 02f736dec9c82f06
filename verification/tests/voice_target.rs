use sayall::send_input::{KeyChord, KeyCode};
use sayall::voice_target::{DoubaoVoiceMode, InjectionShape, VoiceTarget, VoiceTargetConfig};

#[test]
fn wetype_default_matches_legacy_v1_default() {
    assert_eq!(
        VoiceTarget::WeType.default_hotkey(),
        Some(KeyChord {
            keys: vec![KeyCode::LeftControl, KeyCode::LeftWindows],
        })
    );
}

#[test]
fn doubao_default_is_right_alt() {
    assert_eq!(
        VoiceTarget::Doubao.default_hotkey(),
        Some(KeyChord {
            keys: vec![KeyCode::RightAlt],
        })
    );
    assert_eq!(VoiceTarget::Doubao.default_hotkey().unwrap().keys.len(), 1);
}

#[test]
fn custom_target_has_no_default_and_no_activation() {
    assert_eq!(VoiceTarget::Custom.default_hotkey(), None);
    assert!(!VoiceTarget::Custom.supports_session_activation());
    assert!(VoiceTarget::WeType.supports_session_activation());
    assert!(VoiceTarget::Doubao.supports_session_activation());
}

#[test]
fn resolved_hotkey_prefers_explicit_user_value_over_default() {
    let config = VoiceTargetConfig {
        target: VoiceTarget::Doubao,
        hotkey: Some(KeyChord {
            keys: vec![KeyCode::RightControl, KeyCode::Space],
        }),
        enabled: true,
        ..Default::default()
    };
    assert_eq!(
        config.resolved_hotkey(),
        Some(KeyChord {
            keys: vec![KeyCode::RightControl, KeyCode::Space],
        })
    );
}

#[test]
fn explicit_hotkey_equal_to_default_is_not_collapsed() {
    let config = VoiceTargetConfig {
        target: VoiceTarget::Doubao,
        hotkey: VoiceTarget::Doubao.default_hotkey(),
        enabled: true,
        ..Default::default()
    };
    assert!(config.hotkey.is_some());
    assert_eq!(config.resolved_hotkey(), VoiceTarget::Doubao.default_hotkey());
}

#[test]
fn disabled_target_injects_nothing_but_keeps_hotkey() {
    let config = VoiceTargetConfig {
        target: VoiceTarget::Doubao,
        hotkey: Some(KeyChord {
            keys: vec![KeyCode::RightAlt],
        }),
        enabled: false,
        ..Default::default()
    };
    assert_eq!(config.resolved_hotkey(), None);
    assert!(config.hotkey.is_some());
}

#[test]
fn switching_target_switches_default_hotkey() {
    let mut config = VoiceTargetConfig::default();
    assert_eq!(config.resolved_hotkey(), VoiceTarget::WeType.default_hotkey());

    config.target = VoiceTarget::Doubao;
    assert_eq!(config.resolved_hotkey(), VoiceTarget::Doubao.default_hotkey());
    assert_eq!(config.resolved_hotkey().unwrap().keys, vec![KeyCode::RightAlt]);
}

#[test]
fn doubao_hold_mode_uses_hold_shape() {
    let config = VoiceTargetConfig {
        target: VoiceTarget::Doubao,
        hotkey: None,
        enabled: true,
        doubao_mode: DoubaoVoiceMode::Hold,
    };
    assert_eq!(config.injection_shape(), InjectionShape::HoldWhileKeyDown);
}

#[test]
fn doubao_handsfree_mode_uses_toggle_shape() {
    let config = VoiceTargetConfig {
        target: VoiceTarget::Doubao,
        hotkey: None,
        enabled: true,
        doubao_mode: DoubaoVoiceMode::HandsFree,
    };
    assert_eq!(config.injection_shape(), InjectionShape::TogglePerKeyDown);
}

#[test]
fn doubao_mode_changes_the_injected_hotkey() {
    let hold = VoiceTargetConfig {
        target: VoiceTarget::Doubao,
        hotkey: None,
        enabled: true,
        doubao_mode: DoubaoVoiceMode::Hold,
    };
    let handsfree = VoiceTargetConfig {
        doubao_mode: DoubaoVoiceMode::HandsFree,
        ..hold.clone()
    };

    assert_eq!(
        hold.resolved_hotkey(),
        Some(KeyChord {
            keys: vec![KeyCode::RightAlt],
        }),
        "长按模式 = 纯右 Alt"
    );
    assert_eq!(
        handsfree.resolved_hotkey(),
        Some(KeyChord {
            keys: vec![KeyCode::RightAlt, KeyCode::Space],
        }),
        "免按模式 = 右 Alt + 空格"
    );
    assert_ne!(
        hold.resolved_hotkey(),
        handsfree.resolved_hotkey(),
        "两档必须解析出不同和弦"
    );
}

#[test]
fn explicit_user_hotkey_still_overrides_mode_default() {
    let config = VoiceTargetConfig {
        target: VoiceTarget::Doubao,
        hotkey: Some(KeyChord {
            keys: vec![KeyCode::F5],
        }),
        enabled: true,
        doubao_mode: DoubaoVoiceMode::HandsFree,
    };
    assert_eq!(
        config.resolved_hotkey(),
        Some(KeyChord {
            keys: vec![KeyCode::F5],
        })
    );
}

#[test]
fn target_only_default_still_reports_hold_chord() {
    assert_eq!(
        VoiceTarget::Doubao.default_hotkey(),
        Some(KeyChord {
            keys: vec![KeyCode::RightAlt],
        })
    );
    assert_eq!(
        DoubaoVoiceMode::HandsFree.default_hotkey(),
        Some(KeyChord {
            keys: vec![KeyCode::RightAlt, KeyCode::Space],
        })
    );
}

#[test]
fn non_doubao_targets_always_use_hold_shape() {
    let config = VoiceTargetConfig {
        target: VoiceTarget::WeType,
        hotkey: None,
        enabled: true,
        doubao_mode: DoubaoVoiceMode::HandsFree,
    };
    assert_eq!(config.injection_shape(), InjectionShape::HoldWhileKeyDown);

    let custom = VoiceTargetConfig {
        target: VoiceTarget::Custom,
        ..config
    };
    assert_eq!(custom.injection_shape(), InjectionShape::HoldWhileKeyDown);
}

#[test]
fn doubao_mode_display_names_match_client_ui() {
    assert_eq!(DoubaoVoiceMode::Hold.display_name(), "长按模式");
    assert_eq!(DoubaoVoiceMode::HandsFree.display_name(), "免按模式");
    assert!(DoubaoVoiceMode::HandsFree.user_hint().contains("豆包设置"));
}

#[test]
fn doubao_mode_log_str_is_stable() {
    assert_eq!(DoubaoVoiceMode::Hold.as_log_str(), "hold");
    assert_eq!(DoubaoVoiceMode::HandsFree.as_log_str(), "handsfree");
    assert_eq!(
        InjectionShape::HoldWhileKeyDown.as_log_str(),
        "hold_while_key_down"
    );
    assert_eq!(
        InjectionShape::TogglePerKeyDown.as_log_str(),
        "toggle_per_key_down"
    );
}

#[test]
fn target_names_and_normalization() {
    assert_eq!(VoiceTarget::Doubao.as_log_str(), "doubao");
    assert_eq!(VoiceTarget::WeType.display_name(), "微信输入法");
    let config = VoiceTargetConfig::default();
    assert_eq!(config.clone().normalized(), config);
    assert_eq!(
        config.default_hotkey_for_target(),
        Some(KeyChord { keys: vec![KeyCode::LeftControl, KeyCode::LeftWindows] })
    );
}
