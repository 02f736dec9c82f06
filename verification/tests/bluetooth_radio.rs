use sayall::bluetooth_radio::{radio_cycle_step, RadioCycleStage, RadioCycleStep, RadioOutcome};
use sayall::bluetooth_radio::select_bthusb_adapter;
use sayall::bluetooth_radio::{refresh_bluetooth_radio_cache, RadioRecoveryState};
use sayall::bluetooth_radio::{
    hresult_matches, is_bluetooth_stack_resource_failure, is_safe_pnp_instance_id,
    pnp_restart_parameters, should_cycle, RadioCycleFailure, RadioCycleVerdict,
    RadioRecoveryBudget, RadioRecoveryCycle, RADIO_RECOVERY_RETRY_COOLDOWN_MS,
};

#[test]
fn cycles_only_after_threshold_and_within_cap() {
    assert!(!should_cycle(0, 0));
    assert!(!should_cycle(1, 0));
    assert!(!should_cycle(4, 0));
    assert!(should_cycle(5, 0));
    assert!(should_cycle(9, 1));
    assert!(!should_cycle(5, 2));
    assert!(!should_cycle(30, 2));
}

#[test]
fn exhausted_recovery_budget_reopens_after_cooldown() {
    let started = 1_000u64;
    let mut budget = RadioRecoveryBudget::default();

    assert_eq!(budget.begin_cycle(4, started), None);
    assert_eq!(
        budget.begin_cycle(5, started),
        Some(RadioRecoveryCycle {
            cycle: 1,
            window: 1,
            reopened: false,
        })
    );
    assert_eq!(
        budget.begin_cycle(5, started),
        Some(RadioRecoveryCycle {
            cycle: 2,
            window: 1,
            reopened: false,
        })
    );
    assert_eq!(
        budget.begin_cycle(30, started + RADIO_RECOVERY_RETRY_COOLDOWN_MS / 2),
        None
    );
    assert_eq!(
        budget.begin_cycle(30, started + RADIO_RECOVERY_RETRY_COOLDOWN_MS),
        Some(RadioRecoveryCycle {
            cycle: 1,
            window: 2,
            reopened: true,
        })
    );
}

#[test]
fn successful_connection_resets_recovery_budget() {
    let started = 1_000u64;
    let mut budget = RadioRecoveryBudget::default();
    let _ = budget.begin_cycle(5, started);
    budget.reset();

    assert_eq!(
        budget.begin_cycle(5, started),
        Some(RadioRecoveryCycle {
            cycle: 1,
            window: 1,
            reopened: false,
        })
    );
}

#[test]
fn pnp_recovery_only_accepts_one_literal_device_instance_id() {
    assert!(is_safe_pnp_instance_id("USB\\VID_1234&PID_5678\\INSTANCE"));
    assert!(!is_safe_pnp_instance_id(""));
    assert!(!is_safe_pnp_instance_id("USB\\DEVICE\" /restart-device"));
    assert!(!is_safe_pnp_instance_id("USB\\DEVICE\nNEXT"));
    assert!(!is_safe_pnp_instance_id(&"x".repeat(513)));
}

#[test]
fn pnp_fallback_is_limited_to_exhausted_or_aborted_bluetooth_stack() {
    assert!(is_bluetooth_stack_resource_failure(0x8007_0008));
    assert!(is_bluetooth_stack_resource_failure(0x8000_4004));
    assert!(!is_bluetooth_stack_resource_failure(0x8007_0005));
}

#[test]
fn instance_id_length_counts_bytes() {
    assert!(is_safe_pnp_instance_id(&"x".repeat(512)));
    // 171 three-byte characters are 513 bytes.
    assert!(!is_safe_pnp_instance_id(&"蓝".repeat(171)));
    assert!(is_safe_pnp_instance_id(&"蓝".repeat(170)));
}

#[test]
fn restart_parameters_quote_the_identifier() {
    assert_eq!(
        pnp_restart_parameters("USB\\VID_1\\X"),
        Some("/restart-device \"USB\\VID_1\\X\"".to_owned())
    );
    assert_eq!(pnp_restart_parameters("bad\"id"), None);
}

#[test]
fn cancelled_elevation_is_recognised_in_the_low_word() {
    assert!(hresult_matches(0x8007_04C7, 0x04C7));
    assert!(!hresult_matches(0x8007_04C7, 0x0005));
}

#[test]
fn radio_failures_fall_back_or_report() {
    assert_eq!(
        RadioCycleFailure::AccessRequestFailed { hresult: 0x8007_0008, detail: "x".to_owned() }
            .verdict(),
        RadioCycleVerdict::RestartAdapter
    );
    assert_eq!(
        RadioCycleFailure::EnumerationFailed { hresult: 0x8007_0005, detail: "denied".to_owned() }
            .verdict(),
        RadioCycleVerdict::Report("枚举蓝牙无线电失败：denied".to_owned())
    );
    assert_eq!(
        RadioCycleFailure::OffTimedOut.verdict(),
        RadioCycleVerdict::Report("关闭蓝牙无线电在 5 秒内未生效".to_owned())
    );
    assert_eq!(
        RadioCycleFailure::OnUnconfirmed { status: "Denied".to_owned() }.verdict(),
        RadioCycleVerdict::Report(
            "蓝牙无线电恢复打开未确认（访问状态 Denied），将在后续自动恢复窗口重试".to_owned()
        )
    );
}

#[test]
fn a_completed_connection_rearms_one_system_recovery() {
    let mut state = RadioRecoveryState::new();
    assert!(state.begin_pnp_recovery().is_ok());
    assert_eq!(
        state.begin_pnp_recovery().unwrap_err(),
        "本次运行已请求过系统级蓝牙恢复；应用将继续自动重连"
    );
    assert!(refresh_bluetooth_radio_cache(&mut state));
    assert!(state.begin_pnp_recovery().is_ok());
    state.radio_found();
    assert!(!refresh_bluetooth_radio_cache(&mut state));
}

#[test]
fn only_a_single_usb_adapter_is_restarted() {
    let device = |service: &str, id: &str| (service.to_owned(), id.to_owned());
    assert_eq!(
        select_bthusb_adapter(&[device("BthEnum", "A"), device("bthusb", r"USB\VID_8087&PID_0026\5&1")]),
        Ok(r"USB\VID_8087&PID_0026\5&1".to_owned())
    );
    let missing = select_bthusb_adapter(&[device("BthLEEnum", "A")]).unwrap_err();
    assert_eq!(missing.code, "adapter_missing");
    assert_eq!(missing.message, "未找到可恢复的 USB 蓝牙适配器");
    let ambiguous =
        select_bthusb_adapter(&[device("BTHUSB", "A"), device("BthUsb", "B")]).unwrap_err();
    assert_eq!(ambiguous.code, "adapter_ambiguous");
}

fn yes() -> RadioOutcome {
    RadioOutcome::Answered { ok: true, status: "Allowed".to_string() }
}

fn no(status: &str) -> RadioOutcome {
    RadioOutcome::Answered { ok: false, status: status.to_string() }
}

#[test]
fn a_radio_cycle_switches_off_then_on_in_order() {
    let mut stage = RadioCycleStage::RequestAccess;
    let mut seen = vec![stage.clone()];
    loop {
        match radio_cycle_step(&stage, yes()) {
            RadioCycleStep::Call(next) => {
                stage = next;
                seen.push(stage.clone());
            }
            RadioCycleStep::Finish(result) => {
                assert_eq!(result, Ok(()));
                break;
            }
            RadioCycleStep::RestartAdapter => panic!("no fallback on success"),
        }
    }
    assert_eq!(
        seen,
        vec![
            RadioCycleStage::RequestAccess,
            RadioCycleStage::FindRadio,
            RadioCycleStage::SwitchOff,
            RadioCycleStage::AwaitOff,
            RadioCycleStage::HoldOff,
            RadioCycleStage::SwitchOn,
            RadioCycleStage::AwaitOn,
        ]
    );
}

#[test]
fn an_unconfirmed_switch_on_is_retried_once() {
    assert_eq!(
        radio_cycle_step(&RadioCycleStage::AwaitOn, no("")),
        RadioCycleStep::Call(RadioCycleStage::PauseBeforeRetry)
    );
    assert_eq!(
        radio_cycle_step(&RadioCycleStage::SwitchOn, no("Denied")),
        RadioCycleStep::Call(RadioCycleStage::PauseBeforeRetry)
    );
    assert_eq!(
        radio_cycle_step(&RadioCycleStage::PauseBeforeRetry, yes()),
        RadioCycleStep::Call(RadioCycleStage::RetrySwitchOn)
    );
    assert_eq!(
        radio_cycle_step(&RadioCycleStage::RetrySwitchOn, yes()),
        RadioCycleStep::Call(RadioCycleStage::RetryAwaitOn { status: "Allowed".to_string() })
    );
    assert_eq!(
        radio_cycle_step(
            &RadioCycleStage::RetryAwaitOn { status: "Allowed".to_string() },
            no("")
        ),
        RadioCycleStep::Finish(Err(
            "蓝牙无线电恢复打开未确认（访问状态 Allowed），将在后续自动恢复窗口重试".to_string()
        ))
    );
    assert_eq!(
        radio_cycle_step(
            &RadioCycleStage::RetrySwitchOn,
            RadioOutcome::Failed { hresult: 0x8000_4005, detail: "boom".to_string() }
        ),
        RadioCycleStep::Finish(Err(
            "蓝牙无线电恢复打开失败：boom，将在后续自动恢复窗口重试".to_string()
        ))
    );
    assert_eq!(
        radio_cycle_step(&RadioCycleStage::RetryAwaitOn { status: "Allowed".to_string() }, yes()),
        RadioCycleStep::Finish(Ok(()))
    );
}

#[test]
fn radio_cycle_failures_end_or_fall_back() {
    assert_eq!(
        radio_cycle_step(
            &RadioCycleStage::RequestAccess,
            RadioOutcome::Failed { hresult: 0x8007_0008, detail: "x".to_string() }
        ),
        RadioCycleStep::RestartAdapter
    );
    assert_eq!(
        radio_cycle_step(&RadioCycleStage::RequestAccess, no("DeniedByUser")),
        RadioCycleStep::Finish(Err("蓝牙无线电控制权限不可用（DeniedByUser）".to_string()))
    );
    assert_eq!(
        radio_cycle_step(&RadioCycleStage::FindRadio, no("")),
        RadioCycleStep::Finish(Err("未找到蓝牙无线电".to_string()))
    );
    assert_eq!(
        radio_cycle_step(
            &RadioCycleStage::FindRadio,
            RadioOutcome::Failed { hresult: 0x8000_4004, detail: "x".to_string() }
        ),
        RadioCycleStep::RestartAdapter
    );
    assert_eq!(
        radio_cycle_step(&RadioCycleStage::SwitchOff, no("DeniedBySystem")),
        RadioCycleStep::Finish(Err("关闭蓝牙无线电未获允许（DeniedBySystem）".to_string()))
    );
    assert_eq!(
        radio_cycle_step(&RadioCycleStage::AwaitOff, no("")),
        RadioCycleStep::Finish(Err("关闭蓝牙无线电在 5 秒内未生效".to_string()))
    );
    assert_eq!(
        radio_cycle_step(
            &RadioCycleStage::AwaitOff,
            RadioOutcome::Failed { hresult: 1, detail: "gone".to_string() }
        ),
        RadioCycleStep::Finish(Err("读取蓝牙无线电关闭状态失败：gone".to_string()))
    );
}
