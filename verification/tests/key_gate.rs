use sayall::key_gate::{decide, KeyGate, HOLD_LEAKED, HOLD_NONE, HOLD_SWALLOWED_ALL};
use sayall::raw_input::{ButtonEdge, RemoteButton};

#[test]
fn unmapped_injected_and_unarmed_keys_pass_through() {
    assert!(!decide(0x0D, 0x1C, false, true, false, false, HOLD_NONE, true));
    assert!(!decide(0x0D, 0x1C, false, false, false, true, HOLD_NONE, false));
    assert!(!decide(0x0D, 0x1C, false, false, false, false, HOLD_NONE, true));
    assert!(decide(0x0D, 0x1C, false, false, false, true, HOLD_NONE, true));
}

#[test]
fn vendor_vk_family_is_directly_attributed_without_arming() {
    assert!(decide(0xFF, 0x6A, false, false, true, false, HOLD_NONE, true));
}

#[test]
fn up_edge_follows_down_pairing_only() {
    assert!(decide(0x0D, 0x1C, true, false, false, false, HOLD_SWALLOWED_ALL, true));
    assert!(!decide(0x0D, 0x1C, true, false, false, true, HOLD_LEAKED, true));
    assert!(!decide(0x0D, 0x1C, true, false, false, true, HOLD_NONE, true));
}

#[test]
fn gate_swallows_armed_holds_and_releases_leaked_ones() {
    let mut gate = KeyGate::start();
    gate.set_gate_active(true);
    gate.set_listener_active(true);
    gate.configure(
        true,
        (1u64 << RemoteButton::Up.ordinal()) | (1u64 << RemoteButton::Right.ordinal()),
    );
    // Unarmed key-down of a mapped key waits for arming, then leaks.
    assert!(gate.awaits_arming(0x26, 0, 0x0100, false, 1_000));
    assert_eq!(gate.handle_keyboard(0x26, 0, 0x0100, false, 1_060, false), (false, None));
    assert_eq!(gate.leaked_down_count(), 1);
    // Its key-up passes even though the key is armed now.
    gate.arm_button(RemoteButton::Up, 250, 1_070);
    assert_eq!(gate.handle_keyboard(0x26, 0, 0x0101, false, 1_080, false), (false, None));
    // A fully armed hold is swallowed down and up.
    let (swallowed, edge) = gate.handle_keyboard(0x27, 0, 0x0100, false, 2_000, true);
    assert!(swallowed);
    assert_eq!(edge, Some(ButtonEdge { button: RemoteButton::Right, is_pressed: true }));
    let (swallowed, edge) = gate.handle_keyboard(0x27, 0, 0x0101, false, 2_010, false);
    assert!(swallowed);
    assert_eq!(edge, Some(ButtonEdge { button: RemoteButton::Right, is_pressed: false }));
    assert_eq!(gate.swallowed_edge_count(), 2);
    // Injected events and unmapped keys pass.
    assert_eq!(gate.handle_keyboard(0x26, 0, 0x0100, true, 3_000, true), (false, None));
    assert_eq!(gate.handle_keyboard(0x28, 0, 0x0100, false, 3_000, true), (false, None));
    // Stopping the listener disarms.
    gate.set_listener_active(false);
    assert!(!gate.armed(RemoteButton::Right, 2_011));
    assert!(!gate.listener_active());
}

#[test]
fn fallback_gate_is_inert_off_windows() {
    let mut gate = KeyGate::start();
    assert!(!gate.is_active());
    gate.configure(true, u64::MAX);
    assert_eq!(gate.swallowed_edge_count(), 0);
}
