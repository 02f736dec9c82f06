//! The keyboard gate of the button mapping: the raw key of a mapped remote
//! button is swallowed (the mapping engine injects the mapped action
//! instead); unmapped keys, the physical keyboard and injected events pass.
//! A low-level hook has no device identity, so a key is attributed to the
//! remote either by its vendor virtual key (0xFF) or by being armed when the
//! listener saw the remote's own report. A key-up is swallowed only when
//! every key-down of that hold was swallowed, so no key can stick in the OS.
//! Times are milliseconds on a monotonic clock.
use vstd::prelude::*;
use std::collections::HashMap;
use crate::raw_input::{
    button_ordinal, keyboard_button, lemma_button_ordinal, button_for_keyboard, ButtonEdge,
    RemoteButton,
};

verus! {

broadcast use vstd::std_specs::hash::group_hash_axioms;

/// Nothing is known of the current hold of a key.
pub const HOLD_NONE: u32 = 0;

/// Every key-down of the current hold was swallowed.
pub const HOLD_SWALLOWED_ALL: u32 = 1;

/// A key-down of the current hold reached the OS.
pub const HOLD_LEAKED: u32 = 2;

/// Longest wait, at a key-down, for the listener to arm the key.
pub const BOUNDED_WAIT_MS: u64 = 60;

/// How long a swallowed key-down keeps its key armed.
pub const ARM_GRACE_MS: u64 = 250;

/// Whether to swallow a hooked keyboard event: injected events and keys the
/// gate is not ready for pass; a key-up is swallowed only after a fully
/// swallowed hold; a key-down is swallowed when it is attributed to the
/// remote directly or by arming.
pub fn decide(
    vk_code: u32,
    make_code: u16,
    is_key_up: bool,
    injected: bool,
    direct_attributed: bool,
    armed_now: bool,
    hold_pairing: u32,
    gate_ready: bool,
) -> (r: bool)
    ensures
        r == (!injected && gate_ready && if is_key_up {
            hold_pairing == HOLD_SWALLOWED_ALL
        } else {
            direct_attributed || armed_now
        }),
{
    if injected {
        return false;
    }
    if !gate_ready {
        return false;
    }
    if is_key_up {
        return hold_pairing == HOLD_SWALLOWED_ALL;
    }
    direct_attributed || armed_now
}

/// The pairing of a hold after one more key-down: once a key-down leaked,
/// the hold stays leaked; otherwise it is whether this key-down was swallowed.
pub open spec fn track_down_spec(current: Option<bool>, down_swallowed: bool) -> bool {
    match current {
        Some(false) => false,
        _ => down_swallowed,
    }
}

pub fn track_down(current: Option<bool>, down_swallowed: bool) -> (r: bool)
    ensures
        r == track_down_spec(current, down_swallowed),
{
    match current {
        Some(false) => false,
        _ => down_swallowed,
    }
}

/// The key of the pairing table for a hooked key.
pub open spec fn pairing_key(vk_code: u32, make_code: u16) -> u32 {
    ((vk_code % 0x10000) * 0x10000 + make_code) as u32
}

fn pairing_key_exec(vk_code: u32, make_code: u16) -> (r: u32)
    ensures
        r == pairing_key(vk_code, make_code),
{
    let vk = vk_code % 0x10000;
    assert(vk * 0x10000 + make_code <= u32::MAX) by (nonlinear_arith)
        requires
            vk < 0x10000,
            make_code < 0x10000,
    ;
    vk * 0x10000 + (make_code as u32)
}

/// Whether a hooked message is a key-up (WM_KEYUP, WM_SYSKEYUP).
pub open spec fn is_key_up_message(message: u32) -> bool {
    message == 0x0101 || message == 0x0105
}

/// Keyboard gate state: whether its hook runs, its configuration, whether
/// the listener that arms keys runs, its counters, until when each button
/// is armed (0 for never), and the pairing of each key's current hold.
#[derive(Debug)]
pub struct KeyGate {
    gate_active: bool,
    enabled: bool,
    mapped_mask: u64,
    listener_active: bool,
    swallowed_edges: u64,
    leaked_downs: u64,
    armed_until_ms: [u64; 16],
    hold_pairing: HashMap<u32, bool>,
}

/// `a + 1`, or the largest `u64`.
pub open spec fn count_up(a: u64) -> u64 {
    if a == u64::MAX {
        a
    } else {
        (a + 1) as u64
    }
}

impl KeyGate {
    pub closed spec fn active_view(&self) -> bool {
        self.gate_active
    }

    pub closed spec fn enabled_view(&self) -> bool {
        self.enabled
    }

    pub closed spec fn mask_view(&self) -> u64 {
        self.mapped_mask
    }

    pub closed spec fn listener_view(&self) -> bool {
        self.listener_active
    }

    pub closed spec fn swallowed_view(&self) -> u64 {
        self.swallowed_edges
    }

    pub closed spec fn leaked_view(&self) -> u64 {
        self.leaked_downs
    }

    pub closed spec fn armed_until_view(&self, b: RemoteButton) -> u64 {
        self.armed_until_ms@[button_ordinal(b)]
    }

    pub closed spec fn pairing_view(&self) -> Map<u32, bool> {
        self.hold_pairing@
    }

    /// Whether a button is mapped by the configuration.
    pub open spec fn mapped_spec(&self, b: RemoteButton) -> bool {
        self.mask_view() != 0 && (self.mask_view() >> (button_ordinal(b) as u64)) & 1 == 1
    }

    /// Whether a button is armed at `now`.
    pub open spec fn armed_spec(&self, b: RemoteButton, now: u64) -> bool {
        self.armed_until_view(b) != 0 && now < self.armed_until_view(b)
    }

    /// Whether a button's keys may be swallowed.
    pub open spec fn ready_spec(&self, b: RemoteButton) -> bool {
        self.active_view() && self.enabled_view() && self.listener_view() && self.mapped_spec(b)
    }

    /// A gate whose hook has not started: disabled, nothing mapped, no
    /// listener, nothing armed.
    pub fn start() -> (r: Self)
        ensures
            !r.active_view() && !r.enabled_view() && r.mask_view() == 0 && !r.listener_view(),
            r.swallowed_view() == 0 && r.leaked_view() == 0,
            forall|b: RemoteButton| #[trigger] r.armed_until_view(b) == 0,
            r.pairing_view() == Map::<u32, bool>::empty(),
    {
        KeyGate {
            gate_active: false,
            enabled: false,
            mapped_mask: 0,
            listener_active: false,
            swallowed_edges: 0,
            leaked_downs: 0,
            armed_until_ms: [0; 16],
            hold_pairing: HashMap::new(),
        }
    }

    /// The hook thread installed (`true`) or removed (`false`) its hook.
    pub fn set_gate_active(&mut self, active: bool)
        ensures
            final(self).active_view() == active,
            final(self).enabled_view() == old(self).enabled_view(),
            final(self).mask_view() == old(self).mask_view(),
            final(self).listener_view() == old(self).listener_view(),
            final(self).swallowed_view() == old(self).swallowed_view(),
            final(self).leaked_view() == old(self).leaked_view(),
            forall|b: RemoteButton| #[trigger] final(self).armed_until_view(b) == old(self).armed_until_view(b),
            final(self).pairing_view() == old(self).pairing_view(),
    {
        self.gate_active = active;
    }

    pub fn is_active(&self) -> (r: bool)
        ensures
            r == self.active_view(),
    {
        self.gate_active
    }

    /// Sets the master switch and the mask of mapped buttons (bit = ordinal);
    /// a zero mask lets every key pass.
    pub fn configure(&mut self, enabled: bool, mapped_mask: u64)
        ensures
            final(self).enabled_view() == enabled,
            final(self).mask_view() == mapped_mask,
            final(self).active_view() == old(self).active_view(),
            final(self).listener_view() == old(self).listener_view(),
            final(self).swallowed_view() == old(self).swallowed_view(),
            final(self).leaked_view() == old(self).leaked_view(),
            forall|b: RemoteButton| #[trigger] final(self).armed_until_view(b) == old(self).armed_until_view(b),
            final(self).pairing_view() == old(self).pairing_view(),
    {
        self.enabled = enabled;
        self.mapped_mask = mapped_mask;
    }

    /// The listener started or stopped; without it nothing can be armed, so
    /// stopping disarms every button.
    pub fn set_listener_active(&mut self, active: bool)
        ensures
            final(self).listener_view() == active,
            !active ==> forall|b: RemoteButton| #[trigger] final(self).armed_until_view(b) == 0,
            active ==> forall|b: RemoteButton| #[trigger] final(self).armed_until_view(b) == old(self).armed_until_view(b),
            final(self).active_view() == old(self).active_view(),
            final(self).enabled_view() == old(self).enabled_view(),
            final(self).mask_view() == old(self).mask_view(),
            final(self).swallowed_view() == old(self).swallowed_view(),
            final(self).leaked_view() == old(self).leaked_view(),
            final(self).pairing_view() == old(self).pairing_view(),
    {
        broadcast use lemma_button_ordinal;

        self.listener_active = active;
        if !active {
            self.armed_until_ms = [0; 16];
        }
    }

    /// The listener saw the remote's own report of `button` at `now`: its
    /// keys count as the remote's for `grace_ms` (at least 1 ms).
    pub fn arm_button(&mut self, button: RemoteButton, grace_ms: u64, now: u64)
        requires
            now <= u64::MAX - grace_ms - 1,
        ensures
            final(self).armed_until_view(button) == now + (if grace_ms >= 1 {
                grace_ms
            } else {
                1
            }),
            forall|b: RemoteButton|
                b != button ==> #[trigger] final(self).armed_until_view(b) == old(self).armed_until_view(b),
            final(self).active_view() == old(self).active_view(),
            final(self).enabled_view() == old(self).enabled_view(),
            final(self).mask_view() == old(self).mask_view(),
            final(self).listener_view() == old(self).listener_view(),
            final(self).swallowed_view() == old(self).swallowed_view(),
            final(self).leaked_view() == old(self).leaked_view(),
            final(self).pairing_view() == old(self).pairing_view(),
    {
        broadcast use lemma_button_ordinal;

        let grace = if grace_ms >= 1 {
            grace_ms
        } else {
            1
        };
        self.armed_until_ms[button.ordinal()] = now + grace;
        proof {
            assert forall|b: RemoteButton| b != button implies #[trigger] self.armed_until_view(b)
                == old(self).armed_until_view(b) by {
                crate::raw_input::lemma_button_ordinal(b);
                crate::raw_input::lemma_button_ordinal(button);
            }
        }
    }

    pub fn swallowed_edge_count(&self) -> (r: u64)
        ensures
            r == self.swallowed_view(),
    {
        self.swallowed_edges
    }

    pub fn leaked_down_count(&self) -> (r: u64)
        ensures
            r == self.leaked_view(),
    {
        self.leaked_downs
    }

    pub fn is_gate_thread_alive(&self) -> (r: bool)
        ensures
            r == self.active_view(),
    {
        self.gate_active
    }

    pub fn listener_active(&self) -> (r: bool)
        ensures
            r == self.listener_view(),
    {
        self.listener_active
    }

    pub fn mapped(&self, button: RemoteButton) -> (r: bool)
        ensures
            r == self.mapped_spec(button),
    {
        let mask = self.mapped_mask;
        let k = button.ordinal() as u64;
        mask != 0 && (mask >> k) & 1 == 1
    }

    pub fn armed(&self, button: RemoteButton, now: u64) -> (r: bool)
        ensures
            r == self.armed_spec(button, now),
    {
        let until = self.armed_until_ms[button.ordinal()];
        until != 0 && now < until
    }

    pub fn gate_ready(&self, button: RemoteButton) -> (r: bool)
        ensures
            r == self.ready_spec(button),
    {
        self.gate_active && self.enabled && self.listener_active && self.mapped(button)
    }

    /// Whether a hooked key-down must wait for the listener to arm its key:
    /// a key-down of a mapped remote button that is neither a vendor key nor
    /// armed at `now`.
    pub fn awaits_arming(&self, vk_code: u32, make_code: u16, message: u32, injected: bool, now: u64) -> (r: bool)
        ensures
            r == (!injected && !is_key_up_message(message) && (keyboard_button(
                (vk_code % 0x10000) as u16,
                make_code,
            ) matches Some(b) && self.ready_spec(b) && vk_code != 0xFF && !self.armed_spec(b, now))),
    {
        if injected || message == 0x0101 || message == 0x0105 {
            return false;
        }
        let vk = (vk_code % 0x10000) as u16;
        match button_for_keyboard(vk, make_code) {
            None => false,
            Some(b) => self.gate_ready(b) && vk_code != 0xFF && !self.armed(b, now),
        }
    }

    /// Handles one hooked keyboard event at `now`; returns whether to swallow
    /// it and the remote edge it stands for when swallowed. `armed_during_wait`
    /// says whether the key got armed during the bounded wait that
    /// `awaits_arming` asked for.
    pub fn handle_keyboard(
        &mut self,
        vk_code: u32,
        make_code: u16,
        message: u32,
        injected: bool,
        now: u64,
        armed_during_wait: bool,
    ) -> (r: (bool, Option<ButtonEdge>))
        requires
            now <= u64::MAX - ARM_GRACE_MS,
        ensures
            final(self).active_view() == old(self).active_view(),
            final(self).enabled_view() == old(self).enabled_view(),
            final(self).mask_view() == old(self).mask_view(),
            final(self).listener_view() == old(self).listener_view(),
            forall|c: RemoteButton| #[trigger]
                final(self).armed_until_view(c) == (if r.1 matches Some(e) && e.is_pressed && c
                    == e.button {
                    (now + ARM_GRACE_MS) as u64
                } else {
                    old(self).armed_until_view(c)
                }),
            ({
                let key = pairing_key(vk_code, make_code);
                let button = keyboard_button((vk_code % 0x10000) as u16, make_code);
                if injected || !(button matches Some(b) && old(self).ready_spec(b)) {
                    &&& r == (false, None::<ButtonEdge>)
                    &&& final(self).pairing_view() == old(self).pairing_view()
                    &&& final(self).swallowed_view() == old(self).swallowed_view()
                    &&& final(self).leaked_view() == old(self).leaked_view()
                } else if is_key_up_message(message) {
                    let swallow = old(self).pairing_view().contains_key(key) && old(
                        self,
                    ).pairing_view()[key];
                    &&& r.0 == swallow
                    &&& swallow ==> r.1 == Some(ButtonEdge { button: button->Some_0, is_pressed: false })
                        && final(self).pairing_view() == old(self).pairing_view().remove(key)
                        && final(self).swallowed_view() == count_up(old(self).swallowed_view())
                    &&& !swallow ==> r.1 is None && final(self).pairing_view() == old(self).pairing_view()
                        && final(self).swallowed_view() == old(self).swallowed_view()
                    &&& final(self).leaked_view() == old(self).leaked_view()
                } else {
                    let b = button->Some_0;
                    let attributed = vk_code == 0xFF || old(self).armed_spec(b, now) || armed_during_wait;
                    let current = if old(self).pairing_view().contains_key(key) {
                        Some(old(self).pairing_view()[key])
                    } else {
                        None
                    };
                    &&& final(self).pairing_view() == old(self).pairing_view().insert(
                        key,
                        track_down_spec(current, attributed),
                    )
                    &&& r.0 == attributed
                    &&& attributed ==> r.1 == Some(ButtonEdge { button: b, is_pressed: true })
                        && final(self).swallowed_view() == count_up(old(self).swallowed_view())
                        && final(self).leaked_view() == old(self).leaked_view()
                        && final(self).armed_until_view(b) == now + ARM_GRACE_MS
                    &&& !attributed ==> r.1 is None && final(self).swallowed_view() == old(self).swallowed_view()
                        && final(self).leaked_view() == count_up(old(self).leaked_view())
                }
            }),
    {
        broadcast use vstd::std_specs::hash::axiom_u32_obeys_hash_table_key_model;

        if injected {
            return (false, None);
        }
        let vk = (vk_code % 0x10000) as u16;
        let button = match button_for_keyboard(vk, make_code) {
            None => return (false, None),
            Some(b) => b,
        };
        if !self.gate_ready(button) {
            return (false, None);
        }
        let key = pairing_key_exec(vk_code, make_code);
        if message == 0x0101 || message == 0x0105 {
            let swallow = match self.hold_pairing.get(&key) {
                Some(v) => *v,
                None => false,
            };
            if swallow {
                self.hold_pairing.remove(&key);
                self.swallowed_edges = self.swallowed_edges.saturating_add(1);
                return (true, Some(ButtonEdge { button, is_pressed: false }));
            }
            return (false, None);
        }
        let attributed = vk_code == 0xFF || self.armed(button, now) || armed_during_wait;
        let current = match self.hold_pairing.get(&key) {
            Some(v) => Some(*v),
            None => None,
        };
        let next = track_down(current, attributed);
        self.hold_pairing.insert(key, next);
        if attributed {
            self.swallowed_edges = self.swallowed_edges.saturating_add(1);
            self.armed_until_ms[button.ordinal()] = now + ARM_GRACE_MS;
            return (true, Some(ButtonEdge { button, is_pressed: true }));
        }
        self.leaked_downs = self.leaked_downs.saturating_add(1);
        (false, None)
    }
}

/// The pairing of a hold after the key-downs `downs` (swallowed or not).
pub open spec fn hold_after(current: Option<bool>, downs: Seq<bool>) -> Option<bool>
    decreases downs.len(),
{
    if downs.len() == 0 {
        current
    } else {
        Some(track_down_spec(hold_after(current, downs.drop_last()), downs.last()))
    }
}

/// No key sticks in the OS: once any key-down of a hold leaked, the hold
/// stays leaked whatever follows, so its key-up is let through; a hold whose
/// key-downs were all swallowed (from an unknown or clean start) gets its
/// key-up swallowed.
pub proof fn law_leaked_hold_releases_its_key_up(current: Option<bool>, downs: Seq<bool>)
    ensures
        (exists|i: int| 0 <= i < downs.len() && !#[trigger] downs[i]) ==> hold_after(current, downs)
            == Some(false),
        (downs.len() > 0 && current != Some(false) && forall|i: int|
            0 <= i < downs.len() ==> #[trigger] downs[i]) ==> hold_after(current, downs) == Some(true),
    decreases downs.len(),
{
    if downs.len() > 0 {
        let rest = downs.drop_last();
        law_leaked_hold_releases_its_key_up(current, rest);
        if exists|i: int| 0 <= i < downs.len() && !#[trigger] downs[i] {
            let i = choose|i: int| 0 <= i < downs.len() && !#[trigger] downs[i];
            if i < downs.len() - 1 {
                assert(!rest[i]);
            }
        }
        if current != Some(false) && forall|i: int| 0 <= i < downs.len() ==> #[trigger] downs[i] {
            assert forall|i: int| 0 <= i < rest.len() implies #[trigger] rest[i] by {
                assert(rest[i] == downs[i]);
            }
            assert(downs[downs.len() - 1]);
        }
    }
}

} // verus!
