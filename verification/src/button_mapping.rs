//! The front of the button-mapping engine: it routes what the listener, the
//! keyboard gate and the RC003 helper report into one merged button state,
//! keeps the marks of presses whose native key already reached the system,
//! and decides what a fired gesture may inject. Gesture timing and the
//! injection itself happen elsewhere; the engine is told their outcome.
use vstd::prelude::*;
use crate::raw_input::{
    button_ordinal, button_for_usage, edges_between, held_set, keyboard_button,
    lemma_button_ordinal, ordered_buttons, usage_button, usage_buttons,
    ButtonEdge, ButtonStateMerger, RawInputSnapshot, RawKeyboardEvent, RemoteButton,
};
use crate::send_input::{
    locks_workstation, ButtonAction, KeyChord, KeyCode, MouseClickKind, MoveDirection,
    ScrollDirection,
};
use crate::rc003_filter::{
    filter_buttons, filter_step, is_filter_button, requires_filter, FilterDecision,
    FilterSession, FilteredKeyEdge,
};
use crate::rc003_user_hid::{
    permit_valid, LinkState, UserHidPermit, UserHidReport, UserHidSession,
};

verus! {

/// The mask of mapped buttons whose native input the engine takes over for
/// good while the remote is online: only Home and TV (rarely used on a
/// physical keyboard). Every other mapped key is armed per press instead.
pub fn persistent_suppress_mask(mapped_mask: u64) -> (r: u64)
    ensures
        r == mapped_mask & ((1u64 << 3u64) | (1u64 << 2u64)),
        button_ordinal(RemoteButton::Home) == 3 && button_ordinal(RemoteButton::Tv) == 2,
{
    mapped_mask & ((1u64 << 3u64) | (1u64 << 2u64))
}

/// How a button was pressed.
#[derive(Debug, Clone, Copy, PartialEq, Eq, Structural, Hash)]
pub enum ButtonTrigger {
    Single,
    Double,
    Long,
}

/// A gesture that fired.
#[derive(Debug, Clone, Copy, PartialEq, Eq, Structural)]
pub struct FiredGesture {
    pub button: RemoteButton,
    pub trigger: ButtonTrigger,
}

/// State of the mapping engine, for the settings window and diagnostics.
#[derive(Debug, Clone, PartialEq, Eq)]
pub struct ButtonMappingSnapshot {
    pub enabled: bool,
    pub gate_active: bool,
    pub listener_active: bool,
    pub swallowed_edges: u64,
    pub leaked_downs: u64,
    pub fired_gestures: u64,
    pub last_fired: Option<FiredGesture>,
    pub last_error: Option<String>,
}

impl Default for ButtonMappingSnapshot {
    fn default() -> (r: Self)
        ensures
            !r.enabled && !r.gate_active && !r.listener_active,
            r.swallowed_edges == 0 && r.leaked_downs == 0 && r.fired_gestures == 0,
            r.last_fired is None && r.last_error is None,
    {
        ButtonMappingSnapshot {
            enabled: false,
            gate_active: false,
            listener_active: false,
            swallowed_edges: 0,
            leaked_downs: 0,
            fired_gestures: 0,
            last_fired: None,
            last_error: None,
        }
    }
}

/// What the listener, the keyboard gate and the host send the engine.
#[derive(Debug)]
pub enum EngineMessage {
    /// A keyboard event of the remote that was not swallowed (gate-swallowed
    /// edges come as `GateEdge`).
    Keyboard(RawKeyboardEvent),
    /// An F13/F14/F15 edge attributed to the RC003 filter interface.
    FilterKeyboard(FilteredKeyEdge),
    /// A link or suspend boundary: keep the mappings, confirm the filter
    /// keys again.
    FilterSessionReset,
    UserHidBegin(UserHidPermit),
    UserHidState(UserHidReport),
    UserHidReset(u64),
    /// The usage set of one HID report (absolute state), in increasing order.
    HidUsages(Vec<u16>),
    /// The buttons one Chromecast Remote report holds (absolute state).
    HidButtons(Vec<RemoteButton>),
    /// A keyboard edge the keyboard hook swallowed, attributed to the remote.
    GateEdge(ButtonEdge),
    /// The listener stopped: release everything.
    ListenerStopped,
    /// The remote's HID device went away: release everything.
    DeviceRemoved,
    /// The mappings changed: the gestures are configured again.
    MappingsChanged,
    Shutdown,
}

/// The buttons that the press edges of `edges` name.
pub open spec fn pressed_buttons(edges: Seq<ButtonEdge>) -> Set<RemoteButton> {
    Set::new(
        |b: RemoteButton|
            exists|k: int| 0 <= k < edges.len() && (#[trigger] edges[k]).button == b && edges[k].is_pressed,
    )
}

/// How many of the edges are presses.
pub open spec fn pressed_count(edges: Seq<ButtonEdge>) -> nat
    decreases edges.len(),
{
    if edges.len() == 0 {
        0
    } else {
        pressed_count(edges.drop_last()) + if edges.last().is_pressed {
            1nat
        } else {
            0nat
        }
    }
}

/// The filter keys (VolumeUp, VolumeDown, Back of the RC003).
pub open spec fn filter_set() -> Set<RemoteButton> {
    Set::new(|b: RemoteButton| is_filter_button(b))
}


/// The keyboard-held set after one edge.
pub open spec fn apply_edge(kb: Set<RemoteButton>, e: ButtonEdge) -> Set<RemoteButton> {
    if e.is_pressed {
        kb.insert(e.button)
    } else {
        kb.remove(e.button)
    }
}

/// The keyboard-held set after the edges, in order.
pub open spec fn apply_edges(kb: Set<RemoteButton>, es: Seq<ButtonEdge>) -> Set<RemoteButton>
    decreases es.len(),
{
    if es.len() == 0 {
        kb
    } else {
        apply_edge(apply_edges(kb, es.drop_last()), es.last())
    }
}

/// The merged edges that applying `es` one by one to the keyboard source
/// produces, while the HID source holds `hid`.
pub open spec fn merged_edges(kb: Set<RemoteButton>, hid: Set<RemoteButton>, es: Seq<ButtonEdge>) -> Seq<
    ButtonEdge,
>
    decreases es.len(),
{
    if es.len() == 0 {
        Seq::empty()
    } else {
        let k = apply_edges(kb, es.drop_last());
        merged_edges(kb, hid, es.drop_last()) + edges_between(
            k.union(hid),
            apply_edge(k, es.last()).union(hid),
        )
    }
}

/// The buttons that the edges name.
pub open spec fn edge_buttons(es: Seq<ButtonEdge>) -> Set<RemoteButton> {
    Set::new(|b: RemoteButton| exists|k: int| 0 <= k < es.len() && (#[trigger] es[k]).button == b)
}

/// The release edges of the filter keys, in the order the engine releases them.
pub open spec fn filter_releases() -> Seq<ButtonEdge> {
    seq![
        ButtonEdge { button: RemoteButton::VolumeUp, is_pressed: false },
        ButtonEdge { button: RemoteButton::VolumeDown, is_pressed: false },
        ButtonEdge { button: RemoteButton::Back, is_pressed: false },
    ]
}

/// The engine after a connection boundary of the RC003: no capture, no
/// confirmed filter or capture key, every filter key released.
pub open spec fn boundary_reset(n: EngineRouter, o: EngineRouter, edges: Seq<ButtonEdge>) -> bool {
    &&& !n.capturing()
    &&& n.permit_view() is None
    &&& n.confirmed_user_hid_view().len() == 0
    &&& n.confirmed_filter_view().len() == 0
    &&& n.filter_held() == Set::<RemoteButton>::empty()
    &&& n.filter_confirmed() == Set::<RemoteButton>::empty()
    &&& n.keyboard_held() == apply_edges(o.keyboard_held(), filter_releases())
    &&& n.hid_held() == o.hid_held()
    &&& edges == merged_edges(o.keyboard_held(), o.hid_held(), filter_releases())
    &&& n.pending() == o.pending().difference(filter_set())
}


/// The injector call a mapped action leads to, with its arguments.
#[derive(Debug, Clone, PartialEq, Eq)]
pub enum InjectorRequest {
    MouseClick(MouseClickKind),
    MouseMove(MoveDirection, u16),
    Scroll(ScrollDirection, u16),
    Tap(KeyChord),
    LaunchApp(String),
}

/// The injector call that carries out `action` (`None` for a disabled one).
pub open spec fn injector_request(action: ButtonAction) -> Option<InjectorRequest> {
    match action {
        ButtonAction::Disabled => None,
        ButtonAction::MouseClick { kind } => Some(InjectorRequest::MouseClick(kind)),
        ButtonAction::MouseMove { direction, distance } => Some(
            InjectorRequest::MouseMove(direction, distance),
        ),
        ButtonAction::Scroll { direction, steps } => Some(InjectorRequest::Scroll(direction, steps)),
        ButtonAction::Shortcut { chord } => Some(InjectorRequest::Tap(chord)),
        ButtonAction::OpenApp { target } => Some(InjectorRequest::LaunchApp(target)),
    }
}

/// The kind of injection a request is.
pub open spec fn request_kind(request: InjectorRequest) -> InjectionKind {
    match request {
        InjectorRequest::MouseClick(_) => InjectionKind::MouseClick,
        InjectorRequest::MouseMove(_, _) => InjectionKind::MouseMove,
        InjectorRequest::Scroll(_, _) => InjectionKind::Scroll,
        InjectorRequest::Tap(_) => InjectionKind::Shortcut,
        InjectorRequest::LaunchApp(_) => InjectionKind::OpenApp,
    }
}

/// Whether the native key of `button` already does what `action` would do
/// on a single press: a one-key shortcut of exactly that key.
pub open spec fn native_covers(action: ButtonAction, native: Option<KeyCode>) -> bool {
    &&& action matches ButtonAction::Shortcut { chord }
    &&& chord.keys@.len() == 1
    &&& native == Some(chord.keys@[0])
}

/// Whether a request whose injection succeeded ends the gesture: a tap of
/// the lock-workstation chord.
pub open spec fn ends_gesture(request: InjectorRequest) -> bool {
    request matches InjectorRequest::Tap(chord) && locks_workstation(chord.keys@)
}

/// What a fired gesture leads to.
#[derive(Debug, Clone, PartialEq, Eq)]
pub enum FireOutcome {
    /// A filter key of a capture session whose permit is no longer valid:
    /// nothing is recorded or injected.
    Rejected,
    /// Recorded, but mappings are off or the keyboard hook is not running: nothing is
    /// injected (the native key was not swallowed; injecting would double it).
    Observed,
    /// Recorded; the mapped action is disabled.
    Disabled,
    /// Recorded; the native key of this press already did what the single
    /// action would do.
    NativeCovered,
    /// Recorded; the request is to be handed to the injector.
    Inject(InjectorRequest),
}

/// What kind of injection failed.
#[derive(Debug, Clone, Copy, PartialEq, Eq, Structural)]
pub enum InjectionKind {
    MouseClick,
    MouseMove,
    Scroll,
    Shortcut,
    OpenApp,
}

/// The text recorded when mappings are on but the keyboard hook is not running.
pub open spec fn observe_only_text() -> Seq<char> {
    "按键映射门控未运行，已保持观察模式（不注入，避免双输入）"@
}

/// The prefix of the error recorded for a failed injection.
pub open spec fn injection_prefix(kind: InjectionKind) -> Seq<char> {
    match kind {
        InjectionKind::MouseClick => "鼠标点击失败"@,
        InjectionKind::MouseMove => "鼠标移动失败"@,
        InjectionKind::Scroll => "滚轮事件发送失败"@,
        InjectionKind::Shortcut => "注入快捷键失败"@,
        InjectionKind::OpenApp => "打开应用失败"@,
    }
}

/// The front of the engine: the merged button state, the filter and
/// capture sessions, and the presses whose native key reached the system.
#[derive(Debug)]
pub struct EngineRouter {
    merger: ButtonStateMerger,
    filter: FilterSession,
    user_hid: Option<UserHidSession>,
    permit: Option<UserHidPermit>,
    native_pending: [bool; 16],
    confirmed_filter: Vec<RemoteButton>,
    confirmed_user_hid: Vec<RemoteButton>,
    fired_gestures: u64,
    last_fired: Option<FiredGesture>,
    last_error: Option<String>,
}

impl EngineRouter {
    pub closed spec fn keyboard_held(&self) -> Set<RemoteButton> {
        self.merger.keyboard_held()
    }

    pub closed spec fn hid_held(&self) -> Set<RemoteButton> {
        self.merger.hid_held()
    }

    /// The buttons held by either source.
    pub open spec fn active(&self) -> Set<RemoteButton> {
        self.keyboard_held().union(self.hid_held())
    }

    /// Presses whose native key already reached the system.
    pub closed spec fn pending(&self) -> Set<RemoteButton> {
        held_set(self.native_pending@)
    }

    pub closed spec fn filter_held(&self) -> Set<RemoteButton> {
        self.filter.held_view()
    }

    pub closed spec fn filter_confirmed(&self) -> Set<RemoteButton> {
        self.filter.confirmed_view()
    }

    /// Whether a capture session runs.
    pub closed spec fn capturing(&self) -> bool {
        self.user_hid is Some
    }

    /// The id of the running capture session.
    pub closed spec fn capture_id(&self) -> Option<u64> {
        match self.user_hid {
            Some(u) => Some(u.permit_view().id),
            None => None,
        }
    }

    /// The running capture session's own permit.
    pub closed spec fn capture_permit(&self) -> Option<UserHidPermit> {
        match self.user_hid {
            Some(u) => Some(u.permit_view()),
            None => None,
        }
    }

    /// The keys the running capture session saw held.
    pub closed spec fn capture_held(&self) -> Set<RemoteButton> {
        self.user_hid->0.held_view()
    }

    /// The keys the running capture session confirmed.
    pub closed spec fn capture_confirmed(&self) -> Set<RemoteButton> {
        self.user_hid->0.confirmed_view()
    }

    /// The sequence number and source of the last report the running capture
    /// session accepted.
    pub closed spec fn capture_position(&self) -> (u64, Option<(u8, crate::rc003_user_hid::SourceScope)>) {
        (self.user_hid->0.seq_view(), self.user_hid->0.source_view())
    }

    /// The permit of the running capture session, as the engine keeps it.
    pub closed spec fn permit_view(&self) -> Option<UserHidPermit> {
        self.permit
    }

    /// The confirmed filter keys, as last published.
    pub closed spec fn confirmed_filter_view(&self) -> Seq<RemoteButton> {
        self.confirmed_filter@
    }

    /// The confirmed capture keys, as last published.
    pub closed spec fn confirmed_user_hid_view(&self) -> Seq<RemoteButton> {
        self.confirmed_user_hid@
    }

    /// How many gestures fired (saturating).
    pub closed spec fn fired_view(&self) -> u64 {
        self.fired_gestures
    }

    pub closed spec fn last_fired_view(&self) -> Option<FiredGesture> {
        self.last_fired
    }

    pub closed spec fn last_error_view(&self) -> Option<Seq<char>> {
        match self.last_error {
            Some(e) => Some(e@),
            None => None,
        }
    }

    /// Everything but the merged state and the pending marks is unchanged.
    pub open spec fn sessions_kept(&self, other: &Self) -> bool {
        &&& self.filter_held() == other.filter_held()
        &&& self.filter_confirmed() == other.filter_confirmed()
        &&& self.capturing() == other.capturing()
        &&& self.capture_id() == other.capture_id()
        &&& self.capture_permit() == other.capture_permit()
        &&& self.capture_held() == other.capture_held()
        &&& self.capture_confirmed() == other.capture_confirmed()
        &&& self.capture_position() == other.capture_position()
        &&& self.permit_view() == other.permit_view()
        &&& self.confirmed_filter_view() == other.confirmed_filter_view()
        &&& self.confirmed_user_hid_view() == other.confirmed_user_hid_view()
        &&& self.fired_view() == other.fired_view()
        &&& self.last_fired_view() == other.last_fired_view()
        &&& self.last_error_view() == other.last_error_view()
    }

    /// An engine that holds nothing and runs no session.
    pub fn new() -> (r: Self)
        ensures
            r.keyboard_held() == Set::<RemoteButton>::empty(),
            r.hid_held() == Set::<RemoteButton>::empty(),
            r.pending() == Set::<RemoteButton>::empty(),
            r.filter_held() == Set::<RemoteButton>::empty(),
            r.filter_confirmed() == Set::<RemoteButton>::empty(),
            !r.capturing(),
            r.permit_view() is None,
            r.confirmed_filter_view().len() == 0,
            r.confirmed_user_hid_view().len() == 0,
            r.fired_view() == 0 && r.last_fired_view() is None && r.last_error_view() is None,
    {
        let r = EngineRouter {
            merger: ButtonStateMerger::default(),
            filter: FilterSession::default(),
            user_hid: None,
            permit: None,
            native_pending: [false; 16],
            confirmed_filter: Vec::new(),
            confirmed_user_hid: Vec::new(),
            fired_gestures: 0,
            last_fired: None,
            last_error: None,
        };
        assert(r.pending() =~= Set::<RemoteButton>::empty());
        r
    }

    /// The buttons held by either source, in button order.
    pub fn active_buttons(&self) -> (r: Vec<RemoteButton>)
        ensures
            r@ == ordered_buttons(self.active()),
    {
        self.merger.active_button_set()
    }

    /// The id of the running capture session.
    pub fn capture_session_id(&self) -> (r: Option<u64>)
        ensures
            r == self.capture_id(),
    {
        match &self.user_hid {
            Some(u) => Some(u.permit().id),
            None => None,
        }
    }

    /// The permit of the running capture session.
    pub fn permit(&self) -> (r: Option<UserHidPermit>)
        ensures
            r == self.permit_view(),
    {
        self.permit
    }

    /// The confirmed filter keys, in button order.
    pub fn confirmed_filter_buttons(&self) -> (r: Vec<RemoteButton>)
        ensures
            r@ == self.confirmed_filter_view(),
    {
        self.confirmed_filter.clone()
    }

    /// The confirmed capture keys, in button order.
    pub fn confirmed_user_hid_buttons(&self) -> (r: Vec<RemoteButton>)
        ensures
            r@ == self.confirmed_user_hid_view(),
    {
        self.confirmed_user_hid.clone()
    }

    fn mark_pending(&mut self, button: RemoteButton, on: bool)
        ensures
            final(self).pending() == (if on {
                old(self).pending().insert(button)
            } else {
                old(self).pending().remove(button)
            }),
            final(self).keyboard_held() == old(self).keyboard_held(),
            final(self).hid_held() == old(self).hid_held(),
            final(self).sessions_kept(&*old(self)),
    {
        broadcast use lemma_button_ordinal;

        self.native_pending[button.ordinal()] = on;
        proof {
            if on {
                assert(self.pending() =~= old(self).pending().insert(button));
            } else {
                assert(self.pending() =~= old(self).pending().remove(button));
            }
        }
    }

    /// A keyboard event that was not swallowed, so its native key reached
    /// the system. A filter key here is ignored (it needs device
    /// attribution). Otherwise the merged state takes it, and every press
    /// edge marks its button as natively delivered.
    pub fn on_keyboard(&mut self, event: RawKeyboardEvent) -> (edges: Vec<ButtonEdge>)
        ensures
            (keyboard_button(event.virtual_key, event.make_code) matches Some(b)
                && is_filter_button(b)) ==> {
                &&& edges@.len() == 0
                &&& final(self).keyboard_held() == old(self).keyboard_held()
                &&& final(self).hid_held() == old(self).hid_held()
                &&& final(self).pending() == old(self).pending()
            },
            !(keyboard_button(event.virtual_key, event.make_code) matches Some(b)
                && is_filter_button(b)) ==> {
                &&& final(self).keyboard_held() == (match keyboard_button(
                    event.virtual_key,
                    event.make_code,
                ) {
                    None => old(self).keyboard_held(),
                    Some(b) => if crate::raw_input::message_is_pressed(event.message) {
                        old(self).keyboard_held().insert(b)
                    } else {
                        old(self).keyboard_held().remove(b)
                    },
                })
                &&& final(self).hid_held() == old(self).hid_held()
                &&& edges@ == edges_between(old(self).active(), final(self).active())
                &&& final(self).pending() == old(self).pending().union(pressed_buttons(edges@))
            },
            final(self).sessions_kept(&*old(self)),
    {
        match event.button() {
            Some(b) => {
                if requires_filter(b) {
                    return Vec::new();
                }
            },
            None => {},
        }
        let edges = self.merger.update_keyboard(event);
        let ghost start = self.pending();
        let ghost kb = self.keyboard_held();
        let ghost hid = self.hid_held();
        let mut i: usize = 0;
        while i < edges.len()
            invariant
                i <= edges@.len(),
                self.pending() == start.union(pressed_buttons(edges@.subrange(0, i as int))),
                self.keyboard_held() == kb,
                self.hid_held() == hid,
                self.sessions_kept(&*old(self)),
            decreases edges@.len() - i,
        {
            let e = edges[i];
            let ghost before = self.pending();
            if e.is_pressed {
                self.mark_pending(e.button, true);
            }
            proof {
                let prev = edges@.subrange(0, i as int);
                let next = edges@.subrange(0, i + 1);
                assert(pressed_buttons(next) =~= if e.is_pressed {
                    pressed_buttons(prev).insert(e.button)
                } else {
                    pressed_buttons(prev)
                }) by {
                    assert(next[i as int] == e);
                    assert forall|b: RemoteButton| pressed_buttons(prev).contains(b) implies pressed_buttons(next).contains(b) by {
                        let k = choose|k: int| 0 <= k < prev.len() && (#[trigger] prev[k]).button == b && prev[k].is_pressed;
                        assert(next[k] == prev[k]);
                    }
                    assert forall|b: RemoteButton| pressed_buttons(next).contains(b) implies (pressed_buttons(prev).contains(b) || (e.is_pressed && e.button == b)) by {
                        let k = choose|k: int| 0 <= k < next.len() && (#[trigger] next[k]).button == b && next[k].is_pressed;
                        if k < i {
                            assert(prev[k] == next[k]);
                        }
                    }
                }
                assert(self.pending() =~= start.union(pressed_buttons(next)));
            }
            i = i + 1;
        }
        assert(edges@.subrange(0, edges@.len() as int) =~= edges@);
        edges
    }

    /// The usage set of one HID report. The usages of filter keys are dropped
    /// (they need device attribution); the rest becomes the HID state.
    pub fn on_hid_usages(&mut self, usages: Vec<u16>) -> (edges: Vec<ButtonEdge>)
        ensures
            final(self).hid_held() == usage_buttons(usages@).difference(filter_set()),
            final(self).keyboard_held() == old(self).keyboard_held(),
            edges@ == edges_between(old(self).active(), final(self).active()),
            final(self).pending() == old(self).pending(),
            final(self).sessions_kept(&*old(self)),
    {
        let mut kept: Vec<u16> = Vec::new();
        let mut i: usize = 0;
        while i < usages.len()
            invariant
                i <= usages@.len(),
                usage_buttons(kept@) == usage_buttons(usages@.subrange(0, i as int)).difference(
                    filter_set(),
                ),
            decreases usages@.len() - i,
        {
            let u = usages[i];
            let ghost prev_kept = kept@;
            let ghost prev = usages@.subrange(0, i as int);
            let ghost next = usages@.subrange(0, i + 1);
            assert(next =~= prev.push(u));
            let keep = match button_for_usage(u) {
                Some(b) => !requires_filter(b),
                None => true,
            };
            if keep {
                kept.push(u);
            }
            proof {
                assert forall|b: RemoteButton| usage_buttons(kept@).contains(b) <==> usage_buttons(
                    next,
                ).difference(filter_set()).contains(b) by {
                    if usage_buttons(kept@).contains(b) {
                        let k = choose|k: int| 0 <= k < kept@.len() && usage_button(#[trigger] kept@[k]) == Some(b);
                        if k < prev_kept.len() {
                            assert(kept@[k] == prev_kept[k]);
                            assert(usage_buttons(prev_kept).contains(b));
                            let j = choose|j: int| 0 <= j < prev.len() && usage_button(#[trigger] prev[j]) == Some(b);
                            assert(next[j] == prev[j]);
                        } else {
                            assert(kept@[k] == u);
                            assert(next[prev.len() as int] == u);
                        }
                    }
                    if usage_buttons(next).difference(filter_set()).contains(b) {
                        let j = choose|j: int| 0 <= j < next.len() && usage_button(#[trigger] next[j]) == Some(b);
                        if j < prev.len() {
                            assert(prev[j] == next[j]);
                            assert(usage_buttons(prev).contains(b));
                            assert(!filter_set().contains(b));
                            assert(usage_buttons(prev).difference(filter_set()).contains(b));
                            assert(usage_buttons(prev_kept).contains(b));
                            let k = choose|k: int| 0 <= k < prev_kept.len() && usage_button(#[trigger] prev_kept[k]) == Some(b);
                            assert(kept@[k] == prev_kept[k]);
                        } else {
                            assert(next[j] == u);
                            assert(kept@[kept@.len() - 1] == u);
                        }
                    }
                }
                assert(usage_buttons(kept@) =~= usage_buttons(next).difference(filter_set()));
            }
            i = i + 1;
        }
        assert(usages@.subrange(0, usages@.len() as int) =~= usages@);
        self.merger.update_hid_usages(kept)
    }

    /// The buttons one Chromecast Remote report holds: they become the HID
    /// state as they are.
    pub fn on_hid_buttons(&mut self, buttons: Vec<RemoteButton>) -> (edges: Vec<ButtonEdge>)
        ensures
            final(self).hid_held() == buttons@.to_set(),
            final(self).keyboard_held() == old(self).keyboard_held(),
            edges@ == edges_between(old(self).active(), final(self).active()),
            final(self).pending() == old(self).pending(),
            final(self).sessions_kept(&*old(self)),
    {
        self.merger.update_hid_buttons(buttons)
    }

    /// A keyboard edge the keyboard hook swallowed: its native key never reached the
    /// system, so a press clears the button's mark. A filter key is ignored.
    pub fn on_gate_edge(&mut self, edge: ButtonEdge) -> (edges: Vec<ButtonEdge>)
        ensures
            is_filter_button(edge.button) ==> {
                &&& edges@.len() == 0
                &&& final(self).keyboard_held() == old(self).keyboard_held()
                &&& final(self).hid_held() == old(self).hid_held()
                &&& final(self).pending() == old(self).pending()
            },
            !is_filter_button(edge.button) ==> {
                &&& final(self).keyboard_held() == (if edge.is_pressed {
                    old(self).keyboard_held().insert(edge.button)
                } else {
                    old(self).keyboard_held().remove(edge.button)
                })
                &&& final(self).hid_held() == old(self).hid_held()
                &&& edges@ == edges_between(old(self).active(), final(self).active())
                &&& final(self).pending() == (if edge.is_pressed {
                    old(self).pending().remove(edge.button)
                } else {
                    old(self).pending()
                })
            },
            final(self).sessions_kept(&*old(self)),
    {
        if requires_filter(edge.button) {
            return Vec::new();
        }
        let edges = self.merger.apply_keyboard_button_edge(edge.button, edge.is_pressed);
        if edge.is_pressed {
            self.mark_pending(edge.button, false);
        }
        edges
    }

    /// Applies edges already attributed to the remote, one by one, to the
    /// keyboard source; each clears its button's native mark. Returns the
    /// merged edges in order.
    fn apply_attributed(&mut self, es: &Vec<ButtonEdge>) -> (r: Vec<ButtonEdge>)
        ensures
            final(self).keyboard_held() == apply_edges(old(self).keyboard_held(), es@),
            final(self).hid_held() == old(self).hid_held(),
            r@ == merged_edges(old(self).keyboard_held(), old(self).hid_held(), es@),
            final(self).pending() == old(self).pending().difference(edge_buttons(es@)),
            final(self).sessions_kept(&*old(self)),
    {
        let ghost kb0 = self.keyboard_held();
        let ghost hid = self.hid_held();
        let ghost p0 = self.pending();
        let mut out: Vec<ButtonEdge> = Vec::new();
        let mut i: usize = 0;
        while i < es.len()
            invariant
                i <= es@.len(),
                self.keyboard_held() == apply_edges(kb0, es@.subrange(0, i as int)),
                self.hid_held() == hid,
                out@ == merged_edges(kb0, hid, es@.subrange(0, i as int)),
                self.pending() == p0.difference(edge_buttons(es@.subrange(0, i as int))),
                self.sessions_kept(&*old(self)),
            decreases es@.len() - i,
        {
            let e = es[i];
            let ghost prev = es@.subrange(0, i as int);
            let ghost next = es@.subrange(0, i + 1);
            assert(next.drop_last() =~= prev);
            assert(next.last() == e);
            self.mark_pending(e.button, false);
            let more = self.merger.apply_keyboard_button_edge(e.button, e.is_pressed);
            let mut j: usize = 0;
            let ghost out0 = out@;
            while j < more.len()
                invariant
                    j <= more@.len(),
                    out@ == out0 + more@.subrange(0, j as int),
                decreases more@.len() - j,
            {
                out.push(more[j]);
                j = j + 1;
                assert(out@ =~= out0 + more@.subrange(0, j as int));
            }
            assert(more@.subrange(0, more@.len() as int) =~= more@);
            proof {
                assert(edge_buttons(next) =~= edge_buttons(prev).insert(e.button)) by {
                    assert forall|b: RemoteButton| edge_buttons(prev).contains(b) implies edge_buttons(next).contains(b) by {
                        let k = choose|k: int| 0 <= k < prev.len() && (#[trigger] prev[k]).button == b;
                        assert(next[k] == prev[k]);
                    }
                    assert forall|b: RemoteButton| edge_buttons(next).contains(b) implies (edge_buttons(prev).contains(b) || b == e.button) by {
                        let k = choose|k: int| 0 <= k < next.len() && (#[trigger] next[k]).button == b;
                        if k < i {
                            assert(prev[k] == next[k]);
                        }
                    }
                    assert(next[i as int] == e);
                }
                assert(self.pending() =~= p0.difference(edge_buttons(next)));
            }
            i = i + 1;
        }
        assert(es@.subrange(0, es@.len() as int) =~= es@);
        out
    }

    /// An F13/F14/F15 edge attributed to the RC003 filter interface. It is
    /// ignored while a capture session runs or while the listener is not
    /// ready. Otherwise the filter session takes it: a confirmation is
    /// published, and an edge of a confirmed key reaches the merged state
    /// (its native mark cleared: the system saw F13-F15, not the key).
    pub fn on_filter_keyboard(&mut self, input: FilteredKeyEdge, listener_ready: bool) -> (edges: Vec<
        ButtonEdge,
    >)
        ensures
            old(self).capturing() || !listener_ready ==> {
                &&& edges@.len() == 0
                &&& final(self).keyboard_held() == old(self).keyboard_held()
                &&& final(self).hid_held() == old(self).hid_held()
                &&& final(self).pending() == old(self).pending()
                &&& final(self).sessions_kept(&*old(self))
            },
            !old(self).capturing() && listener_ready ==> {
                let (h, c, d) = filter_step(
                    old(self).filter_held(),
                    old(self).filter_confirmed(),
                    input.edge(),
                );
                &&& final(self).filter_held() == h
                &&& final(self).filter_confirmed() == c
                &&& final(self).capturing() == old(self).capturing()
                &&& final(self).permit_view() == old(self).permit_view()
                &&& final(self).confirmed_user_hid_view() == old(self).confirmed_user_hid_view()
                &&& final(self).confirmed_filter_view() == (if d is Confirmed {
                    ordered_buttons(c)
                } else {
                    old(self).confirmed_filter_view()
                })
                &&& final(self).hid_held() == old(self).hid_held()
                &&& match d {
                    FilterDecision::Dispatch(e) => {
                        &&& final(self).keyboard_held() == apply_edge(old(self).keyboard_held(), e)
                        &&& edges@ == edges_between(old(self).active(), final(self).active())
                        &&& final(self).pending() == old(self).pending().remove(e.button)
                    },
                    _ => {
                        &&& edges@.len() == 0
                        &&& final(self).keyboard_held() == old(self).keyboard_held()
                        &&& final(self).pending() == old(self).pending()
                    },
                }
            },
    {
        if self.user_hid.is_some() || !listener_ready {
            return Vec::new();
        }
        match self.filter.observe(input) {
            FilterDecision::Confirmed(_) => {
                self.confirmed_filter = self.filter.confirmed_buttons();
                Vec::new()
            },
            FilterDecision::Dispatch(e) => {
                let edges = self.merger.apply_keyboard_button_edge(e.button, e.is_pressed);
                self.mark_pending(e.button, false);
                edges
            },
            _ => Vec::new(),
        }
    }

    /// A capture session asks to begin with `permit`. It is refused (the
    /// permit is to be cancelled; `false`) when the permit is not valid on
    /// `link`, a session already runs, or the listener is not ready.
    /// Otherwise the filter session and both confirmation lists are cleared
    /// and the session runs (`true`).
    pub fn on_user_hid_begin(&mut self, permit: UserHidPermit, listener_ready: bool, link: &LinkState) -> (accepted: bool)
        ensures
            accepted == (permit_valid(permit, *link) && !old(self).capturing() && listener_ready),
            !accepted ==> {
                &&& final(self).sessions_kept(&*old(self))
                &&& final(self).keyboard_held() == old(self).keyboard_held()
                &&& final(self).hid_held() == old(self).hid_held()
                &&& final(self).pending() == old(self).pending()
            },
            accepted ==> {
                &&& final(self).capturing()
                &&& final(self).capture_permit() == Some(permit)
                &&& final(self).capture_held() == Set::<RemoteButton>::empty()
                &&& final(self).capture_confirmed() == Set::<RemoteButton>::empty()
                &&& final(self).capture_position() == (0u64, None::<(u8, crate::rc003_user_hid::SourceScope)>)
                &&& final(self).permit_view() == Some(permit)
                &&& final(self).filter_held() == Set::<RemoteButton>::empty()
                &&& final(self).filter_confirmed() == Set::<RemoteButton>::empty()
                &&& final(self).confirmed_filter_view().len() == 0
                &&& final(self).confirmed_user_hid_view().len() == 0
                &&& final(self).keyboard_held() == old(self).keyboard_held()
                &&& final(self).hid_held() == old(self).hid_held()
                &&& final(self).pending() == old(self).pending()
            },
    {
        if !permit.valid(link) || self.user_hid.is_some() || !listener_ready {
            return false;
        }
        self.filter.reset();
        self.confirmed_filter = Vec::new();
        self.confirmed_user_hid = Vec::new();
        self.permit = Some(permit);
        self.user_hid = Some(UserHidSession::new(permit));
        true
    }

    /// Ends the capture session, if any (its permit cancelled), forgets the
    /// filter confirmations and releases every filter key.
    fn reset_boundary(&mut self) -> (edges: Vec<ButtonEdge>)
        ensures
            boundary_reset(*final(self), *old(self), edges@),
    {
        self.user_hid = None;
        self.permit = None;
        self.confirmed_user_hid = Vec::new();
        self.filter.reset();
        self.confirmed_filter = Vec::new();
        let keys = filter_buttons();
        let mut releases: Vec<ButtonEdge> = Vec::new();
        releases.push(ButtonEdge { button: keys[0], is_pressed: false });
        releases.push(ButtonEdge { button: keys[1], is_pressed: false });
        releases.push(ButtonEdge { button: keys[2], is_pressed: false });
        assert(releases@ =~= filter_releases());
        let edges = self.apply_attributed(&releases);
        proof {
            assert(edge_buttons(filter_releases()) =~= filter_set()) by {
                assert(filter_releases()[0].button == RemoteButton::VolumeUp);
                assert(filter_releases()[1].button == RemoteButton::VolumeDown);
                assert(filter_releases()[2].button == RemoteButton::Back);
            }
        }
        edges
    }

    /// A link or suspend boundary: see `boundary_reset`. The gestures of the
    /// filter keys are to be cancelled.
    pub fn on_filter_session_reset(&mut self) -> (edges: Vec<ButtonEdge>)
        ensures
            boundary_reset(*final(self), *old(self), edges@),
    {
        self.reset_boundary()
    }

    /// The capture session `id` ended. A reset for another session, or with
    /// no session running, changes nothing (`None`); otherwise as
    /// `on_filter_session_reset`.
    pub fn on_user_hid_reset(&mut self, id: u64) -> (r: Option<Vec<ButtonEdge>>)
        ensures
            old(self).capture_id() != Some(id) ==> {
                &&& r is None
                &&& final(self).sessions_kept(&*old(self))
                &&& final(self).keyboard_held() == old(self).keyboard_held()
                &&& final(self).hid_held() == old(self).hid_held()
                &&& final(self).pending() == old(self).pending()
            },
            old(self).capture_id() == Some(id) ==> (r matches Some(edges) && boundary_reset(
                *final(self),
                *old(self),
                edges@,
            )),
    {
        let matches = match &self.user_hid {
            Some(u) => u.permit().id == id,
            None => false,
        };
        if !matches {
            return None;
        }
        Some(self.reset_boundary())
    }

    /// The listener stopped or the remote went away: every session ends,
    /// every button is released and every native mark forgotten (no gesture
    /// fires for these releases).
    pub fn on_device_gone(&mut self) -> (edges: Vec<ButtonEdge>)
        ensures
            !final(self).capturing(),
            final(self).permit_view() is None,
            final(self).confirmed_user_hid_view().len() == 0,
            final(self).confirmed_filter_view().len() == 0,
            final(self).filter_held() == Set::<RemoteButton>::empty(),
            final(self).filter_confirmed() == Set::<RemoteButton>::empty(),
            final(self).keyboard_held() == Set::<RemoteButton>::empty(),
            final(self).hid_held() == Set::<RemoteButton>::empty(),
            final(self).pending() == Set::<RemoteButton>::empty(),
            edges@ == edges_between(old(self).active(), Set::<RemoteButton>::empty()),
    {
        self.user_hid = None;
        self.permit = None;
        self.confirmed_user_hid = Vec::new();
        self.filter.reset();
        self.confirmed_filter = Vec::new();
        let edges = self.merger.release_all();
        self.native_pending = [false; 16];
        assert(self.pending() =~= Set::<RemoteButton>::empty());
        edges
    }

    /// The mappings changed: every gesture state restarts, so the native
    /// marks are forgotten.
    pub fn on_mappings_changed(&mut self)
        ensures
            final(self).pending() == Set::<RemoteButton>::empty(),
            final(self).keyboard_held() == old(self).keyboard_held(),
            final(self).hid_held() == old(self).hid_held(),
            final(self).sessions_kept(&*old(self)),
    {
        self.native_pending = [false; 16];
        assert(self.pending() =~= Set::<RemoteButton>::empty());
    }

    /// A terminal action (one that switches the Windows session) was
    /// accepted: this round of holds ends at once, and a late release then
    /// changes nothing. Returns the synthetic releases.
    pub fn reset_after_terminal_action(&mut self) -> (edges: Vec<ButtonEdge>)
        ensures
            final(self).keyboard_held() == Set::<RemoteButton>::empty(),
            final(self).hid_held() == Set::<RemoteButton>::empty(),
            final(self).pending() == Set::<RemoteButton>::empty(),
            edges@ == edges_between(old(self).active(), Set::<RemoteButton>::empty()),
            final(self).sessions_kept(&*old(self)),
    {
        let edges = self.merger.release_all();
        self.native_pending = [false; 16];
        assert(self.pending() =~= Set::<RemoteButton>::empty());
        edges
    }

    /// A state report of the capture session `report.id`, received at `now`.
    /// Without that session running nothing happens. With the listener not
    /// ready the session's permit is cancelled. Otherwise the session takes
    /// the report: its edges reach the merged state (native marks cleared)
    /// and the confirmed keys are published; a refused report cancels the
    /// permit, clears the published keys and releases every filter key
    /// (`rejected`: their gestures are to be cancelled).
    pub fn on_user_hid_state(
        &mut self,
        report: UserHidReport,
        listener_ready: bool,
        link: &LinkState,
        now: u64,
    ) -> (r: (Vec<ButtonEdge>, bool))
        ensures
            old(self).capture_id() != Some(report.id) ==> {
                &&& r.0@.len() == 0 && !r.1
                &&& final(self).sessions_kept(&*old(self))
                &&& final(self).keyboard_held() == old(self).keyboard_held()
                &&& final(self).hid_held() == old(self).hid_held()
                &&& final(self).pending() == old(self).pending()
            },
            old(self).capture_id() == Some(report.id) && !listener_ready ==> {
                let p = old(self).capture_permit()->0;
                let cancelled = UserHidPermit { alive: false, ..p };
                &&& r.0@.len() == 0 && !r.1
                &&& final(self).capture_permit() == Some(cancelled)
                &&& final(self).permit_view() == Some(cancelled)
                &&& final(self).capture_id() == old(self).capture_id()
                &&& final(self).capture_held() == old(self).capture_held()
                &&& final(self).capture_confirmed() == old(self).capture_confirmed()
                &&& final(self).capture_position() == old(self).capture_position()
                &&& final(self).confirmed_user_hid_view() == old(self).confirmed_user_hid_view()
                &&& final(self).confirmed_filter_view() == old(self).confirmed_filter_view()
                &&& final(self).filter_held() == old(self).filter_held()
                &&& final(self).filter_confirmed() == old(self).filter_confirmed()
                &&& final(self).keyboard_held() == old(self).keyboard_held()
                &&& final(self).hid_held() == old(self).hid_held()
                &&& final(self).pending() == old(self).pending()
            },
            old(self).capture_id() == Some(report.id) && listener_ready ==> {
                let p = old(self).capture_permit()->0;
                let accepted = permit_valid(p, *link) && crate::rc003_user_hid::report_acceptable(
                    report,
                    old(self).capture_position().0,
                    old(self).capture_position().1,
                    now,
                );
                let c = old(self).capture_confirmed();
                let held = old(self).capture_held();
                let active = report.active@.to_set();
                let es = edges_between(held.intersect(c), active.intersect(c));
                &&& final(self).capturing()
                &&& final(self).capture_id() == old(self).capture_id()
                &&& final(self).fired_view() == old(self).fired_view()
                &&& final(self).last_fired_view() == old(self).last_fired_view()
                &&& final(self).last_error_view() == old(self).last_error_view()
                &&& final(self).filter_held() == old(self).filter_held()
                &&& final(self).filter_confirmed() == old(self).filter_confirmed()
                &&& final(self).confirmed_filter_view() == old(self).confirmed_filter_view()
                &&& final(self).hid_held() == old(self).hid_held()
                &&& accepted ==> {
                    &&& !r.1
                    &&& final(self).capture_permit() == Some(p)
                    &&& final(self).permit_view() == old(self).permit_view()
                    &&& final(self).capture_held() == active
                    &&& final(self).capture_confirmed() == c.union(held.difference(active))
                    &&& final(self).capture_position() == (report.seq, Some((report.stream, report.scope)))
                    &&& final(self).confirmed_user_hid_view() == ordered_buttons(
                        c.union(held.difference(active)),
                    )
                    &&& final(self).keyboard_held() == apply_edges(old(self).keyboard_held(), es)
                    &&& r.0@ == merged_edges(old(self).keyboard_held(), old(self).hid_held(), es)
                    &&& final(self).pending() == old(self).pending().difference(edge_buttons(es))
                }
                &&& !accepted ==> {
                    &&& r.1
                    &&& final(self).capture_permit() == Some(UserHidPermit { alive: false, ..p })
                    &&& final(self).permit_view() == Some(UserHidPermit { alive: false, ..p })
                    &&& final(self).capture_held() == held
                    &&& final(self).capture_confirmed() == c
                    &&& final(self).confirmed_user_hid_view().len() == 0
                    &&& final(self).keyboard_held() == apply_edges(
                        old(self).keyboard_held(),
                        filter_releases(),
                    )
                    &&& r.0@ == merged_edges(
                        old(self).keyboard_held(),
                        old(self).hid_held(),
                        filter_releases(),
                    )
                    &&& final(self).pending() == old(self).pending().difference(filter_set())
                }
            },
    {
        let mut session = match self.user_hid.take() {
            Some(u) => u,
            None => {
                return (Vec::new(), false);
            },
        };
        if session.permit().id != report.id {
            self.user_hid = Some(session);
            return (Vec::new(), false);
        }
        if !listener_ready {
            session.cancel_permit();
            self.permit = Some(session.permit());
            self.user_hid = Some(session);
            return (Vec::new(), false);
        }
        let ghost p = session.permit_view();
        let ghost seq0 = session.seq_view();
        let ghost src0 = session.source_view();
        let result = session.observe(report, link, now);
        match result {
            Ok(es) => {
                self.user_hid = Some(session);
                let out = self.apply_attributed(&es);
                let confirmed = match &self.user_hid {
                    Some(u) => u.confirmed(),
                    None => Vec::new(),
                };
                self.confirmed_user_hid = confirmed;
                (out, false)
            },
            Err(_) => {
                session.cancel_permit();
                self.permit = Some(session.permit());
                self.user_hid = Some(session);
                self.confirmed_user_hid = Vec::new();
                let keys = filter_buttons();
                let mut releases: Vec<ButtonEdge> = Vec::new();
                releases.push(ButtonEdge { button: keys[0], is_pressed: false });
                releases.push(ButtonEdge { button: keys[1], is_pressed: false });
                releases.push(ButtonEdge { button: keys[2], is_pressed: false });
                assert(releases@ =~= filter_releases());
                let out = self.apply_attributed(&releases);
                proof {
                    assert(edge_buttons(filter_releases()) =~= filter_set()) by {
                        assert(filter_releases()[0].button == RemoteButton::VolumeUp);
                        assert(filter_releases()[1].button == RemoteButton::VolumeDown);
                        assert(filter_releases()[2].button == RemoteButton::Back);
                    }
                }
                (out, true)
            },
        }
    }

    /// A gesture fired on `button`. `enabled` and `gate_alive` are the
    /// mapping switch and the hook thread; `action` is what the gesture is
    /// mapped to and `native` the key the button sends natively. The press's
    /// native mark is consumed by the first gesture that reaches the action;
    /// an action that is carried out comes back as the injector request.
    pub fn fire_gesture(
        &mut self,
        button: RemoteButton,
        trigger: ButtonTrigger,
        link: &LinkState,
        enabled: bool,
        gate_alive: bool,
        action: ButtonAction,
        native: Option<KeyCode>,
    ) -> (r: FireOutcome)
        ensures
            final(self).keyboard_held() == old(self).keyboard_held(),
            final(self).hid_held() == old(self).hid_held(),
            final(self).capturing() == old(self).capturing(),
            final(self).capture_id() == old(self).capture_id(),
            final(self).capture_permit() == old(self).capture_permit(),
            final(self).permit_view() == old(self).permit_view(),
            final(self).filter_held() == old(self).filter_held(),
            final(self).filter_confirmed() == old(self).filter_confirmed(),
            ({
                let rejected = is_filter_button(button) && (old(self).permit_view() matches Some(
                    p,
                ) && !permit_valid(p, *link));
                let disabled = action is Disabled;
                let covered = trigger == ButtonTrigger::Single && native_covers(action, native);
                &&& rejected ==> r == FireOutcome::Rejected && final(self).fired_view() == old(self).fired_view()
                    && final(self).last_fired_view() == old(self).last_fired_view()
                    && final(self).last_error_view() == old(self).last_error_view()
                    && final(self).pending() == old(self).pending()
                &&& !rejected ==> {
                    &&& final(self).fired_view() == crate::platform::saturating_sum(
                        old(self).fired_view(),
                        1,
                    )
                    &&& final(self).last_fired_view() == Some((FiredGesture { button, trigger }))
                    &&& !(enabled && gate_alive) ==> r == FireOutcome::Observed
                        && final(self).pending() == old(self).pending() && final(self).last_error_view() == (if enabled {
                        Some(observe_only_text())
                    } else {
                        old(self).last_error_view()
                    })
                    &&& enabled && gate_alive && disabled ==> r == FireOutcome::Disabled
                        && final(self).pending() == old(self).pending()
                        && final(self).last_error_view() == old(self).last_error_view()
                    &&& enabled && gate_alive && !disabled ==> {
                        &&& final(self).pending() == old(self).pending().remove(button)
                        &&& final(self).last_error_view() == old(self).last_error_view()
                        &&& r == (if old(self).pending().contains(button) && covered {
                            FireOutcome::NativeCovered
                        } else {
                            FireOutcome::Inject(injector_request(action)->0)
                        })
                    }
                }
            }),
    {
        if requires_filter(button) {
            match self.permit {
                Some(p) => {
                    if !p.valid(link) {
                        return FireOutcome::Rejected;
                    }
                },
                None => {},
            }
        }
        self.fired_gestures = self.fired_gestures.saturating_add(1);
        self.last_fired = Some(FiredGesture { button, trigger });
        if !enabled || !gate_alive {
            if enabled {
                self.last_error = Some(
                    String::from_str("按键映射门控未运行，已保持观察模式（不注入，避免双输入）"),
                );
            }
            return FireOutcome::Observed;
        }
        if let ButtonAction::Disabled = action {
            return FireOutcome::Disabled;
        }
        broadcast use lemma_button_ordinal;

        let was_pending = self.native_pending[button.ordinal()];
        self.mark_pending(button, false);
        if was_pending && trigger == ButtonTrigger::Single {
            let covers = match (&action, native) {
                (ButtonAction::Shortcut { chord }, Some(key)) => chord.keys.len() == 1
                    && chord.keys[0] == key,
                _ => false,
            };
            if covers {
                return FireOutcome::NativeCovered;
            }
        }
        let request = match action {
            ButtonAction::Disabled => {
                return FireOutcome::Disabled;
            },
            ButtonAction::MouseClick { kind } => InjectorRequest::MouseClick(kind),
            ButtonAction::MouseMove { direction, distance } => InjectorRequest::MouseMove(
                direction,
                distance,
            ),
            ButtonAction::Scroll { direction, steps } => InjectorRequest::Scroll(direction, steps),
            ButtonAction::Shortcut { chord } => InjectorRequest::Tap(chord),
            ButtonAction::OpenApp { target } => InjectorRequest::LaunchApp(target),
        };
        FireOutcome::Inject(request)
    }

    /// The injector answered `result` to `request`. A failure is recorded as
    /// the last error; the gesture ends (`true`) exactly when the lock
    /// workstation chord was tapped successfully.
    pub fn injection_done(&mut self, request: &InjectorRequest, result: Result<(), String>) -> (terminal: bool)
        ensures
            terminal == (result is Ok && ends_gesture(*request)),
            final(self).last_error_view() == (match result {
                Ok(_) => old(self).last_error_view(),
                Err(e) => Some(injection_prefix(request_kind(*request)) + "："@ + e@),
            }),
            final(self).keyboard_held() == old(self).keyboard_held(),
            final(self).hid_held() == old(self).hid_held(),
            final(self).pending() == old(self).pending(),
            final(self).fired_view() == old(self).fired_view(),
            final(self).last_fired_view() == old(self).last_fired_view(),
    {
        match result {
            Ok(()) => match request {
                InjectorRequest::Tap(chord) => chord.is_lock_workstation(),
                _ => false,
            },
            Err(e) => {
                let kind = match request {
                    InjectorRequest::MouseClick(_) => InjectionKind::MouseClick,
                    InjectorRequest::MouseMove(_, _) => InjectionKind::MouseMove,
                    InjectorRequest::Scroll(_, _) => InjectionKind::Scroll,
                    InjectorRequest::Tap(_) => InjectionKind::Shortcut,
                    InjectorRequest::LaunchApp(_) => InjectionKind::OpenApp,
                };
                self.injection_failed(kind, e.as_str());
                false
            },
        }
    }

    /// An injection of `kind` failed with `error`: the error is recorded as
    /// `"<prefix>：<error>"`.
    pub fn injection_failed(&mut self, kind: InjectionKind, error: &str)
        ensures
            final(self).last_error_view() == Some(injection_prefix(kind) + "："@ + error@),
            final(self).keyboard_held() == old(self).keyboard_held(),
            final(self).hid_held() == old(self).hid_held(),
            final(self).pending() == old(self).pending(),
            final(self).fired_view() == old(self).fired_view(),
            final(self).last_fired_view() == old(self).last_fired_view(),
    {
        let mut t = String::from_str(match kind {
            InjectionKind::MouseClick => "鼠标点击失败",
            InjectionKind::MouseMove => "鼠标移动失败",
            InjectionKind::Scroll => "滚轮事件发送失败",
            InjectionKind::Shortcut => "注入快捷键失败",
            InjectionKind::OpenApp => "打开应用失败",
        });
        crate::text::push_str(&mut t, "：");
        crate::text::push_str(&mut t, error);
        self.last_error = Some(t);
    }

    /// The engine's part of the mapping snapshot: fired gestures, the last
    /// one, the last error.
    pub fn mapping_snapshot(
        &self,
        enabled: bool,
        gate_active: bool,
        listener_active: bool,
        swallowed_edges: u64,
        leaked_downs: u64,
    ) -> (r: ButtonMappingSnapshot)
        ensures
            r.enabled == enabled && r.gate_active == gate_active && r.listener_active
                == listener_active,
            r.swallowed_edges == swallowed_edges && r.leaked_downs == leaked_downs,
            r.fired_gestures == self.fired_view(),
            r.last_fired == self.last_fired_view(),
            (match r.last_error {
                Some(e) => self.last_error_view() == Some(e@),
                None => self.last_error_view() is None,
            }),
    {
        ButtonMappingSnapshot {
            enabled,
            gate_active,
            listener_active,
            swallowed_edges,
            leaked_downs,
            fired_gestures: self.fired_gestures,
            last_fired: self.last_fired,
            last_error: crate::platform::copy_opt_string(&self.last_error),
        }
    }

    /// Publishes edges in the listener's diagnostics: the edge count grows
    /// (saturating), the held buttons and the last edge are shown. Returns
    /// how many edges are presses (for the usage counters). No edges change
    /// nothing.
    pub fn note_edges(&self, snapshot: &mut RawInputSnapshot, edges: &Vec<ButtonEdge>) -> (presses: u64)
        ensures
            presses == pressed_count(edges@),
            edges@.len() == 0 ==> *final(snapshot) == *old(snapshot),
            edges@.len() > 0 ==> {
                &&& final(snapshot).semantic_edge_count == crate::platform::saturating_sum(
                    old(snapshot).semantic_edge_count,
                    edges@.len() as u64,
                )
                &&& final(snapshot).active_buttons@ == ordered_buttons(self.active())
                &&& final(snapshot).last_button == Some(edges@.last().button)
                &&& final(snapshot).last_is_pressed == Some(edges@.last().is_pressed)
                &&& final(snapshot).phase == old(snapshot).phase
                &&& final(snapshot).matched_device_count == old(snapshot).matched_device_count
                &&& final(snapshot).raw_event_count == old(snapshot).raw_event_count
                &&& final(snapshot).last_error == old(snapshot).last_error
                &&& final(snapshot).stale_remote_event_count == old(snapshot).stale_remote_event_count
            },
    {
        let mut presses: u64 = 0;
        let mut i: usize = 0;
        while i < edges.len()
            invariant
                i <= edges@.len(),
                presses == pressed_count(edges@.subrange(0, i as int)),
                presses <= i,
            decreases edges@.len() - i,
        {
            assert(edges@.subrange(0, i + 1).drop_last() =~= edges@.subrange(0, i as int));
            if edges[i].is_pressed {
                presses = presses + 1;
            }
            i = i + 1;
        }
        assert(edges@.subrange(0, edges@.len() as int) =~= edges@);
        if edges.len() == 0 {
            return presses;
        }
        snapshot.semantic_edge_count = snapshot.semantic_edge_count.saturating_add(
            edges.len() as u64,
        );
        snapshot.active_buttons = self.merger.active_button_set();
        let last = edges[edges.len() - 1];
        snapshot.last_button = Some(last.button);
        snapshot.last_is_pressed = Some(last.is_pressed);
        presses
    }
}


/// After a terminal reset nothing is held: a release that arrives late (after
/// the session was unlocked) leaves nothing held and produces no edge, so the
/// next real press starts a new gesture at once.
pub proof fn law_late_release_after_terminal_reset_is_silent(b: RemoteButton)
    ensures
        apply_edge(Set::<RemoteButton>::empty(), ButtonEdge { button: b, is_pressed: false })
            == Set::<RemoteButton>::empty(),
        edges_between(
            Set::<RemoteButton>::empty(),
            apply_edge(Set::<RemoteButton>::empty(), ButtonEdge { button: b, is_pressed: false }),
        ) == Seq::<ButtonEdge>::empty(),
{
    assert(Set::<RemoteButton>::empty().remove(b) =~= Set::<RemoteButton>::empty());
    crate::raw_input::law_release_all_twice_is_silent();
}

} // verus!
