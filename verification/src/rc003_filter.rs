//! The optional RC003 filter transport: the volume and back keys of the
//! RC003 arrive as F13/F14/F15 from one exactly named HID interface. They
//! never enter the global keyboard gate (a low-level hook has no device
//! identity); each key is only trusted after one complete press and release.
use vstd::prelude::*;
use crate::raw_input::{
    button_ordinal, held_set, lemma_button_ordinal, lemma_ordered_prefix, normalized,
    normalized_chars, ordered_buttons, ordered_from_table, ButtonEdge, RawKeyboardEvent,
    RemoteButton,
};
use crate::text::{chars_equal, chars_of, occurs_at_exec, seq_starts_with, starts_with_chars};

verus! {

/// The buttons that only the filter transport may deliver.
pub open spec fn is_filter_button(b: RemoteButton) -> bool {
    b == RemoteButton::VolumeUp || b == RemoteButton::VolumeDown || b == RemoteButton::Back
}

/// The buttons that only the filter transport may deliver, in this order.
pub fn filter_buttons() -> (r: [RemoteButton; 3])
    ensures
        r@ == seq![RemoteButton::VolumeUp, RemoteButton::VolumeDown, RemoteButton::Back],
{
    [RemoteButton::VolumeUp, RemoteButton::VolumeDown, RemoteButton::Back]
}

/// Whether a button may only be delivered by the filter transport.
pub fn requires_filter(button: RemoteButton) -> (r: bool)
    ensures
        r == is_filter_button(button),
{
    match button {
        RemoteButton::VolumeUp | RemoteButton::VolumeDown | RemoteButton::Back => true,
        _ => false,
    }
}

/// The bits of the filter buttons in a mapping mask (Back, VolumeUp, VolumeDown).
pub const FILTER_BUTTON_BITS: u64 = 0x1801;

/// The mapping mask that the global keyboard gate may arm: the mapped
/// buttons without the filter buttons.
pub fn legacy_gate_mask(mapped_mask: u64) -> (r: u64)
    ensures
        r == mapped_mask & !FILTER_BUTTON_BITS,
        forall|b: RemoteButton|
            is_filter_button(b) ==> (r >> (#[trigger] button_ordinal(b)) as u64) & 1 == 0,
{
    let r = mapped_mask & !FILTER_BUTTON_BITS;
    assert((r >> 0u64) & 1 == 0 && (r >> 11u64) & 1 == 0 && (r >> 12u64) & 1 == 0) by (bit_vector)
        requires
            r == mapped_mask & !0x1801u64,
    ;
    r
}

/// The start of every HID device path, lowercased.
pub open spec fn hid_prefix() -> Seq<char> {
    seq!['\\', '\\', '?', '\\', 'h', 'i', 'd', '#']
}

/// The hardware component of the RC003 filter interface, lowercased.
pub open spec fn filter_component() -> Seq<char> {
    "{00001812-0000-1000-8000-00805f9b34fb}_dev_vid&012717_pid&32b8_rev&00a4"@
}

pub open spec fn is_hex_char(c: char) -> bool {
    ('0' <= c && c <= '9') || ('a' <= c && c <= 'f') || ('A' <= c && c <= 'F')
}

pub open spec fn all_hex(s: Seq<char>) -> bool {
    forall|i: int| 0 <= i < s.len() ==> is_hex_char(#[trigger] s[i])
}

/// What Windows may append to the component: nothing, `_` and the 12 hex
/// digits of the Bluetooth address, or `&col` and a 2-digit collection.
pub open spec fn component_suffix_ok(s: Seq<char>) -> bool {
    ||| s.len() == 0
    ||| (s.len() == 13 && s[0] == '_' && all_hex(s.subrange(1, 13)))
    ||| (s.len() == 6 && s.subrange(0, 4) == "&col"@ && all_hex(s.subrange(4, 6)))
}

pub open spec fn no_hash(s: Seq<char>) -> bool {
    forall|i: int| 0 <= i < s.len() ==> #[trigger] s[i] != '#'
}

/// A normalized path of the RC003 filter interface: the HID prefix, then the
/// hardware part up to the first `#` (the component and an allowed suffix),
/// then a non-empty instance part.
pub open spec fn filter_target(n: Seq<char>) -> bool {
    &&& seq_starts_with(n, hid_prefix())
    &&& exists|k: int|
        #![trigger n[k]]
        8 <= k < n.len() - 1 && n[k] == '#' && no_hash(n.subrange(8, k)) && seq_starts_with(
            n.subrange(8, k),
            filter_component(),
        ) && component_suffix_ok(n.subrange(8 + filter_component().len() as int, k))
}

fn is_hex(c: char) -> (r: bool)
    ensures
        r == is_hex_char(c),
{
    ('0' <= c && c <= '9') || ('a' <= c && c <= 'f') || ('A' <= c && c <= 'F')
}

fn all_hex_range(s: &[char], from: usize, to: usize) -> (r: bool)
    requires
        from <= to <= s@.len(),
    ensures
        r == all_hex(s@.subrange(from as int, to as int)),
{
    let mut i = from;
    while i < to
        invariant
            from <= i <= to <= s@.len(),
            forall|k: int| from <= k < i ==> is_hex_char(#[trigger] s@[k]),
        decreases to - i,
    {
        if !is_hex(s[i]) {
            assert(s@.subrange(from as int, to as int)[i - from] == s@[i as int]);
            return false;
        }
        i = i + 1;
    }
    assert forall|k: int| 0 <= k < to - from implies is_hex_char(
        #[trigger] s@.subrange(from as int, to as int)[k],
    ) by {
        assert(s@.subrange(from as int, to as int)[k] == s@[from + k]);
    }
    true
}

fn suffix_ok(s: &[char], from: usize, to: usize) -> (r: bool)
    requires
        from <= to <= s@.len(),
    ensures
        r == component_suffix_ok(s@.subrange(from as int, to as int)),
{
    let ghost sub = s@.subrange(from as int, to as int);
    let len = to - from;
    if len == 0 {
        return true;
    }
    if len == 13 {
        if s[from] != '_' {
            return false;
        }
        let r = all_hex_range(s, from + 1, to);
        assert(sub.subrange(1, 13) =~= s@.subrange(from + 1, to as int));
        assert(sub[0] == s@[from as int]);
        assert(sub.len() == 13);
        return r;
    }
    if len == 6 {
        let col = chars_of("&col");
        proof {
            reveal_strlit("&col");
        }
        let head_ok = occurs_at_exec(s, col.as_slice(), from);
        assert(sub.subrange(0, 4) =~= s@.subrange(from as int, from + 4));
        if !head_ok {
            return false;
        }
        let r = all_hex_range(s, from + 4, to);
        assert(sub.subrange(4, 6) =~= s@.subrange(from + 4, to as int));
        return r;
    }
    false
}

proof fn lemma_first_hash_unique(n: Seq<char>, k: int, j: int)
    requires
        8 <= k < n.len(),
        8 <= j < n.len(),
        n[k] == '#',
        n[j] == '#',
        no_hash(n.subrange(8, k)),
        no_hash(n.subrange(8, j)),
    ensures
        k == j,
{
    if k < j {
        assert(n.subrange(8, j)[k - 8] == n[k]);
    } else if j < k {
        assert(n.subrange(8, k)[j - 8] == n[j]);
    }
}

fn filter_target_chars(n: &[char]) -> (r: bool)
    ensures
        r == filter_target(n@),
{
    let prefix = ['\\', '\\', '?', '\\', 'h', 'i', 'd', '#'];
    assert(prefix@ =~= hid_prefix());
    if !starts_with_chars(n, &prefix) {
        return false;
    }
    let mut k: usize = 8;
    while k < n.len() && n[k] != '#'
        invariant
            8 <= k <= n@.len(),
            forall|i: int| 8 <= i < k ==> n@[i] != '#',
        decreases n@.len() - k,
    {
        k = k + 1;
    }
    assert(no_hash(n@.subrange(8, k as int))) by {
        assert forall|i: int| 0 <= i < k - 8 implies #[trigger] n@.subrange(8, k as int)[i]
            != '#' by {
            assert(n@.subrange(8, k as int)[i] == n@[8 + i]);
        }
    }
    if k >= n.len() - 1 {
        proof {
            if filter_target(n@) {
                let j = choose|j: int|
                    #![trigger n@[j]]
                    8 <= j < n@.len() - 1 && n@[j] == '#' && no_hash(n@.subrange(8, j))
                        && seq_starts_with(n@.subrange(8, j), filter_component())
                        && component_suffix_ok(n@.subrange(8 + filter_component().len() as int, j));
                if j < k {
                    assert(n@[j] != '#');
                }
            }
        }
        return false;
    }
    let component = chars_of(
        "{00001812-0000-1000-8000-00805f9b34fb}_dev_vid&012717_pid&32b8_rev&00a4",
    );
    let head_ok = component.len() <= k - 8 && occurs_at_exec(n, component.as_slice(), 8);
    proof {
        let h = n@.subrange(8, k as int);
        let l = component@.len() as int;
        if 8 + l <= k {
            assert(h.subrange(0, l) =~= n@.subrange(8, 8 + l));
        }
    }
    if !head_ok {
        proof {
            if filter_target(n@) {
                let j = choose|j: int|
                    #![trigger n@[j]]
                    8 <= j < n@.len() - 1 && n@[j] == '#' && no_hash(n@.subrange(8, j))
                        && seq_starts_with(n@.subrange(8, j), filter_component())
                        && component_suffix_ok(n@.subrange(8 + filter_component().len() as int, j));
                lemma_first_hash_unique(n@, j, k as int);
            }
        }
        return false;
    }
    let ok = suffix_ok(n, 8 + component.len(), k);
    proof {
        if ok {
            assert(8 <= k < n@.len() - 1 && n@[k as int] == '#');
        }
        if filter_target(n@) {
            let j = choose|j: int|
                #![trigger n@[j]]
                8 <= j < n@.len() - 1 && n@[j] == '#' && no_hash(n@.subrange(8, j))
                    && seq_starts_with(n@.subrange(8, j), filter_component())
                    && component_suffix_ok(n@.subrange(8 + filter_component().len() as int, j));
            lemma_first_hash_unique(n@, j, k as int);
        }
    }
    ok
}

/// Whether a device path names the RC003 filter interface.
pub fn device_path_matches_filter_target(path: &str) -> (r: bool)
    ensures
        r == filter_target(normalized(path@)),
{
    let n = normalized_chars(path);
    filter_target_chars(n.as_slice())
}

/// The edge a raw keyboard event of the filter interface stands for.
pub open spec fn filter_event_edge(event: RawKeyboardEvent) -> Option<ButtonEdge> {
    let pressed = if event.message == 0x0100 || event.message == 0x0104 {
        Some(true)
    } else if event.message == 0x0101 || event.message == 0x0105 {
        Some(false)
    } else {
        None
    };
    let button = if event.virtual_key == 0x7C {
        Some(RemoteButton::VolumeUp)
    } else if event.virtual_key == 0x7D {
        Some(RemoteButton::VolumeDown)
    } else if event.virtual_key == 0x7E {
        Some(RemoteButton::Back)
    } else {
        None
    };
    match (pressed, button) {
        (Some(p), Some(b)) => if ((event.flags % 2 == 0) == p) {
            Some(ButtonEdge { button: b, is_pressed: p })
        } else {
            None
        },
        _ => None,
    }
}

/// An edge attributed to the RC003 filter interface. Only `from_device`
/// creates one: a global hook, a guessed model name or an injected event
/// cannot supply the device attribution.
#[derive(Debug, Clone, Copy)]
pub struct FilteredKeyEdge(ButtonEdge);

impl FilteredKeyEdge {
    /// Only filter keys are ever attributed to the filter interface.
    #[verifier::type_invariant]
    spec fn only_filter_keys(self) -> bool {
        is_filter_button(self.0.button)
    }

    /// The attributed edge.
    pub closed spec fn edge(&self) -> ButtonEdge {
        self.0
    }

    pub fn get(&self) -> (r: ButtonEdge)
        ensures
            r == self.edge(),
            is_filter_button(r.button),
    {
        proof {
            use_type_invariant(self);
        }
        self.0
    }

    /// Attributes a keyboard event that came from `event_path` while the
    /// filter interface `selected_path` is selected: the paths must name the
    /// same filter interface and the event must be a consistent F13/F14/F15
    /// key edge.
    pub fn from_device(selected_path: &str, event_path: &str, event: RawKeyboardEvent) -> (r:
        Option<Self>)
        ensures
            match r {
                Some(f) => normalized(selected_path@) == normalized(event_path@) && filter_target(
                    normalized(selected_path@),
                ) && filter_event_edge(event) == Some(f.edge()),
                None => !(normalized(selected_path@) == normalized(event_path@) && filter_target(
                    normalized(selected_path@),
                ) && filter_event_edge(event) is Some),
            },
    {
        let selected = normalized_chars(selected_path);
        let other = normalized_chars(event_path);
        if !chars_equal(selected.as_slice(), other.as_slice()) || !filter_target_chars(
            selected.as_slice(),
        ) {
            return None;
        }
        let is_pressed = if event.message == 0x0100 || event.message == 0x0104 {
            true
        } else if event.message == 0x0101 || event.message == 0x0105 {
            false
        } else {
            return None;
        };
        let flags: u16 = event.flags;
        let up_flag = flags & 1;
        assert(flags & 1 == flags % 2) by (bit_vector);
        if (up_flag == 0) != is_pressed {
            return None;
        }
        let button = if event.virtual_key == 0x7C {
            RemoteButton::VolumeUp
        } else if event.virtual_key == 0x7D {
            RemoteButton::VolumeDown
        } else if event.virtual_key == 0x7E {
            RemoteButton::Back
        } else {
            return None;
        };
        Some(FilteredKeyEdge(ButtonEdge { button, is_pressed }))
    }
}

/// What the filter session makes of one attributed edge.
#[derive(Debug, Clone, Copy, PartialEq, Eq, Structural)]
pub enum FilterDecision {
    /// A repeated press, or a release without a press.
    Ignore,
    /// The first press of a key that is not confirmed yet.
    Calibrating(RemoteButton),
    /// The release that completes the first pair: the key is now trusted.
    Confirmed(RemoteButton),
    /// An edge of a trusted key, for the merger.
    Dispatch(ButtonEdge),
}

/// Which filter keys are pressed while calibrating, and which are confirmed.
#[derive(Debug)]
pub struct FilterSession {
    held: [bool; 16],
    confirmed: [bool; 16],
}

impl Default for FilterSession {
    fn default() -> (r: Self)
        ensures
            r.held_view() == Set::<RemoteButton>::empty(),
            r.confirmed_view() == Set::<RemoteButton>::empty(),
    {
        let r = FilterSession { held: [false; 16], confirmed: [false; 16] };
        assert(r.held_view() =~= Set::<RemoteButton>::empty());
        assert(r.confirmed_view() =~= Set::<RemoteButton>::empty());
        r
    }
}

/// The step of the filter session: trusted keys pass through; otherwise a
/// first press starts calibration and its release confirms the key.
pub open spec fn filter_step(
    held: Set<RemoteButton>,
    confirmed: Set<RemoteButton>,
    e: ButtonEdge,
) -> (Set<RemoteButton>, Set<RemoteButton>, FilterDecision) {
    if confirmed.contains(e.button) {
        (held, confirmed, FilterDecision::Dispatch(e))
    } else if e.is_pressed {
        if held.contains(e.button) {
            (held, confirmed, FilterDecision::Ignore)
        } else {
            (held.insert(e.button), confirmed, FilterDecision::Calibrating(e.button))
        }
    } else if !held.contains(e.button) {
        (held, confirmed, FilterDecision::Ignore)
    } else {
        (held.remove(e.button), confirmed.insert(e.button), FilterDecision::Confirmed(e.button))
    }
}

impl FilterSession {
    /// Keys pressed but not yet released while calibrating.
    pub closed spec fn held_view(&self) -> Set<RemoteButton> {
        held_set(self.held@)
    }

    /// Keys confirmed by one complete pair.
    pub closed spec fn confirmed_view(&self) -> Set<RemoteButton> {
        held_set(self.confirmed@)
    }

    pub fn observe(&mut self, input: FilteredKeyEdge) -> (r: FilterDecision)
        ensures
            is_filter_button(input.edge().button),
            (final(self).held_view(), final(self).confirmed_view(), r) == filter_step(
                old(self).held_view(),
                old(self).confirmed_view(),
                input.edge(),
            ),
    {
        broadcast use lemma_button_ordinal;

        let edge = input.get();
        let i = edge.button.ordinal();
        if self.confirmed[i] {
            return FilterDecision::Dispatch(edge);
        }
        if edge.is_pressed {
            if self.held[i] {
                return FilterDecision::Ignore;
            }
            self.held[i] = true;
            assert(self.held_view() =~= old(self).held_view().insert(edge.button));
            assert(self.confirmed_view() =~= old(self).confirmed_view());
            FilterDecision::Calibrating(edge.button)
        } else {
            if !self.held[i] {
                return FilterDecision::Ignore;
            }
            self.held[i] = false;
            self.confirmed[i] = true;
            assert(self.held_view() =~= old(self).held_view().remove(edge.button));
            assert(self.confirmed_view() =~= old(self).confirmed_view().insert(edge.button));
            FilterDecision::Confirmed(edge.button)
        }
    }

    /// The confirmed keys, in button order.
    pub fn confirmed_buttons(&self) -> (r: Vec<RemoteButton>)
        ensures
            r@ == ordered_buttons(self.confirmed_view()),
    {
        ordered_from_table(&self.confirmed)
    }

    /// Forgets calibration and every confirmation (at a connection boundary).
    pub fn reset(&mut self)
        ensures
            final(self).held_view() == Set::<RemoteButton>::empty(),
            final(self).confirmed_view() == Set::<RemoteButton>::empty(),
    {
        self.held = [false; 16];
        self.confirmed = [false; 16];
        assert(self.held_view() =~= Set::<RemoteButton>::empty());
        assert(self.confirmed_view() =~= Set::<RemoteButton>::empty());
    }
}

/// A key becomes trusted only by the release that completes a pair whose
/// press was seen before; no edge ever removes a confirmation, and a key is
/// never both calibrating and confirmed.
pub proof fn law_confirmation_needs_a_complete_pair(
    held: Set<RemoteButton>,
    confirmed: Set<RemoteButton>,
    e: ButtonEdge,
)
    requires
        held.disjoint(confirmed),
    ensures
        ({
            let (h2, c2, d) = filter_step(held, confirmed, e);
            &&& h2.disjoint(c2)
            &&& confirmed.subset_of(c2)
            &&& forall|b: RemoteButton|
                c2.contains(b) && !confirmed.contains(b) ==> b == e.button && !e.is_pressed
                    && held.contains(b) && d == FilterDecision::Confirmed(b)
        }),
{
    let (h2, c2, d) = filter_step(held, confirmed, e);
    assert(h2.disjoint(c2));
}

/// One call on a filter session.
#[derive(Debug, Clone, Copy, PartialEq, Eq, Structural)]
pub enum FilterCall {
    /// `observe` of an attributed edge.
    Observe(ButtonEdge),
    /// `reset`.
    Reset,
}

/// The calling keys and confirmed keys of a new session after `calls`, as
/// `observe` and `reset` state them.
pub open spec fn filter_run(calls: Seq<FilterCall>) -> (Set<RemoteButton>, Set<RemoteButton>)
    decreases calls.len(),
{
    if calls.len() == 0 {
        (Set::empty(), Set::empty())
    } else {
        let (h, c) = filter_run(calls.drop_last());
        match calls.last() {
            FilterCall::Reset => (Set::empty(), Set::empty()),
            FilterCall::Observe(e) => {
                let (h2, c2, _d) = filter_step(h, c, e);
                (h2, c2)
            },
        }
    }
}

/// Call `k` of `calls` is an `observe` that answered `Confirmed(b)`.
pub open spec fn confirms_at(calls: Seq<FilterCall>, k: int, b: RemoteButton) -> bool {
    &&& 0 <= k < calls.len()
    &&& calls[k] matches FilterCall::Observe(e)
    &&& filter_step(filter_run(calls.take(k)).0, filter_run(calls.take(k)).1, e).2
        == FilterDecision::Confirmed(b)
}

/// No call after `k` is a reset.
pub open spec fn no_reset_after(calls: Seq<FilterCall>, k: int) -> bool {
    forall|j: int| k < j < calls.len() ==> #[trigger] calls[j] != FilterCall::Reset
}

/// Some `observe` since the last reset answered `Confirmed(b)`.
pub open spec fn confirmed_since_reset(calls: Seq<FilterCall>, b: RemoteButton) -> bool {
    exists|k: int| #[trigger] confirms_at(calls, k, b) && no_reset_after(calls, k)
}

/// Every observed edge is of a filter key (as every attributed edge is).
pub open spec fn observes_filter_keys(calls: Seq<FilterCall>) -> bool {
    forall|k: int|
        0 <= k < calls.len() ==> (#[trigger] calls[k] matches FilterCall::Observe(e)
            ==> is_filter_button(e.button))
}

proof fn lemma_confirmed_since_reset_step(calls: Seq<FilterCall>, b: RemoteButton)
    requires
        calls.len() > 0,
    ensures
        calls.last() == FilterCall::Reset ==> !confirmed_since_reset(calls, b),
        calls.last() matches FilterCall::Observe(e) ==> (confirmed_since_reset(calls, b) <==> (
        confirmed_since_reset(calls.drop_last(), b) || filter_step(
            filter_run(calls.drop_last()).0,
            filter_run(calls.drop_last()).1,
            e,
        ).2 == FilterDecision::Confirmed(b))),
{
    let n = calls.len() - 1;
    let prev = calls.drop_last();
    assert(calls.take(n) =~= prev);
    if calls.last() == FilterCall::Reset {
        if confirmed_since_reset(calls, b) {
            let k = choose|k: int| #[trigger] confirms_at(calls, k, b) && no_reset_after(calls, k);
            if k < n {
                assert(calls[n] != FilterCall::Reset);
            }
        }
    }
    if let FilterCall::Observe(e) = calls.last() {
        if confirmed_since_reset(calls, b) {
            let k = choose|k: int| #[trigger] confirms_at(calls, k, b) && no_reset_after(calls, k);
            if k < n {
                assert(calls.take(k) =~= prev.take(k));
                assert(calls[k] == prev[k]);
                assert(confirms_at(prev, k, b));
                assert forall|j: int| k < j < prev.len() implies #[trigger] prev[j]
                    != FilterCall::Reset by {
                    assert(prev[j] == calls[j]);
                }
            }
        }
        if confirmed_since_reset(prev, b) {
            let k = choose|k: int| #[trigger] confirms_at(prev, k, b) && no_reset_after(prev, k);
            assert(calls.take(k) =~= prev.take(k));
            assert(calls[k] == prev[k]);
            assert(confirms_at(calls, k, b));
            assert forall|j: int| k < j < calls.len() implies #[trigger] calls[j]
                != FilterCall::Reset by {
                if j < n {
                    assert(prev[j] == calls[j]);
                }
            }
        }
        if filter_step(filter_run(prev).0, filter_run(prev).1, e).2 == FilterDecision::Confirmed(b) {
            assert(confirms_at(calls, n, b));
            assert(no_reset_after(calls, n));
        }
    }
}

/// Over any sequence of `observe` and `reset` calls on a new session: no key
/// is both calibrating and confirmed, only filter keys are ever calibrating
/// or confirmed, and the confirmed keys are exactly those for which some
/// `observe` since the last reset answered `Confirmed`. `confirmed_buttons`
/// lists them once each, in strictly ascending button order.
pub proof fn law_confirmed_keys_are_those_confirmed_since_reset(calls: Seq<FilterCall>)
    requires
        observes_filter_keys(calls),
    ensures
        ({
            let (held, confirmed) = filter_run(calls);
            &&& held.disjoint(confirmed)
            &&& forall|b: RemoteButton| #[trigger] held.contains(b) ==> is_filter_button(b)
            &&& forall|b: RemoteButton| #[trigger]
                confirmed.contains(b) ==> is_filter_button(b)
            &&& forall|b: RemoteButton| #[trigger]
                confirmed.contains(b) <==> confirmed_since_reset(calls, b)
            &&& forall|i: int, j: int|
                0 <= i < j < ordered_buttons(confirmed).len() ==> button_ordinal(
                    #[trigger] ordered_buttons(confirmed)[i],
                ) < button_ordinal(#[trigger] ordered_buttons(confirmed)[j])
            &&& forall|b: RemoteButton| #[trigger]
                ordered_buttons(confirmed).contains(b) <==> confirmed.contains(b)
        }),
    decreases calls.len(),
{
    broadcast use lemma_button_ordinal;

    let (held, confirmed) = filter_run(calls);
    if calls.len() > 0 {
        let prev = calls.drop_last();
        assert forall|k: int| 0 <= k < prev.len() implies (#[trigger] prev[k] matches FilterCall::Observe(
            e,
        ) ==> is_filter_button(e.button)) by {
            assert(prev[k] == calls[k]);
        }
        law_confirmed_keys_are_those_confirmed_since_reset(prev);
        let (h0, c0) = filter_run(prev);
        assert(calls[calls.len() - 1] == calls.last());
        match calls.last() {
            FilterCall::Reset => {
                assert forall|b: RemoteButton| #[trigger]
                    confirmed.contains(b) <==> confirmed_since_reset(calls, b) by {
                    lemma_confirmed_since_reset_step(calls, b);
                }
            },
            FilterCall::Observe(e) => {
                law_confirmation_needs_a_complete_pair(h0, c0, e);
                let (h2, c2, d) = filter_step(h0, c0, e);
                assert forall|b: RemoteButton| #[trigger]
                    confirmed.contains(b) <==> confirmed_since_reset(calls, b) by {
                    lemma_confirmed_since_reset_step(calls, b);
                    if d == FilterDecision::Confirmed(b) {
                        assert(confirmed.contains(b));
                    }
                }
            },
        }
    }
    lemma_ordered_prefix(confirmed, 16);
    assert forall|b: RemoteButton| #[trigger]
        ordered_buttons(confirmed).contains(b) <==> confirmed.contains(b) by {
        if ordered_buttons(confirmed).contains(b) {
            let k = choose|k: int|
                0 <= k < ordered_buttons(confirmed).len() && ordered_buttons(confirmed)[k] == b;
        }
    }
}


/// Whether the link reaching `phase` ends the filter transport's trust: at
/// every boundary where the link is down or being set up again, the filter
/// keys must be confirmed anew.
pub fn resets_filter_session(phase: crate::platform::ConnectionPhase) -> (r: bool)
    ensures
        r == (phase == crate::platform::ConnectionPhase::Idle || phase
            == crate::platform::ConnectionPhase::Connecting || phase
            == crate::platform::ConnectionPhase::Reconnecting || phase
            == crate::platform::ConnectionPhase::Disconnected || phase
            == crate::platform::ConnectionPhase::Suspended || phase
            == crate::platform::ConnectionPhase::Failed),
{
    match phase {
        crate::platform::ConnectionPhase::Idle | crate::platform::ConnectionPhase::Connecting
        | crate::platform::ConnectionPhase::Reconnecting
        | crate::platform::ConnectionPhase::Disconnected
        | crate::platform::ConnectionPhase::Suspended
        | crate::platform::ConnectionPhase::Failed => true,
        _ => false,
    }
}

} // verus!
