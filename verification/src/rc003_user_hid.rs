//! Optional, explicitly started user-mode capture of the RC003 volume and
//! back keys. It does not attribute a driver: the mapping engine stays the
//! only executor, and every capture is bound to one link of the remote.
use vstd::prelude::*;
use crate::platform::ConnectionPhase;
use crate::raw_input::{
    edges_between, edges_between_tables, held_set, lemma_button_ordinal, ordered_buttons,
    ordered_from_table, ButtonEdge, RemoteButton,
};
use crate::rc003_filter::{is_filter_button, requires_filter};

verus! {

#[derive(Debug, Clone, Copy, PartialEq, Eq, Structural)]
pub enum UserHidPhase {
    Stopped,
    Starting,
    Ready,
    Stopping,
    Failed,
}

impl Default for UserHidPhase {
    fn default() -> (r: Self)
        ensures
            r == UserHidPhase::Stopped,
    {
        UserHidPhase::Stopped
    }
}

/// Where captured reports come from.
#[derive(Debug, Clone, Copy, PartialEq, Eq, Structural)]
pub enum SourceScope {
    Rc003,
    ProxyUnverified,
}

/// State of the capture helper as the settings window shows it.
#[derive(Debug, Clone)]
pub struct UserHidSnapshot {
    pub available: bool,
    pub phase: UserHidPhase,
    pub reason: Option<String>,
    pub scope: Option<SourceScope>,
    pub cleanup_confirmed: bool,
}

impl Default for UserHidSnapshot {
    fn default() -> (r: Self)
        ensures
            !r.available && r.phase == UserHidPhase::Stopped && r.reason is None && r.scope is None
                && !r.cleanup_confirmed,
    {
        UserHidSnapshot {
            available: false,
            phase: UserHidPhase::Stopped,
            reason: None,
            scope: None,
            cleanup_confirmed: false,
        }
    }
}

impl UserHidSnapshot {
    /// The state of an available helper in `phase`, with the reason of the
    /// last change and whether its cleanup was confirmed. Only a ready
    /// helper has a source, and that source is unverified.
    pub fn status(phase: UserHidPhase, reason: Option<String>, cleanup: bool) -> (r: Self)
        ensures
            r.available,
            r.phase == phase,
            r.reason == reason,
            r.scope == (if phase == UserHidPhase::Ready {
                Some(SourceScope::ProxyUnverified)
            } else {
                None
            }),
            r.cleanup_confirmed == cleanup,
    {
        let scope = if phase == UserHidPhase::Ready {
            Some(SourceScope::ProxyUnverified)
        } else {
            None
        };
        UserHidSnapshot { available: true, phase, reason, scope, cleanup_confirmed: cleanup }
    }
}

/// The link a capture may be bound to: an epoch that moves on whenever the
/// link changes or goes offline, the peer when it is an RC003, and whether
/// the link is up.
#[derive(Debug, Clone, Copy, PartialEq, Eq, Structural)]
pub struct LinkState {
    pub epoch: u64,
    pub peer: Option<u64>,
    pub online: bool,
}

/// `e + 1`, wrapping to 0.
pub open spec fn next_epoch(e: u64) -> u64 {
    if e == u64::MAX {
        0
    } else {
        (e + 1) as u64
    }
}

/// Phases in which the link to the remote is up.
pub open spec fn phase_is_online(phase: ConnectionPhase) -> bool {
    phase == ConnectionPhase::Ready || phase == ConnectionPhase::Streaming || phase
        == ConnectionPhase::Draining
}

impl Default for LinkState {
    fn default() -> (r: Self)
        ensures
            r == (LinkState { epoch: 0, peer: None, online: false }),
    {
        LinkState { epoch: 0, peer: None, online: false }
    }
}

impl LinkState {
    /// The link is gone: a new epoch, no peer, offline.
    pub fn invalidate_link(&mut self)
        ensures
            *final(self) == (LinkState {
                epoch: next_epoch(old(self).epoch),
                peer: None,
                online: false,
            }),
    {
        self.epoch = self.epoch.wrapping_add(1);
        self.online = false;
        self.peer = None;
    }

    /// A new peer was connected; it is kept only when it is an RC003.
    pub fn note_peer(&mut self, peer: u64, is_rc003: bool)
        ensures
            *final(self) == (LinkState {
                epoch: next_epoch(old(self).epoch),
                peer: if is_rc003 {
                    Some(peer)
                } else {
                    None
                },
                online: false,
            }),
    {
        self.epoch = self.epoch.wrapping_add(1);
        self.peer = if is_rc003 {
            Some(peer)
        } else {
            None
        };
        self.online = false;
    }

    /// The link reached `phase`; going offline starts a new epoch.
    pub fn note_phase(&mut self, phase: ConnectionPhase)
        ensures
            final(self).online == phase_is_online(phase),
            final(self).peer == old(self).peer,
            final(self).epoch == (if !phase_is_online(phase) && old(self).online {
                next_epoch(old(self).epoch)
            } else {
                old(self).epoch
            }),
    {
        let online = match phase {
            ConnectionPhase::Ready | ConnectionPhase::Streaming | ConnectionPhase::Draining => true,
            _ => false,
        };
        if !online && self.online {
            self.epoch = self.epoch.wrapping_add(1);
        }
        self.online = online;
    }
}

/// Permission for one capture session, bound to the link epoch it was
/// granted in (a fixture permit is bound to no link).
#[derive(Debug, Clone, Copy, PartialEq, Eq, Structural)]
pub struct UserHidPermit {
    pub id: u64,
    pub alive: bool,
    pub epoch: Option<u64>,
}

/// Whether a permit still allows capture on `link`.
pub open spec fn permit_valid(p: UserHidPermit, link: LinkState) -> bool {
    p.alive && match p.epoch {
        None => true,
        Some(e) => link.online && link.epoch == e && link.peer is Some,
    }
}

impl UserHidPermit {
    /// A permit for the current link, with the RC003 peer it is bound to;
    /// refused unless an RC003 is connected and online.
    pub fn for_link(link: &LinkState, id: u64) -> (r: Result<(Self, u64), &'static str>)
        ensures
            match r {
                Ok((p, peer)) => link.online && link.peer == Some(peer) && p == (UserHidPermit {
                    id,
                    alive: true,
                    epoch: Some(link.epoch),
                }),
                Err(reason) => !(link.online && link.peer is Some) && reason@
                    == "rc003_connection_not_ready"@,
            },
    {
        match link.peer {
            Some(peer) => {
                if link.online {
                    Ok((UserHidPermit { id, alive: true, epoch: Some(link.epoch) }, peer))
                } else {
                    Err("rc003_connection_not_ready")
                }
            },
            None => Err("rc003_connection_not_ready"),
        }
    }

    /// A live permit bound to no link.
    pub fn fixture(id: u64) -> (r: Self)
        ensures
            r == (UserHidPermit { id, alive: true, epoch: None }),
    {
        UserHidPermit { id, alive: true, epoch: None }
    }

    pub fn valid(&self, link: &LinkState) -> (r: bool)
        ensures
            r == permit_valid(*self, *link),
    {
        if !self.alive {
            return false;
        }
        match self.epoch {
            None => true,
            Some(e) => link.online && link.epoch == e && link.peer.is_some(),
        }
    }

    pub fn cancel(&mut self)
        ensures
            *final(self) == (UserHidPermit { alive: false, ..*old(self) }),
    {
        self.alive = false;
    }
}

/// One captured state report: the buttons held right now.
#[derive(Debug, Clone)]
pub struct UserHidReport {
    pub id: u64,
    pub seq: u64,
    pub stream: u8,
    pub scope: SourceScope,
    pub active: Vec<RemoteButton>,
    /// When the report was received, in milliseconds.
    pub received_at_ms: u64,
}

/// Reports older than this many milliseconds are refused.
pub const USER_HID_REPORT_MAX_AGE_MS: u64 = 2_000;

/// A sequence without repeats.
pub open spec fn no_repeats(s: Seq<RemoteButton>) -> bool {
    forall|i: int, j: int| 0 <= i < j < s.len() ==> s[i] != s[j]
}

/// Whether a report is acceptable after sequence number `seq` from `source`,
/// at `now`: newer, at most two seconds old, from stream 1 to 16, from the
/// same source as before, and naming at most three distinct filter keys.
pub open spec fn report_acceptable(
    r: UserHidReport,
    seq: u64,
    source: Option<(u8, SourceScope)>,
    now: u64,
) -> bool {
    &&& r.seq > seq
    &&& now <= r.received_at_ms + USER_HID_REPORT_MAX_AGE_MS
    &&& 1 <= r.stream <= 16
    &&& (source matches Some(s) ==> s == (r.stream, r.scope))
    &&& no_repeats(r.active@)
    &&& r.active@.len() <= 3
    &&& forall|i: int| 0 <= i < r.active@.len() ==> is_filter_button(#[trigger] r.active@[i])
}

/// Whether a list of buttons names no button twice.
pub(crate) fn no_repeats_exec(active: &[RemoteButton]) -> (r: bool)
    ensures
        r == no_repeats(active@),
{
    let mut seen = [false; 16];
    let mut i: usize = 0;
    while i < active.len()
        invariant
            i <= active@.len(),
            no_repeats(active@.subrange(0, i as int)),
            forall|b: RemoteButton|
                #![trigger seen@[crate::raw_input::button_ordinal(b)]]
                seen@[crate::raw_input::button_ordinal(b)] <==> active@.subrange(
                    0,
                    i as int,
                ).contains(b),
        decreases active@.len() - i,
    {
        broadcast use lemma_button_ordinal;

        let b = active[i];
        let k = b.ordinal();
        let ghost prefix = active@.subrange(0, i as int);
        if seen[k] {
            proof {
                assert(prefix.contains(b));
                let j = choose|j: int| 0 <= j < prefix.len() && prefix[j] == b;
                assert(active@[j] == active@[i as int]);
            }
            return false;
        }
        seen[k] = true;
        let ghost next = active@.subrange(0, i + 1);
        assert(next =~= prefix.push(b));
        assert forall|c: RemoteButton|
            #![trigger seen@[crate::raw_input::button_ordinal(c)]]
            seen@[crate::raw_input::button_ordinal(c)] <==> next.contains(c) by {
            if c == b {
                assert(next[i as int] == b);
            } else {
                crate::raw_input::lemma_button_ordinal(c);
                if next.contains(c) {
                    let j = choose|j: int| 0 <= j < next.len() && next[j] == c;
                    assert(prefix[j] == c);
                }
                if prefix.contains(c) {
                    let j = choose|j: int| 0 <= j < prefix.len() && prefix[j] == c;
                    assert(next[j] == c);
                }
            }
        }
        i = i + 1;
    }
    assert(active@.subrange(0, active@.len() as int) =~= active@);
    true
}

/// A capture session: which keys the last report held, and which keys are
/// confirmed by one complete press and release.
#[derive(Debug)]
pub struct UserHidSession {
    permit: UserHidPermit,
    source: Option<(u8, SourceScope)>,
    seq: u64,
    held: [bool; 16],
    confirmed: [bool; 16],
}

impl UserHidSession {
    pub closed spec fn permit_view(&self) -> UserHidPermit {
        self.permit
    }

    /// The permit of this session.
    pub fn permit(&self) -> (r: UserHidPermit)
        ensures
            r == self.permit_view(),
    {
        self.permit
    }

    /// Cancels the permit; every later report is refused.
    pub fn cancel_permit(&mut self)
        ensures
            final(self).permit_view() == (UserHidPermit { alive: false, ..old(self).permit_view() }),
            final(self).held_view() == old(self).held_view(),
            final(self).confirmed_view() == old(self).confirmed_view(),
            final(self).seq_view() == old(self).seq_view(),
            final(self).source_view() == old(self).source_view(),
    {
        self.permit.cancel();
    }

    pub closed spec fn source_view(&self) -> Option<(u8, SourceScope)> {
        self.source
    }

    pub closed spec fn seq_view(&self) -> u64 {
        self.seq
    }

    pub closed spec fn held_view(&self) -> Set<RemoteButton> {
        held_set(self.held@)
    }

    pub closed spec fn confirmed_view(&self) -> Set<RemoteButton> {
        held_set(self.confirmed@)
    }

    pub fn new(permit: UserHidPermit) -> (r: Self)
        ensures
            r.permit_view() == permit,
            r.source_view() is None,
            r.seq_view() == 0,
            r.held_view() == Set::<RemoteButton>::empty(),
            r.confirmed_view() == Set::<RemoteButton>::empty(),
    {
        let r = UserHidSession {
            permit,
            source: None,
            seq: 0,
            held: [false; 16],
            confirmed: [false; 16],
        };
        assert(r.held_view() =~= Set::<RemoteButton>::empty());
        assert(r.confirmed_view() =~= Set::<RemoteButton>::empty());
        r
    }

    /// The confirmed keys, in button order.
    pub fn confirmed(&self) -> (r: Vec<RemoteButton>)
        ensures
            r@ == ordered_buttons(self.confirmed_view()),
    {
        ordered_from_table(&self.confirmed)
    }

    /// Takes one captured state report at time `now` (milliseconds) while the
    /// link is `link`. A report of another session, or of a cancelled or
    /// stale permit, is refused. A report that is replayed, too old, from
    /// another stream or source, or names keys other than the filter keys
    /// cancels the session. Otherwise the report becomes the held state: the
    /// first complete pair of a key confirms it without an edge, and the
    /// changes of confirmed keys come out as edges.
    pub fn observe(&mut self, report: UserHidReport, link: &LinkState, now: u64) -> (r: Result<
        Vec<ButtonEdge>,
        &'static str,
    >)
        ensures
            !(report.id == old(self).permit_view().id && permit_valid(old(self).permit_view(), *link)) ==> {
                &&& r matches Err(reason) && reason@ == "stale_session"@
                &&& final(self).permit_view() == old(self).permit_view()
                &&& final(self).held_view() == old(self).held_view()
                &&& final(self).confirmed_view() == old(self).confirmed_view()
                &&& final(self).seq_view() == old(self).seq_view()
                &&& final(self).source_view() == old(self).source_view()
            },
            (report.id == old(self).permit_view().id && permit_valid(old(self).permit_view(), *link)
                && !report_acceptable(report, old(self).seq_view(), old(self).source_view(), now))
                ==> {
                &&& r matches Err(reason) && reason@ == "invalid_report_or_source"@
                &&& final(self).permit_view() == (UserHidPermit { alive: false, ..old(self).permit_view() })
                &&& final(self).held_view() == old(self).held_view()
                &&& final(self).confirmed_view() == old(self).confirmed_view()
            },
            (report.id == old(self).permit_view().id && permit_valid(old(self).permit_view(), *link)
                && report_acceptable(report, old(self).seq_view(), old(self).source_view(), now))
                ==> {
                let active = report.active@.to_set();
                let c = old(self).confirmed_view();
                &&& r matches Ok(edges) && edges@ == edges_between(
                    old(self).held_view().intersect(c),
                    active.intersect(c),
                )
                &&& final(self).permit_view() == old(self).permit_view()
                &&& final(self).source_view() == Some((report.stream, report.scope))
                &&& final(self).seq_view() == report.seq
                &&& final(self).held_view() == active
                &&& final(self).confirmed_view() == c.union(old(self).held_view().difference(active))
            },
    {
        if report.id != self.permit.id || !self.permit.valid(link) {
            return Err("stale_session");
        }
        let same_source = match self.source {
            Some((stream, scope)) => stream == report.stream && scope == report.scope,
            None => true,
        };
        let mut all_filter = true;
        let mut i: usize = 0;
        while i < report.active.len()
            invariant
                i <= report.active@.len(),
                all_filter == forall|k: int|
                    0 <= k < i ==> is_filter_button(#[trigger] report.active@[k]),
            decreases report.active@.len() - i,
        {
            if !requires_filter(report.active[i]) {
                all_filter = false;
            }
            i = i + 1;
        }
        let fresh = now <= report.received_at_ms || now - report.received_at_ms
            <= USER_HID_REPORT_MAX_AGE_MS;
        if report.seq <= self.seq || !fresh || !(1 <= report.stream && report.stream <= 16)
            || !same_source || !no_repeats_exec(report.active.as_slice()) || report.active.len() > 3
            || !all_filter {
            self.permit.cancel();
            return Err("invalid_report_or_source");
        }
        broadcast use lemma_button_ordinal;

        let mut active_table = [false; 16];
        let mut j: usize = 0;
        while j < report.active.len()
            invariant
                j <= report.active@.len(),
                held_set(active_table@) == report.active@.subrange(0, j as int).to_set(),
            decreases report.active@.len() - j,
        {
            let b = report.active[j];
            active_table[b.ordinal()] = true;
            assert(report.active@.subrange(0, j + 1) =~= report.active@.subrange(0, j as int).push(
                b,
            ));
            proof {
                report.active@.subrange(0, j as int).lemma_push_to_set_commute(b);
            }
            assert(held_set(active_table@) =~= report.active@.subrange(0, j as int).to_set().insert(
                b,
            ));
            j = j + 1;
        }
        assert(report.active@.subrange(0, report.active@.len() as int) =~= report.active@);
        let ghost active = report.active@.to_set();
        let ghost c = self.confirmed_view();
        let mut before = [false; 16];
        let mut after = [false; 16];
        let mut next_confirmed = self.confirmed;
        let mut k: usize = 0;
        while k < 16
            invariant
                k <= 16,
                held_set(active_table@) == active,
                c == held_set(self.confirmed@),
                forall|m: int|
                    0 <= m < k ==> before@[m] == (self.held@[m] && self.confirmed@[m]) && after@[m]
                        == (active_table@[m] && self.confirmed@[m]) && next_confirmed@[m] == (
                    self.confirmed@[m] || (self.held@[m] && !active_table@[m])),
                forall|m: int| k <= m < 16 ==> next_confirmed@[m] == self.confirmed@[m],
            decreases 16 - k,
        {
            before[k] = self.held[k] && self.confirmed[k];
            after[k] = active_table[k] && self.confirmed[k];
            next_confirmed[k] = self.confirmed[k] || (self.held[k] && !active_table[k]);
            k = k + 1;
        }
        assert(held_set(before@) =~= self.held_view().intersect(c));
        assert(held_set(after@) =~= active.intersect(c));
        assert(held_set(next_confirmed@) =~= c.union(self.held_view().difference(active)));
        let edges = edges_between_tables(&before, &after);
        self.source = Some((report.stream, report.scope));
        self.seq = report.seq;
        self.held = active_table;
        self.confirmed = next_confirmed;
        Ok(edges)
    }
}

/// Capture never executes a key it has not confirmed: every edge it emits is
/// of a key that was confirmed before the report, so the first complete pair
/// of a key produces no edge.
pub proof fn law_only_confirmed_keys_produce_edges(
    held: Set<RemoteButton>,
    active: Set<RemoteButton>,
    confirmed: Set<RemoteButton>,
)
    ensures
        forall|k: int|
            0 <= k < edges_between(held.intersect(confirmed), active.intersect(confirmed)).len()
                ==> confirmed.contains(
                (#[trigger] edges_between(held.intersect(confirmed), active.intersect(confirmed))[k]).button,
            ),
{
    crate::raw_input::law_edges_describe_change(
        held.intersect(confirmed),
        active.intersect(confirmed),
    );
}

} // verus!
