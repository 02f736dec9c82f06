//! Keys and chords the library injects, and the bookkeeping of the input
//! injector (how many batches and events it submitted, its last error).
use vstd::prelude::*;
use crate::platform::PlatformError;
use crate::text::push_str;

verus! {

/// A key the voice targets and button mappings name.
#[derive(Debug, Clone, Copy, PartialEq, Eq, Structural, Hash)]
pub enum KeyCode {
    LeftControl,
    RightControl,
    LeftWindows,
    RightAlt,
    Space,
    Enter,
    Escape,
    Backspace,
    Up,
    Right,
    L,
    F5,
    VolumeUp,
    VolumeDown,
}

/// Keys pressed together, in press order (released in reverse).
#[derive(Debug, Clone, PartialEq, Eq)]
pub struct KeyChord {
    pub keys: Vec<KeyCode>,
}

impl KeyChord {
    /// An equal copy of the chord.
    pub fn duplicate(&self) -> (r: Self)
        ensures
            r.keys@ == self.keys@,
    {
        let mut keys: Vec<KeyCode> = Vec::new();
        let mut i: usize = 0;
        while i < self.keys.len()
            invariant
                i <= self.keys@.len(),
                keys@ == self.keys@.subrange(0, i as int),
            decreases self.keys@.len() - i,
        {
            keys.push(self.keys[i]);
            i = i + 1;
            assert(keys@ =~= self.keys@.subrange(0, i as int));
        }
        assert(keys@ =~= self.keys@);
        KeyChord { keys }
    }

    /// A chord of the given keys.
    pub fn of(keys: &[KeyCode]) -> (r: Self)
        ensures
            r.keys@ == keys@,
    {
        let mut v: Vec<KeyCode> = Vec::new();
        let mut i: usize = 0;
        while i < keys.len()
            invariant
                i <= keys@.len(),
                v@ == keys@.subrange(0, i as int),
            decreases keys@.len() - i,
        {
            v.push(keys[i]);
            i = i + 1;
            assert(v@ =~= keys@.subrange(0, i as int));
        }
        assert(v@ =~= keys@);
        KeyChord { keys: v }
    }

    /// Whether the chord is Win+L, which locks the workstation.
    pub fn is_lock_workstation(&self) -> (r: bool)
        ensures
            r == locks_workstation(self.keys@),
    {
        let r = self.keys.len() == 2 && self.keys[0] == KeyCode::LeftWindows && self.keys[1]
            == KeyCode::L;
        if r {
            assert(self.keys@ =~= seq![KeyCode::LeftWindows, KeyCode::L]);
        }
        r
    }
}

/// The Win+L chord: the one shortcut after which the session is locked.
pub open spec fn locks_workstation(keys: Seq<KeyCode>) -> bool {
    keys == seq![KeyCode::LeftWindows, KeyCode::L]
}

/// A mouse click a button can be mapped to.
#[derive(Debug, Clone, Copy, PartialEq, Eq, Structural, Hash)]
pub enum MouseClickKind {
    Left,
    DoubleLeft,
    Right,
}

/// A direction the pointer can be moved in.
#[derive(Debug, Clone, Copy, PartialEq, Eq, Structural, Hash)]
pub enum MoveDirection {
    Up,
    Down,
    Left,
    Right,
}

/// A direction the wheel can be turned in.
#[derive(Debug, Clone, Copy, PartialEq, Eq, Structural, Hash)]
pub enum ScrollDirection {
    Up,
    Down,
}

/// What a button gesture is mapped to.
#[derive(Debug, Clone, PartialEq, Eq)]
pub enum ButtonAction {
    Disabled,
    MouseClick { kind: MouseClickKind },
    MouseMove { direction: MoveDirection, distance: u16 },
    Scroll { direction: ScrollDirection, steps: u16 },
    Shortcut { chord: KeyChord },
    OpenApp { target: String },
}

/// Bookkeeping of the input injector.
#[derive(Debug, Clone, PartialEq, Eq)]
pub struct SendInputSnapshot {
    pub available: bool,
    pub submitted_batches: u64,
    pub submitted_events: u64,
    pub last_error: Option<String>,
}

impl Default for SendInputSnapshot {
    fn default() -> (r: Self)
        ensures
            !r.available && r.submitted_batches == 0 && r.submitted_events == 0 && r.last_error is None,
    {
        SendInputSnapshot {
            available: false,
            submitted_batches: 0,
            submitted_events: 0,
            last_error: None,
        }
    }
}


/// Whether `n` is the bookkeeping `o` after recording `result` of the
/// operation named `operation`, and `r` what the recording returned: a
/// success counts one batch and its events (saturating) and clears the
/// error; a failure keeps the counts and records `"<operation>：<error>"`.
pub open spec fn recorded(
    o: SendInputSnapshot,
    n: SendInputSnapshot,
    result: Result<u64, String>,
    operation: Seq<char>,
    r: Result<SendInputSnapshot, PlatformError>,
) -> bool {
    match result {
        Ok(events) => {
            &&& n.submitted_batches == crate::platform::saturating_sum(o.submitted_batches, 1)
            &&& n.submitted_events == crate::platform::saturating_sum(o.submitted_events, events)
            &&& n.last_error is None
            &&& r matches Ok(s) && s == n
        },
        Err(e) => {
            &&& n.submitted_batches == o.submitted_batches
            &&& n.submitted_events == o.submitted_events
            &&& n.last_error matches Some(t) && t@ == operation + "："@ + e@
            &&& r matches Err(PlatformError::SendInput(d)) && d@ == e@
        },
    }
}

/// The input injector's bookkeeping; the injection itself is done by the
/// platform, which reports each result here.
#[derive(Debug)]
pub struct SendInputRuntime {
    snapshot: SendInputSnapshot,
}

impl SendInputRuntime {
    pub closed spec fn view_snapshot(&self) -> SendInputSnapshot {
        self.snapshot
    }

    /// An injector that is available and has submitted nothing.
    pub fn new() -> (r: Self)
        ensures
            r.view_snapshot().available && r.view_snapshot().submitted_batches == 0
                && r.view_snapshot().submitted_events == 0 && r.view_snapshot().last_error is None,
    {
        SendInputRuntime {
            snapshot: SendInputSnapshot {
                available: true,
                submitted_batches: 0,
                submitted_events: 0,
                last_error: None,
            },
        }
    }

    pub fn snapshot(&self) -> (r: SendInputSnapshot)
        ensures
            r.available == self.view_snapshot().available,
            r.submitted_batches == self.view_snapshot().submitted_batches,
            r.submitted_events == self.view_snapshot().submitted_events,
            r.last_error == self.view_snapshot().last_error,
    {
        SendInputSnapshot {
            available: self.snapshot.available,
            submitted_batches: self.snapshot.submitted_batches,
            submitted_events: self.snapshot.submitted_events,
            last_error: crate::platform::copy_opt_string(&self.snapshot.last_error),
        }
    }

    /// Records the result of one injection named `operation`: a submitted
    /// batch of `events` events, or a failure with its text.
    pub fn record(&mut self, result: Result<u64, String>, operation: &str) -> (r: Result<
        SendInputSnapshot,
        PlatformError,
    >)
        ensures
            final(self).view_snapshot().available == old(self).view_snapshot().available,
            match result {
                Ok(events) => {
                    &&& final(self).view_snapshot().submitted_batches == crate::platform::saturating_sum(
                        old(self).view_snapshot().submitted_batches,
                        1,
                    )
                    &&& final(self).view_snapshot().submitted_events == crate::platform::saturating_sum(
                        old(self).view_snapshot().submitted_events,
                        events,
                    )
                    &&& final(self).view_snapshot().last_error is None
                    &&& r matches Ok(s) && s == final(self).view_snapshot()
                },
                Err(e) => {
                    &&& final(self).view_snapshot().submitted_batches == old(
                        self,
                    ).view_snapshot().submitted_batches
                    &&& final(self).view_snapshot().submitted_events == old(
                        self,
                    ).view_snapshot().submitted_events
                    &&& final(self).view_snapshot().last_error matches Some(t) && t@ == operation@
                        + "："@ + e@
                    &&& r matches Err(PlatformError::SendInput(d)) && d@ == e@
                },
            },
    {
        match result {
            Ok(events) => {
                self.snapshot.submitted_batches = self.snapshot.submitted_batches.saturating_add(1);
                self.snapshot.submitted_events = self.snapshot.submitted_events.saturating_add(
                    events,
                );
                self.snapshot.last_error = None;
                Ok(self.snapshot())
            },
            Err(e) => {
                let mut t = String::from_str(operation);
                push_str(&mut t, "：");
                push_str(&mut t, e.as_str());
                self.snapshot.last_error = Some(t);
                Err(PlatformError::SendInput(e))
            },
        }
    }

    /// Records a tap (all key-downs, then all key-ups, in one batch) that the
    /// platform injected with result `injected`, as the operation
    /// `"SendInput"` (see `record`).
    pub fn tap(&mut self, injected: Result<u64, String>) -> (r: Result<SendInputSnapshot, PlatformError>)
        ensures
            final(self).view_snapshot().available == old(self).view_snapshot().available,
            recorded(old(self).view_snapshot(), final(self).view_snapshot(), injected, "SendInput"@, r),
    {
        self.record(injected, "SendInput")
    }

    /// Records the key-down edges of a chord (a voice key held to talk), as
    /// the operation `"SendInput key-down"`.
    pub fn press(&mut self, injected: Result<u64, String>) -> (r: Result<SendInputSnapshot, PlatformError>)
        ensures
            final(self).view_snapshot().available == old(self).view_snapshot().available,
            recorded(old(self).view_snapshot(), final(self).view_snapshot(), injected, "SendInput key-down"@, r),
    {
        self.record(injected, "SendInput key-down")
    }

    /// Records the key-up edges of a chord in reverse order (the voice key
    /// released), as the operation `"SendInput key-up"`.
    pub fn release(&mut self, injected: Result<u64, String>) -> (r: Result<SendInputSnapshot, PlatformError>)
        ensures
            final(self).view_snapshot().available == old(self).view_snapshot().available,
            recorded(old(self).view_snapshot(), final(self).view_snapshot(), injected, "SendInput key-up"@, r),
    {
        self.record(injected, "SendInput key-up")
    }
}

} // verus!
