//! The protocol with the RC003 capture helper process: the token and the
//! acceptance line of the handshake, newline framing of its messages with
//! size and flood limits, input health checks, and the decisions of the
//! session loop. The helper's JSON is decoded outside; these functions take
//! the decoded frames. Times are milliseconds on a monotonic clock.
use vstd::prelude::*;
use crate::bluetooth_radio::{char_utf8_len, utf8_byte_len, utf8_len};
use crate::raw_input::RemoteButton;
use crate::rc003_filter::{is_filter_button, requires_filter};
use crate::rc003_user_hid::{no_repeats, no_repeats_exec, SourceScope};
use crate::text::{chars_of, push_char, push_str};

verus! {

/// A character allowed in a code the helper reports: `a`-`z`, `0`-`9`, `_`.
pub open spec fn is_code_char(c: char) -> bool {
    ('a' <= c && c <= 'z') || ('0' <= c && c <= '9') || c == '_'
}

/// A code the helper may report and that may be logged: 1 to 100
/// characters, each a lowercase letter, a digit or `_`.
pub open spec fn safe_code_spec(s: Seq<char>) -> bool {
    &&& 1 <= s.len() <= 100
    &&& forall|i: int| 0 <= i < s.len() ==> is_code_char(#[trigger] s[i])
}

pub fn safe_code(value: &str) -> (r: bool)
    ensures
        r == safe_code_spec(value@),
{
    let cs = chars_of(value);
    if cs.len() == 0 || cs.len() > 100 {
        return false;
    }
    let mut i: usize = 0;
    while i < cs.len()
        invariant
            cs@ == value@,
            i <= cs@.len(),
            forall|k: int| 0 <= k < i ==> is_code_char(#[trigger] cs@[k]),
        decreases cs@.len() - i,
    {
        let c = cs[i];
        if !(('a' <= c && c <= 'z') || ('0' <= c && c <= '9') || c == '_') {
            return false;
        }
        i = i + 1;
    }
    true
}

fn byte_len(cs: &[char]) -> (r: usize)
    requires
        cs@.len() <= 1000,
    ensures
        r == utf8_byte_len(cs@),
{
    let mut n: usize = 0;
    let mut i: usize = 0;
    while i < cs.len()
        invariant
            cs@.len() <= 1000,
            i <= cs@.len(),
            n == utf8_byte_len(cs@.subrange(0, i as int)),
            n <= 4 * i,
        decreases cs@.len() - i,
    {
        assert(cs@.subrange(0, i + 1).drop_last() =~= cs@.subrange(0, i as int));
        n = n + char_utf8_len(cs[i]);
        i = i + 1;
    }
    assert(cs@.subrange(0, cs@.len() as int) =~= cs@);
    n
}

/// Compares the helper's token with the expected one without stopping at the
/// first difference; both must be 64 bytes long.
pub fn constant_token(left: &str, right: &str) -> (r: bool)
    ensures
        r == (utf8_byte_len(left@) == 64 && utf8_byte_len(right@) == 64 && left@ == right@),
{
    let l = chars_of(left);
    let q = chars_of(right);
    proof {
        lemma_byte_len_at_least_chars(l@);
        lemma_byte_len_at_least_chars(q@);
    }
    if l.len() > 64 || q.len() > 64 {
        return false;
    }
    if byte_len(l.as_slice()) != 64 || byte_len(q.as_slice()) != 64 || l.len() != q.len() {
        return false;
    }
    let mut diff: u32 = 0;
    let mut i: usize = 0;
    while i < l.len()
        invariant
            l@.len() == q@.len(),
            i <= l@.len(),
            diff == 0 <==> forall|k: int| 0 <= k < i ==> l@[k] == q@[k],
        decreases l@.len() - i,
    {
        let x: u32 = if l[i] == q[i] {
            0
        } else {
            1
        };
        let d = diff;
        assert((d | x) == 0 <==> (d == 0 && x == 0)) by (bit_vector);
        diff = d | x;
        i = i + 1;
    }
    if diff == 0 {
        assert(l@ =~= q@);
    }
    diff == 0
}

proof fn lemma_byte_len_at_least_chars(s: Seq<char>)
    ensures
        utf8_byte_len(s) >= s.len(),
    decreases s.len(),
{
    if s.len() > 0 {
        lemma_byte_len_at_least_chars(s.drop_last());
    }
}

/// The lowercase hexadecimal digit of `v` (0 to 15).
pub open spec fn hex_digit(v: int) -> char {
    if v < 10 {
        ((48 + v) as u32) as char
    } else {
        ((87 + v) as u32) as char
    }
}

/// Two lowercase hexadecimal digits per byte.
pub open spec fn hex_bytes(b: Seq<u8>) -> Seq<char>
    decreases b.len(),
{
    if b.len() == 0 {
        Seq::empty()
    } else {
        hex_bytes(b.drop_last()).push(hex_digit((b.last() / 16) as int)).push(hex_digit((b.last() % 16) as int))
    }
}

/// The last `n` hexadecimal digits of `v`, zero-padded, most significant first.
pub open spec fn hex_fixed(v: nat, n: nat) -> Seq<char>
    decreases n,
{
    if n == 0 {
        Seq::empty()
    } else {
        hex_fixed(v / 16, (n - 1) as nat).push(hex_digit((v % 16) as int))
    }
}

fn hex_char(v: u8) -> (r: char)
    requires
        v < 16,
    ensures
        r == hex_digit(v as int),
{
    if v < 10 {
        (48 + v) as char
    } else {
        (87 + v) as char
    }
}

/// The session token: the 32 random bytes in lowercase hexadecimal.
pub fn token_from_nonce(nonce: &[u8; 32]) -> (r: String)
    ensures
        r@ == hex_bytes(nonce@),
{
    let mut s = String::new();
    let mut i: usize = 0;
    while i < 32
        invariant
            i <= 32,
            s@ == hex_bytes(nonce@.subrange(0, i as int)),
        decreases 32 - i,
    {
        let b = nonce[i];
        push_char(&mut s, hex_char(b / 16));
        push_char(&mut s, hex_char(b % 16));
        assert(nonce@.subrange(0, i + 1).drop_last() =~= nonce@.subrange(0, i as int));
        i = i + 1;
    }
    assert(nonce@.subrange(0, 32) =~= nonce@);
    s
}

pub(crate) fn hex_fixed_string(v: u64, n: usize) -> (r: String)
    ensures
        r@ == hex_fixed(v as nat, n as nat),
    decreases n,
{
    if n == 0 {
        String::new()
    } else {
        let mut s = hex_fixed_string(v / 16, n - 1);
        push_char(&mut s, hex_char((v % 16) as u8));
        s
    }
}

/// The line that accepts the helper and names the peer address as 12
/// lowercase hexadecimal digits.
pub fn accepted_message(peer: u64) -> (r: String)
    ensures
        r@ == "{\"kind\":\"accepted\",\"peer\":\""@ + hex_fixed(peer as nat, 12) + "\"}\n"@,
{
    let mut s = String::from_str("{\"kind\":\"accepted\",\"peer\":\"");
    let h = hex_fixed_string(peer, 12);
    push_str(&mut s, h.as_str());
    push_str(&mut s, "\"}\n");
    s
}

/// A decoded message of the helper.
#[derive(Debug, Clone, PartialEq, Eq)]
pub enum HelperFrame {
    Hello { seq: u64, token: String, protocol: u32 },
    Ready { seq: u64, scope: SourceScope },
    State { seq: u64, stream: u8, scope: SourceScope, active: Vec<RemoteButton> },
    Heartbeat { seq: u64 },
    Diagnostic { seq: u64, event: String, result: String },
    Stopped { seq: u64, reason: String, cleanup: bool },
}

pub open spec fn frame_seq(f: HelperFrame) -> u64 {
    match f {
        HelperFrame::Hello { seq, .. } => seq,
        HelperFrame::Ready { seq, .. } => seq,
        HelperFrame::State { seq, .. } => seq,
        HelperFrame::Heartbeat { seq } => seq,
        HelperFrame::Diagnostic { seq, .. } => seq,
        HelperFrame::Stopped { seq, .. } => seq,
    }
}

impl HelperFrame {
    pub fn seq(&self) -> (r: u64)
        ensures
            r == frame_seq(*self),
    {
        match self {
            HelperFrame::Hello { seq, .. } => *seq,
            HelperFrame::Ready { seq, .. } => *seq,
            HelperFrame::State { seq, .. } => *seq,
            HelperFrame::Heartbeat { seq } => *seq,
            HelperFrame::Diagnostic { seq, .. } => *seq,
            HelperFrame::Stopped { seq, .. } => *seq,
        }
    }
}

/// Whether the first messages of a connection authenticate the helper:
/// exactly one hello, of protocol 1, carrying the expected token.
pub fn hello_accepted(frames: &Vec<HelperFrame>, token: &str) -> (r: bool)
    ensures
        r == (frames@.len() == 1 && (frames@[0] matches HelperFrame::Hello {
            token: supplied,
            protocol,
            ..
        } && protocol == 1 && utf8_byte_len(supplied@) == 64 && utf8_byte_len(token@) == 64
            && supplied@ == token@)),
{
    if frames.len() != 1 {
        return false;
    }
    match &frames[0] {
        HelperFrame::Hello { token: supplied, protocol, .. } => *protocol == 1 && constant_token(
            supplied.as_str(),
            token,
        ),
        _ => false,
    }
}

/// Largest number of bytes buffered while waiting for a newline.
pub const HELPER_BUFFER_LIMIT: usize = 8192;

/// Largest number of messages taken from one read.
pub const HELPER_FLOOD_LIMIT: usize = 64;

/// Splits the helper's byte stream into lines.
#[derive(Debug)]
pub struct LineBuffer {
    buffered: Vec<u8>,
}

/// The index of the first newline at or after `from`, if any.
pub open spec fn first_newline(b: Seq<u8>) -> Option<int> {
    if exists|i: int| 0 <= i < b.len() && b[i] == 10 {
        Some(choose|i: int| 0 <= i < b.len() && b[i] == 10 && forall|j: int| 0 <= j < i ==> b[j] != 10)
    } else {
        None
    }
}

/// The complete lines at the start of `b`, without their newlines.
pub open spec fn no_newline(b: Seq<u8>) -> bool {
    forall|i: int| 0 <= i < b.len() ==> #[trigger] b[i] != 10
}

impl LineBuffer {
    pub closed spec fn view_bytes(&self) -> Seq<u8> {
        self.buffered@
    }

    pub fn new() -> (r: Self)
        ensures
            r.view_bytes() == Seq::<u8>::empty(),
    {
        LineBuffer { buffered: Vec::new() }
    }

    /// Appends `bytes` and takes out the complete lines, in order, without
    /// their newlines. More than 8192 buffered bytes, or more than 64
    /// complete lines, is an error.
    pub fn feed(&mut self, bytes: &[u8]) -> (r: Result<Vec<Vec<u8>>, &'static str>)
        ensures
            match r {
                Ok(lines) => {
                    &&& old(self).view_bytes().len() + bytes@.len() <= HELPER_BUFFER_LIMIT
                    &&& lines@.len() <= HELPER_FLOOD_LIMIT
                    &&& no_newline(final(self).view_bytes())
                    &&& old(self).view_bytes() + bytes@ == joined(lines@) + final(self).view_bytes()
                    &&& forall|k: int| 0 <= k < lines@.len() ==> no_newline(#[trigger] lines@[k]@)
                },
                Err(reason) => (reason@ == "ipc_message_too_large"@ && old(self).view_bytes().len()
                    + bytes@.len() > HELPER_BUFFER_LIMIT) || (reason@ == "ipc_message_flood"@
                    && old(self).view_bytes().len() + bytes@.len() <= HELPER_BUFFER_LIMIT),
            },
    {
        let mut i: usize = 0;
        while i < bytes.len()
            invariant
                i <= bytes@.len(),
                self.buffered@ == old(self).buffered@ + bytes@.subrange(0, i as int),
            decreases bytes@.len() - i,
        {
            self.buffered.push(bytes[i]);
            i = i + 1;
            assert(self.buffered@ =~= old(self).buffered@ + bytes@.subrange(0, i as int));
        }
        assert(bytes@.subrange(0, bytes@.len() as int) =~= bytes@);
        if self.buffered.len() > HELPER_BUFFER_LIMIT {
            return Err("ipc_message_too_large");
        }
        let lines = take_lines(&mut self.buffered);
        if lines.len() > HELPER_FLOOD_LIMIT {
            return Err("ipc_message_flood");
        }
        Ok(lines)
    }
}

/// Takes every complete line out of the received bytes `pending`, in order
/// and without their newlines; what stays is the unterminated rest. The
/// lines and the rest joined again (each line with its newline) are the
/// bytes that were pending.
pub fn take_lines(pending: &mut Vec<u8>) -> (lines: Vec<Vec<u8>>)
    ensures
        old(pending)@ == joined(lines@) + final(pending)@,
        no_newline(final(pending)@),
        forall|k: int| 0 <= k < lines@.len() ==> no_newline(#[trigger] lines@[k]@),
{
    let ghost total = pending@;
    let mut lines: Vec<Vec<u8>> = Vec::new();
    let mut start: usize = 0;
    let mut k: usize = 0;
    while k < pending.len()
        invariant
            pending@ == total,
            start <= k <= total.len(),
            joined(lines@) == total.subrange(0, start as int),
            no_newline(total.subrange(start as int, k as int)),
            forall|m: int| 0 <= m < lines@.len() ==> no_newline(#[trigger] lines@[m]@),
        decreases total.len() - k,
    {
        if pending[k] == 10 {
            let mut line: Vec<u8> = Vec::new();
            let mut j = start;
            while j < k
                invariant
                    pending@ == total,
                    start <= j <= k < total.len(),
                    line@ == total.subrange(start as int, j as int),
                decreases k - j,
            {
                line.push(pending[j]);
                j = j + 1;
                assert(line@ =~= total.subrange(start as int, j as int));
            }
            let ghost before = lines@;
            lines.push(line);
            proof {
                lemma_joined_push(before, total.subrange(start as int, k as int));
                assert(total.subrange(0, k + 1) =~= total.subrange(0, start as int)
                    + total.subrange(start as int, k as int) + seq![10u8]);
            }
            start = k + 1;
            assert(no_newline(total.subrange(start as int, k + 1))) by {
                assert(total.subrange(start as int, k + 1).len() == 0);
            }
        } else {
            assert(no_newline(total.subrange(start as int, k + 1))) by {
                assert forall|m: int| 0 <= m < k + 1 - start implies #[trigger] total.subrange(
                    start as int,
                    k + 1,
                )[m] != 10 by {
                    if m < k - start {
                        assert(total.subrange(start as int, k + 1)[m] == total.subrange(
                            start as int,
                            k as int,
                        )[m]);
                    }
                }
            }
        }
        k = k + 1;
    }
    let mut rest: Vec<u8> = Vec::new();
    let mut j = start;
    while j < pending.len()
        invariant
            pending@ == total,
            start <= j <= total.len(),
            rest@ == total.subrange(start as int, j as int),
        decreases total.len() - j,
    {
        rest.push(pending[j]);
        j = j + 1;
        assert(rest@ =~= total.subrange(start as int, j as int));
    }
    *pending = rest;
    assert(total =~= total.subrange(0, start as int) + total.subrange(start as int, total.len() as int));
    lines
}

/// The lines joined again, each followed by its newline.
pub open spec fn joined(lines: Seq<Vec<u8>>) -> Seq<u8>
    decreases lines.len(),
{
    if lines.len() == 0 {
        Seq::empty()
    } else {
        joined(lines.drop_last()) + lines.last()@ + seq![10u8]
    }
}

proof fn lemma_joined_push(lines: Seq<Vec<u8>>, line: Seq<u8>)
    ensures
        forall|v: Vec<u8>| v@ == line ==> #[trigger] joined(lines.push(v)) == joined(lines) + line
            + seq![10u8],
{
    assert forall|v: Vec<u8>| v@ == line implies #[trigger] joined(lines.push(v)) == joined(lines)
        + line + seq![10u8] by {
        assert(lines.push(v).drop_last() =~= lines);
    }
}

/// Checks that the helper numbers its messages 0, 1, 2, ... without gaps.
#[derive(Debug)]
pub struct SequenceCheck {
    pub next: u64,
}

impl SequenceCheck {
    /// Accepts a message numbered `seq` when it is the next one.
    pub fn accept(&mut self, seq: u64) -> (r: Result<(), &'static str>)
        ensures
            seq != old(self).next ==> (r matches Err(e) && e@ == "ipc_sequence_mismatch"@
                && final(self).next == old(self).next),
            seq == old(self).next && seq == u64::MAX ==> (r matches Err(e) && e@
                == "ipc_sequence_overflow"@),
            seq == old(self).next && seq < u64::MAX ==> r is Ok && final(self).next == seq + 1,
    {
        if seq != self.next {
            return Err("ipc_sequence_mismatch");
        }
        if self.next == u64::MAX {
            return Err("ipc_sequence_overflow");
        }
        self.next = self.next + 1;
        Ok(())
    }
}

/// Reports allowed in one second.
pub const INPUT_RATE_LIMIT: u16 = 256;

/// How long a key may stay held before the session is stopped.
pub const HELD_KEY_LIMIT_MS: u64 = 10_000;

/// `a - b`, or 0 when `b` is later.
pub open spec fn elapsed(now: u64, since: u64) -> int {
    if now >= since {
        now - since
    } else {
        0
    }
}

/// Bounds on the captured input: at most 256 reports per second, only valid
/// filter-key states, and no key held for ten seconds (a lost release).
#[derive(Debug)]
pub struct InputHealth {
    window: u64,
    reports: u16,
    held_since: Option<u64>,
}

impl InputHealth {
    pub closed spec fn window_view(&self) -> u64 {
        self.window
    }

    pub closed spec fn reports_view(&self) -> u16 {
        self.reports
    }

    pub closed spec fn held_since_view(&self) -> Option<u64> {
        self.held_since
    }

    pub fn new(now: u64) -> (r: Self)
        ensures
            r.window_view() == now && r.reports_view() == 0 && r.held_since_view() is None,
    {
        InputHealth { window: now, reports: 0, held_since: None }
    }

    /// What counting one state report holding `active` at `now` does: the
    /// health goes from `before` to `after`, and the report is refused with
    /// `outcome` (`None`: accepted).
    pub open spec fn observed(
        before: &Self,
        after: &Self,
        active: Seq<RemoteButton>,
        now: u64,
        outcome: Option<Seq<char>>,
    ) -> bool {
        let valid = active.len() <= 3 && no_repeats(active) && forall|i: int|
            0 <= i < active.len() ==> is_filter_button(#[trigger] active[i]);
        let restart = elapsed(now, before.window_view()) >= 1000;
        let count = (if restart {
            0
        } else {
            before.reports_view() as int
        }) + 1;
        &&& !valid ==> {
            &&& outcome == Some("invalid_button_state"@)
            &&& after.window_view() == before.window_view()
            &&& after.reports_view() == before.reports_view()
            &&& after.held_since_view() == before.held_since_view()
        }
        &&& valid ==> {
            &&& after.window_view() == (if restart {
                now
            } else {
                before.window_view()
            })
            &&& after.reports_view() == (if count > u16::MAX {
                u16::MAX as int
            } else {
                count
            })
            &&& count > INPUT_RATE_LIMIT ==> outcome == Some("input_rate_exceeded"@)
                && after.held_since_view() == before.held_since_view()
            &&& count <= INPUT_RATE_LIMIT ==> outcome is None && after.held_since_view() == (
            if active.len() == 0 {
                None
            } else if before.held_since_view() is None {
                Some(now)
            } else {
                before.held_since_view()
            })
        }
    }

    /// Counts one state report holding `active` at `now`.
    pub fn observe(&mut self, active: &[RemoteButton], now: u64) -> (r: Result<(), &'static str>)
        ensures
            Self::observed(
                old(self),
                final(self),
                active@,
                now,
                match r {
                    Ok(()) => None,
                    Err(e) => Some(e@),
                },
            ),
    {
        let mut all_filter = true;
        let mut i: usize = 0;
        while i < active.len()
            invariant
                i <= active@.len(),
                all_filter == forall|k: int| 0 <= k < i ==> is_filter_button(#[trigger] active@[k]),
            decreases active@.len() - i,
        {
            if !requires_filter(active[i]) {
                all_filter = false;
            }
            i = i + 1;
        }
        if active.len() > 3 || !no_repeats_exec(active) || !all_filter {
            return Err("invalid_button_state");
        }
        let since = if now >= self.window {
            now - self.window
        } else {
            0
        };
        if since >= 1000 {
            self.window = now;
            self.reports = 0;
        }
        self.reports = self.reports.saturating_add(1);
        if self.reports > INPUT_RATE_LIMIT {
            return Err("input_rate_exceeded");
        }
        if active.len() == 0 {
            self.held_since = None;
        } else if self.held_since.is_none() {
            self.held_since = Some(now);
        }
        Ok(())
    }

    /// Whether a key has been held for ten seconds at `now`.
    pub fn expired(&self, now: u64) -> (r: bool)
        ensures
            r == (self.held_since_view() matches Some(p) && elapsed(now, p) >= HELD_KEY_LIMIT_MS),
    {
        match self.held_since {
            Some(p) => now >= p && now - p >= HELD_KEY_LIMIT_MS,
            None => false,
        }
    }
}


/// How long the helper may stay silent once ready.
pub const HELPER_SILENCE_LIMIT_MS: u64 = 4_000;

/// Period of the lease message that keeps the helper running.
pub const HELPER_LEASE_INTERVAL_MS: u64 = 1_000;

/// What the session loop does next.
#[derive(Debug, PartialEq, Eq)]
pub enum HelperTick {
    /// End the session with this outcome (a normal end or a failure reason).
    Stop(Result<String, String>),
    /// Go on reading, after sending a lease when `send_lease` is set.
    Continue { send_lease: bool },
}

/// What one message of the helper leads to.
#[derive(Debug, Clone, PartialEq, Eq)]
pub enum FrameOutcome {
    /// The helper is ready: start the capture session in the mapping engine.
    Begin(SourceScope),
    /// Hand this state report to the capture session.
    Forward { seq: u64, stream: u8, scope: SourceScope, active: Vec<RemoteButton> },
    /// Log this diagnostic.
    Log { event: String, result: String },
    /// Nothing to do.
    Continue,
    /// The helper stopped by itself with this reason and cleanup flag.
    Finished { reason: String, cleanup: bool },
    /// End the session with this failure reason.
    Stop(String),
}

/// The decisions of the helper session loop.
#[derive(Debug)]
pub struct HelperSession {
    pub ready: bool,
    pub handshake_deadline: u64,
    pub last_message: u64,
    pub next_lease: u64,
    pub health: InputHealth,
}

/// `a + b`, or the largest `u64`.
pub open spec fn later(a: u64, b: u64) -> u64 {
    if a + b > u64::MAX {
        u64::MAX
    } else {
        (a + b) as u64
    }
}

impl HelperSession {
    /// A session that was accepted at `now` and must become ready before
    /// `handshake_deadline`.
    pub fn new(now: u64, handshake_deadline: u64) -> (r: Self)
        ensures
            !r.ready && r.handshake_deadline == handshake_deadline && r.last_message == now
                && r.next_lease == now,
            r.health.window_view() == now && r.health.reports_view() == 0
                && r.health.held_since_view() is None,
    {
        HelperSession {
            ready: false,
            handshake_deadline,
            last_message: now,
            next_lease: now,
            health: InputHealth::new(now),
        }
    }

    /// One turn of the loop at `now`; `session_valid` says whether the
    /// capture permit is still valid and the key listener ready.
    pub fn tick(&mut self, now: u64, session_valid: bool) -> (r: HelperTick)
        ensures
            final(self).ready == old(self).ready,
            final(self).handshake_deadline == old(self).handshake_deadline,
            final(self).last_message == old(self).last_message,
            final(self).health.held_since_view() == old(self).health.held_since_view(),
            (old(self).health.held_since_view() matches Some(p) && elapsed(now, p)
                >= HELD_KEY_LIMIT_MS) ==> (r matches HelperTick::Stop(Err(t)) && t@
                == "held_key_timeout"@),
            !(old(self).health.held_since_view() matches Some(p) && elapsed(now, p)
                >= HELD_KEY_LIMIT_MS) && !session_valid ==> (r matches HelperTick::Stop(Ok(t))
                && t@ == "session_ended"@),
            !(old(self).health.held_since_view() matches Some(p) && elapsed(now, p)
                >= HELD_KEY_LIMIT_MS) && session_valid && ((!old(self).ready && now
                >= old(self).handshake_deadline) || (old(self).ready && elapsed(
                now,
                old(self).last_message,
            ) > HELPER_SILENCE_LIMIT_MS)) ==> (r matches HelperTick::Stop(Err(t)) && t@
                == "helper_heartbeat_lost"@),
            !(old(self).health.held_since_view() matches Some(p) && elapsed(now, p)
                >= HELD_KEY_LIMIT_MS) && session_valid && !((!old(self).ready && now
                >= old(self).handshake_deadline) || (old(self).ready && elapsed(
                now,
                old(self).last_message,
            ) > HELPER_SILENCE_LIMIT_MS)) ==> r == (HelperTick::Continue {
                send_lease: now >= old(self).next_lease,
            }),
            r matches HelperTick::Stop(_) ==> final(self).next_lease == old(self).next_lease,
            r matches HelperTick::Continue { send_lease } ==> final(self).next_lease == (
            if send_lease {
                later(now, HELPER_LEASE_INTERVAL_MS)
            } else {
                old(self).next_lease
            }),
    {
        if self.health.expired(now) {
            return HelperTick::Stop(Err(String::from_str("held_key_timeout")));
        }
        if !session_valid {
            return HelperTick::Stop(Ok(String::from_str("session_ended")));
        }
        let silent = if now >= self.last_message {
            now - self.last_message > HELPER_SILENCE_LIMIT_MS
        } else {
            false
        };
        if (!self.ready && now >= self.handshake_deadline) || (self.ready && silent) {
            return HelperTick::Stop(Err(String::from_str("helper_heartbeat_lost")));
        }
        let send_lease = now >= self.next_lease;
        if send_lease {
            self.next_lease = now.saturating_add(HELPER_LEASE_INTERVAL_MS);
        }
        HelperTick::Continue { send_lease }
    }

    /// Takes one message of the helper at `now`.
    pub fn on_frame(&mut self, frame: HelperFrame, now: u64) -> (r: FrameOutcome)
        ensures
            final(self).last_message == now,
            final(self).handshake_deadline == old(self).handshake_deadline,
            final(self).next_lease == old(self).next_lease,
            match frame {
                HelperFrame::Ready { scope, .. } => if !old(self).ready {
                    final(self).ready && r == FrameOutcome::Begin(scope)
                } else {
                    r is Stop
                },
                HelperFrame::State { seq, stream, scope, active } => if old(self).ready {
                    final(self).ready && match r {
                        FrameOutcome::Forward { seq: s2, stream: t2, scope: c2, active: a2 } => s2
                            == seq && t2 == stream && c2 == scope && a2@ == active@
                            && InputHealth::observed(
                            &old(self).health,
                            &final(self).health,
                            active@,
                            now,
                            None,
                        ),
                        FrameOutcome::Stop(reason) => InputHealth::observed(
                            &old(self).health,
                            &final(self).health,
                            active@,
                            now,
                            Some(reason@),
                        ),
                        _ => false,
                    }
                } else {
                    r is Stop
                },
                HelperFrame::Heartbeat { .. } => if old(self).ready {
                    r == FrameOutcome::Continue
                } else {
                    r is Stop
                },
                HelperFrame::Diagnostic { event, result, .. } => if safe_code_spec(event@)
                    && safe_code_spec(result@) {
                    r == (FrameOutcome::Log { event, result })
                } else {
                    r is Stop
                },
                HelperFrame::Stopped { reason, cleanup, .. } => if safe_code_spec(reason@) {
                    r == (FrameOutcome::Finished { reason, cleanup })
                } else {
                    r is Stop
                },
                HelperFrame::Hello { .. } => r is Stop,
            },
            !(frame is State && old(self).ready) ==> (r matches FrameOutcome::Stop(reason)
                ==> reason@ == "ipc_unexpected_message"@),
            !(frame is State && old(self).ready) ==> final(self).health.window_view() == old(
                self,
            ).health.window_view() && final(self).health.reports_view() == old(
                self,
            ).health.reports_view() && final(self).health.held_since_view() == old(
                self,
            ).health.held_since_view(),
            !(frame is Ready) ==> final(self).ready == old(self).ready,
    {
        self.last_message = now;
        match frame {
            HelperFrame::Ready { scope, .. } => {
                if !self.ready {
                    self.ready = true;
                    return FrameOutcome::Begin(scope);
                }
            },
            HelperFrame::State { seq, stream, scope, active } => {
                if self.ready {
                    return match self.health.observe(active.as_slice(), now) {
                        Err(reason) => FrameOutcome::Stop(String::from_str(reason)),
                        Ok(()) => FrameOutcome::Forward { seq, stream, scope, active },
                    };
                }
            },
            HelperFrame::Heartbeat { .. } => {
                if self.ready {
                    return FrameOutcome::Continue;
                }
            },
            HelperFrame::Diagnostic { event, result, .. } => {
                if safe_code(event.as_str()) && safe_code(result.as_str()) {
                    return FrameOutcome::Log { event, result };
                }
            },
            HelperFrame::Stopped { reason, cleanup, .. } => {
                if safe_code(reason.as_str()) {
                    return FrameOutcome::Finished { reason, cleanup };
                }
            },
            HelperFrame::Hello { .. } => {},
        }
        FrameOutcome::Stop(String::from_str("ipc_unexpected_message"))
    }
}

/// The result of a session whose loop ended with `outcome`, once the helper
/// did (`cleanup`) or did not confirm its cleanup: a normal end needs the
/// confirmation.
pub fn finish_session(outcome: Result<String, String>, cleanup: bool) -> (r: Result<
    (String, bool),
    String,
>)
    ensures
        match outcome {
            Ok(reason) => if cleanup {
                r == Ok::<(String, bool), String>((reason, true))
            } else {
                r matches Err(t) && t@ == "helper_cleanup_unconfirmed"@
            },
            Err(e) => r == Err::<(String, bool), String>(e),
        },
{
    match outcome {
        Ok(reason) => if cleanup {
            Ok((reason, true))
        } else {
            Err(String::from_str("helper_cleanup_unconfirmed"))
        },
        Err(e) => Err(e),
    }
}

/// The result of a helper that stopped by itself: only an explicit stop
/// request is a normal end.
pub fn helper_stopped(reason: String, cleanup: bool) -> (r: Result<(String, bool), String>)
    ensures
        reason@ == "stop_requested"@ ==> r == Ok::<(String, bool), String>((reason, cleanup)),
        reason@ != "stop_requested"@ ==> r == Err::<(String, bool), String>(reason),
{
    let expected = chars_of("stop_requested");
    let got = chars_of(reason.as_str());
    if crate::text::chars_equal(got.as_slice(), expected.as_slice()) {
        Ok((reason, cleanup))
    } else {
        Err(reason)
    }
}

} // verus!
