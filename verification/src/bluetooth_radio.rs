//! Decisions of the automatic Bluetooth radio recovery: when to cycle the
//! radio, the per-window budget with its cooldown, which failures fall back to
//! a system-level adapter restart, and the texts reported for each failure.
//! Times are milliseconds on a monotonic clock.
use vstd::prelude::*;
use crate::text::{chars_of, push_str};

verus! {

/// Consecutive reconnect failures after which one radio cycle is tried.
pub const RADIO_RECOVERY_AFTER_FAILURES: u32 = 5;

/// Radio cycles allowed in one recovery window.
pub const RADIO_RECOVERY_MAX_CYCLES: u32 = 2;

/// Cooldown, in milliseconds, after a window is used up; then a new window opens.
pub const RADIO_RECOVERY_RETRY_COOLDOWN_MS: u64 = 60_000;

/// Windows after which recovery is considered futile.
pub const RADIO_RECOVERY_FUTILE_WINDOW: u32 = 3;

/// Once futile, only every this many windows still cycles the radio.
pub const RADIO_RECOVERY_FUTILE_STRIDE: u32 = 5;

/// Whether a radio cycle is due: enough consecutive failures, and the window
/// still has budget.
pub fn should_cycle(consecutive_failures: u32, cycles_done: u32) -> (r: bool)
    ensures
        r == (consecutive_failures >= RADIO_RECOVERY_AFTER_FAILURES && cycles_done
            < RADIO_RECOVERY_MAX_CYCLES),
{
    consecutive_failures >= RADIO_RECOVERY_AFTER_FAILURES && cycles_done < RADIO_RECOVERY_MAX_CYCLES
}

/// One granted radio cycle.
#[derive(Debug, Clone, Copy, PartialEq, Eq, Structural)]
pub struct RadioRecoveryCycle {
    /// Position of this cycle in its window, from 1.
    pub cycle: u32,
    /// Number of the recovery window, from 1, growing until a reset.
    pub window: u32,
    /// Whether this cycle opened a new window after a cooldown.
    pub reopened: bool,
}

/// The abstract state of a recovery budget.
#[derive(Debug, Clone, Copy, PartialEq, Eq, Structural)]
pub struct BudgetState {
    pub cycles_done: u32,
    pub window: u32,
    pub resume_at: Option<u64>,
}

/// A budget is consistent when a used-up window, and only that, has a time
/// at which it reopens.
pub open spec fn budget_wf(b: BudgetState) -> bool {
    &&& b.cycles_done <= RADIO_RECOVERY_MAX_CYCLES
    &&& b.window >= 1
    &&& (b.resume_at is Some <==> b.cycles_done == RADIO_RECOVERY_MAX_CYCLES)
}

/// A fresh budget: window 1, nothing used.
pub open spec fn fresh_budget() -> BudgetState {
    BudgetState { cycles_done: 0, window: 1, resume_at: None }
}

/// `window + 1`, or the largest `u32`.
pub open spec fn next_window(w: u32) -> u32 {
    if w == u32::MAX {
        w
    } else {
        (w + 1) as u32
    }
}

/// What `begin_cycle` does: reopen a used-up window once its cooldown is
/// over, then grant a cycle when one is due.
pub open spec fn budget_step(b: BudgetState, failures: u32, now: u64) -> (
    BudgetState,
    Option<RadioRecoveryCycle>,
) {
    let exhausted = b.cycles_done >= RADIO_RECOVERY_MAX_CYCLES;
    let cooled = b.resume_at matches Some(t) && now >= t;
    if exhausted && !cooled {
        (b, None)
    } else {
        let opened = if exhausted {
            BudgetState { cycles_done: 0, window: next_window(b.window), resume_at: None }
        } else {
            b
        };
        if !(failures >= RADIO_RECOVERY_AFTER_FAILURES && opened.cycles_done
            < RADIO_RECOVERY_MAX_CYCLES) {
            (opened, None)
        } else {
            let done = (opened.cycles_done + 1) as u32;
            let after = BudgetState {
                cycles_done: done,
                window: opened.window,
                resume_at: if done >= RADIO_RECOVERY_MAX_CYCLES {
                    Some((now + RADIO_RECOVERY_RETRY_COOLDOWN_MS) as u64)
                } else {
                    opened.resume_at
                },
            };
            (after, Some(RadioRecoveryCycle { cycle: done, window: opened.window, reopened: exhausted }))
        }
    }
}

/// At most two radio cycles per window; a used-up window cools down and then
/// a new window opens, so recovery is never exhausted for good.
#[derive(Debug)]
pub struct RadioRecoveryBudget {
    cycles_done: u32,
    window: u32,
    resume_at: Option<u64>,
}

impl View for RadioRecoveryBudget {
    type V = BudgetState;

    closed spec fn view(&self) -> BudgetState {
        BudgetState { cycles_done: self.cycles_done, window: self.window, resume_at: self.resume_at }
    }
}

impl Default for RadioRecoveryBudget {
    fn default() -> (r: Self)
        ensures
            r@ == fresh_budget(),
    {
        RadioRecoveryBudget { cycles_done: 0, window: 1, resume_at: None }
    }
}

impl RadioRecoveryBudget {
    /// Asks for one radio cycle after `consecutive_failures` failed reconnects,
    /// at time `now` (milliseconds).
    pub fn begin_cycle(&mut self, consecutive_failures: u32, now: u64) -> (r: Option<
        RadioRecoveryCycle,
    >)
        requires
            budget_wf(old(self)@),
            now <= u64::MAX - RADIO_RECOVERY_RETRY_COOLDOWN_MS,
        ensures
            budget_wf(final(self)@),
            (final(self)@, r) == budget_step(old(self)@, consecutive_failures, now),
    {
        let mut reopened = false;
        if self.cycles_done >= RADIO_RECOVERY_MAX_CYCLES {
            let cooled = match self.resume_at {
                Some(resume_at) => now >= resume_at,
                None => false,
            };
            if !cooled {
                return None;
            }
            self.cycles_done = 0;
            self.resume_at = None;
            self.window = self.window.saturating_add(1);
            reopened = true;
        }
        if !should_cycle(consecutive_failures, self.cycles_done) {
            return None;
        }
        self.cycles_done = self.cycles_done + 1;
        if self.cycles_done >= RADIO_RECOVERY_MAX_CYCLES {
            self.resume_at = Some(now + RADIO_RECOVERY_RETRY_COOLDOWN_MS);
        }
        Some(RadioRecoveryCycle { cycle: self.cycles_done, window: self.window, reopened })
    }

    /// Back to a fresh budget (after a successful connection, an explicit
    /// disconnect or a system resume).
    pub fn reset(&mut self)
        ensures
            final(self)@ == fresh_budget(),
    {
        self.cycles_done = 0;
        self.window = 1;
        self.resume_at = None;
    }
}

/// A window never grants more than the cap: every granted cycle is number 1
/// or 2 of its window.
pub proof fn law_cycles_per_window_are_capped(b: BudgetState, failures: u32, now: u64)
    requires
        budget_wf(b),
        now <= u64::MAX - RADIO_RECOVERY_RETRY_COOLDOWN_MS,
    ensures
        budget_step(b, failures, now).1 matches Some(c) ==> 1 <= c.cycle
            <= RADIO_RECOVERY_MAX_CYCLES,
        budget_wf(budget_step(b, failures, now).0),
{
}

/// Recovery is never exhausted for good: with enough failures, a cycle is
/// granted whenever the window has budget or its cooldown is over; a used-up
/// window refuses only before its reopening time.
pub proof fn law_budget_reopens_after_cooldown(b: BudgetState, failures: u32, now: u64)
    requires
        budget_wf(b),
        now <= u64::MAX - RADIO_RECOVERY_RETRY_COOLDOWN_MS,
        failures >= RADIO_RECOVERY_AFTER_FAILURES,
    ensures
        (b.cycles_done < RADIO_RECOVERY_MAX_CYCLES || (b.resume_at matches Some(t) && now >= t))
            <==> budget_step(b, failures, now).1 is Some,
        (b.cycles_done == RADIO_RECOVERY_MAX_CYCLES && (b.resume_at matches Some(t) && now >= t))
            ==> budget_step(b, failures, now).1 == Some(
            RadioRecoveryCycle { cycle: 1, window: next_window(b.window), reopened: true },
        ),
{
}

/// After a reset the next due failure count gets the first cycle of window 1.
pub proof fn law_reset_restores_first_window(failures: u32, now: u64)
    requires
        failures >= RADIO_RECOVERY_AFTER_FAILURES,
        now <= u64::MAX - RADIO_RECOVERY_RETRY_COOLDOWN_MS,
    ensures
        budget_step(fresh_budget(), failures, now).1 == Some(
            RadioRecoveryCycle { cycle: 1, window: 1, reopened: false },
        ),
{
}

/// The number of UTF-8 bytes of a character.
pub open spec fn utf8_len(c: char) -> nat {
    if (c as u32) < 0x80 {
        1
    } else if (c as u32) < 0x800 {
        2
    } else if (c as u32) < 0x10000 {
        3
    } else {
        4
    }
}

/// The number of UTF-8 bytes of a string.
pub open spec fn utf8_byte_len(s: Seq<char>) -> nat
    decreases s.len(),
{
    if s.len() == 0 {
        0
    } else {
        utf8_byte_len(s.drop_last()) + utf8_len(s.last())
    }
}

/// Characters that could break out of the quoted command-line argument.
pub open spec fn is_unsafe_pnp_char(c: char) -> bool {
    c == '\0' || c == '"' || c == '\r' || c == '\n'
}

/// An adapter instance identifier that may be quoted into the elevated
/// `pnputil /restart-device` command line: non-empty, at most 512 bytes, and
/// free of NUL, quote, CR and LF.
pub open spec fn safe_pnp_instance_id(s: Seq<char>) -> bool {
    &&& s.len() > 0
    &&& utf8_byte_len(s) <= 512
    &&& forall|i: int| 0 <= i < s.len() ==> !is_unsafe_pnp_char(#[trigger] s[i])
}

pub(crate) fn char_utf8_len(c: char) -> (r: usize)
    ensures
        r == utf8_len(c),
{
    let v = c as u32;
    if v < 0x80 {
        1
    } else if v < 0x800 {
        2
    } else if v < 0x10000 {
        3
    } else {
        4
    }
}

proof fn lemma_utf8_byte_len_grows(s: Seq<char>, i: int)
    requires
        0 <= i < s.len(),
    ensures
        utf8_byte_len(s.subrange(0, i + 1)) == utf8_byte_len(s.subrange(0, i)) + utf8_len(s[i]),
        utf8_byte_len(s.subrange(0, i)) <= utf8_byte_len(s),
    decreases s.len(),
{
    assert(s.subrange(0, i + 1).drop_last() =~= s.subrange(0, i));
    if i + 1 < s.len() {
        lemma_utf8_byte_len_grows(s.drop_last(), i);
        assert(s.drop_last().subrange(0, i + 1) =~= s.subrange(0, i + 1));
        assert(s.drop_last().subrange(0, i) =~= s.subrange(0, i));
        lemma_utf8_byte_len_prefix(s.drop_last(), i + 1);
        assert(s.drop_last().subrange(0, i + 1) =~= s.subrange(0, i + 1));
    } else {
        assert(s.subrange(0, i + 1) =~= s);
    }
}

proof fn lemma_utf8_byte_len_prefix(s: Seq<char>, k: int)
    requires
        0 <= k <= s.len(),
    ensures
        utf8_byte_len(s.subrange(0, k)) <= utf8_byte_len(s),
    decreases s.len() - k,
{
    if k < s.len() {
        lemma_utf8_byte_len_prefix(s, k + 1);
        assert(s.subrange(0, k + 1).drop_last() =~= s.subrange(0, k));
    } else {
        assert(s.subrange(0, k) =~= s);
    }
}

/// Whether an adapter instance identifier is safe to pass to the elevated
/// adapter restart.
pub fn is_safe_pnp_instance_id(instance_id: &str) -> (r: bool)
    ensures
        r == safe_pnp_instance_id(instance_id@),
{
    let cs = chars_of(instance_id);
    if cs.len() == 0 {
        return false;
    }
    let mut bytes: usize = 0;
    let mut i: usize = 0;
    while i < cs.len()
        invariant
            cs@ == instance_id@,
            i <= cs@.len(),
            bytes == utf8_byte_len(cs@.subrange(0, i as int)),
            bytes <= 512,
            forall|k: int| 0 <= k < i ==> !is_unsafe_pnp_char(#[trigger] cs@[k]),
        decreases cs@.len() - i,
    {
        let c = cs[i];
        if c == '\0' || c == '"' || c == '\r' || c == '\n' {
            return false;
        }
        proof {
            lemma_utf8_byte_len_grows(cs@, i as int);
        }
        let n = char_utf8_len(c);
        if bytes + n > 512 {
            proof {
                lemma_utf8_byte_len_prefix(cs@, i + 1);
            }
            return false;
        }
        bytes = bytes + n;
        i = i + 1;
    }
    assert(cs@.subrange(0, cs@.len() as int) =~= cs@);
    true
}

/// The command-line parameters of the elevated adapter restart, or `None`
/// when the identifier is not safe to quote.
pub fn pnp_restart_parameters(instance_id: &str) -> (r: Option<String>)
    ensures
        match r {
            Some(p) => safe_pnp_instance_id(instance_id@) && p@ == "/restart-device \""@
                + instance_id@ + "\""@,
            None => !safe_pnp_instance_id(instance_id@),
        },
{
    if !is_safe_pnp_instance_id(instance_id) {
        return None;
    }
    let mut s = String::from_str("/restart-device \"");
    push_str(&mut s, instance_id);
    push_str(&mut s, "\"");
    Some(s)
}

/// Whether an HRESULT carries the given Win32 error code in its low word.
pub fn hresult_matches(hresult: u32, win32_code: u32) -> (r: bool)
    ensures
        r == (hresult % 0x10000 == win32_code),
{
    let low = hresult & 0xFFFF;
    assert(hresult & 0xFFFF == hresult % 0x10000) by (bit_vector);
    low == win32_code
}

/// Out-of-resources (`0x80070008`) or abort (`0x80004004`): the WinRT
/// Bluetooth stack itself is unusable, and only a restart of the adapter helps.
pub fn is_bluetooth_stack_resource_failure(hresult: u32) -> (r: bool)
    ensures
        r == (hresult == 0x8007_0008 || hresult == 0x8000_4004),
{
    hresult == 0x8007_0008 || hresult == 0x8000_4004
}

/// A step of a radio cycle that did not succeed.
#[derive(Debug, Clone, PartialEq, Eq)]
pub enum RadioCycleFailure {
    /// Asking for radio access failed with an HRESULT and its text.
    AccessRequestFailed { hresult: u32, detail: String },
    /// Access was answered with a status other than allowed.
    AccessDenied { status: String },
    /// No Bluetooth radio was found.
    RadioMissing,
    /// Enumerating the radios failed.
    EnumerationFailed { hresult: u32, detail: String },
    /// Turning the radio off was answered with a status other than allowed.
    OffDenied { status: String },
    /// Turning the radio off failed.
    OffFailed { detail: String },
    /// Reading the radio state while waiting for off failed.
    OffStateUnreadable { detail: String },
    /// The radio did not report off within five seconds.
    OffTimedOut,
    /// The retried switch-on was answered with `status` and not confirmed.
    OnUnconfirmed { status: String },
    /// The retried switch-on failed.
    OnFailed { detail: String },
}

/// What a failed radio cycle leads to.
#[derive(Debug, Clone, PartialEq, Eq)]
pub enum RadioCycleVerdict {
    /// The WinRT stack is unusable: fall back to restarting the adapter.
    RestartAdapter,
    /// Report this text and retry in a later recovery window.
    Report(String),
}

/// The text reported for a failure that does not fall back to an adapter restart.
pub open spec fn radio_failure_text(f: RadioCycleFailure) -> Seq<char> {
    match f {
        RadioCycleFailure::AccessRequestFailed { detail, .. } => "请求蓝牙无线电控制权限失败："@ + detail@,
        RadioCycleFailure::AccessDenied { status } => "蓝牙无线电控制权限不可用（"@ + status@ + "）"@,
        RadioCycleFailure::RadioMissing => "未找到蓝牙无线电"@,
        RadioCycleFailure::EnumerationFailed { detail, .. } => "枚举蓝牙无线电失败："@ + detail@,
        RadioCycleFailure::OffDenied { status } => "关闭蓝牙无线电未获允许（"@ + status@ + "）"@,
        RadioCycleFailure::OffFailed { detail } => "关闭蓝牙无线电失败："@ + detail@,
        RadioCycleFailure::OffStateUnreadable { detail } => "读取蓝牙无线电关闭状态失败："@ + detail@,
        RadioCycleFailure::OffTimedOut => "关闭蓝牙无线电在 5 秒内未生效"@,
        RadioCycleFailure::OnUnconfirmed { status } => "蓝牙无线电恢复打开未确认（访问状态 "@ + status@
            + "），将在后续自动恢复窗口重试"@,
        RadioCycleFailure::OnFailed { detail } => "蓝牙无线电恢复打开失败："@ + detail@
            + "，将在后续自动恢复窗口重试"@,
    }
}

/// Whether a failure means the WinRT Bluetooth stack is unusable.
pub open spec fn falls_back_to_adapter_restart(f: RadioCycleFailure) -> bool {
    match f {
        RadioCycleFailure::AccessRequestFailed { hresult, .. } => hresult == 0x8007_0008 || hresult
            == 0x8000_4004,
        RadioCycleFailure::EnumerationFailed { hresult, .. } => hresult == 0x8007_0008 || hresult
            == 0x8000_4004,
        _ => false,
    }
}

fn text_pair(prefix: &str, detail: &str) -> (r: String)
    ensures
        r@ == prefix@ + detail@,
{
    let mut s = String::from_str(prefix);
    push_str(&mut s, detail);
    s
}

fn text_with(prefix: &str, middle: &str, suffix: &str) -> (r: String)
    ensures
        r@ == prefix@ + middle@ + suffix@,
{
    let mut s = String::from_str(prefix);
    push_str(&mut s, middle);
    push_str(&mut s, suffix);
    s
}

impl RadioCycleFailure {
    /// Decides what a failed step of a radio cycle leads to.
    pub fn verdict(&self) -> (r: RadioCycleVerdict)
        ensures
            falls_back_to_adapter_restart(*self) ==> r == RadioCycleVerdict::RestartAdapter,
            !falls_back_to_adapter_restart(*self) ==> (r matches RadioCycleVerdict::Report(t) && t@
                == radio_failure_text(*self)),
    {
        match self {
            RadioCycleFailure::AccessRequestFailed { hresult, detail } => {
                if is_bluetooth_stack_resource_failure(*hresult) {
                    RadioCycleVerdict::RestartAdapter
                } else {
                    RadioCycleVerdict::Report(text_pair("请求蓝牙无线电控制权限失败：", detail.as_str()))
                }
            },
            RadioCycleFailure::AccessDenied { status } => RadioCycleVerdict::Report(
                text_with("蓝牙无线电控制权限不可用（", status.as_str(), "）"),
            ),
            RadioCycleFailure::RadioMissing => RadioCycleVerdict::Report(
                String::from_str("未找到蓝牙无线电"),
            ),
            RadioCycleFailure::EnumerationFailed { hresult, detail } => {
                if is_bluetooth_stack_resource_failure(*hresult) {
                    RadioCycleVerdict::RestartAdapter
                } else {
                    RadioCycleVerdict::Report(text_pair("枚举蓝牙无线电失败：", detail.as_str()))
                }
            },
            RadioCycleFailure::OffDenied { status } => RadioCycleVerdict::Report(
                text_with("关闭蓝牙无线电未获允许（", status.as_str(), "）"),
            ),
            RadioCycleFailure::OffFailed { detail } => RadioCycleVerdict::Report(
                text_pair("关闭蓝牙无线电失败：", detail.as_str()),
            ),
            RadioCycleFailure::OffStateUnreadable { detail } => RadioCycleVerdict::Report(
                text_pair("读取蓝牙无线电关闭状态失败：", detail.as_str()),
            ),
            RadioCycleFailure::OffTimedOut => RadioCycleVerdict::Report(
                String::from_str("关闭蓝牙无线电在 5 秒内未生效"),
            ),
            RadioCycleFailure::OnUnconfirmed { status } => RadioCycleVerdict::Report(
                text_with("蓝牙无线电恢复打开未确认（访问状态 ", status.as_str(), "），将在后续自动恢复窗口重试"),
            ),
            RadioCycleFailure::OnFailed { detail } => RadioCycleVerdict::Report(
                text_with("蓝牙无线电恢复打开失败：", detail.as_str(), "，将在后续自动恢复窗口重试"),
            ),
        }
    }
}

/// The call of a radio cycle whose outcome is being handed back. A cycle
/// begins with `RequestAccess`.
#[derive(Debug, Clone, PartialEq, Eq)]
pub enum RadioCycleStage {
    /// Asking for radio access.
    RequestAccess,
    /// Looking for the Bluetooth radio.
    FindRadio,
    /// Switching the radio off.
    SwitchOff,
    /// Waiting (at most five seconds) for the radio to report off.
    AwaitOff,
    /// Keeping the radio off for a moment.
    HoldOff,
    /// Switching the radio on.
    SwitchOn,
    /// Waiting for the radio to report on.
    AwaitOn,
    /// Pausing a second before the one retry of the switch-on.
    PauseBeforeRetry,
    /// Switching the radio on again.
    RetrySwitchOn,
    /// Waiting for the radio to report on after the retry, which was
    /// answered with `status`.
    RetryAwaitOn { status: String },
}

/// What a call of a radio cycle came back with.
#[derive(Debug, Clone, PartialEq, Eq)]
pub enum RadioOutcome {
    /// The call returned: `ok` is its yes or no (access allowed, radio
    /// found, state reached; a pause always says yes), `status` the text of
    /// an access status it answered with.
    Answered { ok: bool, status: String },
    /// The call failed with an HRESULT and its text.
    Failed { hresult: u32, detail: String },
}

/// What a radio cycle does next.
#[derive(Debug, PartialEq, Eq)]
pub enum RadioCycleStep {
    /// Make the call of this stage and hand its outcome back with it.
    Call(RadioCycleStage),
    /// The WinRT stack is unusable: restart the adapter instead.
    RestartAdapter,
    /// The cycle is over with this result.
    Finish(Result<(), String>),
}

/// The step is what the failure `f` leads to.
pub open spec fn fails_with(r: RadioCycleStep, f: RadioCycleFailure) -> bool {
    if falls_back_to_adapter_restart(f) {
        r == RadioCycleStep::RestartAdapter
    } else {
        r matches RadioCycleStep::Finish(Err(t)) && t@ == radio_failure_text(f)
    }
}

/// Whether an outcome is a yes.
pub open spec fn answered_yes(o: RadioOutcome) -> bool {
    o matches RadioOutcome::Answered { ok, .. } && ok
}

/// The step of a radio cycle: access must be allowed before the radio is
/// looked for, the radio must be confirmed off and held off before it is
/// switched on, and a switch-on that is not confirmed is retried once after
/// a pause; a failure of the retry ends the cycle for a later recovery
/// window.
pub open spec fn radio_cycle_next(stage: RadioCycleStage, o: RadioOutcome, r: RadioCycleStep) -> bool {
    match stage {
        RadioCycleStage::RequestAccess => match o {
            RadioOutcome::Failed { hresult, detail } => fails_with(
                r,
                RadioCycleFailure::AccessRequestFailed { hresult, detail },
            ),
            RadioOutcome::Answered { ok, status } => if ok {
                r == RadioCycleStep::Call(RadioCycleStage::FindRadio)
            } else {
                fails_with(r, RadioCycleFailure::AccessDenied { status })
            },
        },
        RadioCycleStage::FindRadio => match o {
            RadioOutcome::Failed { hresult, detail } => fails_with(
                r,
                RadioCycleFailure::EnumerationFailed { hresult, detail },
            ),
            RadioOutcome::Answered { ok, .. } => if ok {
                r == RadioCycleStep::Call(RadioCycleStage::SwitchOff)
            } else {
                fails_with(r, RadioCycleFailure::RadioMissing)
            },
        },
        RadioCycleStage::SwitchOff => match o {
            RadioOutcome::Failed { detail, .. } => fails_with(
                r,
                RadioCycleFailure::OffFailed { detail },
            ),
            RadioOutcome::Answered { ok, status } => if ok {
                r == RadioCycleStep::Call(RadioCycleStage::AwaitOff)
            } else {
                fails_with(r, RadioCycleFailure::OffDenied { status })
            },
        },
        RadioCycleStage::AwaitOff => match o {
            RadioOutcome::Failed { detail, .. } => fails_with(
                r,
                RadioCycleFailure::OffStateUnreadable { detail },
            ),
            RadioOutcome::Answered { ok, .. } => if ok {
                r == RadioCycleStep::Call(RadioCycleStage::HoldOff)
            } else {
                fails_with(r, RadioCycleFailure::OffTimedOut)
            },
        },
        RadioCycleStage::HoldOff => r == RadioCycleStep::Call(RadioCycleStage::SwitchOn),
        RadioCycleStage::SwitchOn => if answered_yes(o) {
            r == RadioCycleStep::Call(RadioCycleStage::AwaitOn)
        } else {
            r == RadioCycleStep::Call(RadioCycleStage::PauseBeforeRetry)
        },
        RadioCycleStage::AwaitOn => if answered_yes(o) {
            r == RadioCycleStep::Finish(Ok(()))
        } else {
            r == RadioCycleStep::Call(RadioCycleStage::PauseBeforeRetry)
        },
        RadioCycleStage::PauseBeforeRetry => r == RadioCycleStep::Call(
            RadioCycleStage::RetrySwitchOn,
        ),
        RadioCycleStage::RetrySwitchOn => match o {
            RadioOutcome::Failed { detail, .. } => fails_with(
                r,
                RadioCycleFailure::OnFailed { detail },
            ),
            RadioOutcome::Answered { ok, status } => if ok {
                r matches RadioCycleStep::Call(RadioCycleStage::RetryAwaitOn { status: s }) && s@
                    == status@
            } else {
                fails_with(r, RadioCycleFailure::OnUnconfirmed { status })
            },
        },
        RadioCycleStage::RetryAwaitOn { status } => if answered_yes(o) {
            r == RadioCycleStep::Finish(Ok(()))
        } else {
            fails_with(r, RadioCycleFailure::OnUnconfirmed { status })
        },
    }
}

fn failure_step(f: RadioCycleFailure) -> (r: RadioCycleStep)
    ensures
        fails_with(r, f),
{
    match f.verdict() {
        RadioCycleVerdict::RestartAdapter => RadioCycleStep::RestartAdapter,
        RadioCycleVerdict::Report(t) => RadioCycleStep::Finish(Err(t)),
    }
}

fn copy_text(s: &String) -> (r: String)
    ensures
        r@ == s@,
{
    String::from_str(s.as_str())
}

/// Decides what a radio cycle does after the call of `stage` came back with
/// `outcome`.
pub fn radio_cycle_step(stage: &RadioCycleStage, outcome: RadioOutcome) -> (r: RadioCycleStep)
    ensures
        radio_cycle_next(*stage, outcome, r),
{
    let yes = match &outcome {
        RadioOutcome::Answered { ok, .. } => *ok,
        RadioOutcome::Failed { .. } => false,
    };
    match stage {
        RadioCycleStage::RequestAccess => match outcome {
            RadioOutcome::Failed { hresult, detail } => failure_step(
                RadioCycleFailure::AccessRequestFailed { hresult, detail },
            ),
            RadioOutcome::Answered { ok, status } => if ok {
                RadioCycleStep::Call(RadioCycleStage::FindRadio)
            } else {
                failure_step(RadioCycleFailure::AccessDenied { status })
            },
        },
        RadioCycleStage::FindRadio => match outcome {
            RadioOutcome::Failed { hresult, detail } => failure_step(
                RadioCycleFailure::EnumerationFailed { hresult, detail },
            ),
            RadioOutcome::Answered { ok, .. } => if ok {
                RadioCycleStep::Call(RadioCycleStage::SwitchOff)
            } else {
                failure_step(RadioCycleFailure::RadioMissing)
            },
        },
        RadioCycleStage::SwitchOff => match outcome {
            RadioOutcome::Failed { detail, .. } => failure_step(
                RadioCycleFailure::OffFailed { detail },
            ),
            RadioOutcome::Answered { ok, status } => if ok {
                RadioCycleStep::Call(RadioCycleStage::AwaitOff)
            } else {
                failure_step(RadioCycleFailure::OffDenied { status })
            },
        },
        RadioCycleStage::AwaitOff => match outcome {
            RadioOutcome::Failed { detail, .. } => failure_step(
                RadioCycleFailure::OffStateUnreadable { detail },
            ),
            RadioOutcome::Answered { ok, .. } => if ok {
                RadioCycleStep::Call(RadioCycleStage::HoldOff)
            } else {
                failure_step(RadioCycleFailure::OffTimedOut)
            },
        },
        RadioCycleStage::HoldOff => RadioCycleStep::Call(RadioCycleStage::SwitchOn),
        RadioCycleStage::SwitchOn => if yes {
            RadioCycleStep::Call(RadioCycleStage::AwaitOn)
        } else {
            RadioCycleStep::Call(RadioCycleStage::PauseBeforeRetry)
        },
        RadioCycleStage::AwaitOn => if yes {
            RadioCycleStep::Finish(Ok(()))
        } else {
            RadioCycleStep::Call(RadioCycleStage::PauseBeforeRetry)
        },
        RadioCycleStage::PauseBeforeRetry => RadioCycleStep::Call(RadioCycleStage::RetrySwitchOn),
        RadioCycleStage::RetrySwitchOn => match outcome {
            RadioOutcome::Failed { detail, .. } => failure_step(
                RadioCycleFailure::OnFailed { detail },
            ),
            RadioOutcome::Answered { ok, status } => if ok {
                RadioCycleStep::Call(RadioCycleStage::RetryAwaitOn { status })
            } else {
                failure_step(RadioCycleFailure::OnUnconfirmed { status })
            },
        },
        RadioCycleStage::RetryAwaitOn { status } => if yes {
            RadioCycleStep::Finish(Ok(()))
        } else {
            failure_step(RadioCycleFailure::OnUnconfirmed { status: copy_text(status) })
        },
    }
}

/// The place of a stage in the order of a radio cycle.
pub open spec fn stage_rank(stage: RadioCycleStage) -> int {
    match stage {
        RadioCycleStage::RequestAccess => 0,
        RadioCycleStage::FindRadio => 1,
        RadioCycleStage::SwitchOff => 2,
        RadioCycleStage::AwaitOff => 3,
        RadioCycleStage::HoldOff => 4,
        RadioCycleStage::SwitchOn => 5,
        RadioCycleStage::AwaitOn => 6,
        RadioCycleStage::PauseBeforeRetry => 7,
        RadioCycleStage::RetrySwitchOn => 8,
        RadioCycleStage::RetryAwaitOn { .. } => 9,
    }
}

/// A radio cycle only moves forward: every call it asks for comes later in
/// its order than the call whose outcome led to it. Access is allowed before
/// the radio is looked for; the radio is switched on only after it was
/// confirmed off and held off; the retry of the switch-on comes only after
/// the pause that follows an unconfirmed first switch-on.
pub proof fn law_radio_cycle_moves_forward(stage: RadioCycleStage, o: RadioOutcome, r: RadioCycleStep)
    requires
        radio_cycle_next(stage, o, r),
    ensures
        r matches RadioCycleStep::Call(next) ==> stage_rank(next) > stage_rank(stage),
        r == RadioCycleStep::Call(RadioCycleStage::FindRadio) ==> stage
            == RadioCycleStage::RequestAccess && answered_yes(o),
        r == RadioCycleStep::Call(RadioCycleStage::HoldOff) ==> stage == RadioCycleStage::AwaitOff
            && answered_yes(o),
        r == RadioCycleStep::Call(RadioCycleStage::AwaitOff) ==> stage == RadioCycleStage::SwitchOff
            && answered_yes(o),
        r == RadioCycleStep::Call(RadioCycleStage::SwitchOn) ==> stage == RadioCycleStage::HoldOff,
        r == RadioCycleStep::Call(RadioCycleStage::PauseBeforeRetry) ==> (stage
            == RadioCycleStage::SwitchOn || stage == RadioCycleStage::AwaitOn) && !answered_yes(o),
        r == RadioCycleStep::Call(RadioCycleStage::RetrySwitchOn) ==> stage
            == RadioCycleStage::PauseBeforeRetry,
        r == RadioCycleStep::Finish(Ok(())) ==> answered_yes(o) && (stage == RadioCycleStage::AwaitOn
            || stage is RetryAwaitOn),
{
}

/// The calls of a radio cycle so far: it began by asking for access, and
/// each call was asked for by the step after the one before it.
pub open spec fn radio_cycle_run(calls: Seq<RadioCycleStage>, outcomes: Seq<RadioOutcome>) -> bool {
    &&& calls.len() >= 1
    &&& calls[0] == RadioCycleStage::RequestAccess
    &&& outcomes.len() + 1 >= calls.len()
    &&& forall|i: int|
        0 <= i < calls.len() - 1 ==> #[trigger] radio_cycle_next(
            calls[i],
            outcomes[i],
            RadioCycleStep::Call(calls[i + 1]),
        )
}

/// Over a whole radio cycle no call is made twice: the stages come in
/// strictly increasing order, so the switch-on is retried at most once and
/// a cycle makes at most ten calls.
pub proof fn law_radio_cycle_retries_on_at_most_once(
    calls: Seq<RadioCycleStage>,
    outcomes: Seq<RadioOutcome>,
)
    requires
        radio_cycle_run(calls, outcomes),
    ensures
        forall|i: int, j: int|
            0 <= i < j < calls.len() ==> stage_rank(#[trigger] calls[i]) < stage_rank(
                #[trigger] calls[j],
            ),
        forall|i: int, j: int|
            0 <= i < j < calls.len() && calls[i] == RadioCycleStage::RetrySwitchOn ==> calls[j]
                != RadioCycleStage::RetrySwitchOn,
        calls.len() <= 10,
    decreases calls.len(),
{
    if calls.len() > 1 {
        let prev = calls.drop_last();
        let n = calls.len() - 1;
        assert forall|i: int| 0 <= i < prev.len() - 1 implies #[trigger] radio_cycle_next(
            prev[i],
            outcomes[i],
            RadioCycleStep::Call(prev[i + 1]),
        ) by {
            assert(radio_cycle_next(calls[i], outcomes[i], RadioCycleStep::Call(calls[i + 1])));
        }
        law_radio_cycle_retries_on_at_most_once(prev, outcomes);
        let m = n - 1;
        assert(radio_cycle_next(calls[m], outcomes[m], RadioCycleStep::Call(calls[m + 1])));
        assert(calls[m + 1] == calls[n]);
        law_radio_cycle_moves_forward(calls[n - 1], outcomes[n - 1], RadioCycleStep::Call(calls[n]));
        assert forall|i: int, j: int| 0 <= i < j < calls.len() implies stage_rank(
            #[trigger] calls[i],
        ) < stage_rank(#[trigger] calls[j]) by {
            if j < n {
                assert(prev[i] == calls[i] && prev[j] == calls[j]);
            } else if i < n - 1 {
                assert(prev[i] == calls[i] && prev[n - 1] == calls[n - 1]);
            }
        }
        assert(stage_rank(calls[n]) >= n) by {
            if n >= 2 {
                assert(prev[n - 1] == calls[n - 1]);
            }
            lemma_rank_at_least_index(prev, n - 1);
        }
    }
}

proof fn lemma_rank_at_least_index(calls: Seq<RadioCycleStage>, k: int)
    requires
        0 <= k < calls.len(),
        calls[0] == RadioCycleStage::RequestAccess,
        forall|i: int, j: int|
            0 <= i < j < calls.len() ==> stage_rank(#[trigger] calls[i]) < stage_rank(
                #[trigger] calls[j],
            ),
    ensures
        stage_rank(calls[k]) >= k,
    decreases k,
{
    if k > 0 {
        lemma_rank_at_least_index(calls, k - 1);
        assert(stage_rank(calls[k - 1]) < stage_rank(calls[k]));
    }
}


/// What the process remembers about recovering the Bluetooth stack: whether
/// a system-level (elevated PnP) recovery was already requested, and whether
/// a handle to the radio is cached for the next radio cycle.
#[derive(Debug, Clone, Copy, PartialEq, Eq, Structural)]
pub struct RadioRecoveryState {
    pub pnp_prompted: bool,
    pub radio_cached: bool,
}

/// The text given when a system-level recovery was already requested.
pub open spec fn pnp_already_prompted_text() -> Seq<char> {
    "本次运行已请求过系统级蓝牙恢复；应用将继续自动重连"@
}

impl RadioRecoveryState {
    /// Nothing requested, nothing cached.
    pub fn new() -> (r: Self)
        ensures
            r == (RadioRecoveryState { pnp_prompted: false, radio_cached: false }),
    {
        RadioRecoveryState { pnp_prompted: false, radio_cached: false }
    }

    /// A system-level recovery is requested at most once until a connection
    /// completes: the first request goes ahead, a repeated one is refused.
    pub fn begin_pnp_recovery(&mut self) -> (r: Result<(), String>)
        ensures
            final(self).pnp_prompted,
            final(self).radio_cached == old(self).radio_cached,
            !old(self).pnp_prompted ==> r is Ok,
            old(self).pnp_prompted ==> (r matches Err(t) && t@ == pnp_already_prompted_text()),
    {
        if self.pnp_prompted {
            return Err(String::from_str("本次运行已请求过系统级蓝牙恢复；应用将继续自动重连"));
        }
        self.pnp_prompted = true;
        Ok(())
    }

    /// A radio handle was found and cached.
    pub fn radio_found(&mut self)
        ensures
            final(self).radio_cached,
            final(self).pnp_prompted == old(self).pnp_prompted,
    {
        self.radio_cached = true;
    }
}

/// A connection completed, which proves every earlier recovery finished: a
/// later, independent stack failure may request one system-level recovery
/// again. Returns whether the radio handle is still to be looked up (none is
/// cached yet).
pub fn refresh_bluetooth_radio_cache(state: &mut RadioRecoveryState) -> (needs_lookup: bool)
    ensures
        !final(state).pnp_prompted,
        final(state).radio_cached == old(state).radio_cached,
        needs_lookup == !old(state).radio_cached,
{
    state.pnp_prompted = false;
    !state.radio_cached
}


/// Why a system-level recovery could not go ahead: a stable code for the
/// log and a message for the user.
#[derive(Debug, Clone, Copy, PartialEq, Eq)]
pub struct PnpRecoveryError {
    pub code: &'static str,
    pub message: &'static str,
}

/// The instance ids of the devices whose service is `BTHUSB` (ignoring
/// ASCII case), in order.
pub open spec fn bthusb_ids(devices: Seq<(String, String)>) -> Seq<Seq<char>>
    decreases devices.len(),
{
    if devices.len() == 0 {
        Seq::empty()
    } else {
        let rest = bthusb_ids(devices.drop_last());
        if crate::text::lower_seq(devices.last().0@) == "bthusb"@ {
            rest.push(devices.last().1@)
        } else {
            rest
        }
    }
}

/// Chooses the adapter a system-level recovery restarts among the Bluetooth
/// devices `(service, instance id)`: exactly one USB adapter (`BTHUSB`)
/// must be present; none or several are refused.
pub fn select_bthusb_adapter(devices: &[(String, String)]) -> (r: Result<String, PnpRecoveryError>)
    ensures
        bthusb_ids(devices@).len() == 1 ==> (r matches Ok(id) && id@ == bthusb_ids(devices@)[0]),
        bthusb_ids(devices@).len() == 0 ==> (r matches Err(e) && e.code@ == "adapter_missing"@
            && e.message@ == "未找到可恢复的 USB 蓝牙适配器"@),
        bthusb_ids(devices@).len() > 1 ==> (r matches Err(e) && e.code@ == "adapter_ambiguous"@
            && e.message@ == "检测到多个 USB 蓝牙适配器，无法安全选择恢复目标"@),
{
    proof {
        reveal_strlit("bthusb");
    }
    let target = crate::text::chars_of("bthusb");
    let mut matches: Vec<String> = Vec::new();
    let mut i: usize = 0;
    while i < devices.len()
        invariant
            i <= devices@.len(),
            target@ == "bthusb"@,
            matches@.len() == bthusb_ids(devices@.subrange(0, i as int)).len(),
            forall|k: int| 0 <= k < matches@.len() ==> (#[trigger] matches@[k])@ == bthusb_ids(devices@.subrange(0, i as int))[k],
        decreases devices@.len() - i,
    {
        let ghost prev = devices@.subrange(0, i as int);
        let ghost next = devices@.subrange(0, i + 1);
        assert(next.drop_last() =~= prev);
        let service = crate::text::chars_of(devices[i].0.as_str());
        let lowered = crate::text::lower_chars(service.as_slice());
        if crate::text::chars_equal(&lowered, &target) {
            matches.push(devices[i].1.clone());
        }
        i = i + 1;
    }
    assert(devices@.subrange(0, devices@.len() as int) =~= devices@);
    if matches.len() == 1 {
        Ok(matches[0].clone())
    } else if matches.len() == 0 {
        Err(PnpRecoveryError { code: "adapter_missing", message: "未找到可恢复的 USB 蓝牙适配器" })
    } else {
        Err(
            PnpRecoveryError {
                code: "adapter_ambiguous",
                message: "检测到多个 USB 蓝牙适配器，无法安全选择恢复目标",
            },
        )
    }
}

} // verus!
