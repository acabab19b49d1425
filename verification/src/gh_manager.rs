//! Management of the real GitHub CLI: when to check for updates, which
//! release to fetch, and the decisions of making sure that a usable real
//! GitHub CLI is installed.
//!
//! Making sure of the real GitHub CLI alternates file-system and network
//! work with decisions, so the decisions are a state machine
//! ([`ensure_step`]): the caller performs each action and reports what it
//! observed.
use vstd::prelude::*;
use vstd::string::*;

use crate::config::Config;
use crate::error::{GuardError, GuardErrorView};
use crate::state::{opt_string_view, State};
use crate::text::{debug_option, debug_option_text, decimal, str_eq};

verus! {

/// The unit of an update-check interval.
#[derive(Debug, Clone, Copy, PartialEq, Eq, Structural)]
pub enum TimeUnit {
    Minutes,
    Hours,
    Days,
}

/// An update-check interval such as `24h`.
#[derive(Debug, Clone, Copy, PartialEq, Eq, Structural)]
pub struct CheckInterval {
    pub amount: i64,
    pub unit: TimeUnit,
}

/// Why an interval is not understood.
#[derive(Debug, Clone)]
pub enum DurationError {
    /// The interval does not start with a number that fits in 64 bits.
    InvalidNumber,
    /// The unit after the number is not `h`, `m` or `d` (either case).
    InvalidUnit(String),
}

/// An interval error, as text.
pub enum DurationErrorView {
    InvalidNumber,
    InvalidUnit(Seq<char>),
}

impl View for DurationError {
    type V = DurationErrorView;

    open spec fn view(&self) -> DurationErrorView {
        match self {
            DurationError::InvalidNumber => DurationErrorView::InvalidNumber,
            DurationError::InvalidUnit(u) => DurationErrorView::InvalidUnit(u@),
        }
    }
}

/// The message reported for an interval error.
pub open spec fn duration_error_message(e: DurationErrorView) -> Seq<char> {
    match e {
        DurationErrorView::InvalidNumber => "invalid duration number"@,
        DurationErrorView::InvalidUnit(u) => "invalid duration unit: "@ + u,
    }
}

impl DurationError {
    /// The message reported for this error.
    pub fn message(&self) -> (r: String)
        ensures
            r@ == duration_error_message(self@),
    {
        match self {
            DurationError::InvalidNumber => String::from_str("invalid duration number"),
            DurationError::InvalidUnit(u) => String::from_str("invalid duration unit: ").concat(
                u.as_str(),
            ),
        }
    }
}

pub open spec fn is_ascii_digit(c: char) -> bool {
    '0' <= c <= '9'
}

/// The index where the run of ASCII digits that starts at `i` ends.
pub open spec fn digits_end(s: Seq<char>, i: int) -> int
    decreases s.len() - i,
{
    if i < 0 || i >= s.len() || !is_ascii_digit(s[i]) {
        i
    } else {
        digits_end(s, i + 1)
    }
}

/// The number that a sequence of decimal digits writes.
pub open spec fn decimal_value(d: Seq<char>) -> int
    decreases d.len(),
{
    if d.len() == 0 {
        0
    } else {
        decimal_value(d.drop_last()) * 10 + (d.last() as int - '0' as int)
    }
}

/// The interval that a text such as `24h`, `30m` or `7d` gives: the empty
/// text means 24 hours; otherwise a decimal number that fits in an `i64`
/// followed by exactly one of `h`, `H`, `m`, `M`, `d`, `D`.
pub open spec fn interval_of(s: Seq<char>) -> Result<CheckInterval, DurationErrorView> {
    if s.len() == 0 {
        Ok(CheckInterval { amount: 24, unit: TimeUnit::Hours })
    } else {
        let k = digits_end(s, 0);
        let v = decimal_value(s.take(k));
        let unit = s.skip(k);
        if k == 0 || v > i64::MAX {
            Err(DurationErrorView::InvalidNumber)
        } else if unit == "h"@ || unit == "H"@ {
            Ok(CheckInterval { amount: v as i64, unit: TimeUnit::Hours })
        } else if unit == "m"@ || unit == "M"@ {
            Ok(CheckInterval { amount: v as i64, unit: TimeUnit::Minutes })
        } else if unit == "d"@ || unit == "D"@ {
            Ok(CheckInterval { amount: v as i64, unit: TimeUnit::Days })
        } else {
            Err(DurationErrorView::InvalidUnit(unit))
        }
    }
}

proof fn lemma_digits_end(s: Seq<char>, i: int)
    requires
        0 <= i <= s.len(),
    ensures
        i <= digits_end(s, i) <= s.len(),
        forall|j: int| i <= j < digits_end(s, i) ==> is_ascii_digit(s[j]),
        digits_end(s, i) < s.len() ==> !is_ascii_digit(s[digits_end(s, i)]),
    decreases s.len() - i,
{
    if i < s.len() && is_ascii_digit(s[i]) {
        lemma_digits_end(s, i + 1);
    }
}

proof fn lemma_decimal_nonneg(d: Seq<char>)
    requires
        forall|j: int| 0 <= j < d.len() ==> is_ascii_digit(d[j]),
    ensures
        decimal_value(d) >= 0,
    decreases d.len(),
{
    if d.len() > 0 {
        lemma_decimal_nonneg(d.drop_last());
    }
}

proof fn lemma_decimal_digits(n: nat)
    ensures
        decimal(n).len() >= 1,
        forall|j: int| 0 <= j < decimal(n).len() ==> is_ascii_digit(#[trigger] decimal(n)[j]),
        decimal_value(decimal(n)) == n,
    decreases n,
{
    reveal_strlit("0123456789");
    let digits = "0123456789"@;
    let d = (n % 10) as int;
    assert(digits[d] as int - '0' as int == d) by {
        assert(digits[0] == '0' && digits[1] == '1' && digits[2] == '2' && digits[3] == '3'
            && digits[4] == '4' && digits[5] == '5' && digits[6] == '6' && digits[7] == '7'
            && digits[8] == '8' && digits[9] == '9');
    }
    assert(is_ascii_digit(digits[d]));
    assert(digits.subrange(d, d + 1) =~= seq![digits[d]]);
    if n < 10 {
        assert(d == n);
        assert(decimal(n) == seq![digits[d]]);
        assert(decimal(n).drop_last() =~= Seq::<char>::empty());
        assert(decimal(n).last() == digits[d]);
        assert(decimal_value(Seq::<char>::empty()) == 0);
        assert(decimal_value(decimal(n)) == decimal_value(decimal(n).drop_last()) * 10 + (
        digits[d] as int - '0' as int));
    } else {
        lemma_decimal_digits(n / 10);
        let high = decimal(n / 10);
        assert(decimal(n) == high + seq![digits[d]]);
        assert((high + seq![digits[d]]).drop_last() =~= high);
        assert forall|j: int| 0 <= j < decimal(n).len() implies is_ascii_digit(#[trigger] decimal(n)[j]) by {
            if j < high.len() {
                assert(decimal(n)[j] == high[j]);
            }
        }
        assert(decimal(n).last() == digits[d]);
        assert(decimal_value(decimal(n)) == decimal_value(high) * 10 + d);
        assert(n == (n / 10) * 10 + d);
    }
}

/// An interval written as a decimal number that fits in 64 bits followed by
/// one unit letter is that many units: `h` or `H` hours, `m` or `M` minutes,
/// `d` or `D` days (`30m` is thirty minutes, `7d` seven days).
pub proof fn law_interval_units(n: nat, unit: char)
    requires
        n <= i64::MAX,
        unit == 'h' || unit == 'H' || unit == 'm' || unit == 'M' || unit == 'd' || unit == 'D',
    ensures
        interval_of(decimal(n).push(unit)) == Ok::<CheckInterval, DurationErrorView>(
            CheckInterval {
                amount: n as i64,
                unit: if unit == 'h' || unit == 'H' {
                    TimeUnit::Hours
                } else if unit == 'm' || unit == 'M' {
                    TimeUnit::Minutes
                } else {
                    TimeUnit::Days
                },
            },
        ),
{
    lemma_decimal_digits(n);
    let d = decimal(n);
    let s = d.push(unit);
    lemma_digits_end(s, 0);
    let k = digits_end(s, 0);
    assert(s[d.len() as int] == unit);
    assert(!is_ascii_digit(unit));
    assert(k == d.len()) by {
        if k < d.len() {
            assert(s[k] == d[k]);
        }
        if k > d.len() {
            assert(is_ascii_digit(s[d.len() as int]));
        }
    }
    assert(s.take(k) =~= d);
    assert(s.skip(k) =~= seq![unit]);
    reveal_strlit("h");
    reveal_strlit("H");
    reveal_strlit("m");
    reveal_strlit("M");
    reveal_strlit("d");
    reveal_strlit("D");
    let u = seq![unit];
    assert(u[0] == unit && u.len() == 1);
    if unit == 'h' {
        assert(u =~= "h"@);
    } else if unit == 'H' {
        assert(u =~= "H"@);
    } else if unit == 'm' {
        assert(u =~= "m"@);
    } else if unit == 'M' {
        assert(u =~= "M"@);
    } else if unit == 'd' {
        assert(u =~= "d"@);
    } else {
        assert(u =~= "D"@);
    }
}

/// Parses an update-check interval.
pub fn parse_duration(s: &str) -> (r: Result<CheckInterval, DurationError>)
    ensures
        match interval_of(s@) {
            Ok(iv) => r == Ok::<CheckInterval, DurationError>(iv),
            Err(e) => r is Err && r->Err_0@ == e,
        },
{
    let n = s.unicode_len();
    if n == 0 {
        return Ok(CheckInterval { amount: 24, unit: TimeUnit::Hours });
    }
    let mut i: usize = 0;
    let mut value: i64 = 0;
    let mut overflow = false;
    proof {
        lemma_digits_end(s@, 0);
        assert(s@.take(0) =~= Seq::<char>::empty());
    }
    while i < n && is_digit(s.get_char(i))
        invariant
            n == s@.len(),
            0 <= i <= digits_end(s@, 0),
            digits_end(s@, 0) <= n,
            forall|j: int| 0 <= j < digits_end(s@, 0) ==> is_ascii_digit(s@[j]),
            digits_end(s@, 0) < n ==> !is_ascii_digit(s@[digits_end(s@, 0)]),
            overflow ==> decimal_value(s@.take(i as int)) > i64::MAX,
            !overflow ==> value == decimal_value(s@.take(i as int)),
            value >= 0,
        decreases n - i,
    {
        let c = s.get_char(i);
        let d = (c as u32 - '0' as u32) as i64;
        let ghost prev = decimal_value(s@.take(i as int));
        assert(s@.take(i + 1).drop_last() =~= s@.take(i as int));
        assert(s@.take(i + 1).last() == c);
        assert(decimal_value(s@.take(i + 1)) == prev * 10 + d);
        proof {
            lemma_decimal_nonneg(s@.take(i as int));
        }
        if !overflow {
            if value > (i64::MAX - d) / 10 {
                overflow = true;
                assert(prev * 10 + d > i64::MAX) by (nonlinear_arith)
                    requires
                        prev == value,
                        value > (i64::MAX - d) / 10,
                        0 <= d <= 9,
                ;
            } else {
                assert(value * 10 + d <= i64::MAX) by (nonlinear_arith)
                    requires
                        value <= (i64::MAX - d) / 10,
                        0 <= d <= 9,
                        value >= 0,
                ;
                value = value * 10 + d;
            }
        } else {
            assert(prev * 10 + d > i64::MAX) by (nonlinear_arith)
                requires
                    prev > i64::MAX,
                    0 <= d <= 9,
            ;
        }
        i = i + 1;
    }
    assert(i == digits_end(s@, 0));
    if i == 0 || overflow {
        return Err(DurationError::InvalidNumber);
    }
    let unit = s.substring_char(i, n);
    assert(unit@ =~= s@.skip(i as int));
    if str_eq(unit, "h") || str_eq(unit, "H") {
        Ok(CheckInterval { amount: value, unit: TimeUnit::Hours })
    } else if str_eq(unit, "m") || str_eq(unit, "M") {
        Ok(CheckInterval { amount: value, unit: TimeUnit::Minutes })
    } else if str_eq(unit, "d") || str_eq(unit, "D") {
        Ok(CheckInterval { amount: value, unit: TimeUnit::Days })
    } else {
        Err(DurationError::InvalidUnit(unit.to_string()))
    }
}

fn is_digit(c: char) -> (r: bool)
    ensures
        r == is_ascii_digit(c),
{
    '0' <= c && c <= '9'
}

/// Seconds in one unit.
pub open spec fn unit_seconds(u: TimeUnit) -> int {
    match u {
        TimeUnit::Minutes => 60,
        TimeUnit::Hours => 3600,
        TimeUnit::Days => 86400,
    }
}

/// The length of an interval in seconds.
pub open spec fn interval_seconds(iv: CheckInterval) -> int {
    iv.amount * unit_seconds(iv.unit)
}

impl CheckInterval {
    /// The interval in seconds, or `None` when that does not fit in an
    /// `i64` (a length that no duration can hold).
    pub fn seconds(&self) -> (r: Option<i64>)
        ensures
            match r {
                Some(s) => s == interval_seconds(*self),
                None => interval_seconds(*self) < i64::MIN || interval_seconds(*self) > i64::MAX,
            },
    {
        let per: i64 = match self.unit {
            TimeUnit::Minutes => 60,
            TimeUnit::Hours => 3600,
            TimeUnit::Days => 86400,
        };
        self.amount.checked_mul(per)
    }
}

/// Whether an update check is due: never when automatic updates are off;
/// otherwise when no check was made yet, or when at least the interval has
/// passed since the last check (all times in nanoseconds).
pub open spec fn update_is_due(auto_update: bool, interval_secs: int, last: Option<i128>, now: i128) -> bool {
    if !auto_update {
        false
    } else {
        match last {
            None => true,
            Some(l) => !(now - l < interval_secs * 1_000_000_000),
        }
    }
}

/// Decides whether an update check is due.
pub fn update_due(auto_update: bool, interval_secs: i64, last: Option<i128>, now: i128) -> (r: bool)
    ensures
        r == update_is_due(auto_update, interval_secs as int, last, now),
{
    if !auto_update {
        return false;
    }
    match last {
        None => true,
        Some(l) => {
            let threshold: i128 = (interval_secs as i128) * 1_000_000_000;
            match now.checked_sub(l) {
                Some(elapsed) => !(elapsed < threshold),
                // The difference is beyond the range of i128, hence beyond
                // any interval in either direction.
                None => l < 0,
            }
        },
    }
}

/// The state of making sure that a usable real GitHub CLI is installed.
#[derive(Debug, Clone, Copy, PartialEq, Eq, Structural)]
pub enum EnsureState {
    /// Nothing has been looked at.
    Start,
    /// The managed link is being examined.
    Probing,
    /// The installed version is being compared with the pinned one.
    CheckingPin,
    /// The time of the last update check is being examined.
    CheckingDue,
    /// An update is running.
    Updating,
    /// The link is examined again after a successful update.
    Reprobing,
    /// The update failed; the cached real GitHub CLI is being examined.
    CheckingCached,
    /// An installation is running.
    Installing,
    /// The link is examined after the installation.
    ProbingInstall,
    /// The installed version is compared with the pinned one after the
    /// installation.
    VerifyingPin,
    /// The outcome is known.
    Done,
}

/// What the caller observed.
#[derive(Debug, Clone)]
pub enum EnsureEvent {
    /// Making sure begins.
    Begin,
    /// The managed link was read; `usable` when it exists and its target
    /// exists.
    LinkProbed { usable: bool },
    /// The update state was loaded, and the clock read (nanoseconds).
    StateLoaded { current_version: Option<String>, last_update_check: Option<i128>, now: i128 },
    /// The update succeeded.
    UpdateSucceeded,
    /// The update failed, with its message.
    UpdateFailed { reason: String },
    /// Whether the target read before the failed update still exists.
    TargetChecked { exists: bool },
    /// The installation succeeded.
    Installed,
}

/// What the caller is to do next.
#[derive(Debug, Clone)]
pub enum EnsureAction {
    /// Read the managed link and check that its target exists.
    ProbeLink,
    /// Load the update state and read the clock.
    LoadState,
    /// Log the start of an update check and run the update.
    RunUpdate,
    /// Log and warn that the cached real GitHub CLI is used, and check that
    /// the target read before the update still exists.
    UseCached,
    /// Run the installation.
    RunInstall,
    /// Done: the target read last is the real GitHub CLI to use.
    UseTarget,
    /// Done: fail with this error.
    Fail(GuardError),
}

/// An event, as text.
pub enum EnsureEventView {
    Begin,
    LinkProbed { usable: bool },
    StateLoaded { current_version: Option<Seq<char>>, last_update_check: Option<i128>, now: i128 },
    UpdateSucceeded,
    UpdateFailed { reason: Seq<char> },
    TargetChecked { exists: bool },
    Installed,
}

/// An action, as text.
pub enum EnsureActionView {
    ProbeLink,
    LoadState,
    RunUpdate,
    UseCached,
    RunInstall,
    UseTarget,
    Fail(GuardErrorView),
}

impl View for EnsureEvent {
    type V = EnsureEventView;

    open spec fn view(&self) -> EnsureEventView {
        match self {
            EnsureEvent::Begin => EnsureEventView::Begin,
            EnsureEvent::LinkProbed { usable } => EnsureEventView::LinkProbed { usable: *usable },
            EnsureEvent::StateLoaded { current_version, last_update_check, now } =>
                EnsureEventView::StateLoaded {
                current_version: opt_string_view(*current_version),
                last_update_check: *last_update_check,
                now: *now,
            },
            EnsureEvent::UpdateSucceeded => EnsureEventView::UpdateSucceeded,
            EnsureEvent::UpdateFailed { reason } => EnsureEventView::UpdateFailed {
                reason: reason@,
            },
            EnsureEvent::TargetChecked { exists } => EnsureEventView::TargetChecked {
                exists: *exists,
            },
            EnsureEvent::Installed => EnsureEventView::Installed,
        }
    }
}

impl View for EnsureAction {
    type V = EnsureActionView;

    open spec fn view(&self) -> EnsureActionView {
        match self {
            EnsureAction::ProbeLink => EnsureActionView::ProbeLink,
            EnsureAction::LoadState => EnsureActionView::LoadState,
            EnsureAction::RunUpdate => EnsureActionView::RunUpdate,
            EnsureAction::UseCached => EnsureActionView::UseCached,
            EnsureAction::RunInstall => EnsureActionView::RunInstall,
            EnsureAction::UseTarget => EnsureActionView::UseTarget,
            EnsureAction::Fail(e) => EnsureActionView::Fail(e@),
        }
    }
}

/// The settings of a configuration that the decisions read: the pinned
/// version (empty when none), automatic updates, and the check interval.
pub struct EnsureSettings {
    pub pinned: Seq<char>,
    pub auto_update: bool,
    pub check_interval: Seq<char>,
}

pub open spec fn settings_of(c: Config) -> EnsureSettings {
    EnsureSettings {
        pinned: c.updates.pinned_version@,
        auto_update: c.updates.auto_update,
        check_interval: c.updates.check_interval@,
    }
}

/// The interval text parses but its length does not fit in 64-bit seconds.
pub open spec fn interval_overflows(s: Seq<char>) -> bool {
    interval_of(s) matches Ok(iv) && (interval_seconds(iv) > i64::MAX || interval_seconds(iv)
        < i64::MIN)
}

/// The error for a pinned version that could not be installed.
pub open spec fn pinned_not_installed(pinned: Seq<char>, reason: Seq<char>) -> GuardErrorView {
    GuardErrorView::Other("pinned version "@ + pinned + " could not be installed: "@ + reason)
}

/// The error for a pinned version that is not active after installation.
pub open spec fn pinned_not_active(pinned: Seq<char>, current: Option<Seq<char>>) -> GuardErrorView {
    GuardErrorView::Other(
        "pinned version "@ + pinned + " is not active after install (current: "@
            + debug_option_text(current) + ")"@,
    )
}

/// The error for an event that does not fit the state.
pub open spec fn out_of_order() -> GuardErrorView {
    GuardErrorView::Other("real gh management received an unexpected event"@)
}

/// The result of an event that does not fit the state.
pub open spec fn refused() -> (EnsureState, EnsureActionView) {
    (EnsureState::Done, EnsureActionView::Fail(out_of_order()))
}

/// One step of making sure that a usable real GitHub CLI is installed.
///
/// A usable link is kept unless it needs an update: with a pinned version
/// when the installed version differs from it, otherwise when automatic
/// updates are on and the check interval has passed. When an update fails,
/// a pinned version fails closed, and otherwise the cached real GitHub CLI
/// is used if it still exists. Without a usable link the real GitHub CLI is
/// installed; the installation must leave a usable link, and the pinned
/// version active.
pub open spec fn ensure_transition(c: EnsureSettings, s: EnsureState, e: EnsureEventView) -> (
    EnsureState,
    EnsureActionView,
) {
    let pinned = c.pinned.len() > 0;
    match s {
        EnsureState::Start => match e {
            EnsureEventView::Begin => (EnsureState::Probing, EnsureActionView::ProbeLink),
            _ => refused(),
        },
        EnsureState::Probing => match e {
            EnsureEventView::LinkProbed { usable } => if !usable {
                (EnsureState::Installing, EnsureActionView::RunInstall)
            } else if pinned {
                (EnsureState::CheckingPin, EnsureActionView::LoadState)
            } else if !c.auto_update {
                (EnsureState::Done, EnsureActionView::UseTarget)
            } else {
                (EnsureState::CheckingDue, EnsureActionView::LoadState)
            },
            _ => refused(),
        },
        EnsureState::CheckingPin => match e {
            EnsureEventView::StateLoaded { current_version, .. } => if current_version == Some(
                c.pinned,
            ) {
                (EnsureState::Done, EnsureActionView::UseTarget)
            } else {
                (EnsureState::Updating, EnsureActionView::RunUpdate)
            },
            _ => refused(),
        },
        EnsureState::CheckingDue => match e {
            EnsureEventView::StateLoaded { last_update_check, now, .. } => match interval_of(
                c.check_interval,
            ) {
                Err(err) => (
                    EnsureState::Done,
                    EnsureActionView::Fail(GuardErrorView::Other(duration_error_message(err))),
                ),
                Ok(iv) => if update_is_due(true, interval_seconds(iv), last_update_check, now) {
                    (EnsureState::Updating, EnsureActionView::RunUpdate)
                } else {
                    (EnsureState::Done, EnsureActionView::UseTarget)
                },
            },
            _ => refused(),
        },
        EnsureState::Updating => match e {
            EnsureEventView::UpdateSucceeded => (EnsureState::Reprobing, EnsureActionView::ProbeLink),
            EnsureEventView::UpdateFailed { reason } => if pinned {
                (EnsureState::Done, EnsureActionView::Fail(pinned_not_installed(c.pinned, reason)))
            } else {
                (EnsureState::CheckingCached, EnsureActionView::UseCached)
            },
            _ => refused(),
        },
        EnsureState::Reprobing => match e {
            EnsureEventView::LinkProbed { usable } => if usable {
                (EnsureState::Done, EnsureActionView::UseTarget)
            } else {
                (EnsureState::Installing, EnsureActionView::RunInstall)
            },
            _ => refused(),
        },
        EnsureState::CheckingCached => match e {
            EnsureEventView::TargetChecked { exists } => if exists {
                (EnsureState::Done, EnsureActionView::UseTarget)
            } else {
                (EnsureState::Installing, EnsureActionView::RunInstall)
            },
            _ => refused(),
        },
        EnsureState::Installing => match e {
            EnsureEventView::Installed => (EnsureState::ProbingInstall, EnsureActionView::ProbeLink),
            _ => refused(),
        },
        EnsureState::ProbingInstall => match e {
            EnsureEventView::LinkProbed { usable } => if !usable {
                (
                    EnsureState::Done,
                    EnsureActionView::Fail(
                        GuardErrorView::RealGhMissing("symlink target missing after install"@),
                    ),
                )
            } else if pinned {
                (EnsureState::VerifyingPin, EnsureActionView::LoadState)
            } else {
                (EnsureState::Done, EnsureActionView::UseTarget)
            },
            _ => refused(),
        },
        EnsureState::VerifyingPin => match e {
            EnsureEventView::StateLoaded { current_version, .. } => if current_version == Some(
                c.pinned,
            ) {
                (EnsureState::Done, EnsureActionView::UseTarget)
            } else {
                (
                    EnsureState::Done,
                    EnsureActionView::Fail(pinned_not_active(c.pinned, current_version)),
                )
            },
            _ => refused(),
        },
        EnsureState::Done => refused(),
    }
}

fn refuse() -> (r: (EnsureState, EnsureAction))
    ensures
        (r.0, r.1@) == refused(),
{
    (
        EnsureState::Done,
        EnsureAction::Fail(
            GuardError::Other(String::from_str("real gh management received an unexpected event")),
        ),
    )
}

fn same_version(current: &Option<String>, pinned: &str) -> (r: bool)
    ensures
        r == (opt_string_view(*current) == Some(pinned@)),
{
    match current {
        Some(v) => str_eq(v.as_str(), pinned),
        None => false,
    }
}

/// One step of making sure that a usable real GitHub CLI is installed (see
/// [`ensure_transition`]). The check interval must not be one whose length
/// overflows 64-bit seconds when the last-check time is examined.
pub fn ensure_step(config: &Config, s: EnsureState, e: &EnsureEvent) -> (r: (EnsureState, EnsureAction))
    requires
        s == EnsureState::CheckingDue ==> !interval_overflows(config.updates.check_interval@),
    ensures
        (r.0, r.1@) == ensure_transition(settings_of(*config), s, e@),
{
    let pinned_str = config.updates.pinned_version.as_str();
    let pinned = pinned_str.unicode_len() > 0;
    match s {
        EnsureState::Start => match e {
            EnsureEvent::Begin => (EnsureState::Probing, EnsureAction::ProbeLink),
            _ => refuse(),
        },
        EnsureState::Probing => match e {
            EnsureEvent::LinkProbed { usable } => if !*usable {
                (EnsureState::Installing, EnsureAction::RunInstall)
            } else if pinned {
                (EnsureState::CheckingPin, EnsureAction::LoadState)
            } else if !config.updates.auto_update {
                (EnsureState::Done, EnsureAction::UseTarget)
            } else {
                (EnsureState::CheckingDue, EnsureAction::LoadState)
            },
            _ => refuse(),
        },
        EnsureState::CheckingPin => match e {
            EnsureEvent::StateLoaded { current_version, .. } => if same_version(
                current_version,
                pinned_str,
            ) {
                (EnsureState::Done, EnsureAction::UseTarget)
            } else {
                (EnsureState::Updating, EnsureAction::RunUpdate)
            },
            _ => refuse(),
        },
        EnsureState::CheckingDue => match e {
            EnsureEvent::StateLoaded { last_update_check, now, .. } => match parse_duration(
                config.updates.check_interval.as_str(),
            ) {
                Err(err) => (
                    EnsureState::Done,
                    EnsureAction::Fail(GuardError::Other(err.message())),
                ),
                Ok(iv) => {
                    let secs = match iv.seconds() {
                        Some(secs) => secs,
                        None => {
                            assert(false);
                            0
                        },
                    };
                    if update_due(true, secs, *last_update_check, *now) {
                        (EnsureState::Updating, EnsureAction::RunUpdate)
                    } else {
                        (EnsureState::Done, EnsureAction::UseTarget)
                    }
                },
            },
            _ => refuse(),
        },
        EnsureState::Updating => match e {
            EnsureEvent::UpdateSucceeded => (EnsureState::Reprobing, EnsureAction::ProbeLink),
            EnsureEvent::UpdateFailed { reason } => if pinned {
                let msg = String::from_str("pinned version ").concat(pinned_str).concat(
                    " could not be installed: ",
                ).concat(reason.as_str());
                (EnsureState::Done, EnsureAction::Fail(GuardError::Other(msg)))
            } else {
                (EnsureState::CheckingCached, EnsureAction::UseCached)
            },
            _ => refuse(),
        },
        EnsureState::Reprobing => match e {
            EnsureEvent::LinkProbed { usable } => if *usable {
                (EnsureState::Done, EnsureAction::UseTarget)
            } else {
                (EnsureState::Installing, EnsureAction::RunInstall)
            },
            _ => refuse(),
        },
        EnsureState::CheckingCached => match e {
            EnsureEvent::TargetChecked { exists } => if *exists {
                (EnsureState::Done, EnsureAction::UseTarget)
            } else {
                (EnsureState::Installing, EnsureAction::RunInstall)
            },
            _ => refuse(),
        },
        EnsureState::Installing => match e {
            EnsureEvent::Installed => (EnsureState::ProbingInstall, EnsureAction::ProbeLink),
            _ => refuse(),
        },
        EnsureState::ProbingInstall => match e {
            EnsureEvent::LinkProbed { usable } => if !*usable {
                (
                    EnsureState::Done,
                    EnsureAction::Fail(
                        GuardError::RealGhMissing(
                            String::from_str("symlink target missing after install"),
                        ),
                    ),
                )
            } else if pinned {
                (EnsureState::VerifyingPin, EnsureAction::LoadState)
            } else {
                (EnsureState::Done, EnsureAction::UseTarget)
            },
            _ => refuse(),
        },
        EnsureState::VerifyingPin => match e {
            EnsureEvent::StateLoaded { current_version, .. } => if same_version(
                current_version,
                pinned_str,
            ) {
                (EnsureState::Done, EnsureAction::UseTarget)
            } else {
                let msg = String::from_str("pinned version ").concat(pinned_str).concat(
                    " is not active after install (current: ",
                ).concat(debug_option(current_version).as_str()).concat(")");
                (EnsureState::Done, EnsureAction::Fail(GuardError::Other(msg)))
            },
            _ => refuse(),
        },
        EnsureState::Done => refuse(),
    }
}

/// Whether the caller of [`ensure_step`] must stop before that step: the
/// check interval overflows while the last-check time is to be examined,
/// where a duration of that length cannot be built.
pub fn interval_too_long(config: &Config, s: EnsureState) -> (r: bool)
    ensures
        r == (s == EnsureState::CheckingDue && interval_overflows(config.updates.check_interval@)),
{
    if s != EnsureState::CheckingDue {
        return false;
    }
    match parse_duration(config.updates.check_interval.as_str()) {
        Ok(iv) => iv.seconds().is_none(),
        Err(_) => false,
    }
}

/// With a pinned version, a failed update always fails closed: it never
/// falls back to the cached real GitHub CLI, and the error names the
/// pinned version and says that it could not be installed.
pub proof fn law_pinned_update_failure_fails_closed(c: EnsureSettings, s: EnsureState, reason: Seq<char>)
    requires
        c.pinned.len() > 0,
        s == EnsureState::Updating,
    ensures
        ensure_transition(c, s, EnsureEventView::UpdateFailed { reason }) == (
            EnsureState::Done,
            EnsureActionView::Fail(pinned_not_installed(c.pinned, reason)),
        ),
{
}

/// The steps taken when the machine is driven from `s` by `events` in
/// turn: each step's new state and action.
pub open spec fn ensure_run(c: EnsureSettings, s: EnsureState, events: Seq<EnsureEventView>) -> Seq<
    (EnsureState, EnsureActionView),
>
    decreases events.len(),
{
    if events.len() == 0 {
        Seq::empty()
    } else {
        let step = ensure_transition(c, s, events[0]);
        seq![step] + ensure_run(c, step.0, events.skip(1))
    }
}

/// A state reachable with a pinned version: the update-interval check and
/// the fallback to the cached real GitHub CLI belong to unpinned setups.
pub open spec fn pinned_reachable(s: EnsureState) -> bool {
    s != EnsureState::CheckingDue && s != EnsureState::CheckingCached
}

/// The step from `s` on `e` uses the target only because the pinned
/// version was seen installed or was just installed by an update.
pub open spec fn use_backed_by_pin(c: EnsureSettings, s: EnsureState, e: EnsureEventView) -> bool {
    ||| (s == EnsureState::CheckingPin || s == EnsureState::VerifyingPin) && (e matches EnsureEventView::StateLoaded { current_version, .. } && current_version == Some(c.pinned))
    ||| s == EnsureState::Reprobing && e == (EnsureEventView::LinkProbed { usable: true })
}

proof fn lemma_ensure_run_len(c: EnsureSettings, s: EnsureState, events: Seq<EnsureEventView>)
    ensures
        ensure_run(c, s, events).len() == events.len(),
    decreases events.len(),
{
    if events.len() > 0 {
        lemma_ensure_run_len(c, ensure_transition(c, s, events[0]).0, events.skip(1));
    }
}

/// With a pinned version, the real GitHub CLI is only used after the state
/// showed the pinned version installed, or right after a successful update
/// (which installs the pinned release): along any run from the start, every
/// step that uses the target comes from such an observation.
pub proof fn law_pinned_use_needs_pinned_version(
    c: EnsureSettings,
    events: Seq<EnsureEventView>,
    k: int,
)
    requires
        c.pinned.len() > 0,
        0 <= k < events.len(),
        ensure_run(c, EnsureState::Start, events)[k].1 == EnsureActionView::UseTarget,
    ensures
        use_backed_by_pin(
            c,
            if k == 0 {
                EnsureState::Start
            } else {
                ensure_run(c, EnsureState::Start, events)[k - 1].0
            },
            events[k],
        ),
{
    lemma_pinned_run(c, EnsureState::Start, events, k);
}

proof fn lemma_pinned_run(c: EnsureSettings, s: EnsureState, events: Seq<EnsureEventView>, k: int)
    requires
        c.pinned.len() > 0,
        pinned_reachable(s),
        0 <= k < events.len(),
        ensure_run(c, s, events)[k].1 == EnsureActionView::UseTarget,
    ensures
        use_backed_by_pin(
            c,
            if k == 0 {
                s
            } else {
                ensure_run(c, s, events)[k - 1].0
            },
            events[k],
        ),
    decreases k,
{
    lemma_ensure_run_len(c, s, events);
    let step = ensure_transition(c, s, events[0]);
    let rest = events.skip(1);
    assert(ensure_run(c, s, events) == seq![step] + ensure_run(c, step.0, rest));
    assert(pinned_reachable(step.0));
    if k > 0 {
        lemma_ensure_run_len(c, step.0, rest);
        lemma_pinned_run(c, step.0, rest, k - 1);
        assert(rest[k - 1] == events[k]);
        if k > 1 {
            assert(ensure_run(c, s, events)[k - 1] == ensure_run(c, step.0, rest)[k - 2]);
        }
    }
}

/// Without a pinned version, a failed update falls back to the cached real
/// GitHub CLI when it still exists, and installs otherwise.
pub proof fn law_unpinned_update_failure_uses_cache(c: EnsureSettings, reason: Seq<char>, exists: bool)
    requires
        c.pinned.len() == 0,
    ensures
        ensure_transition(c, EnsureState::Updating, EnsureEventView::UpdateFailed { reason }) == (
            EnsureState::CheckingCached,
            EnsureActionView::UseCached,
        ),
        ensure_transition(c, EnsureState::CheckingCached, EnsureEventView::TargetChecked { exists })
            == (if exists {
            (EnsureState::Done, EnsureActionView::UseTarget)
        } else {
            (EnsureState::Installing, EnsureActionView::RunInstall)
        }),
{
}

/// The release to fetch: the latest one, or the pinned tag.
#[derive(Debug, Clone)]
pub enum ReleaseQuery {
    Latest { repo: String },
    Tag { repo: String, tag: String },
}

/// The address of the GitHub API.
pub open spec fn github_api() -> Seq<char> {
    "https://api.github.com"@
}

/// The release to fetch for a configuration: the pinned tag when a version
/// is pinned, the latest release otherwise.
pub fn release_query(config: &Config) -> (r: ReleaseQuery)
    ensures
        config.updates.pinned_version@.len() == 0 ==> (r matches ReleaseQuery::Latest { repo } && repo@
            == config.real_gh.release_repo@),
        config.updates.pinned_version@.len() > 0 ==> (r matches ReleaseQuery::Tag { repo, tag } && repo@
            == config.real_gh.release_repo@ && tag@ == config.updates.pinned_version@),
{
    if config.updates.pinned_version.as_str().unicode_len() == 0 {
        ReleaseQuery::Latest { repo: config.real_gh.release_repo.clone() }
    } else {
        ReleaseQuery::Tag {
            repo: config.real_gh.release_repo.clone(),
            tag: config.updates.pinned_version.clone(),
        }
    }
}

impl ReleaseQuery {
    /// The API address of the release:
    /// `https://api.github.com/repos/<repo>/releases/latest` or
    /// `.../releases/tags/<tag>`.
    pub fn url(&self) -> (r: String)
        ensures
            r@ == (match *self {
                ReleaseQuery::Latest { repo } => github_api() + "/repos/"@ + repo@
                    + "/releases/latest"@,
                ReleaseQuery::Tag { repo, tag } => github_api() + "/repos/"@ + repo@
                    + "/releases/tags/"@ + tag@,
            }),
    {
        match self {
            ReleaseQuery::Latest { repo } => String::from_str("https://api.github.com").concat(
                "/repos/",
            ).concat(repo.as_str()).concat("/releases/latest"),
            ReleaseQuery::Tag { repo, tag } => String::from_str("https://api.github.com").concat(
                "/repos/",
            ).concat(repo.as_str()).concat("/releases/tags/").concat(tag.as_str()),
        }
    }
}

/// Whether the release with this tag is already the installed version.
pub fn is_current_version(tag: &str, state: &State) -> (r: bool)
    ensures
        r == (state@.current_version == Some(tag@)),
{
    same_version(&state.current_version, tag)
}

} // verus!
