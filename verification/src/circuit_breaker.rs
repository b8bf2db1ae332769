//! Circuit breaker for LLM provider resilience.
//!
//! A breaker is a state machine (Closed → Open → HalfOpen → Closed) that
//! counts consecutive failures and successes. Its transitions are stated as
//! spec functions over [`BreakerModel`]; each method ensures that the
//! breaker's new model is the transition of its old one.
use std::time::{Duration, Instant};
use std::sync::{Arc, RwLock, RwLockWriteGuard};

use vstd::prelude::*;
use crate::text::{chars_of, chars_eq, string_of};


verus! {

// ---------------------------------------------------------------------------
// Clock
// ---------------------------------------------------------------------------

#[verifier::external_type_specification]
#[verifier::external_body]
pub struct ExInstant(Instant);

/// `Instant::now()`. Nothing is stated of the result: it is the clock.
#[verifier::external_body]
pub(crate) fn instant_now() -> (r: Instant) {
    Instant::now()
}

/// `Instant::elapsed`. Nothing is stated of the result: it depends on the clock.
#[verifier::external_body]
pub(crate) fn instant_elapsed(start: &Instant) -> (r: Duration) {
    start.elapsed()
}

/// Whether the duration `a` is at least `b` (`PartialOrd` for `Duration`).
/// Durations are opaque here, so nothing is stated of the result.
#[verifier::external_body]
fn duration_at_least(a: &Duration, b: &Duration) -> (r: bool) {
    *a >= *b
}

/// The duration of `secs` whole seconds (`Duration::from_secs`).
pub uninterp spec fn duration_of_secs(secs: u64) -> Duration;

/// `Duration::from_secs`: the duration of `secs` whole seconds, named by
/// [`duration_of_secs`]; it never fails.
#[verifier::external_body]
fn duration_from_secs(secs: u64) -> (r: Duration)
    ensures
        r == duration_of_secs(secs),
{
    Duration::from_secs(secs)
}

/// `Clone` for `Duration`, which is `Copy`: the clone is the same value.
pub assume_specification[ <Duration as Clone>::clone ](d: &Duration) -> (r: Duration)
    ensures
        r == *d,
;

// ---------------------------------------------------------------------------
// CircuitState
// ---------------------------------------------------------------------------

/// The state of a circuit breaker.
#[derive(Debug, Clone, Copy, PartialEq, Eq, Structural)]
pub enum CircuitState {
    /// Normal operation — requests pass through.
    Closed,
    /// Provider is failing — requests are rejected.
    Open,
    /// Testing recovery — requests are let through as probes.
    HalfOpen,
}

// ---------------------------------------------------------------------------
// CircuitConfig
// ---------------------------------------------------------------------------

/// Configuration for a circuit breaker.
#[derive(Debug, Clone, Copy)]
pub struct CircuitConfig {
    /// Number of consecutive failures before opening the circuit.
    pub failure_threshold: u32,
    /// Duration the circuit stays open before transitioning to half-open.
    pub recovery_timeout: Duration,
    /// Number of successes needed in half-open state to close the circuit.
    pub success_threshold: u32,
    /// Maximum number of failures to track in the sliding window.
    pub window_size: u32,
}

/// The default failure threshold.
pub const DEFAULT_FAILURE_THRESHOLD: u32 = 5;
/// The default success threshold.
pub const DEFAULT_SUCCESS_THRESHOLD: u32 = 2;
/// The default window size.
pub const DEFAULT_WINDOW_SIZE: u32 = 10;
/// The default recovery timeout, in seconds.
pub const DEFAULT_RECOVERY_SECS: u64 = 30;

impl Default for CircuitConfig {
    /// Five failures open the circuit, thirty seconds of recovery, two
    /// successes close it again, a window of ten.
    fn default() -> (r: Self)
        ensures
            r.failure_threshold == DEFAULT_FAILURE_THRESHOLD,
            r.recovery_timeout == duration_of_secs(DEFAULT_RECOVERY_SECS),
            r.success_threshold == DEFAULT_SUCCESS_THRESHOLD,
            r.window_size == DEFAULT_WINDOW_SIZE,
    {
        CircuitConfig {
            failure_threshold: DEFAULT_FAILURE_THRESHOLD,
            recovery_timeout: duration_from_secs(DEFAULT_RECOVERY_SECS),
            success_threshold: DEFAULT_SUCCESS_THRESHOLD,
            window_size: DEFAULT_WINDOW_SIZE,
        }
    }
}

impl CircuitConfig {
    /// Create a new config with the given failure threshold and defaults otherwise.
    pub fn new(failure_threshold: u32) -> (r: Self)
        ensures
            r.failure_threshold == failure_threshold,
            r.recovery_timeout == duration_of_secs(DEFAULT_RECOVERY_SECS),
            r.success_threshold == DEFAULT_SUCCESS_THRESHOLD,
            r.window_size == DEFAULT_WINDOW_SIZE,
    {
        let d = CircuitConfig::default();
        CircuitConfig { failure_threshold, ..d }
    }

    /// Set the recovery timeout.
    pub fn with_recovery_timeout(self, timeout: Duration) -> (r: Self)
        ensures
            r.recovery_timeout == timeout,
            r.failure_threshold == self.failure_threshold,
            r.success_threshold == self.success_threshold,
            r.window_size == self.window_size,
    {
        CircuitConfig { recovery_timeout: timeout, ..self }
    }

    /// Set the success threshold for half-open recovery.
    pub fn with_success_threshold(self, threshold: u32) -> (r: Self)
        ensures
            r.success_threshold == threshold,
            r.recovery_timeout == self.recovery_timeout,
            r.failure_threshold == self.failure_threshold,
            r.window_size == self.window_size,
    {
        CircuitConfig { success_threshold: threshold, ..self }
    }
}

// ---------------------------------------------------------------------------
// Model and transitions
// ---------------------------------------------------------------------------

/// The mathematical model of a breaker: its state, counters, thresholds,
/// whether it holds an opening time and a last-failure time, and whether
/// the half-open probe has been let through and awaits its outcome.
pub struct BreakerModel {
    pub state: CircuitState,
    pub consecutive_failures: nat,
    pub consecutive_successes: nat,
    pub total_failures: nat,
    pub total_successes: nat,
    pub total_rejected: nat,
    pub failure_threshold: nat,
    pub success_threshold: nat,
    pub has_opened_at: bool,
    pub has_last_failure: bool,
    pub probe_in_flight: bool,
}

/// The model of a fresh breaker with the given thresholds.
pub open spec fn fresh_model(failure_threshold: nat, success_threshold: nat) -> BreakerModel {
    BreakerModel {
        state: CircuitState::Closed,
        consecutive_failures: 0,
        consecutive_successes: 0,
        total_failures: 0,
        total_successes: 0,
        total_rejected: 0,
        failure_threshold,
        success_threshold,
        has_opened_at: false,
        has_last_failure: false,
        probe_in_flight: false,
    }
}

/// What a successful request does to the breaker.
pub open spec fn after_success(m: BreakerModel) -> BreakerModel {
    let cs = m.consecutive_successes + 1;
    let base = BreakerModel {
        total_successes: m.total_successes + 1,
        consecutive_failures: 0,
        consecutive_successes: cs,
        probe_in_flight: false,
        ..m
    };
    match m.state {
        CircuitState::HalfOpen => if cs >= m.success_threshold {
            BreakerModel { state: CircuitState::Closed, has_opened_at: false, ..base }
        } else {
            base
        },
        CircuitState::Open => BreakerModel { state: CircuitState::HalfOpen, ..base },
        CircuitState::Closed => base,
    }
}

/// What a failed request does to the breaker.
pub open spec fn after_failure(m: BreakerModel) -> BreakerModel {
    let cf = m.consecutive_failures + 1;
    let base = BreakerModel {
        total_failures: m.total_failures + 1,
        consecutive_failures: cf,
        consecutive_successes: 0,
        has_last_failure: true,
        probe_in_flight: false,
        ..m
    };
    match m.state {
        CircuitState::Closed => if cf >= m.failure_threshold {
            BreakerModel { state: CircuitState::Open, has_opened_at: true, ..base }
        } else {
            base
        },
        CircuitState::HalfOpen => BreakerModel {
            state: CircuitState::Open,
            has_opened_at: true,
            ..base
        },
        CircuitState::Open => base,
    }
}

/// Whether a request is let through, given whether the recovery timeout has
/// elapsed since the circuit opened: a closed circuit lets every request
/// through, an open one only the probe once its timeout has elapsed, and a
/// half-open one a single probe until that probe's outcome is recorded.
pub open spec fn allows(m: BreakerModel, timeout_elapsed: bool) -> bool {
    match m.state {
        CircuitState::Open => m.has_opened_at && timeout_elapsed,
        CircuitState::HalfOpen => !m.probe_in_flight,
        CircuitState::Closed => true,
    }
}

/// What asking for permission does to the breaker.
pub open spec fn after_allow(m: BreakerModel, timeout_elapsed: bool) -> BreakerModel {
    match m.state {
        CircuitState::Open => if m.has_opened_at && timeout_elapsed {
            BreakerModel {
                state: CircuitState::HalfOpen,
                consecutive_successes: 0,
                probe_in_flight: true,
                ..m
            }
        } else {
            BreakerModel { total_rejected: m.total_rejected + 1, ..m }
        },
        CircuitState::HalfOpen => if m.probe_in_flight {
            BreakerModel { total_rejected: m.total_rejected + 1, ..m }
        } else {
            BreakerModel { probe_in_flight: true, ..m }
        },
        CircuitState::Closed => m,
    }
}

/// What forcing a state does to the breaker.
pub open spec fn after_force(m: BreakerModel, s: CircuitState) -> BreakerModel {
    match s {
        CircuitState::Open => BreakerModel { state: s, has_opened_at: true, probe_in_flight: false, ..m },
        CircuitState::Closed => BreakerModel {
            state: s,
            has_opened_at: false,
            consecutive_failures: 0,
            probe_in_flight: false,
            ..m
        },
        CircuitState::HalfOpen => BreakerModel { state: s, probe_in_flight: false, ..m },
    }
}

/// `k` failures in a row.
pub open spec fn after_failures(m: BreakerModel, k: nat) -> BreakerModel
    decreases k,
{
    if k == 0 {
        m
    } else {
        after_failure(after_failures(m, (k - 1) as nat))
    }
}

/// None of the counters is at the maximum of its machine type.
pub open spec fn model_can_count(m: BreakerModel) -> bool {
    &&& m.consecutive_failures < u32::MAX
    &&& m.consecutive_successes < u32::MAX
    &&& m.total_failures < u64::MAX
    &&& m.total_successes < u64::MAX
    &&& m.total_rejected < u64::MAX
}

/// The breaker's invariant: an open circuit always knows when it opened,
/// and only a half-open circuit has a probe in flight.
pub open spec fn model_wf(m: BreakerModel) -> bool {
    &&& m.state == CircuitState::Open ==> m.has_opened_at
    &&& m.probe_in_flight ==> m.state == CircuitState::HalfOpen
}

// ---------------------------------------------------------------------------
// CircuitBreaker
// ---------------------------------------------------------------------------

/// A circuit breaker for a single provider.
#[derive(Debug)]
pub struct CircuitBreaker {
    config: CircuitConfig,
    state: CircuitState,
    consecutive_failures: u32,
    consecutive_successes: u32,
    total_failures: u64,
    total_successes: u64,
    total_rejected: u64,
    last_failure_time: Option<Instant>,
    opened_at: Option<Instant>,
    probe_in_flight: bool,
}

impl View for CircuitBreaker {
    type V = BreakerModel;

    closed spec fn view(&self) -> BreakerModel {
        BreakerModel {
            state: self.state,
            consecutive_failures: self.consecutive_failures as nat,
            consecutive_successes: self.consecutive_successes as nat,
            total_failures: self.total_failures as nat,
            total_successes: self.total_successes as nat,
            total_rejected: self.total_rejected as nat,
            failure_threshold: self.config.failure_threshold as nat,
            success_threshold: self.config.success_threshold as nat,
            has_opened_at: self.opened_at.is_some(),
            has_last_failure: self.last_failure_time.is_some(),
            probe_in_flight: self.probe_in_flight,
        }
    }
}

impl CircuitBreaker {
    /// Well-formedness: an open circuit always holds its opening time.
    pub open spec fn wf(&self) -> bool {
        model_wf(self@)
    }

    /// None of the counters is at its maximum, so one more event can be counted.
    pub open spec fn can_count(&self) -> bool {
        model_can_count(self@)
    }

    /// The configuration the breaker was made with.
    pub closed spec fn spec_config(&self) -> CircuitConfig {
        self.config
    }

    /// Create a new circuit breaker with the given configuration.
    pub fn new(config: CircuitConfig) -> (r: Self)
        ensures
            r@ == fresh_model(config.failure_threshold as nat, config.success_threshold as nat),
            r.spec_config() == config,
            r.wf(),
            r.can_count(),
    {
        CircuitBreaker {
            config,
            state: CircuitState::Closed,
            consecutive_failures: 0,
            consecutive_successes: 0,
            total_failures: 0,
            total_successes: 0,
            total_rejected: 0,
            last_failure_time: None,
            opened_at: None,
            probe_in_flight: false,
        }
    }

    /// Create a circuit breaker with default configuration.
    pub fn with_defaults() -> (r: Self)
        ensures
            r@ == fresh_model(DEFAULT_FAILURE_THRESHOLD as nat, DEFAULT_SUCCESS_THRESHOLD as nat),
            r.wf(),
            r.can_count(),
    {
        Self::new(CircuitConfig::default())
    }

    /// Decide a request, given whether the recovery timeout has elapsed since
    /// the circuit opened. An open circuit whose timeout has elapsed moves to
    /// half-open and lets the probe through; otherwise an open circuit
    /// rejects and counts the rejection. A half-open circuit lets one probe
    /// through and rejects (and counts) further requests until the probe's
    /// outcome is recorded.
    pub fn allow_request_after(&mut self, timeout_elapsed: bool) -> (r: bool)
        requires
            old(self).wf(),
            old(self).can_count(),
        ensures
            r == allows(old(self)@, timeout_elapsed),
            final(self)@ == after_allow(old(self)@, timeout_elapsed),
            final(self).spec_config() == old(self).spec_config(),
            final(self).wf(),
    {
        match self.state {
            CircuitState::Closed => true,
            CircuitState::Open => {
                if self.opened_at.is_some() && timeout_elapsed {
                    self.state = CircuitState::HalfOpen;
                    self.consecutive_successes = 0;
                    self.probe_in_flight = true;
                    return true;
                }
                self.total_rejected = self.total_rejected + 1;
                false
            },
            CircuitState::HalfOpen => {
                if self.probe_in_flight {
                    self.total_rejected = self.total_rejected + 1;
                    false
                } else {
                    self.probe_in_flight = true;
                    true
                }
            },
        }
    }

    /// Check if a request should be allowed through. For an open circuit the
    /// clock decides whether the recovery timeout has elapsed; whatever it
    /// says, the result and the new state are those of
    /// [`CircuitBreaker::allow_request_after`] for some answer.
    pub fn allow_request(&mut self) -> (r: bool)
        requires
            old(self).wf(),
            old(self).can_count(),
        ensures
            exists|elapsed: bool|
                r == allows(old(self)@, elapsed) && final(self)@ == after_allow(
                    old(self)@,
                    elapsed,
                ),
            old(self)@.state == CircuitState::Closed ==> r && final(self)@ == old(self)@,
            old(self)@.state == CircuitState::HalfOpen ==> r == allows(old(self)@, false) && final(self)@ == after_allow(old(self)@, false),
            final(self).spec_config() == old(self).spec_config(),
            final(self).wf(),
    {
        let elapsed = match (&self.state, &self.opened_at) {
            (CircuitState::Open, Some(t)) => {
                let e = instant_elapsed(t);
                duration_at_least(&e, &self.config.recovery_timeout)
            },
            _ => false,
        };
        self.allow_request_after(elapsed)
    }

    /// Record a successful request.
    pub fn record_success(&mut self)
        requires
            old(self).wf(),
            old(self).can_count(),
        ensures
            final(self)@ == after_success(old(self)@),
            final(self).spec_config() == old(self).spec_config(),
            final(self).wf(),
    {
        self.total_successes = self.total_successes + 1;
        self.probe_in_flight = false;
        self.consecutive_failures = 0;
        self.consecutive_successes = self.consecutive_successes + 1;
        match self.state {
            CircuitState::HalfOpen => {
                if self.consecutive_successes >= self.config.success_threshold {
                    self.state = CircuitState::Closed;
                    self.opened_at = None;
                }
            },
            CircuitState::Open => {
                self.state = CircuitState::HalfOpen;
            },
            CircuitState::Closed => {},
        }
    }

    /// Record a failed request.
    pub fn record_failure(&mut self)
        requires
            old(self).wf(),
            old(self).can_count(),
        ensures
            final(self)@ == after_failure(old(self)@),
            final(self).spec_config() == old(self).spec_config(),
            final(self).wf(),
    {
        self.total_failures = self.total_failures + 1;
        self.probe_in_flight = false;
        self.consecutive_failures = self.consecutive_failures + 1;
        self.consecutive_successes = 0;
        self.last_failure_time = Some(instant_now());
        match self.state {
            CircuitState::Closed => {
                if self.consecutive_failures >= self.config.failure_threshold {
                    self.opened_at = Some(instant_now());
                    self.state = CircuitState::Open;
                }
            },
            CircuitState::HalfOpen => {
                self.opened_at = Some(instant_now());
                self.state = CircuitState::Open;
            },
            CircuitState::Open => {},
        }
    }

    /// Whether one more event can be counted without any counter overflowing.
    pub fn has_room(&self) -> (r: bool)
        ensures
            r == self.can_count(),
    {
        self.consecutive_failures < u32::MAX && self.consecutive_successes < u32::MAX
            && self.total_failures < u64::MAX && self.total_successes < u64::MAX
            && self.total_rejected < u64::MAX
    }

    /// Get the current state.
    pub fn state(&self) -> (r: CircuitState)
        ensures
            r == self@.state,
    {
        self.state
    }

    /// Get a snapshot of the breaker status.
    pub fn status(&self) -> (r: CircuitBreakerStatus)
        ensures
            status_of(r, self@),
    {
        CircuitBreakerStatus {
            state: self.state,
            consecutive_failures: self.consecutive_failures,
            total_failures: self.total_failures,
            total_successes: self.total_successes,
            total_rejected: self.total_rejected,
            failure_threshold: self.config.failure_threshold,
        }
    }

    /// Force the circuit to a specific state (for testing/admin).
    pub fn force_state(&mut self, state: CircuitState)
        ensures
            final(self)@ == after_force(old(self)@, state),
            final(self).spec_config() == old(self).spec_config(),
            final(self).wf(),
            old(self).can_count() ==> final(self).can_count(),
    {
        match state {
            CircuitState::Open => {
                self.opened_at = Some(instant_now());
            },
            CircuitState::Closed => {
                self.opened_at = None;
                self.consecutive_failures = 0;
            },
            CircuitState::HalfOpen => {},
        }
        self.state = state;
        self.probe_in_flight = false;
        proof {
            assert(old(self).can_count() ==> final(self).can_count());
        }
    }

    /// Reset all counters and return to closed state.
    pub fn reset(&mut self)
        ensures
            final(self)@ == fresh_model(
                old(self)@.failure_threshold,
                old(self)@.success_threshold,
            ),
            final(self).spec_config() == old(self).spec_config(),
            final(self).wf(),
            final(self).can_count(),
    {
        self.state = CircuitState::Closed;
        self.consecutive_failures = 0;
        self.consecutive_successes = 0;
        self.total_failures = 0;
        self.total_successes = 0;
        self.total_rejected = 0;
        self.last_failure_time = None;
        self.opened_at = None;
        self.probe_in_flight = false;
    }
}

/// Snapshot of circuit breaker state.
#[derive(Debug, Clone)]
pub struct CircuitBreakerStatus {
    /// Current state.
    pub state: CircuitState,
    /// Consecutive failures since last success.
    pub consecutive_failures: u32,
    /// Total failures ever recorded.
    pub total_failures: u64,
    /// Total successes ever recorded.
    pub total_successes: u64,
    /// Total requests rejected by the open circuit.
    pub total_rejected: u64,
    /// Configured failure threshold.
    pub failure_threshold: u32,
}

/// `st` is the status snapshot of a breaker with model `m`.
pub open spec fn status_of(st: CircuitBreakerStatus, m: BreakerModel) -> bool {
    &&& st.state == m.state
    &&& st.consecutive_failures == m.consecutive_failures
    &&& st.total_failures == m.total_failures
    &&& st.total_successes == m.total_successes
    &&& st.total_rejected == m.total_rejected
    &&& st.failure_threshold == m.failure_threshold
}

// ---------------------------------------------------------------------------
// BreakerTable
// ---------------------------------------------------------------------------

/// Breakers keyed by provider name, each name at most once.
#[derive(Debug)]
pub struct BreakerTable {
    entries: Vec<(String, CircuitBreaker)>,
}

/// The position of `name` among the names of `t`, if it is there.
pub open spec fn index_of(t: Seq<(Seq<char>, BreakerModel)>, name: Seq<char>) -> Option<int> {
    if exists|i: int| 0 <= i < t.len() && t[i].0 == name {
        Some(choose|i: int| 0 <= i < t.len() && t[i].0 == name)
    } else {
        None
    }
}

/// No name occurs twice.
pub open spec fn names_unique(t: Seq<(Seq<char>, BreakerModel)>) -> bool {
    forall|i: int, j: int| 0 <= i < t.len() && 0 <= j < t.len() && i != j ==> t[i].0 != t[j].0
}

/// The table after making sure that `name` has a breaker: unchanged if it
/// has one, else with a fresh breaker of the given thresholds appended.
pub open spec fn with_entry(
    t: Seq<(Seq<char>, BreakerModel)>,
    name: Seq<char>,
    failure_threshold: nat,
    success_threshold: nat,
) -> Seq<(Seq<char>, BreakerModel)> {
    if index_of(t, name) is Some {
        t
    } else {
        t.push((name, fresh_model(failure_threshold, success_threshold)))
    }
}

proof fn lemma_unique_update(t: Seq<(Seq<char>, BreakerModel)>, i: int, e: (Seq<char>, BreakerModel))
    requires
        names_unique(t),
        0 <= i < t.len(),
        t[i].0 == e.0,
    ensures
        names_unique(t.update(i, e)),
{
    assert forall|a: int, b: int|
        0 <= a < t.len() && 0 <= b < t.len() && a != b implies #[trigger] t.update(i, e)[a].0
        != #[trigger] t.update(i, e)[b].0 by {
        assert(t[a].0 != t[b].0);
    }
}

proof fn lemma_unique_push(t: Seq<(Seq<char>, BreakerModel)>, e: (Seq<char>, BreakerModel))
    requires
        names_unique(t),
        index_of(t, e.0) is None,
    ensures
        names_unique(t.push(e)),
{
    assert forall|a: int, b: int|
        0 <= a < t.len() + 1 && 0 <= b < t.len() + 1 && a != b implies #[trigger] t.push(e)[a].0
        != #[trigger] t.push(e)[b].0 by {
        if a < t.len() && b < t.len() {
            assert(t[a].0 != t[b].0);
        } else if a < t.len() {
            assert(t[a].0 != e.0);
        } else {
            assert(t[b].0 != e.0);
        }
    }
}

impl View for BreakerTable {
    type V = Seq<(Seq<char>, BreakerModel)>;

    closed spec fn view(&self) -> Seq<(Seq<char>, BreakerModel)> {
        self.entries@.map_values(|e: (String, CircuitBreaker)| (e.0@, e.1@))
    }
}

impl BreakerTable {
    #[verifier::type_invariant]
    closed spec fn inv(&self) -> bool {
        &&& names_unique(self@)
        &&& forall|i: int| 0 <= i < self.entries@.len() ==> (#[trigger] self.entries@[i]).1.wf()
    }

    /// An empty table.
    pub fn new() -> (r: Self)
        ensures
            r@ == Seq::<(Seq<char>, BreakerModel)>::empty(),
    {
        let r = BreakerTable { entries: Vec::new() };
        assert(r@ =~= Seq::<(Seq<char>, BreakerModel)>::empty());
        r
    }

    /// The position of a provider's breaker.
    fn position(&self, name: &[char]) -> (r: Option<usize>)
        ensures
            r.is_some() == index_of(self@, name@).is_some(),
            r matches Some(i) ==> i < self@.len() && self@[i as int].0 == name@
                && index_of(self@, name@) == Some(i as int),
    {
        proof {
            use_type_invariant(self);
        }
        let mut i: usize = 0;
        while i < self.entries.len()
            invariant
                i <= self.entries@.len(),
                self@.len() == self.entries@.len(),
                names_unique(self@),
                forall|j: int| 0 <= j < i ==> self@[j].0 != name@,
            decreases self.entries.len() - i,
        {
            let key = chars_of(self.entries[i].0.as_str());
            if chars_eq(&key, name) {
                assert(self@[i as int].0 == name@);
                return Some(i);
            }
            i = i + 1;
        }
        None
    }

    /// Register (or replace) the breaker of a provider with a fresh one.
    pub fn register(&mut self, name: String, config: CircuitConfig)
        ensures
            ({
                let fresh = fresh_model(config.failure_threshold as nat, config.success_threshold as nat);
                match index_of(old(self)@, name@) {
                    Some(i) => final(self)@ == old(self)@.update(i, (name@, fresh)),
                    None => final(self)@ == old(self)@.push((name@, fresh)),
                }
            }),
    {
        proof {
            use_type_invariant(&*self);
        }
        let key = chars_of(name.as_str());
        let pos = self.position(&key);
        let b = CircuitBreaker::new(config);
        match pos {
            Some(i) => {
                let ghost before = self@;
                let ghost old_entries = self.entries@;
                let mut entries: Vec<(String, CircuitBreaker)> = Vec::new();
                std::mem::swap(&mut entries, &mut self.entries);
                entries.set(i, (name, b));
                proof {
                    assert(entries@ == old_entries.update(i as int, (name, b)));
                    assert(entries@.map_values(|e: (String, CircuitBreaker)| (e.0@, e.1@))
                        =~= before.update(i as int, (key@, b@)));
                    lemma_unique_update(before, i as int, (key@, b@));
                }
                self.entries = entries;
                assert(self@ =~= before.update(i as int, (key@, b@)));
            },
            None => {
                let ghost before = self@;
                let ghost old_entries = self.entries@;
                let mut entries: Vec<(String, CircuitBreaker)> = Vec::new();
                std::mem::swap(&mut entries, &mut self.entries);
                entries.push((name, b));
                proof {
                    assert(entries@ == old_entries.push((name, b)));
                    assert(entries@.map_values(|e: (String, CircuitBreaker)| (e.0@, e.1@))
                        =~= before.push((key@, b@)));
                    lemma_unique_push(before, (key@, b@));
                }
                self.entries = entries;
                assert(self@ =~= before.push((key@, b@)));
            },
        }
    }

    /// Make sure a provider has a breaker, returning its position.
    fn ensure_entry(&mut self, name: &str, config: CircuitConfig) -> (r: usize)
        ensures
            final(self)@ == with_entry(
                old(self)@,
                name@,
                config.failure_threshold as nat,
                config.success_threshold as nat,
            ),
            r < final(self)@.len(),
            final(self)@[r as int].0 == name@,
            index_of(final(self)@, name@) == Some(r as int),
    {
        proof {
            use_type_invariant(&*self);
        }
        let key = chars_of(name);
        match self.position(&key) {
            Some(i) => i,
            None => {
                let ghost before = self@;
                let ghost old_entries = self.entries@;
                let b = CircuitBreaker::new(config);
                let nm = string_of(&key);
                let mut entries: Vec<(String, CircuitBreaker)> = Vec::new();
                std::mem::swap(&mut entries, &mut self.entries);
                entries.push((nm, b));
                proof {
                    assert(entries@ == old_entries.push((nm, b)));
                    assert(entries@.map_values(|e: (String, CircuitBreaker)| (e.0@, e.1@))
                        =~= before.push((key@, b@)));
                    lemma_unique_push(before, (key@, b@));
                }
                self.entries = entries;
                assert(self@ =~= before.push((key@, b@)));
                assert(self@[before.len() as int].0 == name@);
                self.entries.len() - 1
            },
        }
    }

    /// Ask the breaker of `provider` (registered with `default` if missing)
    /// whether a request may go through. If its counters are exhausted the
    /// breaker is left as it is and only a non-open circuit lets the request
    /// through.
    pub fn allow_request(&mut self, provider: &str, default: CircuitConfig) -> (r: bool)
        ensures
            ({
                let t1 = with_entry(old(self)@, provider@, default.failure_threshold as nat, default.success_threshold as nat);
                let i = index_of(t1, provider@)->0;
                let m = t1[i].1;
                if model_can_count(m) {
                    exists|elapsed: bool| r == allows(m, elapsed) && final(self)@ == t1.update(i, (provider@, after_allow(m, elapsed)))
                } else {
                    r == (m.state != CircuitState::Open) && final(self)@ == t1
                }
            }),
    {
        let i = self.ensure_entry(provider, default);
        proof {
            use_type_invariant(&*self);
        }
        let ghost before = self@;
        let ghost old_entries = self.entries@;
        let mut entries: Vec<(String, CircuitBreaker)> = Vec::new();
        std::mem::swap(&mut entries, &mut self.entries);
        assert(entries@[i as int].1.wf());
        let r = if entries[i].1.has_room() {
            entries[i].1.allow_request()
        } else {
            entries[i].1.state() != CircuitState::Open
        };
        proof {
            assert(entries@.map_values(|e: (String, CircuitBreaker)| (e.0@, e.1@))
                =~= before.update(i as int, (provider@, entries@[i as int].1@)));
            lemma_unique_update(before, i as int, (provider@, entries@[i as int].1@));
            if !old_entries[i as int].1.can_count() {
                assert(before.update(i as int, (provider@, entries@[i as int].1@)) =~= before);
            }
        }
        self.entries = entries;
        r
    }

    /// Record a success for `provider`, if it has a breaker whose counters
    /// are not exhausted; otherwise nothing changes.
    pub fn record_success(&mut self, provider: &str)
        ensures
            match index_of(old(self)@, provider@) {
                Some(i) => if model_can_count(old(self)@[i].1) {
                    final(self)@ == old(self)@.update(i, (provider@, after_success(old(self)@[i].1)))
                } else {
                    final(self)@ == old(self)@
                },
                None => final(self)@ == old(self)@,
            },
    {
        proof {
            use_type_invariant(&*self);
        }
        let key = chars_of(provider);
        match self.position(&key) {
            Some(i) => {
                let ghost before = self@;
                let mut entries: Vec<(String, CircuitBreaker)> = Vec::new();
                std::mem::swap(&mut entries, &mut self.entries);
                assert(entries@[i as int].1.wf());
                if entries[i].1.has_room() {
                    entries[i].1.record_success();
                }
                proof {
                    assert(entries@.map_values(|e: (String, CircuitBreaker)| (e.0@, e.1@))
                        =~= before.update(i as int, (provider@, entries@[i as int].1@)));
                    lemma_unique_update(before, i as int, (provider@, entries@[i as int].1@));
                    if !model_can_count(before[i as int].1) {
                        assert(before.update(i as int, (provider@, entries@[i as int].1@)) =~= before);
                    }
                }
                self.entries = entries;
            },
            None => {},
        }
    }

    /// Record a failure for `provider` (registered with `default` if
    /// missing). If its counters are exhausted the breaker is left as it is.
    pub fn record_failure(&mut self, provider: &str, default: CircuitConfig)
        ensures
            ({
                let t1 = with_entry(old(self)@, provider@, default.failure_threshold as nat, default.success_threshold as nat);
                let i = index_of(t1, provider@)->0;
                let m = t1[i].1;
                if model_can_count(m) {
                    final(self)@ == t1.update(i, (provider@, after_failure(m)))
                } else {
                    final(self)@ == t1
                }
            }),
    {
        let i = self.ensure_entry(provider, default);
        proof {
            use_type_invariant(&*self);
        }
        let ghost before = self@;
        let mut entries: Vec<(String, CircuitBreaker)> = Vec::new();
        std::mem::swap(&mut entries, &mut self.entries);
        assert(entries@[i as int].1.wf());
        if entries[i].1.has_room() {
            entries[i].1.record_failure();
        }
        proof {
            assert(entries@.map_values(|e: (String, CircuitBreaker)| (e.0@, e.1@))
                =~= before.update(i as int, (provider@, entries@[i as int].1@)));
            lemma_unique_update(before, i as int, (provider@, entries@[i as int].1@));
            if !model_can_count(before[i as int].1) {
                assert(before.update(i as int, (provider@, entries@[i as int].1@)) =~= before);
            }
        }
        self.entries = entries;
    }

    /// The status of a provider's breaker, if it has one.
    pub fn status(&self, provider: &str) -> (r: Option<CircuitBreakerStatus>)
        ensures
            match index_of(self@, provider@) {
                Some(i) => r matches Some(st) && status_of(st, self@[i].1),
                None => r is None,
            },
    {
        let key = chars_of(provider);
        match self.position(&key) {
            Some(i) => Some(self.entries[i].1.status()),
            None => None,
        }
    }

    /// The status of every breaker, in registration order.
    pub fn all_statuses(&self) -> (r: Vec<(String, CircuitBreakerStatus)>)
        ensures
            r@.len() == self@.len(),
            forall|i: int| 0 <= i < r@.len() ==> (#[trigger] r@[i]).0@ == self@[i].0
                && status_of(r@[i].1, self@[i].1),
    {
        let mut out: Vec<(String, CircuitBreakerStatus)> = Vec::new();
        let mut i: usize = 0;
        while i < self.entries.len()
            invariant
                i <= self.entries@.len(),
                self@.len() == self.entries@.len(),
                out@.len() == i,
                forall|j: int| 0 <= j < i ==> (#[trigger] out@[j]).0@ == self@[j].0
                    && status_of(out@[j].1, self@[j].1),
            decreases self.entries.len() - i,
        {
            let name = string_of(&chars_of(self.entries[i].0.as_str()));
            out.push((name, self.entries[i].1.status()));
            i = i + 1;
        }
        out
    }

    /// The number of registered breakers.
    pub fn count(&self) -> (r: usize)
        ensures
            r == self@.len(),
    {
        self.entries.len()
    }
}

} // verus!

verus! {

// ---------------------------------------------------------------------------
// CircuitBreakerRegistry
// ---------------------------------------------------------------------------

#[verifier::external_type_specification]
#[verifier::external_body]
#[verifier::reject_recursive_types(T)]
pub struct ExRwLock<T: ?Sized>(RwLock<T>);

#[verifier::external_type_specification]
#[verifier::external_body]
#[verifier::reject_recursive_types(T)]
pub struct ExRwLockWriteGuard<'a, T: ?Sized + 'a>(RwLockWriteGuard<'a, T>);

/// `Arc::new(RwLock::new(t))`: a shared lock holding `t`. Nothing is stated
/// of the lock's contents, which other handles may change later.
#[verifier::external_body]
pub(crate) fn shared_lock<T>(t: T) -> (r: Arc<RwLock<T>>) {
    Arc::new(RwLock::new(t))
}

/// `RwLock::write`, taking the value out of a poisoned lock as
/// `PoisonError::into_inner` does. Nothing is stated of the contents.
#[verifier::external_body]
pub(crate) fn lock_write<T>(l: &RwLock<T>) -> (r: RwLockWriteGuard<'_, T>) {
    l.write().unwrap_or_else(std::sync::PoisonError::into_inner)
}

/// `DerefMut` of a write guard: the value behind the lock. Nothing is
/// stated of what it holds.
#[verifier::external_body]
pub(crate) fn guard_mut<'a, 'b, T>(g: &'a mut RwLockWriteGuard<'b, T>) -> (r: &'a mut T) {
    &mut **g
}

/// Manages circuit breakers for multiple providers.
///
/// Clones share the same table (it lives behind `Arc<RwLock<..>>`). What a
/// shared table holds is not known in advance, so each method states what
/// it hands to the table and the table's own methods carry the exact
/// contracts.
#[derive(Debug, Clone)]
pub struct CircuitBreakerRegistry {
    breakers: Arc<RwLock<BreakerTable>>,
    default_config: CircuitConfig,
}

impl Default for CircuitBreakerRegistry {
    /// A registry whose breakers default to [`CircuitConfig::default`].
    fn default() -> (r: Self)
        ensures
            r.spec_default_config().failure_threshold == DEFAULT_FAILURE_THRESHOLD,
            r.spec_default_config().success_threshold == DEFAULT_SUCCESS_THRESHOLD,
    {
        Self::new(CircuitConfig::default())
    }
}

impl CircuitBreakerRegistry {
    /// The configuration given to breakers that are registered on first use.
    pub closed spec fn spec_default_config(&self) -> CircuitConfig {
        self.default_config
    }

    /// Create a new registry with the given default configuration.
    pub fn new(default_config: CircuitConfig) -> (r: Self)
        ensures
            r.spec_default_config() == default_config,
    {
        CircuitBreakerRegistry {
            breakers: shared_lock(BreakerTable::new()),
            default_config,
        }
    }

    /// Register a breaker for a specific provider with custom config
    /// (see [`BreakerTable::register`]).
    pub fn register(&self, name: &str, config: CircuitConfig) {
        let mut g = lock_write(&*self.breakers);
        let t = guard_mut(&mut g);
        t.register(string_of(&chars_of(name)), config);
    }

    /// Check if a provider allows requests, registering it with the default
    /// configuration first (see [`BreakerTable::allow_request`]). The answer
    /// is the one the table held by the lock at the call gives.
    pub fn allow_request(&self, provider: &str) -> (r: bool)
        ensures
            exists|t: Seq<(Seq<char>, BreakerModel)>|
                #[trigger] allow_outcome(t, provider@, self.spec_default_config(), r),
    {
        let mut g = lock_write(&*self.breakers);
        let t = guard_mut(&mut g);
        proof {
            use_type_invariant(&*t);
        }
        let ghost before = t@;
        let r = t.allow_request(provider, self.default_config);
        proof {
            let cfg = self.default_config;
            let t1 = with_entry(before, provider@, cfg.failure_threshold as nat, cfg.success_threshold as nat);
            let m = t1[index_of(t1, provider@)->0].1;
            if model_can_count(m) {
                let e = choose|e: bool| r == allows(m, e) && t@ == t1.update(index_of(t1, provider@)->0, (provider@, after_allow(m, e)));
                assert(r == allows(m, e));
            }
            assert(allow_outcome(before, provider@, cfg, r));
            assert(cfg == self.spec_default_config());
            assert(allow_outcome(before, provider@, self.spec_default_config(), r));
        }
        r
    }

    /// Record a success for a provider (see [`BreakerTable::record_success`]).
    pub fn record_success(&self, provider: &str) {
        let mut g = lock_write(&*self.breakers);
        let t = guard_mut(&mut g);
        t.record_success(provider)
    }

    /// Record a failure for a provider (see [`BreakerTable::record_failure`]).
    pub fn record_failure(&self, provider: &str) {
        let mut g = lock_write(&*self.breakers);
        let t = guard_mut(&mut g);
        t.record_failure(provider, self.default_config)
    }

    /// Get the status of a specific provider's breaker (see
    /// [`BreakerTable::status`]), in the table held by the lock at the call.
    pub fn status(&self, provider: &str) -> (r: Option<CircuitBreakerStatus>)
        ensures
            exists|t: Seq<(Seq<char>, BreakerModel)>| #[trigger] status_outcome(t, provider@, r),
    {
        let mut g = lock_write(&*self.breakers);
        let t = guard_mut(&mut g);
        let r = t.status(provider);
        assert(status_outcome(t@, provider@, r));
        r
    }

    /// Get all provider statuses (see [`BreakerTable::all_statuses`]), in
    /// the table held by the lock at the call: each provider once.
    pub fn all_statuses(&self) -> (r: Vec<(String, CircuitBreakerStatus)>)
        ensures
            exists|t: Seq<(Seq<char>, BreakerModel)>| #[trigger] statuses_outcome(t, r@),
    {
        let mut g = lock_write(&*self.breakers);
        let t = guard_mut(&mut g);
        proof {
            use_type_invariant(&*t);
        }
        let r = t.all_statuses();
        assert(statuses_outcome(t@, r@));
        r
    }

    /// Get the number of registered breakers in the table held by the lock
    /// at the call.
    pub fn count(&self) -> (r: usize)
        ensures
            exists|t: Seq<(Seq<char>, BreakerModel)>| #[trigger] names_unique(t) && t.len() == r,
    {
        let mut g = lock_write(&*self.breakers);
        let t = guard_mut(&mut g);
        proof {
            use_type_invariant(&*t);
        }
        let r = t.count();
        assert(names_unique(t@) && t@.len() == r);
        r
    }
}

/// What asking table `t` whether `provider` may send a request answers:
/// the provider is registered with `cfg` if missing; a breaker whose
/// counters can still count answers as its circuit does (with or without
/// its recovery timeout elapsed), otherwise a circuit that is not open lets
/// the request through.
pub open spec fn allow_outcome(t: Seq<(Seq<char>, BreakerModel)>, provider: Seq<char>, cfg: CircuitConfig, r: bool) -> bool {
    let t1 = with_entry(t, provider, cfg.failure_threshold as nat, cfg.success_threshold as nat);
    let m = t1[index_of(t1, provider)->0].1;
    if model_can_count(m) {
        exists|e: bool| r == #[trigger] allows(m, e)
    } else {
        r == (m.state != CircuitState::Open)
    }
}

/// The status table `t` gives for `provider`: that of its breaker, or none.
pub open spec fn status_outcome(t: Seq<(Seq<char>, BreakerModel)>, provider: Seq<char>, r: Option<CircuitBreakerStatus>) -> bool {
    match index_of(t, provider) {
        Some(i) => r matches Some(st) && status_of(st, t[i].1),
        None => r is None,
    }
}

/// The statuses of table `t`, whose names are distinct: one per breaker, in
/// order.
pub open spec fn statuses_outcome(t: Seq<(Seq<char>, BreakerModel)>, r: Seq<(String, CircuitBreakerStatus)>) -> bool {
    &&& names_unique(t)
    &&& r.len() == t.len()
    &&& forall|i: int| 0 <= i < r.len() ==> (#[trigger] r[i]).0@ == t[i].0 && status_of(r[i].1, t[i].1)
}

// ---------------------------------------------------------------------------
// Laws
// ---------------------------------------------------------------------------

/// Every transition keeps the invariant that an open circuit knows when it opened.
pub proof fn law_transitions_keep_wf(m: BreakerModel, elapsed: bool, s: CircuitState)
    requires
        model_wf(m),
    ensures
        model_wf(after_success(m)),
        model_wf(after_failure(m)),
        model_wf(after_allow(m, elapsed)),
        model_wf(after_force(m, s)),
{
}

/// A closed circuit with no recorded failures opens after exactly
/// `failure_threshold` consecutive failures, and not before.
pub proof fn law_opens_after_threshold(m: BreakerModel, k: nat)
    requires
        m.state == CircuitState::Closed,
        m.consecutive_failures == 0,
        m.failure_threshold >= 1,
        k <= m.failure_threshold,
    ensures
        after_failures(m, k).consecutive_failures == k,
        after_failures(m, k).failure_threshold == m.failure_threshold,
        after_failures(m, k).total_failures == m.total_failures + k,
        k < m.failure_threshold ==> after_failures(m, k).state == CircuitState::Closed,
        k == m.failure_threshold ==> after_failures(m, k).state == CircuitState::Open,
    decreases k,
{
    if k > 0 {
        let p = after_failures(m, (k - 1) as nat);
        law_opens_after_threshold(m, (k - 1) as nat);
        assert(p.state == CircuitState::Closed);
        assert(after_failures(m, k) == after_failure(p));
    } else {
        assert(after_failures(m, k) == m);
    }
}

/// An open circuit whose recovery timeout has not elapsed rejects the request,
/// counts the rejection, and stays open.
pub proof fn law_open_rejects(m: BreakerModel)
    requires
        m.state == CircuitState::Open,
    ensures
        !allows(m, false),
        after_allow(m, false).state == CircuitState::Open,
        after_allow(m, false).total_rejected == m.total_rejected + 1,
{
}

/// Once the recovery timeout has elapsed, an open circuit lets one probe
/// through and becomes half-open.
pub proof fn law_half_open_after_timeout(m: BreakerModel)
    requires
        m.state == CircuitState::Open,
        model_wf(m),
    ensures
        allows(m, true),
        after_allow(m, true).state == CircuitState::HalfOpen,
        after_allow(m, true).consecutive_successes == 0,
{
}

/// A half-open circuit lets a single probe through: once the probe is out,
/// every further request is rejected and counted until its outcome is
/// recorded, and recording either outcome lets the next probe through again
/// unless the circuit has moved on.
pub proof fn law_half_open_single_probe(m: BreakerModel, e1: bool, e2: bool)
    requires
        m.state == CircuitState::Open,
        model_wf(m),
    ensures
        allows(m, true),
        !allows(after_allow(m, true), e1),
        after_allow(after_allow(m, true), e1).total_rejected == m.total_rejected + 1,
        after_allow(after_allow(m, true), e1).state == CircuitState::HalfOpen,
        !after_success(after_allow(m, true)).probe_in_flight,
        after_success(after_allow(m, true)).state == CircuitState::HalfOpen ==> allows(
            after_success(after_allow(m, true)),
            e2,
        ),
{
}

/// A failure while half-open opens the circuit again.
pub proof fn law_half_open_failure_reopens(m: BreakerModel)
    requires
        m.state == CircuitState::HalfOpen,
    ensures
        after_failure(m).state == CircuitState::Open,
{
}

/// A success clears the consecutive-failure count, and a closed circuit stays closed.
pub proof fn law_success_resets_failures(m: BreakerModel)
    ensures
        after_success(m).consecutive_failures == 0,
        m.state == CircuitState::Closed ==> after_success(m).state == CircuitState::Closed,
        after_success(m).total_successes == m.total_successes + 1,
{
}

/// Half-open closes exactly when the consecutive successes reach the threshold.
pub proof fn law_half_open_closes_at_threshold(m: BreakerModel)
    requires
        m.state == CircuitState::HalfOpen,
    ensures
        (after_success(m).state == CircuitState::Closed) == (m.consecutive_successes + 1
            >= m.success_threshold),
{
}

/// Totals never decrease under requests, successes and failures.
pub proof fn law_totals_monotone(m: BreakerModel, elapsed: bool)
    ensures
        after_success(m).total_failures == m.total_failures,
        after_failure(m).total_successes == m.total_successes,
        after_allow(m, elapsed).total_failures == m.total_failures,
        after_allow(m, elapsed).total_successes == m.total_successes,
        after_allow(m, elapsed).total_rejected >= m.total_rejected,
{
}

} // verus!
