//! A circuit breaker for an upstream service.
//!
//! Closed: requests pass; each failure counts, and reaching the failure
//! threshold opens the circuit. Open: requests are refused at once until the
//! cooldown has passed since the circuit opened; then the circuit turns
//! half-open and lets one request through as a probe. Further requests are
//! refused until the probe's outcome is recorded. A success closes the
//! circuit and clears the failure count; a failure while half-open opens it
//! again.
//!
//! Times are milliseconds on the clock that the caller reads; counters wrap
//! around at `u64::MAX`.
use crate::clock::unix_millis;
use vstd::prelude::*;

verus! {

/// The state of a circuit breaker.
#[derive(Debug, Clone, Copy, PartialEq, Eq, Structural)]
pub enum CircuitState {
    Closed,
    Open,
    HalfOpen,
}

impl CircuitState {
    /// The state's name as reported by the health endpoint.
    pub open spec fn label(self) -> Seq<char> {
        match self {
            CircuitState::Closed => "closed"@,
            CircuitState::Open => "open"@,
            CircuitState::HalfOpen => "half_open"@,
        }
    }

    /// The state's name: `closed`, `open` or `half_open`.
    pub fn to_string(&self) -> (r: String)
        ensures
            r@ == self.label(),
    {
        match self {
            CircuitState::Closed => String::from_str("closed"),
            CircuitState::Open => String::from_str("open"),
            CircuitState::HalfOpen => String::from_str("half_open"),
        }
    }
}

/// What a circuit breaker holds, apart from its name.
pub struct BreakerModel {
    pub state: CircuitState,
    /// Consecutive failures since the last success.
    pub failure_count: u64,
    /// How many consecutive failures open the circuit.
    pub failure_threshold: u64,
    /// How long the circuit stays open before it lets a probe through.
    pub cooldown_ms: u64,
    /// When the circuit last opened.
    pub opened_at: Option<u64>,
    /// A probe was let through and its outcome is not recorded yet.
    pub probe_in_flight: bool,
    pub total_successes: u64,
    pub total_failures: u64,
    pub total_rejections: u64,
}

/// A counter one step further, wrapping around at `u64::MAX`.
pub open spec fn wrap_inc(x: u64) -> u64 {
    if x == u64::MAX {
        0
    } else {
        (x + 1) as u64
    }
}

fn bump(x: u64) -> (r: u64)
    ensures
        r == wrap_inc(x),
{
    if x == u64::MAX {
        0
    } else {
        x + 1
    }
}

/// Milliseconds from `from` to `now`; 0 when `now` is earlier.
pub open spec fn elapsed_ms(from: u64, now: u64) -> u64 {
    if now >= from {
        (now - from) as u64
    } else {
        0
    }
}

/// The cooldown has passed since the circuit opened.
pub open spec fn cooldown_over(m: BreakerModel, now: u64) -> bool {
    match m.opened_at {
        Some(t) => elapsed_ms(t, now) >= m.cooldown_ms,
        None => false,
    }
}

/// The breaker after a request asks to pass at `now`, and the answer.
pub open spec fn on_request(m: BreakerModel, now: u64) -> (BreakerModel, Result<(), CircuitState>) {
    match m.state {
        CircuitState::Closed => (m, Ok(())),
        CircuitState::HalfOpen => if m.probe_in_flight {
            (
                BreakerModel { total_rejections: wrap_inc(m.total_rejections), ..m },
                Err(CircuitState::Open),
            )
        } else {
            (BreakerModel { probe_in_flight: true, ..m }, Ok(()))
        },
        CircuitState::Open => if cooldown_over(m, now) {
            (BreakerModel { state: CircuitState::HalfOpen, probe_in_flight: true, ..m }, Ok(()))
        } else {
            (
                BreakerModel { total_rejections: wrap_inc(m.total_rejections), ..m },
                Err(CircuitState::Open),
            )
        },
    }
}

/// The breaker after a successful request.
pub open spec fn after_success(m: BreakerModel) -> BreakerModel {
    BreakerModel {
        state: CircuitState::Closed,
        failure_count: 0,
        opened_at: if m.state != CircuitState::Closed {
            None
        } else {
            m.opened_at
        },
        probe_in_flight: false,
        total_successes: wrap_inc(m.total_successes),
        ..m
    }
}

/// The breaker after a failed request at `now`: a failed probe, or the
/// failure that reaches the threshold, opens the circuit.
pub open spec fn after_failure(m: BreakerModel, now: u64) -> BreakerModel {
    let failures = wrap_inc(m.failure_count);
    if m.state == CircuitState::HalfOpen || failures >= m.failure_threshold {
        BreakerModel {
            state: CircuitState::Open,
            failure_count: failures,
            opened_at: Some(now),
            probe_in_flight: false,
            total_failures: wrap_inc(m.total_failures),
            ..m
        }
    } else {
        BreakerModel {
            failure_count: failures,
            probe_in_flight: false,
            total_failures: wrap_inc(m.total_failures),
            ..m
        }
    }
}

/// A breaker as it is made: closed, without failures or counts.
pub open spec fn fresh_breaker(failure_threshold: u64, cooldown_ms: u64) -> BreakerModel {
    BreakerModel {
        state: CircuitState::Closed,
        failure_count: 0,
        failure_threshold,
        cooldown_ms,
        opened_at: None,
        probe_in_flight: false,
        total_successes: 0,
        total_failures: 0,
        total_rejections: 0,
    }
}

/// What holds of every breaker that its operations reach: a closed circuit
/// has no opening time and no probe; an open one has its opening time and
/// no probe; a half-open one has its opening time and its probe in flight.
pub open spec fn consistent(m: BreakerModel) -> bool {
    match m.state {
        CircuitState::Closed => m.opened_at is None && !m.probe_in_flight,
        CircuitState::Open => m.opened_at is Some && !m.probe_in_flight,
        CircuitState::HalfOpen => m.opened_at is Some && m.probe_in_flight,
    }
}

/// The breaker after `k` failed requests, all at `now`.
pub open spec fn after_failures(m: BreakerModel, k: nat, now: u64) -> BreakerModel
    decreases k,
{
    if k == 0 {
        m
    } else {
        after_failure(after_failures(m, (k - 1) as nat, now), now)
    }
}

/// A circuit breaker for one upstream service.
pub struct CircuitBreaker {
    name: String,
    state: CircuitState,
    failure_count: u64,
    failure_threshold: u64,
    cooldown_ms: u64,
    opened_at: Option<u64>,
    probe_in_flight: bool,
    total_successes: u64,
    total_failures: u64,
    total_rejections: u64,
}

/// Figures about a circuit breaker for the health endpoint.
pub struct CircuitBreakerStats {
    pub name: String,
    pub state: String,
    pub failure_count: u64,
    pub failure_threshold: u64,
    pub cooldown_secs: u64,
    pub total_successes: u64,
    pub total_failures: u64,
    pub total_rejections: u64,
}

impl CircuitBreaker {
    /// What the breaker holds.
    pub closed spec fn model(&self) -> BreakerModel {
        BreakerModel {
            state: self.state,
            failure_count: self.failure_count,
            failure_threshold: self.failure_threshold,
            cooldown_ms: self.cooldown_ms,
            opened_at: self.opened_at,
            probe_in_flight: self.probe_in_flight,
            total_successes: self.total_successes,
            total_failures: self.total_failures,
            total_rejections: self.total_rejections,
        }
    }

    /// The upstream service's name.
    pub closed spec fn name(&self) -> Seq<char> {
        self.name@
    }

    /// A closed breaker with no failures, opening after `failure_threshold`
    /// consecutive failures and letting a probe through `cooldown_ms` after
    /// it opened.
    pub fn new(name: &str, failure_threshold: u64, cooldown_ms: u64) -> (r: CircuitBreaker)
        ensures
            r.name() == name@,
            r.model() == fresh_breaker(failure_threshold, cooldown_ms),
    {
        CircuitBreaker {
            name: name.to_owned(),
            state: CircuitState::Closed,
            failure_count: 0,
            failure_threshold,
            cooldown_ms,
            opened_at: None,
            probe_in_flight: false,
            total_successes: 0,
            total_failures: 0,
            total_rejections: 0,
        }
    }

    /// Whether a request may pass at time `now`: `Err(CircuitState::Open)`
    /// when the circuit is open and its cooldown has not passed, or when it
    /// is half-open and its one probe is still out.
    pub fn allow_request_at(&mut self, now: u64) -> (r: Result<(), CircuitState>)
        ensures
            (final(self).model(), r) == on_request(old(self).model(), now),
            final(self).name() == old(self).name(),
    {
        match self.state {
            CircuitState::Closed => Ok(()),
            CircuitState::HalfOpen => {
                if self.probe_in_flight {
                    self.total_rejections = bump(self.total_rejections);
                    Err(CircuitState::Open)
                } else {
                    self.probe_in_flight = true;
                    Ok(())
                }
            },
            CircuitState::Open => {
                if let Some(opened) = self.opened_at {
                    let elapsed = if now >= opened {
                        now - opened
                    } else {
                        0
                    };
                    if elapsed >= self.cooldown_ms {
                        self.state = CircuitState::HalfOpen;
                        self.probe_in_flight = true;
                        return Ok(());
                    }
                }
                self.total_rejections = bump(self.total_rejections);
                Err(CircuitState::Open)
            },
        }
    }

    /// Whether a request may pass now, by the system clock.
    pub fn allow_request(&mut self) -> (r: Result<(), CircuitState>)
        ensures
            exists|now: u64| (final(self).model(), r) == on_request(old(self).model(), now),
            final(self).name() == old(self).name(),
    {
        let now = unix_millis();
        self.allow_request_at(now)
    }

    /// Records a successful request: the circuit closes and the failure
    /// count starts again from zero.
    pub fn record_success(&mut self)
        ensures
            final(self).model() == after_success(old(self).model()),
            final(self).name() == old(self).name(),
    {
        self.failure_count = 0;
        self.probe_in_flight = false;
        self.total_successes = bump(self.total_successes);
        if self.state != CircuitState::Closed {
            self.state = CircuitState::Closed;
            self.opened_at = None;
        }
    }

    /// Records a request that failed at time `now`.
    pub fn record_failure_at(&mut self, now: u64)
        ensures
            final(self).model() == after_failure(old(self).model(), now),
            final(self).name() == old(self).name(),
    {
        let failures = bump(self.failure_count);
        let was_probe = self.state == CircuitState::HalfOpen;
        self.failure_count = failures;
        self.probe_in_flight = false;
        self.total_failures = bump(self.total_failures);
        if was_probe || failures >= self.failure_threshold {
            self.state = CircuitState::Open;
            self.opened_at = Some(now);
        }
    }

    /// Records a request that failed now, by the system clock.
    pub fn record_failure(&mut self)
        ensures
            exists|now: u64| final(self).model() == after_failure(old(self).model(), now),
            final(self).name() == old(self).name(),
    {
        let now = unix_millis();
        self.record_failure_at(now);
    }

    /// The current state.
    pub fn state(&self) -> (r: CircuitState)
        ensures
            r == self.model().state,
    {
        self.state
    }

    /// Figures for the health endpoint; the cooldown in whole seconds.
    pub fn stats(&self) -> (r: CircuitBreakerStats)
        ensures
            r.name@ == self.name(),
            r.state@ == self.model().state.label(),
            r.failure_count == self.model().failure_count,
            r.failure_threshold == self.model().failure_threshold,
            r.cooldown_secs == self.model().cooldown_ms / 1000,
            r.total_successes == self.model().total_successes,
            r.total_failures == self.model().total_failures,
            r.total_rejections == self.model().total_rejections,
    {
        CircuitBreakerStats {
            name: self.name.clone(),
            state: self.state().to_string(),
            failure_count: self.failure_count,
            failure_threshold: self.failure_threshold,
            cooldown_secs: self.cooldown_ms / 1000,
            total_successes: self.total_successes,
            total_failures: self.total_failures,
            total_rejections: self.total_rejections,
        }
    }
}


/// Consecutive failures count up one by one from a breaker without
/// failures; the circuit keeps its state until the count reaches the
/// threshold, and is open, opened at the last failure, from then on.
pub proof fn lemma_consecutive_failures_open(m: BreakerModel, j: nat, now: u64)
    requires
        m.failure_count == 0,
        m.state != CircuitState::HalfOpen,
        j < u64::MAX,
    ensures
        after_failures(m, j, now).failure_count == j,
        after_failures(m, j, now).failure_threshold == m.failure_threshold,
        after_failures(m, j, now).cooldown_ms == m.cooldown_ms,
        j < m.failure_threshold ==> after_failures(m, j, now).state == m.state,
        j < m.failure_threshold ==> after_failures(m, j, now).opened_at == m.opened_at,
        j >= m.failure_threshold && j > 0 ==> after_failures(m, j, now).state == CircuitState::Open,
        j >= m.failure_threshold && j > 0 ==> after_failures(m, j, now).opened_at == Some(now),
    decreases j,
{
    if j > 0 {
        lemma_consecutive_failures_open(m, (j - 1) as nat, now);
    }
}

/// An open circuit whose cooldown has not passed refuses every request and
/// counts the refusal; it stays open.
pub proof fn lemma_open_circuit_refuses(m: BreakerModel, now: u64)
    requires
        m.state == CircuitState::Open,
        !cooldown_over(m, now),
    ensures
        on_request(m, now).1 == Err::<(), CircuitState>(CircuitState::Open),
        on_request(m, now).0.state == CircuitState::Open,
        on_request(m, now).0.total_rejections == wrap_inc(m.total_rejections),
{
}

/// Once the cooldown has passed, an open circuit turns half-open and lets
/// the request through as a probe.
pub proof fn lemma_cooldown_allows_probe(m: BreakerModel, now: u64)
    requires
        m.state == CircuitState::Open,
        cooldown_over(m, now),
    ensures
        on_request(m, now).1 == Ok::<(), CircuitState>(()),
        on_request(m, now).0.state == CircuitState::HalfOpen,
{
}

/// A successful request closes the circuit, whatever its state, and clears
/// the failure count.
pub proof fn lemma_success_closes(m: BreakerModel)
    ensures
        after_success(m).state == CircuitState::Closed,
        after_success(m).failure_count == 0,
        after_success(m).opened_at is None || m.state == CircuitState::Closed,
{
}

/// A closed circuit lets every request through.
pub proof fn lemma_closed_allows(m: BreakerModel, now: u64)
    requires
        m.state == CircuitState::Closed,
    ensures
        on_request(m, now) == (m, Ok::<(), CircuitState>(())),
{
}

/// Every breaker that its operations reach from a new one is consistent: a
/// new breaker is, and each request, success and failure keeps it so.
pub proof fn lemma_operations_keep_consistent(m: BreakerModel, now: u64)
    requires
        consistent(m),
    ensures
        consistent(fresh_breaker(m.failure_threshold, m.cooldown_ms)),
        consistent(on_request(m, now).0),
        consistent(after_success(m)),
        consistent(after_failure(m, now)),
{
}

/// A half-open circuit has let its one probe through: every further
/// request is refused, and counted, until the probe's outcome is recorded.
pub proof fn lemma_half_open_single_probe(m: BreakerModel, now: u64)
    requires
        consistent(m),
        m.state == CircuitState::HalfOpen,
    ensures
        on_request(m, now).1 == Err::<(), CircuitState>(CircuitState::Open),
        on_request(m, now).0.state == CircuitState::HalfOpen,
        on_request(m, now).0.total_rejections == wrap_inc(m.total_rejections),
{
}

/// The request that turns an open circuit half-open is its probe: the next
/// request, at any time, is refused.
pub proof fn lemma_probe_admits_one(m: BreakerModel, t1: u64, t2: u64)
    requires
        consistent(m),
        m.state == CircuitState::Open,
        cooldown_over(m, t1),
    ensures
        on_request(m, t1).1 == Ok::<(), CircuitState>(()),
        on_request(on_request(m, t1).0, t2).1 == Err::<(), CircuitState>(CircuitState::Open),
{
}

/// A failed probe opens the circuit again, from the time of the failure,
/// whatever the failure count.
pub proof fn lemma_half_open_failure_reopens(m: BreakerModel, now: u64)
    requires
        m.state == CircuitState::HalfOpen,
    ensures
        after_failure(m, now).state == CircuitState::Open,
        after_failure(m, now).opened_at == Some(now),
        !after_failure(m, now).probe_in_flight,
{
}

/// A fresh breaker whose threshold `k` is at least one opens on the `k`-th
/// consecutive failure at `t0`; a request at `t1`, once the cooldown has
/// passed, goes through as a probe; when that probe fails at `t2` the
/// circuit opens again, from `t2`.
pub proof fn lemma_failed_probe_reopens(m: BreakerModel, t0: u64, t1: u64, t2: u64)
    requires
        m == fresh_breaker(m.failure_threshold, m.cooldown_ms),
        1 <= m.failure_threshold < u64::MAX,
        elapsed_ms(t0, t1) >= m.cooldown_ms,
    ensures
        after_failures(m, m.failure_threshold as nat, t0).state == CircuitState::Open,
        on_request(after_failures(m, m.failure_threshold as nat, t0), t1).1 == Ok::<
            (),
            CircuitState,
        >(()),
        on_request(after_failures(m, m.failure_threshold as nat, t0), t1).0.state
            == CircuitState::HalfOpen,
        after_failure(on_request(after_failures(m, m.failure_threshold as nat, t0), t1).0, t2).state
            == CircuitState::Open,
        after_failure(
            on_request(after_failures(m, m.failure_threshold as nat, t0), t1).0,
            t2,
        ).opened_at == Some(t2),
{
    lemma_consecutive_failures_open(m, m.failure_threshold as nat, t0);
}

} // verus!
