//! A sliding-window rate limiter keyed by client address.
//!
//! Each address keeps the times of its accepted requests that lie within the
//! window before the current time. A request is accepted while fewer than
//! `max_requests` such times remain, and its time is then recorded; when the
//! window is full the request is refused with the time until its oldest
//! entry leaves the window. Times are milliseconds.
use crate::clock::unix_millis;
use dashmap::DashMap;
use vstd::prelude::*;

verus! {

/// The recorded request times of each client address.
pub type WindowMap = DashMap<String, Vec<u64>>;

/// What the window map holds: the recorded request times of each address.
pub uninterp spec fn window_contents(m: WindowMap) -> Map<Seq<char>, Seq<u64>>;

/// No address with recorded times.
pub open spec fn no_windows() -> Map<Seq<char>, Seq<u64>> {
    Map::empty()
}

/// `DashMap::new`: an empty map.
#[verifier::external_body]
fn windows_new() -> (r: WindowMap)
    ensures
        window_contents(r) == no_windows(),
        window_contents(r).dom().finite(),
{
    DashMap::new()
}

/// `DashMap::get`, with the times cloned out: the times recorded for `key`,
/// if any.
#[verifier::external_body]
fn windows_get(m: &WindowMap, key: &str) -> (r: Option<Vec<u64>>)
    ensures
        match r {
            Some(v) => window_contents(*m).contains_key(key@) && v@ == window_contents(*m)[key@],
            None => !window_contents(*m).contains_key(key@),
        },
{
    m.get(key).map(|entry| entry.value().clone())
}

/// `DashMap::insert`: `key` now maps to `value`, other keys unchanged.
#[verifier::external_body]
fn windows_insert(m: &mut WindowMap, key: String, value: Vec<u64>)
    ensures
        window_contents(*final(m)) == window_contents(*old(m)).insert(key@, value@),
        window_contents(*final(m)).dom().finite(),
    no_unwind
{
    m.insert(key, value);
}

/// `DashMap::len`: the number of keys.
#[verifier::external_body]
fn windows_len(m: &WindowMap) -> (r: usize)
    ensures
        r == window_contents(*m).len(),
{
    m.len()
}

/// `DashMap::retain` with a closure that calls `keep_recent`: every list of
/// times loses the times outside the window, and addresses left without
/// times are removed.
#[verifier::external_body]
fn windows_retain_recent(m: &mut WindowMap, now: u64, window: u64)
    ensures
        window_contents(*final(m)) == pruned(window_contents(*old(m)), now, window),
        window_contents(*final(m)).dom().finite(),
    no_unwind
{
    m.retain(|_ip, times| keep_recent(times, now, window));
}

/// A request at `t` is still within the window that ends at `now`.
pub open spec fn in_window(t: u64, now: u64, window: u64) -> bool {
    (t as int) > (now as int) - (window as int)
}

/// The times of `ts` within the window that ends at `now`, in order.
pub open spec fn recent(ts: Seq<u64>, now: u64, window: u64) -> Seq<u64>
    decreases ts.len(),
{
    if ts.len() == 0 {
        ts
    } else {
        let r = recent(ts.drop_last(), now, window);
        if in_window(ts.last(), now, window) {
            r.push(ts.last())
        } else {
            r
        }
    }
}

/// The window map with old times dropped and empty addresses removed.
pub open spec fn pruned(m: Map<Seq<char>, Seq<u64>>, now: u64, window: u64) -> Map<
    Seq<char>,
    Seq<u64>,
> {
    Map::new(
        |k: Seq<char>| m.contains_key(k) && recent(m[k], now, window).len() > 0,
        |k: Seq<char>| recent(m[k], now, window),
    )
}

/// The times recorded for `ip`, none when it has no entry.
pub open spec fn times_of(m: Map<Seq<char>, Seq<u64>>, ip: Seq<char>) -> Seq<u64> {
    if m.contains_key(ip) {
        m[ip]
    } else {
        Seq::empty()
    }
}

/// Milliseconds from `from` to `now`; 0 when `now` is earlier.
pub open spec fn elapsed_ms(from: u64, now: u64) -> int {
    if now >= from {
        now - from
    } else {
        0
    }
}

/// The outcome of a request from `ip` at `now`, and the times then
/// recorded for it: accepted with the number of requests still left in the
/// window, or refused with the milliseconds until the oldest time leaves it.
pub open spec fn rate_check(
    m: Map<Seq<char>, Seq<u64>>,
    ip: Seq<char>,
    now: u64,
    window: u64,
    max_requests: usize,
) -> (Result<usize, u64>, Seq<u64>) {
    let ts = recent(times_of(m, ip), now, window);
    if ts.len() >= max_requests {
        (Err((window - elapsed_ms(ts[0], now)) as u64), ts)
    } else {
        (Ok((max_requests - ts.len() - 1) as usize), ts.push(now))
    }
}

/// Every time that `recent` keeps lies within the window.
pub proof fn lemma_recent_in_window(ts: Seq<u64>, now: u64, window: u64)
    ensures
        forall|i: int|
            0 <= i < recent(ts, now, window).len() ==> in_window(
                #[trigger] recent(ts, now, window)[i],
                now,
                window,
            ),
        recent(ts, now, window).len() <= ts.len(),
    decreases ts.len(),
{
    if ts.len() > 0 {
        lemma_recent_in_window(ts.drop_last(), now, window);
    }
}

/// The times of `ts` within the window ending at `now`.
pub fn recent_times(ts: &Vec<u64>, now: u64, window: u64) -> (r: Vec<u64>)
    ensures
        r@ == recent(ts@, now, window),
{
    let mut out: Vec<u64> = Vec::new();
    let mut i: usize = 0;
    while i < ts.len()
        invariant
            i <= ts@.len(),
            out@ == recent(ts@.take(i as int), now, window),
        decreases ts@.len() - i,
    {
        assert(ts@.take(i + 1).drop_last() =~= ts@.take(i as int));
        assert(ts@.take(i + 1).last() == ts@[i as int]);
        let t = ts[i];
        let keep = if now >= window {
            t > now - window
        } else {
            true
        };
        if keep {
            out.push(t);
        }
        i = i + 1;
    }
    assert(ts@.take(ts@.len() as int) =~= ts@);
    out
}

/// Drops the times outside the window; whether any time is left.
pub fn keep_recent(times: &mut Vec<u64>, now: u64, window: u64) -> (keep: bool)
    ensures
        final(times)@ == recent(old(times)@, now, window),
        keep == (final(times)@.len() > 0),
{
    let kept = recent_times(times, now, window);
    *times = kept;
    times.len() > 0
}

/// A sliding-window rate limiter keyed by client address.
pub struct RateLimiter {
    windows: WindowMap,
    max_requests: usize,
    window_ms: u64,
}

impl RateLimiter {
    /// The limiter tracks finitely many addresses.
    #[verifier::type_invariant]
    spec fn finitely_many(self) -> bool {
        window_contents(self.windows).dom().finite()
    }

    /// The recorded request times of each address.
    pub closed spec fn windows(&self) -> Map<Seq<char>, Seq<u64>> {
        window_contents(self.windows)
    }

    /// How many requests an address may make within one window.
    pub closed spec fn max_requests(&self) -> usize {
        self.max_requests
    }

    /// The length of the window.
    pub closed spec fn window_ms(&self) -> u64 {
        self.window_ms
    }

    /// A limiter with no recorded requests.
    pub fn new(max_requests: usize, window_ms: u64) -> (r: RateLimiter)
        ensures
            r.windows() == no_windows(),
            r.windows().dom().finite(),
            r.max_requests() == max_requests,
            r.window_ms() == window_ms,
    {
        RateLimiter { windows: windows_new(), max_requests, window_ms }
    }

    /// Checks a request from `ip` at time `now`: `Ok` with the requests
    /// still left in the window, or `Err` with the milliseconds until a
    /// request would be accepted. An accepted request's time is recorded;
    /// either way the address keeps only its times within the window.
    pub fn check_at(&mut self, ip: &str, now: u64) -> (r: Result<usize, u64>)
        requires
            old(self).max_requests() > 0,
        ensures
            r == rate_check(
                old(self).windows(),
                ip@,
                now,
                old(self).window_ms(),
                old(self).max_requests(),
            ).0,
            final(self).windows() == old(self).windows().insert(
                ip@,
                rate_check(
                    old(self).windows(),
                    ip@,
                    now,
                    old(self).window_ms(),
                    old(self).max_requests(),
                ).1,
            ),
            final(self).max_requests() == old(self).max_requests(),
            final(self).window_ms() == old(self).window_ms(),
            final(self).windows().dom().finite(),
    {
        let stored = match windows_get(&self.windows, ip) {
            Some(v) => v,
            None => Vec::new(),
        };
        assert(stored@ == times_of(self.windows(), ip@));
        let mut timestamps = recent_times(&stored, now, self.window_ms);
        proof {
            lemma_recent_in_window(stored@, now, self.window_ms);
        }
        if timestamps.len() >= self.max_requests {
            let oldest = timestamps[0];
            assert(in_window(timestamps@[0], now, self.window_ms));
            let elapsed = if now >= oldest {
                now - oldest
            } else {
                0
            };
            let retry_after = self.window_ms - elapsed;
            windows_insert(&mut self.windows, ip.to_owned(), timestamps);
            Err(retry_after)
        } else {
            timestamps.push(now);
            let remaining = self.max_requests - timestamps.len();
            windows_insert(&mut self.windows, ip.to_owned(), timestamps);
            Ok(remaining)
        }
    }

    /// Checks a request from `ip` now, by the system clock.
    pub fn check(&mut self, ip: &str) -> (r: Result<usize, u64>)
        requires
            old(self).max_requests() > 0,
        ensures
            exists|now: u64|
                r == rate_check(
                    old(self).windows(),
                    ip@,
                    now,
                    old(self).window_ms(),
                    old(self).max_requests(),
                ).0 && final(self).windows() == old(self).windows().insert(
                    ip@,
                    rate_check(
                        old(self).windows(),
                        ip@,
                        now,
                        old(self).window_ms(),
                        old(self).max_requests(),
                    ).1,
                ),
            final(self).max_requests() == old(self).max_requests(),
            final(self).window_ms() == old(self).window_ms(),
            final(self).windows().dom().finite(),
    {
        let now = unix_millis();
        self.check_at(ip, now)
    }

    /// The number of addresses with recorded requests.
    pub fn tracked_ips(&self) -> (r: usize)
        ensures
            r == self.windows().len(),
            self.windows().dom().finite(),
    {
        proof {
            use_type_invariant(self);
        }
        windows_len(&self.windows)
    }

    /// Drops the times outside the window that ends at `now`, and the
    /// addresses left without times.
    pub fn cleanup_at(&mut self, now: u64)
        ensures
            final(self).windows() == pruned(old(self).windows(), now, old(self).window_ms()),
            final(self).max_requests() == old(self).max_requests(),
            final(self).window_ms() == old(self).window_ms(),
            final(self).windows().dom().finite(),
    {
        windows_retain_recent(&mut self.windows, now, self.window_ms);
    }

    /// Drops stale times and addresses, by the system clock.
    pub fn cleanup(&mut self)
        ensures
            exists|now: u64|
                final(self).windows() == pruned(old(self).windows(), now, old(self).window_ms()),
            final(self).max_requests() == old(self).max_requests(),
            final(self).window_ms() == old(self).window_ms(),
            final(self).windows().dom().finite(),
    {
        let now = unix_millis();
        self.cleanup_at(now);
    }
}


/// A window keeps all its times when they all lie within it.
pub proof fn lemma_recent_keeps_in_window(ts: Seq<u64>, now: u64, window: u64)
    requires
        forall|i: int| 0 <= i < ts.len() ==> in_window(#[trigger] ts[i], now, window),
    ensures
        recent(ts, now, window) == ts,
    decreases ts.len(),
{
    if ts.len() > 0 {
        let init = ts.drop_last();
        assert forall|i: int| 0 <= i < init.len() implies in_window(#[trigger] init[i], now, window) by {
            assert(init[i] == ts[i]);
        }
        lemma_recent_keeps_in_window(init, now, window);
        assert(init.push(ts.last()) =~= ts);
    }
}

/// The stored windows never hold more times than the limit: a window
/// within the limit stays within it after a request is checked.
pub proof fn lemma_window_within_limit(
    m: Map<Seq<char>, Seq<u64>>,
    ip: Seq<char>,
    now: u64,
    window: u64,
    max_requests: usize,
)
    requires
        times_of(m, ip).len() <= max_requests,
    ensures
        rate_check(m, ip, now, window, max_requests).1.len() <= max_requests,
{
    lemma_recent_in_window(times_of(m, ip), now, window);
}

/// The windows after `k` requests from `ip`, all at `now`.
pub open spec fn repeated_checks(
    m: Map<Seq<char>, Seq<u64>>,
    ip: Seq<char>,
    now: u64,
    window: u64,
    max_requests: usize,
    k: nat,
) -> Map<Seq<char>, Seq<u64>>
    decreases k,
{
    if k == 0 {
        m
    } else {
        let prev = repeated_checks(m, ip, now, window, max_requests, (k - 1) as nat);
        prev.insert(ip, rate_check(prev, ip, now, window, max_requests).1)
    }
}

proof fn lemma_repeated_times(
    m: Map<Seq<char>, Seq<u64>>,
    ip: Seq<char>,
    now: u64,
    window: u64,
    max_requests: usize,
    k: nat,
)
    requires
        window > 0,
        recent(times_of(m, ip), now, window).len() == 0,
        1 <= k <= max_requests,
    ensures
        times_of(repeated_checks(m, ip, now, window, max_requests, k), ip) =~= Seq::new(
            k,
            |i: int| now,
        ),
    decreases k,
{
    let prev = repeated_checks(m, ip, now, window, max_requests, (k - 1) as nat);
    if k == 1 {
        assert(prev == m);
    } else {
        lemma_repeated_times(m, ip, now, window, max_requests, (k - 1) as nat);
        let s = Seq::new((k - 1) as nat, |i: int| now);
        assert forall|i: int| 0 <= i < s.len() implies in_window(#[trigger] s[i], now, window) by {}
        lemma_recent_keeps_in_window(s, now, window);
    }
}

/// Requests from one address at one instant, starting from no times within
/// the window, are accepted `max_requests` times, with one request fewer
/// left after each; the next is refused until the whole window has passed.
pub proof fn lemma_burst_limit(
    m: Map<Seq<char>, Seq<u64>>,
    ip: Seq<char>,
    now: u64,
    window: u64,
    max_requests: usize,
    k: nat,
)
    requires
        window > 0,
        max_requests > 0,
        recent(times_of(m, ip), now, window).len() == 0,
        k <= max_requests,
    ensures
        rate_check(repeated_checks(m, ip, now, window, max_requests, k), ip, now, window, max_requests).0
            == (if k < max_requests {
            Ok::<usize, u64>((max_requests - k - 1) as usize)
        } else {
            Err::<usize, u64>(window)
        }),
{
    if k > 0 {
        lemma_repeated_times(m, ip, now, window, max_requests, k);
        let s = Seq::new(k, |i: int| now);
        assert forall|i: int| 0 <= i < s.len() implies in_window(#[trigger] s[i], now, window) by {}
        lemma_recent_keeps_in_window(s, now, window);
    }
}

/// The window map after requests from `ip` at the times `reqs`, in order.
pub open spec fn after_requests(
    m: Map<Seq<char>, Seq<u64>>,
    ip: Seq<char>,
    reqs: Seq<u64>,
    window: u64,
    max_requests: usize,
) -> Map<Seq<char>, Seq<u64>>
    decreases reqs.len(),
{
    if reqs.len() == 0 {
        m
    } else {
        let prev = after_requests(m, ip, reqs.drop_last(), window, max_requests);
        prev.insert(ip, rate_check(prev, ip, reqs.last(), window, max_requests).1)
    }
}

/// The answer to the last of the requests from `ip` at the times `reqs`.
pub open spec fn last_answer(
    m: Map<Seq<char>, Seq<u64>>,
    ip: Seq<char>,
    reqs: Seq<u64>,
    window: u64,
    max_requests: usize,
) -> Result<usize, u64> {
    rate_check(
        after_requests(m, ip, reqs.drop_last(), window, max_requests),
        ip,
        reqs.last(),
        window,
        max_requests,
    ).0
}

/// The times of the accepted requests among requests from `ip` at the
/// times `reqs`, in order.
pub open spec fn accepted(
    m: Map<Seq<char>, Seq<u64>>,
    ip: Seq<char>,
    reqs: Seq<u64>,
    window: u64,
    max_requests: usize,
) -> Seq<u64>
    decreases reqs.len(),
{
    if reqs.len() == 0 {
        Seq::empty()
    } else {
        let a = accepted(m, ip, reqs.drop_last(), window, max_requests);
        if last_answer(m, ip, reqs, window, max_requests) is Ok {
            a.push(reqs.last())
        } else {
            a
        }
    }
}

/// The times of `a` in the window that ends at `t`: later than
/// `t - window`, and not later than `t`.
pub open spec fn arrivals(a: Seq<u64>, t: u64, window: u64) -> Seq<u64>
    decreases a.len(),
{
    if a.len() == 0 {
        a
    } else {
        let r = arrivals(a.drop_last(), t, window);
        if in_window(a.last(), t, window) && a.last() <= t {
            r.push(a.last())
        } else {
            r
        }
    }
}

/// Times that never go back.
pub open spec fn nondecreasing(s: Seq<u64>) -> bool {
    forall|i: int, j: int| 0 <= i <= j < s.len() ==> s[i] <= s[j]
}

proof fn lemma_recent_twice(ts: Seq<u64>, s1: u64, s2: u64, window: u64)
    requires
        s1 <= s2,
    ensures
        recent(recent(ts, s1, window), s2, window) == recent(ts, s2, window),
    decreases ts.len(),
{
    if ts.len() > 0 {
        let init = ts.drop_last();
        lemma_recent_twice(init, s1, s2, window);
        let r1 = recent(init, s1, window);
        if in_window(ts.last(), s1, window) {
            assert(r1.push(ts.last()).drop_last() =~= r1);
        }
    }
}

proof fn lemma_recent_is_arrivals(a: Seq<u64>, t: u64, window: u64)
    requires
        forall|i: int| 0 <= i < a.len() ==> #[trigger] a[i] <= t,
    ensures
        recent(a, t, window) == arrivals(a, t, window),
    decreases a.len(),
{
    if a.len() > 0 {
        let init = a.drop_last();
        assert forall|i: int| 0 <= i < init.len() implies #[trigger] init[i] <= t by {
            assert(init[i] == a[i]);
        }
        lemma_recent_is_arrivals(init, t, window);
        assert(a[a.len() - 1] <= t);
    }
}

proof fn lemma_recent_shrinks(a: Seq<u64>, s: u64, t: u64, window: u64)
    requires
        s <= t,
    ensures
        recent(a, t, window).len() <= recent(a, s, window).len(),
    decreases a.len(),
{
    if a.len() > 0 {
        lemma_recent_shrinks(a.drop_last(), s, t, window);
    }
}

proof fn lemma_empty_window_has_no_arrivals(a: Seq<u64>, t: u64)
    ensures
        arrivals(a, t, 0).len() == 0,
    decreases a.len(),
{
    if a.len() > 0 {
        lemma_empty_window_has_no_arrivals(a.drop_last(), t);
    }
}

proof fn lemma_requests_state(
    m: Map<Seq<char>, Seq<u64>>,
    ip: Seq<char>,
    reqs: Seq<u64>,
    window: u64,
    max_requests: usize,
)
    requires
        times_of(m, ip).len() == 0,
        nondecreasing(reqs),
        reqs.len() > 0,
        window > 0,
    ensures
        times_of(after_requests(m, ip, reqs, window, max_requests), ip) == recent(
            accepted(m, ip, reqs, window, max_requests),
            reqs.last(),
            window,
        ),
        forall|i: int|
            0 <= i < accepted(m, ip, reqs, window, max_requests).len() ==> #[trigger] accepted(
                m,
                ip,
                reqs,
                window,
                max_requests,
            )[i] <= reqs.last(),
        arrivals(accepted(m, ip, reqs, window, max_requests), reqs.last(), window).len()
            <= max_requests,
        last_answer(m, ip, reqs, window, max_requests) matches Ok(k) ==> k == max_requests
            - arrivals(accepted(m, ip, reqs, window, max_requests), reqs.last(), window).len(),
        rate_check(
            after_requests(m, ip, reqs.drop_last(), window, max_requests),
            ip,
            reqs.last(),
            window,
            max_requests,
        ).1 == times_of(after_requests(m, ip, reqs, window, max_requests), ip),
        recent(
            times_of(after_requests(m, ip, reqs.drop_last(), window, max_requests), ip),
            reqs.last(),
            window,
        ) == recent(accepted(m, ip, reqs.drop_last(), window, max_requests), reqs.last(), window),
    decreases reqs.len(),
{
    let init = reqs.drop_last();
    let s = reqs.last();
    let prev = after_requests(m, ip, init, window, max_requests);
    let a0 = accepted(m, ip, init, window, max_requests);
    let a = accepted(m, ip, reqs, window, max_requests);
    if init.len() == 0 {
        assert(prev == m);
        assert(a0 =~= Seq::<u64>::empty());
        assert(recent(times_of(prev, ip), s, window) =~= recent(a0, s, window)) by {
            assert(times_of(prev, ip) =~= a0);
        }
    } else {
        assert forall|i: int, j: int| 0 <= i <= j < init.len() implies init[i] <= init[j] by {
            assert(init[i] == reqs[i] && init[j] == reqs[j]);
        }
        lemma_requests_state(m, ip, init, window, max_requests);
        let s0 = init.last();
        assert(s0 == reqs[reqs.len() - 2]);
        assert(s0 <= s);
        lemma_recent_twice(a0, s0, s, window);
        lemma_recent_shrinks(a0, s0, s, window);
        lemma_recent_is_arrivals(a0, s0, window);
    }
    // Every accepted time before this request is at most `s`.
    assert forall|i: int| 0 <= i < a0.len() implies #[trigger] a0[i] <= s by {
        if init.len() > 0 {
            assert(a0[i] <= init.last());
            assert(init.last() == reqs[reqs.len() - 2]);
        }
    }
    let ts = recent(a0, s, window);
    assert(recent(times_of(prev, ip), s, window) == ts);
    assert(rate_check(prev, ip, s, window, max_requests).1 == times_of(
        after_requests(m, ip, reqs, window, max_requests),
        ip,
    ));
    if init.len() > 0 {
        lemma_recent_is_arrivals(a0, init.last(), window);
        lemma_recent_shrinks(a0, init.last(), s, window);
    }
    if ts.len() >= max_requests {
        assert(a == a0);
        lemma_recent_is_arrivals(a0, s, window);
        if init.len() == 0 {
            assert(ts.len() == 0);
        }
    } else {
        assert(a == a0.push(s));
        assert(a.drop_last() =~= a0);
        assert(a.last() == s);
        assert(in_window(s, s, window));
        assert forall|i: int| 0 <= i < a.len() implies #[trigger] a[i] <= s by {
            if i < a0.len() {
                assert(a[i] == a0[i]);
            }
        }
        lemma_recent_is_arrivals(a, s, window);
    }
}

/// However requests from one address are spread in time, the requests that
/// are accepted never number more than `max_requests` within any window:
/// for every time `t`, at most `max_requests` accepted requests lie later
/// than `t - window` and not later than `t`.
pub proof fn lemma_at_most_max_per_window(
    m: Map<Seq<char>, Seq<u64>>,
    ip: Seq<char>,
    reqs: Seq<u64>,
    window: u64,
    max_requests: usize,
    t: u64,
)
    requires
        times_of(m, ip).len() == 0,
        nondecreasing(reqs),
    ensures
        arrivals(accepted(m, ip, reqs, window, max_requests), t, window).len() <= max_requests,
    decreases reqs.len(),
{
    let a = accepted(m, ip, reqs, window, max_requests);
    if window == 0 {
        lemma_empty_window_has_no_arrivals(a, t);
    } else if reqs.len() > 0 {
        let init = reqs.drop_last();
        let s = reqs.last();
        if s > t {
            assert forall|i: int, j: int| 0 <= i <= j < init.len() implies init[i] <= init[j] by {
                assert(init[i] == reqs[i] && init[j] == reqs[j]);
            }
            lemma_at_most_max_per_window(m, ip, init, window, max_requests, t);
            let a0 = accepted(m, ip, init, window, max_requests);
            if a != a0 {
                assert(a.drop_last() =~= a0);
                assert(a.last() == s);
            }
        } else {
            lemma_requests_state(m, ip, reqs, window, max_requests);
            assert forall|i: int| 0 <= i < a.len() implies #[trigger] a[i] <= t by {
                assert(a[i] <= s);
            }
            assert forall|i: int| 0 <= i < a.len() implies #[trigger] a[i] <= s by {}
            lemma_recent_is_arrivals(a, t, window);
            lemma_recent_is_arrivals(a, s, window);
            lemma_recent_shrinks(a, s, t, window);
        }
    }
}

/// An accepted request is told how many more requests the window ending at
/// its time still admits: `max_requests` less the accepted requests within
/// that window, itself included. A refused request is not recorded.
pub proof fn lemma_answer_counts_what_is_left(
    m: Map<Seq<char>, Seq<u64>>,
    ip: Seq<char>,
    reqs: Seq<u64>,
    window: u64,
    max_requests: usize,
)
    requires
        times_of(m, ip).len() == 0,
        nondecreasing(reqs),
        reqs.len() > 0,
        window > 0,
    ensures
        last_answer(m, ip, reqs, window, max_requests) matches Ok(k) ==> k == max_requests
            - arrivals(accepted(m, ip, reqs, window, max_requests), reqs.last(), window).len(),
        last_answer(m, ip, reqs, window, max_requests) is Err ==> accepted(
            m,
            ip,
            reqs,
            window,
            max_requests,
        ) == accepted(m, ip, reqs.drop_last(), window, max_requests),
{
    lemma_requests_state(m, ip, reqs, window, max_requests);
}

/// Requests from another address never change the answer to `ip`.
pub proof fn lemma_other_addresses_independent(
    m: Map<Seq<char>, Seq<u64>>,
    ip: Seq<char>,
    other: Seq<char>,
    times: Seq<u64>,
    now: u64,
    window: u64,
    max_requests: usize,
)
    requires
        other != ip,
    ensures
        rate_check(m.insert(other, times), ip, now, window, max_requests) == rate_check(
            m,
            ip,
            now,
            window,
            max_requests,
        ),
{
    assert(times_of(m.insert(other, times), ip) == times_of(m, ip));
}

proof fn lemma_take_nondecreasing(reqs: Seq<u64>, k: int)
    requires
        nondecreasing(reqs),
        0 <= k <= reqs.len(),
    ensures
        nondecreasing(reqs.take(k)),
{
    assert forall|i: int, j: int| 0 <= i <= j < reqs.take(k).len() implies reqs.take(k)[i] <= reqs.take(
        k,
    )[j] by {
        assert(reqs.take(k)[i] == reqs[i] && reqs.take(k)[j] == reqs[j]);
    }
}

/// Within less than one window, the answer to request `k` sees exactly the
/// requests before it, as long as all of them were accepted.
proof fn lemma_spread_step(
    m: Map<Seq<char>, Seq<u64>>,
    ip: Seq<char>,
    reqs: Seq<u64>,
    window: u64,
    max_requests: usize,
    k: int,
)
    requires
        times_of(m, ip).len() == 0,
        nondecreasing(reqs),
        window > 0,
        reqs.len() > 0,
        reqs.last() - reqs[0] < window,
        0 <= k < reqs.len(),
        accepted(m, ip, reqs.take(k), window, max_requests) == reqs.take(k),
    ensures
        last_answer(m, ip, reqs.take(k + 1), window, max_requests) == rate_check(
            after_requests(m, ip, reqs.take(k), window, max_requests),
            ip,
            reqs[k],
            window,
            max_requests,
        ).0,
        recent(
            times_of(after_requests(m, ip, reqs.take(k), window, max_requests), ip),
            reqs[k],
            window,
        ) == reqs.take(k),
{
    let r = reqs.take(k + 1);
    lemma_take_nondecreasing(reqs, k + 1);
    assert(r.drop_last() =~= reqs.take(k));
    assert(r.last() == reqs[k]);
    lemma_requests_state(m, ip, r, window, max_requests);
    assert(reqs[0] <= reqs[k] && reqs[k] <= reqs.last());
    assert forall|i: int| 0 <= i < reqs.take(k).len() implies in_window(
        #[trigger] reqs.take(k)[i],
        reqs[k],
        window,
    ) by {
        assert(reqs.take(k)[i] == reqs[i]);
        assert(reqs[0] <= reqs[i]);
        assert(reqs[k] <= reqs.last());
    }
    lemma_recent_keeps_in_window(reqs.take(k), reqs[k], window);
}

proof fn lemma_spread_all_accepted(
    m: Map<Seq<char>, Seq<u64>>,
    ip: Seq<char>,
    reqs: Seq<u64>,
    window: u64,
    max_requests: usize,
    k: int,
)
    requires
        times_of(m, ip).len() == 0,
        nondecreasing(reqs),
        window > 0,
        reqs.len() > 0,
        reqs.last() - reqs[0] < window,
        0 <= k <= reqs.len(),
        k <= max_requests,
    ensures
        accepted(m, ip, reqs.take(k), window, max_requests) == reqs.take(k),
    decreases k,
{
    if k == 0 {
        assert(reqs.take(0) =~= Seq::<u64>::empty());
    } else {
        lemma_spread_all_accepted(m, ip, reqs, window, max_requests, k - 1);
        lemma_spread_step(m, ip, reqs, window, max_requests, k - 1);
        let r = reqs.take(k);
        assert(r.drop_last() =~= reqs.take(k - 1));
        assert(r.last() == reqs[k - 1]);
        assert(reqs.take(k - 1).push(reqs[k - 1]) =~= r);
    }
}

/// Requests from one address spread over less than one window, starting
/// from no recorded times: the first `max_requests` are accepted, with
/// `max_requests - 1`, ..., `0` requests left, and the next one is refused
/// for the time until the first of them leaves the window.
pub proof fn lemma_spread_burst(
    m: Map<Seq<char>, Seq<u64>>,
    ip: Seq<char>,
    reqs: Seq<u64>,
    window: u64,
    max_requests: usize,
    i: int,
)
    requires
        times_of(m, ip).len() == 0,
        nondecreasing(reqs),
        window > 0,
        reqs.len() > 0,
        max_requests > 0,
        reqs.len() <= max_requests + 1,
        reqs.last() - reqs[0] < window,
        0 <= i < reqs.len(),
    ensures
        last_answer(m, ip, reqs.take(i + 1), window, max_requests) == (if i < max_requests {
            Ok::<usize, u64>((max_requests - i - 1) as usize)
        } else {
            Err::<usize, u64>((window - (reqs[i] - reqs[0])) as u64)
        }),
{
    lemma_spread_all_accepted(m, ip, reqs, window, max_requests, i);
    lemma_spread_step(m, ip, reqs, window, max_requests, i);
    assert(reqs[0] <= reqs[i]);
    let ts = recent(
        times_of(after_requests(m, ip, reqs.take(i), window, max_requests), ip),
        reqs[i],
        window,
    );
    assert(ts.len() == i);
    if i > 0 {
        assert(ts[0] == reqs[0]);
    }
}

/// The window map after checks of `calls`, each a client address and a
/// time, in order.
pub open spec fn after_calls(
    m: Map<Seq<char>, Seq<u64>>,
    calls: Seq<(Seq<char>, u64)>,
    window: u64,
    max_requests: usize,
) -> Map<Seq<char>, Seq<u64>>
    decreases calls.len(),
{
    if calls.len() == 0 {
        m
    } else {
        let prev = after_calls(m, calls.drop_last(), window, max_requests);
        let ip = calls.last().0;
        prev.insert(ip, rate_check(prev, ip, calls.last().1, window, max_requests).1)
    }
}

/// The answer to the last of `calls`.
pub open spec fn last_call_answer(
    m: Map<Seq<char>, Seq<u64>>,
    calls: Seq<(Seq<char>, u64)>,
    window: u64,
    max_requests: usize,
) -> Result<usize, u64> {
    rate_check(
        after_calls(m, calls.drop_last(), window, max_requests),
        calls.last().0,
        calls.last().1,
        window,
        max_requests,
    ).0
}

/// The times of the calls from `ip`, in order.
pub open spec fn times_from(calls: Seq<(Seq<char>, u64)>, ip: Seq<char>) -> Seq<u64>
    decreases calls.len(),
{
    if calls.len() == 0 {
        Seq::empty()
    } else {
        let earlier = times_from(calls.drop_last(), ip);
        if calls.last().0 == ip {
            earlier.push(calls.last().1)
        } else {
            earlier
        }
    }
}

/// Calls whose times never go back.
pub open spec fn calls_nondecreasing(calls: Seq<(Seq<char>, u64)>) -> bool {
    forall|i: int, j: int| 0 <= i <= j < calls.len() ==> calls[i].1 <= calls[j].1
}

/// Checking a request from `ip` at `now` on the windows left by `calls` is
/// one more call: `check_at` on a limiter whose windows are those of
/// `calls` answers the last call of `calls` followed by `(ip, now)`, and
/// leaves the windows of that longer run.
pub proof fn lemma_check_extends_calls(
    m: Map<Seq<char>, Seq<u64>>,
    calls: Seq<(Seq<char>, u64)>,
    ip: Seq<char>,
    now: u64,
    window: u64,
    max_requests: usize,
)
    ensures
        after_calls(m, calls.push((ip, now)), window, max_requests) == after_calls(
            m,
            calls,
            window,
            max_requests,
        ).insert(ip, rate_check(after_calls(m, calls, window, max_requests), ip, now, window, max_requests).1),
        last_call_answer(m, calls.push((ip, now)), window, max_requests) == rate_check(
            after_calls(m, calls, window, max_requests),
            ip,
            now,
            window,
            max_requests,
        ).0,
{
    assert(calls.push((ip, now)).drop_last() =~= calls);
}

proof fn lemma_times_from_bounded(calls: Seq<(Seq<char>, u64)>, ip: Seq<char>)
    requires
        calls_nondecreasing(calls),
        calls.len() > 0,
    ensures
        forall|i: int|
            0 <= i < times_from(calls, ip).len() ==> #[trigger] times_from(calls, ip)[i]
                <= calls.last().1,
        nondecreasing(times_from(calls, ip)),
    decreases calls.len(),
{
    let init = calls.drop_last();
    let last = calls.last();
    if init.len() > 0 {
        assert forall|i: int, j: int| 0 <= i <= j < init.len() implies init[i].1 <= init[j].1 by {
            assert(init[i] == calls[i] && init[j] == calls[j]);
        }
        lemma_times_from_bounded(init, ip);
        assert(init.last() == calls[calls.len() - 2]);
        assert(init.last().1 <= last.1);
    } else {
        assert(times_from(init, ip) =~= Seq::<u64>::empty());
    }
    let e = times_from(init, ip);
    if last.0 == ip {
        let f = e.push(last.1);
        assert forall|i: int| 0 <= i < f.len() implies #[trigger] f[i] <= last.1 by {
            if i < e.len() {
                assert(f[i] == e[i]);
            }
        }
        assert forall|i: int, j: int| 0 <= i <= j < f.len() implies f[i] <= f[j] by {
            if j < e.len() {
                assert(f[i] == e[i] && f[j] == e[j]);
            } else if i < e.len() {
                assert(f[i] == e[i]);
            }
        }
    }
}

/// Calls from other addresses leave the windows of `ip` as they are: after
/// any calls, the times recorded for `ip` are those that its own calls
/// alone would leave, and the answer to a call from `ip` is the answer its
/// own calls alone would give.
pub proof fn lemma_calls_from_one_address(
    m: Map<Seq<char>, Seq<u64>>,
    calls: Seq<(Seq<char>, u64)>,
    ip: Seq<char>,
    window: u64,
    max_requests: usize,
)
    ensures
        times_of(after_calls(m, calls, window, max_requests), ip) == times_of(
            after_requests(m, ip, times_from(calls, ip), window, max_requests),
            ip,
        ),
        calls.len() > 0 && calls.last().0 == ip ==> last_call_answer(m, calls, window, max_requests)
            == last_answer(m, ip, times_from(calls, ip), window, max_requests),
    decreases calls.len(),
{
    if calls.len() > 0 {
        let init = calls.drop_last();
        lemma_calls_from_one_address(m, init, ip, window, max_requests);
        let prev = after_calls(m, init, window, max_requests);
        let own = times_from(init, ip);
        let p = after_requests(m, ip, own, window, max_requests);
        if calls.last().0 == ip {
            let f = own.push(calls.last().1);
            assert(f.drop_last() =~= own);
            assert(f.last() == calls.last().1);
            assert(rate_check(prev, ip, calls.last().1, window, max_requests) == rate_check(
                p,
                ip,
                calls.last().1,
                window,
                max_requests,
            ));
        }
    }
}

/// However calls from any addresses are spread in time, starting from no
/// recorded times for `ip`, at most `max_requests` calls from `ip` within
/// any window are accepted.
pub proof fn lemma_calls_at_most_max_per_window(
    m: Map<Seq<char>, Seq<u64>>,
    calls: Seq<(Seq<char>, u64)>,
    ip: Seq<char>,
    window: u64,
    max_requests: usize,
    t: u64,
)
    requires
        times_of(m, ip).len() == 0,
        calls_nondecreasing(calls),
    ensures
        arrivals(accepted(m, ip, times_from(calls, ip), window, max_requests), t, window).len()
            <= max_requests,
{
    if calls.len() > 0 {
        lemma_times_from_bounded(calls, ip);
    } else {
        assert(times_from(calls, ip) =~= Seq::<u64>::empty());
    }
    lemma_at_most_max_per_window(m, ip, times_from(calls, ip), window, max_requests, t);
}

/// An accepted call from `ip`, among calls from any addresses, is told
/// `max_requests` less the accepted calls from `ip` within the window that
/// ends at its time, itself included; a refused call records nothing.
pub proof fn lemma_call_answer_counts_what_is_left(
    m: Map<Seq<char>, Seq<u64>>,
    calls: Seq<(Seq<char>, u64)>,
    ip: Seq<char>,
    window: u64,
    max_requests: usize,
)
    requires
        times_of(m, ip).len() == 0,
        calls_nondecreasing(calls),
        calls.len() > 0,
        calls.last().0 == ip,
        window > 0,
    ensures
        last_call_answer(m, calls, window, max_requests) matches Ok(k) ==> k == max_requests
            - arrivals(
            accepted(m, ip, times_from(calls, ip), window, max_requests),
            calls.last().1,
            window,
        ).len(),
{
    lemma_calls_from_one_address(m, calls, ip, window, max_requests);
    lemma_times_from_bounded(calls, ip);
    let own = times_from(calls, ip);
    let init = calls.drop_last();
    assert(own == times_from(init, ip).push(calls.last().1));
    assert(own.last() == calls.last().1);
    lemma_answer_counts_what_is_left(m, ip, own, window, max_requests);
}

/// Cleaning up at `c` never changes the answer to a later request, nor the
/// times it leaves: only times outside every later window are dropped.
pub proof fn lemma_cleanup_keeps_answers(
    m: Map<Seq<char>, Seq<u64>>,
    ip: Seq<char>,
    c: u64,
    now: u64,
    window: u64,
    max_requests: usize,
)
    requires
        c <= now,
    ensures
        rate_check(pruned(m, c, window), ip, now, window, max_requests) == rate_check(
            m,
            ip,
            now,
            window,
            max_requests,
        ),
{
    lemma_recent_twice(times_of(m, ip), c, now, window);
    if m.contains_key(ip) && recent(m[ip], c, window).len() == 0 {
        assert(recent(m[ip], c, window) =~= Seq::<u64>::empty());
        assert(recent(Seq::<u64>::empty(), now, window) =~= Seq::<u64>::empty());
    }
    if !m.contains_key(ip) {
        assert(recent(Seq::<u64>::empty(), c, window) =~= Seq::<u64>::empty());
    }
    assert(recent(times_of(pruned(m, c, window), ip), now, window) == recent(
        times_of(m, ip),
        now,
        window,
    ));
}

} // verus!
