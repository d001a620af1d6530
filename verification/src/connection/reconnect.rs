//! Reconnection policy with exponential backoff.

use std::time::Duration;
use vstd::prelude::*;

verus! {

/// `2^n`.
pub open spec fn pow2(n: nat) -> nat
    decreases n,
{
    if n == 0 {
        1
    } else {
        2 * pow2((n - 1) as nat)
    }
}

/// The delay before attempt number `attempt` (counted from zero):
/// `base * 2^attempt`, capped at `max`.
pub open spec fn backoff_delay_ms(base: nat, max: nat, attempt: nat) -> nat {
    if base * pow2(attempt) <= max {
        base * pow2(attempt)
    } else {
        max
    }
}

/// What `Duration::from_millis` gives for a number of milliseconds.
pub uninterp spec fn millis_duration(ms: u64) -> Duration;

/// Wraps `Duration::from_millis`; the result is the duration of `ms`
/// milliseconds, named `millis_duration(ms)`.
#[verifier::external_body]
fn duration_from_millis(ms: u64) -> (d: Duration)
    ensures
        d == millis_duration(ms),
{
    Duration::from_millis(ms)
}

/// Reconnection strategy: a bounded number of attempts, each preceded by a
/// delay that doubles from a base delay up to a maximum.
pub struct ReconnectionStrategy {
    max_attempts: u32,
    base_delay_ms: u64,
    max_delay_ms: u64,
    current_attempt: u32,
}

impl ReconnectionStrategy {
    pub closed spec fn spec_max_attempts(&self) -> u32 {
        self.max_attempts
    }

    pub closed spec fn spec_base_delay_ms(&self) -> u64 {
        self.base_delay_ms
    }

    pub closed spec fn spec_max_delay_ms(&self) -> u64 {
        self.max_delay_ms
    }

    pub closed spec fn spec_current_attempt(&self) -> u32 {
        self.current_attempt
    }

    /// The delay that the next attempt would wait, if one is allowed.
    pub open spec fn spec_next_delay_ms(&self) -> Option<u64> {
        if self.spec_current_attempt() >= self.spec_max_attempts() {
            None
        } else {
            Some(
                backoff_delay_ms(
                    self.spec_base_delay_ms() as nat,
                    self.spec_max_delay_ms() as nat,
                    self.spec_current_attempt() as nat,
                ) as u64,
            )
        }
    }

    /// Ten attempts, starting at one second, capped at thirty seconds.
    pub fn new() -> (s: Self)
        ensures
            s.spec_max_attempts() == 10,
            s.spec_base_delay_ms() == 1000,
            s.spec_max_delay_ms() == 30000,
            s.spec_current_attempt() == 0,
    {
        Self { max_attempts: 10, base_delay_ms: 1000, max_delay_ms: 30000, current_attempt: 0 }
    }

    /// The default strategy with another limit on the number of attempts.
    pub fn with_max_attempts(max_attempts: u32) -> (s: Self)
        ensures
            s.spec_max_attempts() == max_attempts,
            s.spec_base_delay_ms() == 1000,
            s.spec_max_delay_ms() == 30000,
            s.spec_current_attempt() == 0,
    {
        Self { max_attempts, base_delay_ms: 1000, max_delay_ms: 30000, current_attempt: 0 }
    }

    /// The delay in milliseconds before the next attempt (exponential backoff),
    /// or `None` when no attempt is left; counts the attempt.
    pub fn next_delay_ms(&mut self) -> (r: Option<u64>)
        ensures
            r == old(self).spec_next_delay_ms(),
            final(self).spec_max_attempts() == old(self).spec_max_attempts(),
            final(self).spec_base_delay_ms() == old(self).spec_base_delay_ms(),
            final(self).spec_max_delay_ms() == old(self).spec_max_delay_ms(),
            final(self).spec_current_attempt() == if old(self).spec_current_attempt()
                >= old(self).spec_max_attempts() {
                old(self).spec_current_attempt() as int
            } else {
                old(self).spec_current_attempt() + 1
            },
    {
        if self.current_attempt >= self.max_attempts {
            return None;
        }
        let attempt = self.current_attempt;
        let mut delay: u64 = self.base_delay_ms;
        let mut i: u32 = 0;
        proof {
            lemma_pow2_positive(0);
        }
        while i < attempt
            invariant
                i <= attempt,
                delay as int == if (self.base_delay_ms as nat) * pow2(i as nat) <= u64::MAX {
                    (self.base_delay_ms as nat) * pow2(i as nat)
                } else {
                    u64::MAX as nat
                },
            decreases attempt - i,
        {
            proof {
                lemma_pow2_step(i as nat);
                lemma_double_mul(self.base_delay_ms as nat, pow2(i as nat));
            }
            delay = if delay > u64::MAX / 2 {
                u64::MAX
            } else {
                delay * 2
            };
            i = i + 1;
        }
        let result = if delay <= self.max_delay_ms {
            delay
        } else {
            self.max_delay_ms
        };
        self.current_attempt = self.current_attempt + 1;
        Some(result)
    }

    /// Computes the delay for the next attempt (exponential backoff) and
    /// counts the attempt; `None` when no attempt is left.
    pub fn next_delay(&mut self) -> (r: Option<Duration>)
        ensures
            r == match old(self).spec_next_delay_ms() {
                Some(ms) => Some(millis_duration(ms)),
                None => None,
            },
            final(self).spec_max_attempts() == old(self).spec_max_attempts(),
            final(self).spec_base_delay_ms() == old(self).spec_base_delay_ms(),
            final(self).spec_max_delay_ms() == old(self).spec_max_delay_ms(),
            final(self).spec_current_attempt() == if old(self).spec_current_attempt()
                >= old(self).spec_max_attempts() {
                old(self).spec_current_attempt() as int
            } else {
                old(self).spec_current_attempt() + 1
            },
    {
        match self.next_delay_ms() {
            Some(ms) => Some(duration_from_millis(ms)),
            None => None,
        }
    }

    /// Starts counting attempts again (after a successful connection).
    pub fn reset(&mut self)
        ensures
            final(self).spec_current_attempt() == 0,
            final(self).spec_max_attempts() == old(self).spec_max_attempts(),
            final(self).spec_base_delay_ms() == old(self).spec_base_delay_ms(),
            final(self).spec_max_delay_ms() == old(self).spec_max_delay_ms(),
    {
        self.current_attempt = 0;
    }

    /// Whether another reconnection attempt is allowed.
    pub fn should_retry(&self) -> (r: bool)
        ensures
            r == (self.spec_current_attempt() < self.spec_max_attempts()),
    {
        self.current_attempt < self.max_attempts
    }

    /// Number of attempts made since the last reset.
    pub fn current_attempt(&self) -> (r: u32)
        ensures
            r == self.spec_current_attempt(),
    {
        self.current_attempt
    }
}

impl Default for ReconnectionStrategy {
    fn default() -> (s: Self)
        ensures
            s.spec_max_attempts() == 10,
            s.spec_base_delay_ms() == 1000,
            s.spec_max_delay_ms() == 30000,
            s.spec_current_attempt() == 0,
    {
        Self::new()
    }
}

proof fn lemma_pow2_positive(n: nat)
    ensures
        pow2(n) >= 1,
    decreases n,
{
    if n > 0 {
        lemma_pow2_positive((n - 1) as nat);
    }
}

proof fn lemma_pow2_step(n: nat)
    ensures
        pow2(n + 1) == 2 * pow2(n),
{
}

proof fn lemma_double_mul(a: nat, b: nat)
    ensures
        a * (2 * b) == 2 * (a * b),
{
    assert(a * (2 * b) == 2 * (a * b)) by (nonlinear_arith);
}

/// Powers of two grow with the exponent.
proof fn lemma_pow2_monotone(m: nat, n: nat)
    requires
        m <= n,
    ensures
        pow2(m) <= pow2(n),
    decreases n - m,
{
    if m < n {
        lemma_pow2_monotone(m, (n - 1) as nat);
        lemma_pow2_positive((n - 1) as nat);
    }
}

/// The backoff delays never shrink from one attempt to a later one.
pub proof fn law_backoff_non_decreasing(base: nat, max: nat, m: nat, n: nat)
    requires
        m <= n,
    ensures
        backoff_delay_ms(base, max, m) <= backoff_delay_ms(base, max, n),
{
    lemma_pow2_monotone(m, n);
    assert(base * pow2(m) <= base * pow2(n)) by (nonlinear_arith)
        requires
            pow2(m) <= pow2(n),
    ;
}

/// No backoff delay exceeds the cap, and the first one is the base delay
/// whenever the base does not exceed the cap.
pub proof fn law_backoff_bounded(base: nat, max: nat, attempt: nat)
    ensures
        backoff_delay_ms(base, max, attempt) <= max,
        base <= max ==> backoff_delay_ms(base, max, 0) == base,
{
    assert(pow2(0) == 1);
    assert(base * 1 == base);
}

/// Right after a reset, the next attempt is allowed (when any is allowed
/// at all) and waits the base delay, capped at the maximum; once as many
/// attempts as allowed have been counted, no further delay is given.
pub proof fn law_attempt_budget(s: ReconnectionStrategy)
    ensures
        s.spec_current_attempt() == 0 && s.spec_max_attempts() > 0 ==> s.spec_next_delay_ms()
            == Some(
            if s.spec_base_delay_ms() <= s.spec_max_delay_ms() {
                s.spec_base_delay_ms()
            } else {
                s.spec_max_delay_ms()
            },
        ),
        s.spec_current_attempt() >= s.spec_max_attempts() ==> s.spec_next_delay_ms() is None,
{
    assert(pow2(0) == 1);
    assert(s.spec_base_delay_ms() * 1 == s.spec_base_delay_ms());
}

/// What one call of `next_delay` (or `next_delay_ms`) does to the count of
/// attempts: it counts one more while attempts are left, and keeps the limit.
pub open spec fn attempt_counted(a: ReconnectionStrategy, b: ReconnectionStrategy) -> bool {
    &&& b.spec_max_attempts() == a.spec_max_attempts()
    &&& b.spec_current_attempt() == if a.spec_current_attempt() >= a.spec_max_attempts() {
        a.spec_current_attempt() as int
    } else {
        a.spec_current_attempt() + 1
    }
}

/// `min(a, b)`.
pub open spec fn min_int(a: int, b: int) -> int {
    if a <= b {
        a
    } else {
        b
    }
}

/// Counting attempts: after creation or a reset, `n` calls of `next_delay`
/// leave `min(n, max_attempts)` attempts counted, and call `i` (from zero)
/// gives a delay exactly when `i < max_attempts`. `ss[i]` is the strategy
/// before call `i`.
pub proof fn law_attempts_counted(ss: Seq<ReconnectionStrategy>)
    requires
        ss.len() >= 1,
        ss[0].spec_current_attempt() == 0,
        forall|i: int| 0 <= i < ss.len() - 1 ==> #[trigger] attempt_counted(ss[i], ss[i + 1]),
    ensures
        forall|i: int| 0 <= i < ss.len() ==> #[trigger] ss[i].spec_max_attempts() == ss[0].spec_max_attempts()
            && ss[i].spec_current_attempt() == min_int(i, ss[0].spec_max_attempts() as int),
        ss.last().spec_current_attempt() == min_int(ss.len() - 1, ss[0].spec_max_attempts() as int),
        forall|i: int| 0 <= i < ss.len() - 1 ==> (#[trigger] ss[i].spec_next_delay_ms() is Some <==> i
            < ss[0].spec_max_attempts()),
    decreases ss.len(),
{
    if ss.len() > 1 {
        let pre = ss.drop_last();
        assert forall|i: int| 0 <= i < pre.len() - 1 implies #[trigger] attempt_counted(pre[i], pre[i + 1]) by {
            assert(pre[i] == ss[i] && pre[i + 1] == ss[i + 1]);
            assert(attempt_counted(ss[i], ss[i + 1]));
        }
        law_attempts_counted(pre);
        assert forall|i: int| 0 <= i < ss.len() implies #[trigger] ss[i].spec_max_attempts() == ss[0].spec_max_attempts()
            && ss[i].spec_current_attempt() == min_int(i, ss[0].spec_max_attempts() as int) by {
            if i < pre.len() {
                assert(pre[i] == ss[i]);
                assert(pre[i].spec_max_attempts() == pre[0].spec_max_attempts());
            } else {
                let k = i - 1;
                assert(pre[k] == ss[k]);
                assert(pre[k].spec_max_attempts() == pre[0].spec_max_attempts());
                assert(attempt_counted(ss[k], ss[k + 1]));
            }
        }
        assert forall|i: int| 0 <= i < ss.len() - 1 implies (#[trigger] ss[i].spec_next_delay_ms() is Some <==> i
            < ss[0].spec_max_attempts()) by {
            assert(ss[i].spec_max_attempts() == ss[0].spec_max_attempts()
                && ss[i].spec_current_attempt() == min_int(i, ss[0].spec_max_attempts() as int));
        }
        assert(ss[ss.len() - 1].spec_max_attempts() == ss[0].spec_max_attempts()
            && ss[ss.len() - 1].spec_current_attempt() == min_int(ss.len() - 1, ss[0].spec_max_attempts() as int));
    } else {
        assert forall|i: int| 0 <= i < ss.len() implies #[trigger] ss[i].spec_max_attempts() == ss[0].spec_max_attempts()
            && ss[i].spec_current_attempt() == min_int(i, ss[0].spec_max_attempts() as int) by {
            assert(i == 0);
        }
    }
}

} // verus!
