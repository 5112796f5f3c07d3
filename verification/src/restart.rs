//! The restart policy of an instance, the backoff between restarts, and the
//! crash-loop bound.
use crate::duration::Duration;
use vstd::arithmetic::power2::*;
use vstd::prelude::*;

verus! {

/// The number of consecutive failures that makes a crash loop.
pub const MAX_CONSECUTIVE_FAILURES: u32 = 5;

/// What happens when an instance crashes.
#[derive(Clone, Copy, Debug, PartialEq, Eq, Structural)]
pub enum RestartPolicy {
    /// Leave it failed.
    Never,
    /// Start it again after a backoff.
    OnFailure,
}

impl RestartPolicy {
    /// The wire label of the policy.
    pub open spec fn label(self) -> Seq<char> {
        match self {
            RestartPolicy::Never => "never"@,
            RestartPolicy::OnFailure => "on-failure"@,
        }
    }

    /// The policy that a wire label stands for, if any.
    pub open spec fn of_label(value: Seq<char>) -> Option<RestartPolicy> {
        if value == "never"@ {
            Some(RestartPolicy::Never)
        } else if value == "on-failure"@ {
            Some(RestartPolicy::OnFailure)
        } else {
            None
        }
    }

    /// The policy of an instance for which none is recorded.
    pub open spec fn fallback() -> RestartPolicy {
        RestartPolicy::OnFailure
    }

    /// The wire label of the policy.
    pub fn as_str(&self) -> (r: &'static str)
        ensures
            r@ == self.label(),
    {
        match self {
            RestartPolicy::Never => "never",
            RestartPolicy::OnFailure => "on-failure",
        }
    }

    /// The policy that a wire label stands for; `None` on any other text.
    pub fn from_wire(value: &str) -> (r: Option<Self>)
        ensures
            r == Self::of_label(value@),
    {
        if crate::text::same_text(value, "never") {
            Some(RestartPolicy::Never)
        } else if crate::text::same_text(value, "on-failure") {
            Some(RestartPolicy::OnFailure)
        } else {
            None
        }
    }

    /// Whether a crashed instance is started again.
    pub fn restarts_on_crash(&self) -> (r: bool)
        ensures
            r == (*self == RestartPolicy::OnFailure),
    {
        matches!(self, RestartPolicy::OnFailure)
    }
}

impl Default for RestartPolicy {
    fn default() -> (r: Self)
        ensures
            r == RestartPolicy::fallback(),
    {
        RestartPolicy::OnFailure
    }
}

/// An exponential backoff with a cap.
#[derive(Clone, Copy, Debug, PartialEq, Eq, Structural)]
pub struct BackoffSchedule {
    /// The delay before the first restart.
    pub base: Duration,
    /// The longest delay.
    pub cap: Duration,
}

/// The smaller of two numbers.
pub open spec fn lesser(a: int, b: int) -> int {
    if a <= b {
        a
    } else {
        b
    }
}

/// How many times the base is doubled before restart `n`; restart 0 counts as
/// restart 1.
pub open spec fn doublings(n: u32) -> nat {
    if n == 0 {
        0
    } else {
        (n - 1) as nat
    }
}

/// The delay in nanoseconds before restart `n`: the base doubled per earlier
/// restart, no more than the cap.
pub open spec fn delay_nanos(schedule: BackoffSchedule, n: u32) -> int {
    lesser(schedule.base.nanos * pow2(doublings(n)), schedule.cap.nanos as int)
}

impl BackoffSchedule {
    /// The production schedule: one second, doubling, capped at a minute.
    pub open spec fn production_spec() -> BackoffSchedule {
        BackoffSchedule {
            base: Duration { nanos: 1_000_000_000 },
            cap: Duration { nanos: 60_000_000_000 },
        }
    }

    /// The production schedule: one second, doubling, capped at a minute.
    pub fn production() -> (r: Self)
        ensures
            r == Self::production_spec(),
    {
        BackoffSchedule { base: Duration::from_secs(1), cap: Duration::from_secs(60) }
    }

    /// A schedule of the same shape with another base and cap.
    pub fn with_base_and_cap(base: Duration, cap: Duration) -> (r: Self)
        ensures
            r.base == base,
            r.cap == cap,
    {
        BackoffSchedule { base, cap }
    }

    /// The delay before the first restart.
    pub fn base(&self) -> (r: Duration)
        ensures
            r == self.base,
    {
        self.base
    }

    /// The longest delay.
    pub fn cap(&self) -> (r: Duration)
        ensures
            r == self.cap,
    {
        self.cap
    }

    /// The delay before the restart that follows `consecutive_failures`
    /// failures in a row.
    pub fn delay_for(&self, consecutive_failures: u32) -> (r: Duration)
        ensures
            r.nanos == delay_nanos(*self, consecutive_failures),
    {
        let shift: u32 = if consecutive_failures == 0 {
            0
        } else {
            consecutive_failures - 1
        };
        Duration { nanos: Self::doubled(self.base.nanos, shift, self.cap.nanos) }
    }

    /// `start` doubled `times` times, no more than `most`.
    fn doubled(start: u128, times: u32, most: u128) -> (r: u128)
        ensures
            r == lesser(start * pow2(times as nat), most as int),
    {
        if start == 0 {
            return 0;
        }
        let mut value: u128 = start;
        let mut done: u32 = 0;
        proof {
            lemma_pow2(0);
            vstd::arithmetic::power::lemma_pow0(2);
            assert(start * 1 == start) by (nonlinear_arith);
        }
        while done < times && value < most
            invariant
                done <= times,
                value == start * pow2(done as nat),
            decreases times - done,
        {
            let ghost p = pow2(done as nat) as int;
            proof {
                lemma_pow2_unfold((done + 1) as nat);
                assert(start * (2 * p) == 2 * (start * p)) by (nonlinear_arith);
            }
            if value > most - value {
                proof {
                    lemma_doubling_grows(start as int, (done + 1) as nat, times as nat);
                }
                return most;
            }
            value = value + value;
            done = done + 1;
        }
        proof {
            lemma_doubling_grows(start as int, done as nat, times as nat);
        }
        if value <= most {
            value
        } else {
            most
        }
    }
}

/// Doubling more often gives no less.
proof fn lemma_doubling_grows(start: int, few: nat, many: nat)
    requires
        start >= 0,
        few <= many,
    ensures
        start * pow2(few) <= start * pow2(many),
{
    if few < many {
        lemma_pow2_strictly_increases(few, many);
    }
    let p = pow2(few) as int;
    let q = pow2(many) as int;
    assert(start * p <= start * q) by (nonlinear_arith)
        requires
            start >= 0,
            p <= q,
    ;
}

impl Default for BackoffSchedule {
    fn default() -> (r: Self)
        ensures
            r == BackoffSchedule::production_spec(),
    {
        Self::production()
    }
}

/// Whether so many failures in a row are a crash loop.
pub fn is_crash_loop(consecutive_failures: u32) -> (r: bool)
    ensures
        r == (consecutive_failures >= MAX_CONSECUTIVE_FAILURES),
{
    consecutive_failures >= MAX_CONSECUTIVE_FAILURES
}

/// Reading back the label of a policy gives that policy.
pub proof fn law_policy_label_round_trips(policy: RestartPolicy)
    ensures
        RestartPolicy::of_label(policy.label()) == Some(policy),
{
    reveal_strlit("never");
    reveal_strlit("on-failure");
    assert("never"@.len() != "on-failure"@.len());
}

/// No delay is longer than the cap.
pub proof fn law_delay_never_exceeds_the_cap(schedule: BackoffSchedule, n: u32)
    ensures
        0 <= delay_nanos(schedule, n) <= schedule.cap.nanos,
{
    let p = pow2(doublings(n)) as int;
    assert(0 <= schedule.base.nanos * p) by (nonlinear_arith)
        requires
            p >= 0,
    ;
}

/// Delays never shrink as failures add up.
pub proof fn law_delay_is_monotone(schedule: BackoffSchedule, n: u32, m: u32)
    requires
        n <= m,
    ensures
        delay_nanos(schedule, n) <= delay_nanos(schedule, m),
{
    lemma_doubling_grows(schedule.base.nanos as int, doublings(n), doublings(m));
}

/// Each restart waits twice as long as the one before, or for the cap.
pub proof fn law_delay_doubles_up_to_the_cap(schedule: BackoffSchedule, n: u32)
    requires
        1 <= n < u32::MAX,
    ensures
        delay_nanos(schedule, 1) == lesser(schedule.base.nanos as int, schedule.cap.nanos as int),
        delay_nanos(schedule, (n + 1) as u32) == lesser(
            2 * delay_nanos(schedule, n),
            schedule.cap.nanos as int,
        ),
{
    lemma_pow2(0);
    vstd::arithmetic::power::lemma_pow0(2);
    lemma_pow2_unfold(n as nat);
    let b = schedule.base.nanos as int;
    let p = pow2((n - 1) as nat) as int;
    assert(b * (2 * p) == 2 * (b * p)) by (nonlinear_arith);
    assert(b * 1 == b) by (nonlinear_arith);
}

/// Without a base there is no delay, however many restarts there were.
pub proof fn law_no_base_no_delay(schedule: BackoffSchedule, n: u32)
    requires
        schedule.base.nanos == 0,
    ensures
        delay_nanos(schedule, n) == 0,
{
    let p = pow2(doublings(n)) as int;
    assert(0 * p == 0) by (nonlinear_arith);
}

/// The production schedule waits one second before the first restart and a
/// minute before the seventh and every later one.
pub proof fn law_production_delays(n: u32)
    ensures
        delay_nanos(BackoffSchedule::production_spec(), 1) == 1_000_000_000,
        7 <= n ==> delay_nanos(BackoffSchedule::production_spec(), n) == 60_000_000_000,
{
    lemma2_to64();
    if 7 <= n {
        if doublings(n) > 6 {
            lemma_pow2_strictly_increases(6, doublings(n));
        }
    }
}

} // verus!
