//! Token usage: run identities, ledger events, totals.
use crate::text::{dec, push_dec};
use vstd::prelude::*;

verus! {

/// The version of the usage event payload.
pub const USAGE_SCHEMA_VERSION: u32 = 1;

/// The identity of one run of an agent, from its start to its end.
#[derive(Debug, PartialEq, Eq, Hash, PartialOrd, Ord)]
pub struct RunId {
    raw: String,
}

/// The text of the identity minted at `nanos` with `nonce`.
pub open spec fn run_id_text(nanos: nat, nonce: nat) -> Seq<char> {
    "run-"@ + dec(nanos) + "-"@ + dec(nonce)
}

impl View for RunId {
    type V = Seq<char>;

    closed spec fn view(&self) -> Seq<char> {
        self.raw@
    }
}

impl RunId {
    /// The identity of a run that starts at `nanos` nanoseconds since the epoch.
    /// `nonce` is a number that the process hands out once.
    pub fn mint(nanos: u128, nonce: u64) -> (r: Self)
        ensures
            r@ == run_id_text(nanos as nat, nonce as nat),
    {
        let mut raw = "run-".to_owned();
        push_dec(&mut raw, nanos);
        raw.append("-");
        push_dec(&mut raw, nonce as u128);
        RunId { raw }
    }

    /// The identity with the given stored text.
    pub fn from_wire(raw: String) -> (r: Self)
        ensures
            r@ == raw@,
    {
        RunId { raw }
    }

    /// The stored text of the identity.
    pub fn as_str(&self) -> (r: &str)
        ensures
            r@ == self@,
    {
        self.raw.as_str()
    }
}

impl Clone for RunId {
    fn clone(&self) -> (r: Self)
        ensures
            r == *self,
    {
        RunId { raw: self.raw.clone() }
    }
}

/// Identities with different nonces differ, whatever the clock said: two mints
/// with one identity have one time and one nonce.
pub proof fn law_minted_identities_are_distinct(nanos: nat, nonce: nat, nanos2: nat, nonce2: nat)
    requires
        run_id_text(nanos, nonce) == run_id_text(nanos2, nonce2),
    ensures
        nanos == nanos2,
        nonce == nonce2,
{
    reveal_strlit("run-");
    reveal_strlit("-");
    let a = run_id_text(nanos, nonce);
    let b = run_id_text(nanos2, nonce2);
    let left = dec(nanos) + seq!['-'] + dec(nonce);
    let right = dec(nanos2) + seq!['-'] + dec(nonce2);
    assert("-"@ =~= seq!['-']);
    assert(a.subrange(4, a.len() as int) =~= left);
    assert(b.subrange(4, b.len() as int) =~= right);
    crate::text::lemma_dec_has_no_dash(nanos);
    crate::text::lemma_dec_has_no_dash(nanos2);
    crate::text::lemma_split_at_dash(dec(nanos), dec(nonce), dec(nanos2), dec(nonce2));
    crate::text::lemma_dec_injective(nanos, nanos2);
    crate::text::lemma_dec_injective(nonce, nonce2);
}

/// How many numbers a process can hand out before it hands one out again.
pub open spec fn nonce_count() -> nat {
    0x1_0000_0000_0000_0000
}

/// The number handed out `count` numbers after `first`.
pub open spec fn nonce_after(first: u64, count: nat) -> nat {
    (first + count) as nat % nonce_count()
}

/// The nanoseconds since the epoch that a clock shows: none where it stands before it.
pub open spec fn clock_nanos(clock: Option<u128>) -> nat {
    match clock {
        Some(nanos) => nanos as nat,
        None => 0,
    }
}

/// The numbers that a process hands out to its runs.
#[derive(Debug)]
pub struct RunNonces {
    next: u64,
}

impl RunNonces {
    /// The number handed out next.
    pub closed spec fn upcoming(&self) -> u64 {
        self.next
    }

    /// The numbers of a process that has handed out none.
    pub fn new() -> (r: Self)
        ensures
            r.upcoming() == 0,
    {
        RunNonces { next: 0 }
    }

    /// A time and a number for one run. The clock gives no time where it stands before the
    /// epoch.
    pub fn take(&mut self, clock: Option<u128>) -> (r: (u128, u64))
        ensures
            r.0 == clock_nanos(clock),
            r.1 == old(self).upcoming(),
            final(self).upcoming() == nonce_after(old(self).upcoming(), 1),
    {
        let nonce: u64 = self.next;
        self.next = if nonce == u64::MAX {
            0
        } else {
            nonce + 1
        };
        let nanos: u128 = match clock {
            Some(nanos) => nanos,
            None => 0,
        };
        (nanos, nonce)
    }
}

/// The numbers follow one another: handing one out after `count` others leaves the one that
/// comes after `count + 1`.
pub proof fn law_numbers_follow_one_another(first: u64, count: nat)
    ensures
        nonce_after(first, 0) == first,
        nonce_after(nonce_after(first, count) as u64, 1) == nonce_after(first, count + 1),
{
    let n = nonce_count() as int;
    vstd::arithmetic::div_mod::lemma_small_mod(first as nat, nonce_count());
    vstd::arithmetic::div_mod::lemma_mod_bound(first + count, n);
    vstd::arithmetic::div_mod::lemma_add_mod_noop(first + count, 1, n);
    vstd::arithmetic::div_mod::lemma_small_mod(1, nonce_count());
}

/// No two of fewer than 2^64 runs that one process minted, one after the other, have the same
/// identity, whatever its clock showed.
pub proof fn law_runs_of_a_process_are_distinct(first: u64, clocks: Seq<Option<u128>>, i: int, j: int)
    requires
        clocks.len() <= nonce_count(),
        0 <= i < j < clocks.len(),
    ensures
        run_id_text(clock_nanos(clocks[i]), nonce_after(first, i as nat)) != run_id_text(
            clock_nanos(clocks[j]),
            nonce_after(first, j as nat),
        ),
{
    let n = nonce_count() as int;
    if run_id_text(clock_nanos(clocks[i]), nonce_after(first, i as nat)) == run_id_text(
        clock_nanos(clocks[j]),
        nonce_after(first, j as nat),
    ) {
        law_minted_identities_are_distinct(
            clock_nanos(clocks[i]),
            nonce_after(first, i as nat),
            clock_nanos(clocks[j]),
            nonce_after(first, j as nat),
        );
        let a = first + i;
        let b = first + j;
        assert(a % n == b % n);
        vstd::arithmetic::div_mod::lemma_fundamental_div_mod(a, n);
        vstd::arithmetic::div_mod::lemma_fundamental_div_mod(b, n);
        let q = b / n - a / n;
        assert(n * (b / n) - n * (a / n) == n * q) by (nonlinear_arith)
            requires
                q == b / n - a / n,
        ;
        assert(0 < n * q < n);
        assert(false) by (nonlinear_arith)
            requires
                0 < n * q < n,
                n > 0,
        ;
    }
}

/// One usage report, as the ledger holds it.
#[derive(Debug, PartialEq, Eq)]
pub struct UsageEvent {
    /// The instance that used the tokens.
    pub instance: String,
    /// The run they were used in.
    pub run_id: RunId,
    /// Tokens sent.
    pub input_tokens: u64,
    /// Tokens received.
    pub output_tokens: u64,
    /// Which source metered them.
    pub metering_source: String,
    /// The number of the report within its run.
    pub sequence: u64,
    /// When the report was made.
    pub occurred_at: String,
}

/// The sum of two counts, held at the largest number.
pub open spec fn saturating_sum(a: u64, b: u64) -> int {
    if a + b > u64::MAX {
        u64::MAX as int
    } else {
        a + b
    }
}

impl UsageEvent {
    /// Tokens sent and received, held at the largest number.
    pub fn total_tokens(&self) -> (r: u64)
        ensures
            r == saturating_sum(self.input_tokens, self.output_tokens),
    {
        self.input_tokens.saturating_add(self.output_tokens)
    }
}

impl Clone for UsageEvent {
    fn clone(&self) -> (r: Self)
        ensures
            r == *self,
    {
        UsageEvent {
            instance: self.instance.clone(),
            run_id: self.run_id.clone(),
            input_tokens: self.input_tokens,
            output_tokens: self.output_tokens,
            metering_source: self.metering_source.clone(),
            sequence: self.sequence,
            occurred_at: self.occurred_at.clone(),
        }
    }
}

/// Token totals over some set of ledger events.
#[derive(Clone, Copy, Debug, PartialEq, Eq, Structural)]
pub struct UsageTotals {
    /// Tokens sent.
    pub input_tokens: u64,
    /// Tokens received.
    pub output_tokens: u64,
}

impl UsageTotals {
    /// The totals of no events.
    pub open spec fn none() -> UsageTotals {
        UsageTotals { input_tokens: 0, output_tokens: 0 }
    }

    /// The totals of no events.
    pub fn zero() -> (r: Self)
        ensures
            r == Self::none(),
    {
        UsageTotals { input_tokens: 0, output_tokens: 0 }
    }

    /// Tokens sent and received, held at the largest number.
    pub fn total_tokens(&self) -> (r: u64)
        ensures
            r == saturating_sum(self.input_tokens, self.output_tokens),
    {
        self.input_tokens.saturating_add(self.output_tokens)
    }
}

impl Default for UsageTotals {
    fn default() -> (r: Self)
        ensures
            r == UsageTotals::none(),
    {
        UsageTotals::zero()
    }
}

/// What the ledger did with an event.
#[derive(Clone, Copy, Debug, PartialEq, Eq, Structural)]
pub enum RecordOutcome {
    /// It is a new row.
    Inserted,
    /// The ledger already held it; nothing changed.
    DuplicateReplay,
}

impl RecordOutcome {
    /// Whether the event is a new row.
    pub fn is_inserted(&self) -> (r: bool)
        ensures
            r == (*self == RecordOutcome::Inserted),
    {
        matches!(self, RecordOutcome::Inserted)
    }
}

/// The bus payload for a committed usage event.
#[derive(Debug, PartialEq, Eq)]
pub struct UsageUpdateEvent {
    /// The version of this payload.
    pub schema_version: u32,
    /// The committed event.
    pub event: UsageEvent,
}

impl UsageUpdateEvent {
    /// The payload for `event` in the current version.
    pub fn new(event: UsageEvent) -> (r: Self)
        ensures
            r.schema_version == USAGE_SCHEMA_VERSION,
            r.event == event,
    {
        UsageUpdateEvent { schema_version: USAGE_SCHEMA_VERSION, event }
    }
}

impl Clone for UsageUpdateEvent {
    fn clone(&self) -> (r: Self)
        ensures
            r == *self,
    {
        UsageUpdateEvent { schema_version: self.schema_version, event: self.event.clone() }
    }
}

} // verus!
