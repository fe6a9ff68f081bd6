//! Retry logic and pending-operation tracking for one-sided RDMA.
//!
//! # Retry policy
//!
//! A configurable retry policy with exponential backoff and jitter for
//! one-sided RDMA operations. [`RetryState`] decides after each failure whether
//! there is another attempt and how long to wait for it; the waiting, and the
//! random number behind the jitter, are the caller's. For RDMA operations only
//! errors where [`RdmaError::is_retriable`] returns `true` (Timeout,
//! CasFailed, VersionMismatch, NotConnected) are retried.
//!
//! # PendingTracker
//!
//! Tracks in-flight async operations.  When an operation times out or
//! fails, the tracker ensures the associated buffer is properly cleaned
//! up, preventing memory leaks from abandoned buffers in the distributed
//! version.
//!
//! All durations and points in time are in nanoseconds.

use std::collections::HashMap;

use vstd::arithmetic::power2::pow2;
use vstd::prelude::*;
use vstd::string::*;

use crate::clock;
use crate::error::RdmaError;

verus! {

// ---------------------------------------------------------------------------
// RetryConfig
// ---------------------------------------------------------------------------
/// Configuration for retry behavior.
#[derive(Debug)]
pub struct RetryConfig {
    /// Maximum number of retry attempts (default: 3).
    pub max_retries: u32,
    /// Base delay between retries (default: 100 microseconds).
    pub base_delay: u64,
    /// Maximum delay between retries (default: 10 ms).
    pub max_delay: u64,
}

impl Clone for RetryConfig {
    fn clone(&self) -> (r: Self)
        ensures
            r == *self,
    {
        RetryConfig {
            max_retries: self.max_retries,
            base_delay: self.base_delay,
            max_delay: self.max_delay,
        }
    }
}

impl Default for RetryConfig {
    fn default() -> (r: Self)
        ensures
            r.max_retries == 3,
            r.base_delay == 100_000,
            r.max_delay == 10_000_000,
    {
        RetryConfig { max_retries: 3, base_delay: 100_000, max_delay: 10_000_000 }
    }
}

// ---------------------------------------------------------------------------
// Retry decisions
// ---------------------------------------------------------------------------
/// The delay before retry number `attempt`: `base_delay` doubled `attempt` times,
/// capped at `max_delay`.
pub open spec fn backoff(config: RetryConfig, attempt: nat) -> int {
    let delay = config.base_delay * pow2(attempt);
    if delay < config.max_delay {
        delay
    } else {
        config.max_delay as int
    }
}

/// What follows a failure after `attempt` retries: the number of the next retry,
/// or none when the error is final or the retries are used up.
pub open spec fn next_attempt(config: RetryConfig, attempt: u32, retriable: bool) -> Option<int> {
    if !retriable || attempt >= config.max_retries {
        None
    } else {
        Some(attempt + 1)
    }
}

/// What to do after a failure.
#[derive(Debug, Clone, Copy, PartialEq, Eq, Structural)]
pub enum RetryStep {
    /// Hand the error to the caller.
    GiveUp,
    /// Try again after a delay of this many microseconds, give or take the jitter.
    Wait { delay_us: u64 },
}

/// The retries of one operation.
#[derive(Debug)]
pub struct RetryState {
    /// How many retries there were.
    pub attempt: u32,
}

impl RetryState {
    /// An operation that has not been retried.
    pub fn new() -> (r: Self)
        ensures
            r.attempt == 0,
    {
        RetryState { attempt: 0 }
    }

    /// Decides what follows a failure. Every failure that is retried increments
    /// the attempt counter. The delay between attempts grows as
    /// `base_delay * 2^attempt`, capped at `max_delay`. The doubling is limited
    /// to 31 attempts.
    pub fn after_failure(&mut self, config: &RetryConfig, retriable: bool) -> (r: RetryStep)
        requires
            next_attempt(*config, old(self).attempt, retriable) is Some ==> old(self).attempt < 31,
        ensures
            match next_attempt(*config, old(self).attempt, retriable) {
                None => r == RetryStep::GiveUp && final(self).attempt == old(self).attempt,
                Some(n) => {
                    &&& final(self).attempt == n
                    &&& r == (RetryStep::Wait {
                        delay_us: (backoff(*config, n as nat) / 1000) as u64,
                    })
                },
            },
    {
        if !retriable || self.attempt >= config.max_retries {
            return RetryStep::GiveUp;
        }
        self.attempt = self.attempt + 1;
        // Exponential backoff: base * 2^attempt, capped at max_delay.
        let delay: u64 = Self::delay(config, self.attempt);
        RetryStep::Wait { delay_us: delay / 1000 }
    }

    /// Decides what follows a failed RDMA operation.
    ///
    /// Non-retriable errors (e.g. [`RdmaError::KvFull`], [`RdmaError::InvalidKey`],
    /// [`RdmaError::HardwareError`]) are returned immediately without delay.
    pub fn after_rdma_failure(&mut self, config: &RetryConfig, err: &RdmaError) -> (r: RetryStep)
        requires
            next_attempt(*config, old(self).attempt, crate::error::retriable(err@)) is Some
                ==> old(self).attempt < 31,
        ensures
            match next_attempt(*config, old(self).attempt, crate::error::retriable(err@)) {
                None => r == RetryStep::GiveUp && final(self).attempt == old(self).attempt,
                Some(n) => {
                    &&& final(self).attempt == n
                    &&& r == (RetryStep::Wait {
                        delay_us: (backoff(*config, n as nat) / 1000) as u64,
                    })
                },
            },
    {
        self.after_failure(config, err.is_retriable())
    }

    /// The delay before retry number `attempt`.
    fn delay(config: &RetryConfig, attempt: u32) -> (d: u64)
        requires
            attempt <= 31,
        ensures
            d == backoff(*config, attempt as nat),
    {
        let mut delay: u128 = config.base_delay as u128;
        let mut i: u32 = 0;
        proof {
            vstd::arithmetic::power2::lemma2_to64();
        }
        while i < attempt
            invariant
                i <= attempt <= 31,
                delay == config.base_delay * pow2(i as nat),
                pow2(i as nat) <= 0x8000_0000,
                delay <= 0x8000_0000 * 0x1_0000_0000_0000_0000,
            decreases attempt - i,
        {
            proof {
                vstd::arithmetic::power2::lemma_pow2_unfold((i + 1) as nat);
                vstd::arithmetic::power2::lemma2_to64();
                if i + 1 < 31 {
                    vstd::arithmetic::power2::lemma_pow2_strictly_increases((i + 1) as nat, 31);
                }
                let (b, p) = (config.base_delay as int, pow2(i as nat) as int);
                assert(b * (2 * p) == 2 * (b * p)) by (nonlinear_arith);
                assert(b * (2 * p) <= 0x8000_0000 * 0x1_0000_0000_0000_0000) by (nonlinear_arith)
                    requires
                        0 <= b <= 0xffff_ffff_ffff_ffff,
                        0 <= 2 * p <= 0x8000_0000,
                ;
            }
            delay = delay * 2;
            i = i + 1;
        }
        if delay < config.max_delay as u128 {
            delay as u64
        } else {
            config.max_delay
        }
    }
}

/// The delay with its jitter, at least zero.
pub fn with_jitter(delay_us: u64, jitter_us: i64) -> (r: u64)
    requires
        delay_us + jitter_us <= u64::MAX,
    ensures
        r == (if delay_us + jitter_us < 0 {
            0
        } else {
            delay_us + jitter_us
        }),
{
    let sum: i128 = delay_us as i128 + jitter_us as i128;
    if sum < 0 {
        0
    } else {
        sum as u64
    }
}

/// An operation that keeps failing, retried from the attempt number `attempt` on:
/// how many more times it is performed.
pub open spec fn failing_runs(config: RetryConfig, attempt: u32, retriable: bool) -> nat
    decreases config.max_retries - attempt,
{
    match next_attempt(config, attempt, retriable) {
        None => 0,
        Some(n) => 1 + failing_runs(config, n as u32, retriable),
    }
}

/// An operation that keeps failing with retriable errors is performed
/// `max_retries` times more after its first failure; one that fails with a
/// non-retriable error is not performed again.
pub proof fn law_retries_are_bounded(config: RetryConfig, attempt: u32, retriable: bool)
    requires
        attempt <= config.max_retries,
    ensures
        failing_runs(config, attempt, retriable) == (if retriable {
            config.max_retries - attempt
        } else {
            0
        }),
    decreases config.max_retries - attempt,
{
    if retriable && attempt < config.max_retries {
        law_retries_are_bounded(config, (attempt + 1) as u32, retriable);
    }
}

/// Delays never shrink from one retry to the next and never exceed `max_delay`;
/// below the cap each is twice the one before.
pub proof fn law_backoff_doubles(config: RetryConfig, attempt: nat)
    ensures
        backoff(config, attempt) <= backoff(config, attempt + 1) <= config.max_delay,
        backoff(config, attempt + 1) < config.max_delay ==> backoff(config, attempt + 1) == 2
            * backoff(config, attempt),
{
    vstd::arithmetic::power2::lemma_pow2_unfold(attempt + 1);
    vstd::arithmetic::power2::lemma_pow2_pos(attempt);
    let (b, p) = (config.base_delay as int, pow2(attempt) as int);
    assert(b * (2 * p) == 2 * (b * p)) by (nonlinear_arith);
    assert(0 <= b * p) by (nonlinear_arith)
        requires
            0 <= b,
            0 < p,
    ;
}

// ---------------------------------------------------------------------------
// PendingTracker
// ---------------------------------------------------------------------------
/// The pending operations: when each was registered, and its description.
pub type Pending = Map<u64, (u64, Seq<char>)>;

/// The time from `start` to `now`; zero when `start` lies later.
pub open spec fn elapsed(start: u64, now: u64) -> u64 {
    if start <= now {
        (now - start) as u64
    } else {
        0
    }
}

/// The operations that have been pending for longer than the timeout.
pub open spec fn overdue(pending: Pending, timeout: u64, now: u64) -> Set<u64> {
    Set::new(|id: u64| pending.dom().contains(id) && elapsed(pending[id].0, now) > timeout)
}

/// Tracks pending async RDMA operations.
///
/// Each operation is assigned a unique `future_id`.  When an operation
/// completes or times out, its entry is removed.  This prevents buffer
/// leaks.
#[derive(Debug)]
pub struct PendingTracker {
    /// Map of `future_id` to `(start_time, description)`.
    pending: HashMap<u64, (u64, String)>,
    /// Timeout for pending operations (default: 5 x P99 RTT, about 1 ms).
    timeout: u64,
    /// Where the tracker's time starts.
    origin: std::time::Instant,
}

impl View for PendingTracker {
    type V = Pending;

    closed spec fn view(&self) -> Pending {
        self.pending@.map_values(|p: (u64, String)| (p.0, p.1@))
    }
}

/// Lists the keys of a map, in no particular order.
fn list_keys(m: &HashMap<u64, (u64, String)>) -> (v: Vec<u64>)
    ensures
        v@.to_set() == m@.dom(),
        v@.no_duplicates(),
{
    broadcast use vstd::std_specs::hash::group_hash_axioms;

    let ghost keys = vstd::std_specs::iter::IteratorSpec::remaining(
        &vstd::std_specs::hash::spec_keys_iter(m),
    );
    let mut v: Vec<u64> = Vec::new();
    for k in it: m.keys()
        invariant
            it.seq() == keys,
            v@ == keys.unref().take(it.index() as int),
    {
        v.push(*k);
    }
    assert(v@ =~= keys.unref());
    v
}

impl PendingTracker {
    /// The time after which an operation counts as timed out.
    pub closed spec fn limit(&self) -> u64 {
        self.timeout
    }

    /// Create a new `PendingTracker` with the given timeout.
    pub fn new(timeout: u64) -> (r: Self)
        ensures
            r@ == Map::<u64, (u64, Seq<char>)>::empty(),
            r.limit() == timeout,
    {
        broadcast use vstd::std_specs::hash::group_hash_axioms;

        let r = PendingTracker { pending: HashMap::new(), timeout, origin: clock::instant_now() };
        assert(r@ =~= Map::<u64, (u64, Seq<char>)>::empty());
        r
    }

    /// The [`wrapped_ns`] since the tracker was made: it depends on the clock.
    fn now(&self) -> (t: u64) {
        wrapped_ns(clock::nanos_since(&self.origin))
    }

    /// Register a new pending operation.
    pub fn register(&mut self, future_id: u64, description: &str)
        ensures
            exists|now: u64| #[trigger]
                old(self)@.insert(future_id, (now, description@)) == final(self)@,
            final(self).limit() == old(self).limit(),
    {
        let now: u64 = self.now();
        self.register_at(future_id, description, now);
        assert(old(self)@.insert(future_id, (now, description@)) == self@);
    }

    /// Register a new pending operation at the given time.
    pub fn register_at(&mut self, future_id: u64, description: &str, now: u64)
        ensures
            final(self)@ == old(self)@.insert(future_id, (now, description@)),
            final(self).limit() == old(self).limit(),
    {
        broadcast use vstd::std_specs::hash::group_hash_axioms;

        let text: String = description.to_owned();
        self.pending.insert(future_id, (now, text));
        assert(self@ =~= old(self)@.insert(future_id, (now, description@)));
    }

    /// Mark an operation as completed.
    pub fn complete(&mut self, future_id: u64)
        ensures
            final(self)@ == old(self)@.remove(future_id),
            final(self).limit() == old(self).limit(),
    {
        broadcast use vstd::std_specs::hash::group_hash_axioms;

        self.pending.remove(&future_id);
        assert(self@ =~= old(self)@.remove(future_id));
    }

    /// Whether a registered operation is overdue at `now`.
    fn overdue_for(&self, id: u64, now: u64) -> (r: Option<u64>)
        requires
            self@.dom().contains(id),
        ensures
            match r {
                Some(e) => overdue(self@, self.limit(), now).contains(id) && e == elapsed(
                    self@[id].0,
                    now,
                ),
                None => !overdue(self@, self.limit(), now).contains(id),
            },
    {
        broadcast use vstd::std_specs::hash::group_hash_axioms;

        match self.pending.get(&id) {
            Some(p) => {
                let start: u64 = p.0;
                let e: u64 = if start <= now {
                    now - start
                } else {
                    0
                };
                if e > self.timeout {
                    Some(e)
                } else {
                    None
                }
            },
            None => None,
        }
    }

    /// Scan for timed-out operations and return their IDs together with
    /// the elapsed time since registration.
    ///
    /// The caller is responsible for cleaning up associated buffers.
    pub fn scan_timeouts(&self) -> (r: Vec<(u64, u64)>)
        ensures
            exists|now: u64| #[trigger] scanned(self@, self.limit(), now, r@),
    {
        let now: u64 = self.now();
        let r = self.scan_timeouts_at(now);
        assert(scanned(self@, self.limit(), now, r@));
        r
    }

    /// Scan for operations that are timed out at `now`.
    pub fn scan_timeouts_at(&self, now: u64) -> (r: Vec<(u64, u64)>)
        ensures
            scanned(self@, self.limit(), now, r@),
    {
        let ids: Vec<u64> = list_keys(&self.pending);
        let ghost due = overdue(self@, self.limit(), now);
        let mut r: Vec<(u64, u64)> = Vec::new();
        let mut i: usize = 0;
        while i < ids.len()
            invariant
                i <= ids@.len(),
                ids@.to_set() == self@.dom(),
                ids@.no_duplicates(),
                due == overdue(self@, self.limit(), now),
                forall|j: int|
                    0 <= j < r@.len() ==> due.contains((#[trigger] r@[j]).0) && r@[j].1 == elapsed(
                        self@[r@[j].0].0,
                        now,
                    ) && ids@.take(i as int).contains(r@[j].0),
                forall|j: int, k: int| 0 <= j < k < r@.len() ==> (#[trigger] r@[j]).0 != (
                #[trigger] r@[k]).0,
                forall|j: int|
                    0 <= j < i && due.contains(#[trigger] ids@[j]) ==> exists|k: int|
                        0 <= k < r@.len() && (#[trigger] r@[k]).0 == ids@[j],
            decreases ids@.len() - i,
        {
            let id: u64 = ids[i];
            assert(ids@.to_set().contains(id));
            let ghost before = r@;
            assert(ids@.take(i + 1) =~= ids@.take(i as int).push(id));
            if let Some(e) = self.overdue_for(id, now) {
                r.push((id, e));
                assert(r@[r@.len() - 1].0 == id);
            }
            proof {
                assert forall|j: int| 0 <= j < before.len() implies ids@.take(i + 1).contains(
                    (#[trigger] before[j]).0,
                ) by {
                    let m = choose|m: int|
                        0 <= m < ids@.take(i as int).len() && ids@.take(i as int)[m] == before[j].0;
                    assert(ids@.take(i + 1)[m] == before[j].0);
                }
                assert(ids@.take(i + 1)[i as int] == id);
                assert forall|j: int|
                    0 <= j < i + 1 && due.contains(#[trigger] ids@[j]) implies exists|k: int|
                    0 <= k < r@.len() && (#[trigger] r@[k]).0 == ids@[j] by {
                    if j < i {
                        let k = choose|k: int|
                            0 <= k < before.len() && (#[trigger] before[k]).0 == ids@[j];
                        assert(r@[k] == before[k]);
                    }
                }
            }
            i = i + 1;
        }
        assert forall|id: u64| #[trigger] due.contains(id) implies exists|k: int|
            0 <= k < r@.len() && (#[trigger] r@[k]).0 == id by {
            assert(ids@.to_set().contains(id));
            let j = choose|j: int| 0 <= j < ids@.len() && ids@[j] == id;
            assert(ids@[j] == id);
        }
        r
    }

    /// Remove timed-out entries.  Returns the number removed.
    pub fn collect_timeouts(&mut self) -> (n: usize)
        ensures
            exists|now: u64| #[trigger]
                overdue(old(self)@, old(self).limit(), now).len() == n && final(self)@ == old(
                    self,
                )@.remove_keys(overdue(old(self)@, old(self).limit(), now)),
            final(self).limit() == old(self).limit(),
    {
        let now: u64 = self.now();
        self.collect_timeouts_at(now)
    }

    /// Remove the entries that are timed out at `now`.  Returns the number
    /// removed.
    pub fn collect_timeouts_at(&mut self, now: u64) -> (n: usize)
        ensures
            n == overdue(old(self)@, old(self).limit(), now).len(),
            final(self)@ == old(self)@.remove_keys(overdue(old(self)@, old(self).limit(), now)),
            final(self).limit() == old(self).limit(),
    {
        broadcast use vstd::std_specs::hash::group_hash_axioms;

        let late: Vec<(u64, u64)> = self.scan_timeouts_at(now);
        let ghost due = overdue(self@, self.limit(), now);
        let ghost all = self@;
        let ghost gone = Seq::new(late@.len(), |j: int| late@[j].0);
        let mut i: usize = 0;
        while i < late.len()
            invariant
                i <= late@.len(),
                gone == Seq::new(late@.len(), |j: int| late@[j].0),
                self.limit() == old(self).limit(),
                self@ == all.remove_keys(gone.take(i as int).to_set()),
            decreases late@.len() - i,
        {
            let id: u64 = late[i].0;
            let ghost before = self@;
            self.complete(id);
            proof {
                assert(gone.take(i + 1) =~= gone.take(i as int).push(id));
                assert(gone.take(i + 1).to_set() =~= gone.take(i as int).to_set().insert(id)) by {
                    broadcast use vstd::seq_lib::group_seq_properties;

                }
                assert(self@ =~= all.remove_keys(gone.take(i + 1).to_set()));
            }
            i = i + 1;
        }
        proof {
            assert(gone.take(i as int) =~= gone);
            assert(gone.no_duplicates());
            assert(gone.to_set() =~= due) by {
                assert forall|id: u64| gone.to_set().contains(id) == due.contains(id) by {
                    if gone.contains(id) {
                        let j = choose|j: int| 0 <= j < gone.len() && gone[j] == id;
                        assert(late@[j].0 == id);
                    }
                    if due.contains(id) {
                        let j = choose|j: int| 0 <= j < late@.len() && (#[trigger] late@[j]).0 == id;
                        assert(gone[j] == id);
                    }
                }
            }
            gone.unique_seq_to_set();
        }
        late.len()
    }

    /// Number of currently pending operations.
    pub fn pending_count(&self) -> (n: usize)
        ensures
            n == self@.dom().len(),
    {
        broadcast use vstd::std_specs::hash::group_hash_axioms;

        assert(self@.dom() =~= self.pending@.dom());
        self.pending.len()
    }
}

/// The low 64 bits of a number of nanoseconds, as the tracker's clock shows them.
pub fn wrapped_ns(nanos: u128) -> (ns: u64)
    ensures
        ns == nanos as int % 0x1_0000_0000_0000_0000,
{
    (nanos % 0x1_0000_0000_0000_0000) as u64
}

impl Default for PendingTracker {
    fn default() -> (r: Self)
        ensures
            r@ == Map::<u64, (u64, Seq<char>)>::empty(),
            r.limit() == 1_000_000,
    {
        Self::new(1_000_000)
    }
}

/// `r` lists the overdue operations, each once, with the time since its
/// registration.
pub open spec fn scanned(pending: Pending, timeout: u64, now: u64, r: Seq<(u64, u64)>) -> bool {
    &&& forall|j: int|
        0 <= j < r.len() ==> overdue(pending, timeout, now).contains((#[trigger] r[j]).0) && r[j].1
            == elapsed(pending[r[j].0].0, now)
    &&& forall|j: int, k: int| 0 <= j < k < r.len() ==> (#[trigger] r[j]).0 != (#[trigger] r[k]).0
    &&& forall|id: u64| #[trigger]
        overdue(pending, timeout, now).contains(id) ==> exists|k: int|
            0 <= k < r.len() && (#[trigger] r[k]).0 == id
}

/// Once its timeouts are collected, the tracker has none left at that time, and
/// keeps every operation that was not overdue.
pub proof fn law_collected_timeouts_are_gone(pending: Pending, timeout: u64, now: u64)
    ensures
        ({
            let kept = pending.remove_keys(overdue(pending, timeout, now));
            &&& overdue(kept, timeout, now) == Set::<u64>::empty()
            &&& forall|id: u64| #[trigger]
                pending.dom().contains(id) && !overdue(pending, timeout, now).contains(id)
                    ==> kept.dom().contains(id) && kept[id] == pending[id]
        }),
{
    let kept = pending.remove_keys(overdue(pending, timeout, now));
    assert(overdue(kept, timeout, now) =~= Set::<u64>::empty());
}

/// The first delays are the base delay and twice the base delay, as far as the cap
/// allows.
pub proof fn law_backoff_starts_at_base(config: RetryConfig)
    ensures
        config.base_delay <= config.max_delay ==> backoff(config, 0) == config.base_delay,
        2 * config.base_delay <= config.max_delay ==> backoff(config, 1) == 2 * config.base_delay,
        config.base_delay > config.max_delay ==> backoff(config, 0) == config.max_delay,
        2 * config.base_delay > config.max_delay ==> backoff(config, 1) == config.max_delay,
{
    vstd::arithmetic::power2::lemma2_to64();
}

/// A failure is retried exactly when it is retriable and retries are left, and the
/// retries are counted one by one.
pub proof fn law_next_attempt(config: RetryConfig, attempt: u32, retriable: bool)
    ensures
        next_attempt(config, attempt, retriable) is Some <==> retriable && attempt
            < config.max_retries,
        next_attempt(config, attempt, retriable) matches Some(n) ==> n == attempt + 1,
{
}

/// An operation is overdue exactly when it is pending and more time than the timeout has
/// passed since it was registered. One that completed, or that was registered later than
/// the time asked about, is not.
pub proof fn law_overdue(pending: Pending, timeout: u64, now: u64, id: u64)
    ensures
        overdue(pending, timeout, now).contains(id) <==> pending.dom().contains(id) && now
            - pending[id].0 > timeout,
        !overdue(pending.remove(id), timeout, now).contains(id),
        pending.dom().contains(id) && pending[id].0 <= now ==> elapsed(pending[id].0, now) == now
            - pending[id].0,
{
}

/// A scan lists every overdue operation once and no other, with the time that has passed
/// since it was registered.
pub proof fn law_scan(pending: Pending, timeout: u64, now: u64, r: Seq<(u64, u64)>)
    requires
        scanned(pending, timeout, now, r),
    ensures
        forall|j: int|
            0 <= j < r.len() ==> pending.dom().contains((#[trigger] r[j]).0) && r[j].1 == now
                - pending[r[j].0].0 && r[j].1 > timeout,
        forall|id: u64|
            #[trigger] pending.dom().contains(id) && now - pending[id].0 > timeout ==> exists|k: int|
                0 <= k < r.len() && (#[trigger] r[k]).0 == id,
        forall|j: int, k: int|
            0 <= j < k < r.len() ==> (#[trigger] r[j]).0 != (#[trigger] r[k]).0,
{
    assert forall|id: u64|
        #[trigger] pending.dom().contains(id) && now - pending[id].0 > timeout implies exists|k: int|
        0 <= k < r.len() && (#[trigger] r[k]).0 == id by {
        assert(overdue(pending, timeout, now).contains(id));
    }
    assert forall|j: int| 0 <= j < r.len() implies pending.dom().contains((#[trigger] r[j]).0)
        && r[j].1 == now - pending[r[j].0].0 && r[j].1 > timeout by {
        assert(overdue(pending, timeout, now).contains(r[j].0));
    }
}

/// Collecting the timeouts keeps an operation exactly when it is not overdue.
pub proof fn law_collecting_keeps_the_rest(pending: Pending, timeout: u64, now: u64, id: u64)
    ensures
        ({
            let kept = pending.remove_keys(overdue(pending, timeout, now));
            &&& kept.dom().contains(id) <==> pending.dom().contains(id) && now - pending[id].0
                <= timeout
            &&& kept.dom().contains(id) ==> kept[id] == pending[id]
        }),
{
    let kept = pending.remove_keys(overdue(pending, timeout, now));
    assert(kept.dom().contains(id) <==> pending.dom().contains(id) && !overdue(
        pending,
        timeout,
        now,
    ).contains(id));
}

} // verus!
