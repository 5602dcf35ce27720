use vstd::prelude::*;
use std::time::Instant;
use crate::clock::instant_now;
use crate::clock::nanos_since;

verus! {

/// Nanoseconds in a second.
pub const NANOS_PER_SEC: u128 = 1_000_000_000;

/// Nanoseconds from `t` to `now`; zero where `t` is not before `now`.
pub open spec fn elapsed(now: u128, t: u128) -> int {
    if now >= t { now - t } else { 0 }
}

/// The attempts of `stamps` (times in nanoseconds) that still count at time
/// `now`: those less than `window` seconds old, in their order.
pub open spec fn live(stamps: Seq<u128>, now: u128, window: u64) -> Seq<u128>
    decreases stamps.len(),
{
    if stamps.len() == 0 {
        stamps
    } else {
        let rest = live(stamps.drop_last(), now, window);
        if elapsed(now, stamps.last()) < window * NANOS_PER_SEC {
            rest.push(stamps.last())
        } else {
            rest
        }
    }
}

/// The attempts recorded for `key`; none where the key has no entry.
pub open spec fn attempts_of(ledger: Map<Seq<char>, Seq<u128>>, key: Seq<char>) -> Seq<u128> {
    if ledger.contains_key(key) { ledger[key] } else { Seq::empty() }
}

/// One check of `key` at time `now`: expired attempts are dropped; the
/// attempt is allowed, and recorded, only if fewer than `max` remain.
pub open spec fn check_step(
    ledger: Map<Seq<char>, Seq<u128>>,
    key: Seq<char>,
    max: nat,
    window: u64,
    now: u128,
) -> (Map<Seq<char>, Seq<u128>>, bool) {
    let kept = live(attempts_of(ledger, key), now, window);
    if kept.len() >= max {
        (ledger.insert(key, kept), false)
    } else {
        (ledger.insert(key, kept.push(now)), true)
    }
}

/// The checks of `key` at the times `times`, one after the other: the final
/// ledger and the answer of each check.
pub open spec fn run_checks(
    ledger: Map<Seq<char>, Seq<u128>>,
    key: Seq<char>,
    max: nat,
    window: u64,
    times: Seq<u128>,
) -> (Map<Seq<char>, Seq<u128>>, Seq<bool>)
    decreases times.len(),
{
    if times.len() == 0 {
        (ledger, Seq::empty())
    } else {
        let before = run_checks(ledger, key, max, window, times.drop_last());
        let step = check_step(before.0, key, max, window, times.last());
        (step.0, before.1.push(step.1))
    }
}

/// How many of `answers` are `true`.
pub open spec fn count_allowed(answers: Seq<bool>) -> nat
    decreases answers.len(),
{
    if answers.len() == 0 {
        0
    } else {
        count_allowed(answers.drop_last()) + if answers.last() { 1nat } else { 0nat }
    }
}

/// The attempts recorded for one key.
pub struct KeyAttempts {
    key: String,
    stamps: Vec<u128>,
}

/// Sliding-window rate limiter: for each key, the times (in nanoseconds
/// since the limiter was made) of the attempts it allowed.
pub struct RateLimiter {
    entries: Vec<KeyAttempts>,
    origin: Instant,
    ledger: Ghost<Map<Seq<char>, Seq<u128>>>,
}

impl View for RateLimiter {
    type V = Map<Seq<char>, Seq<u128>>;

    closed spec fn view(&self) -> Map<Seq<char>, Seq<u128>> {
        self.ledger@
    }
}

impl RateLimiter {
    /// The entries hold exactly the ledger, one entry per key.
    pub closed spec fn wf(&self) -> bool {
        &&& forall|i: int|
            0 <= i < self.entries@.len() ==> #[trigger] self.ledger@.contains_key(
                self.entries@[i].key@,
            ) && self.ledger@[self.entries@[i].key@] == self.entries@[i].stamps@
        &&& forall|k: Seq<char>|
            #[trigger] self.ledger@.contains_key(k) ==> exists|i: int|
                0 <= i < self.entries@.len() && #[trigger] self.entries@[i].key@ == k
        &&& forall|i: int, j: int|
            0 <= i < self.entries@.len() && 0 <= j < self.entries@.len() && i != j
                ==> self.entries@[i].key@ != self.entries@[j].key@
    }

    /// A limiter with no attempts recorded.
    pub fn new() -> (r: Self)
        ensures
            r.wf(),
            r@ == Map::<Seq<char>, Seq<u128>>::empty(),
    {
        RateLimiter { entries: Vec::new(), origin: instant_now(), ledger: Ghost(Map::empty()) }
    }

    fn position_of(&self, key: &String) -> (r: Option<usize>)
        ensures
            match r {
                Some(i) => i < self.entries@.len() && self.entries@[i as int].key@ == key@,
                None => forall|j: int|
                    0 <= j < self.entries@.len() ==> self.entries@[j].key@ != key@,
            },
    {
        let mut i: usize = 0;
        while i < self.entries.len()
            invariant
                i <= self.entries@.len(),
                forall|j: int| 0 <= j < i ==> self.entries@[j].key@ != key@,
            decreases self.entries@.len() - i,
        {
            if self.entries[i].key == *key {
                return Some(i);
            }
            i = i + 1;
        }
        None
    }

    /// Records an attempt for `key` at `now` (nanoseconds since the limiter
    /// was made) if fewer than `max_attempts` attempts of the last `window_secs`
    /// seconds are recorded, and says whether it was allowed. Attempts
    /// `window_secs` or more seconds old are dropped; a refused attempt is
    /// not recorded; other keys are left as they were.
    pub fn check_rate_limit_at(
        &mut self,
        key: &str,
        max_attempts: usize,
        window_secs: u64,
        now: u128,
    ) -> (r: bool)
        requires
            old(self).wf(),
        ensures
            final(self).wf(),
            (final(self)@, r) == check_step(
                old(self)@,
                key@,
                max_attempts as nat,
                window_secs,
                now,
            ),
    {
        let key_owned = key.to_owned();
        let pos = self.position_of(&key_owned);
        let mut kept = match pos {
            Some(i) => live_stamps(&self.entries[i].stamps, now, window_secs),
            None => Vec::new(),
        };
        proof {
            if pos is None {
                assert(!self.ledger@.contains_key(key@));
            }
            assert(kept@ == live(attempts_of(self.ledger@, key@), now, window_secs));
        }
        let allowed = kept.len() < max_attempts;
        if allowed {
            kept.push(now);
        }
        let ghost new_ledger = self.ledger@.insert(key@, kept@);
        let entry = KeyAttempts { key: key_owned, stamps: kept };
        match pos {
            Some(i) => {
                self.entries.set(i, entry);
            },
            None => {
                self.entries.push(entry);
            },
        }
        self.ledger = Ghost(new_ledger);
        proof {
            assert forall|k: Seq<char>| #[trigger] self.ledger@.contains_key(k) implies exists|i: int|
                0 <= i < self.entries@.len() && #[trigger] self.entries@[i].key@ == k by {
                if k == key@ {
                    match pos {
                        Some(i) => assert(self.entries@[i as int].key@ == k),
                        None => assert(self.entries@[self.entries@.len() - 1].key@ == k),
                    }
                } else {
                    let i = choose|i: int|
                        0 <= i < old(self).entries@.len() && #[trigger] old(self).entries@[i].key@ == k;
                    assert(self.entries@[i].key@ == k);
                }
            }
        }
        allowed
    }

    /// Records an attempt for `key` now, as `check_rate_limit_at` does at the
    /// time that the limiter's clock reads.
    pub fn check_rate_limit(&mut self, key: &str, max_attempts: usize, window_secs: u64) -> (r: bool)
        requires
            old(self).wf(),
        ensures
            final(self).wf(),
            exists|now: u128|
                (final(self)@, r) == check_step(
                    old(self)@,
                    key@,
                    max_attempts as nat,
                    window_secs,
                    now,
                ),
    {
        let now = nanos_since(&self.origin);
        self.check_rate_limit_at(key, max_attempts, window_secs, now)
    }
}

/// The attempts of `stamps` still live at `now`.
fn live_stamps(stamps: &Vec<u128>, now: u128, window: u64) -> (r: Vec<u128>)
    ensures
        r@ == live(stamps@, now, window),
{
    let mut out: Vec<u128> = Vec::new();
    let mut i: usize = 0;
    while i < stamps.len()
        invariant
            i <= stamps@.len(),
            out@ == live(stamps@.subrange(0, i as int), now, window),
        decreases stamps@.len() - i,
    {
        let t = stamps[i];
        let age: u128 = if now >= t { now - t } else { 0 };
        if age < window as u128 * NANOS_PER_SEC {
            out.push(t);
        }
        proof {
            assert(stamps@.subrange(0, i + 1).drop_last() =~= stamps@.subrange(0, i as int));
        }
        i = i + 1;
    }
    assert(stamps@.subrange(0, stamps@.len() as int) =~= stamps@);
    out
}

/// Pruning never adds attempts: what stays live is at most what was stored.
pub proof fn lemma_live_len(stamps: Seq<u128>, now: u128, window: u64)
    ensures
        live(stamps, now, window).len() <= stamps.len(),
    decreases stamps.len(),
{
    if stamps.len() > 0 {
        lemma_live_len(stamps.drop_last(), now, window);
    }
}

/// Where every stored attempt is younger than the window, pruning keeps them all.
pub proof fn lemma_live_all(stamps: Seq<u128>, now: u128, window: u64)
    requires
        forall|j: int|
            0 <= j < stamps.len() ==> elapsed(now, #[trigger] stamps[j]) < window * NANOS_PER_SEC,
    ensures
        live(stamps, now, window) == stamps,
    decreases stamps.len(),
{
    if stamps.len() > 0 {
        lemma_live_all(stamps.drop_last(), now, window);
        assert(stamps.drop_last().push(stamps.last()) =~= stamps);
    }
}

/// A refused check never adds to the attempts stored for its key.
pub proof fn lemma_refused_not_recorded(
    ledger: Map<Seq<char>, Seq<u128>>,
    key: Seq<char>,
    max: nat,
    window: u64,
    now: u128,
)
    ensures
        !check_step(ledger, key, max, window, now).1 ==> attempts_of(
            check_step(ledger, key, max, window, now).0,
            key,
        ).len() <= attempts_of(ledger, key).len(),
{
    lemma_live_len(attempts_of(ledger, key), now, window);
}

/// A check of one key leaves the attempts of every other key as they were.
pub proof fn lemma_keys_independent(
    ledger: Map<Seq<char>, Seq<u128>>,
    key: Seq<char>,
    other: Seq<char>,
    max: nat,
    window: u64,
    now: u128,
)
    requires
        key != other,
    ensures
        attempts_of(check_step(ledger, key, max, window, now).0, other) == attempts_of(
            ledger,
            other,
        ),
{
}

proof fn lemma_run_prefix(
    ledger: Map<Seq<char>, Seq<u128>>,
    key: Seq<char>,
    max: nat,
    window: u64,
    times: Seq<u128>,
)
    requires
        attempts_of(ledger, key).len() == 0,
        forall|i: int, j: int| 0 <= i <= j < times.len() ==> times[i] <= times[j],
        times.len() > 0 ==> times.last() - times[0] < window * NANOS_PER_SEC,
    ensures
        run_checks(ledger, key, max, window, times).1.len() == times.len(),
        forall|i: int|
            0 <= i < times.len() ==> #[trigger] run_checks(ledger, key, max, window, times).1[i]
                == (i < max),
        attempts_of(run_checks(ledger, key, max, window, times).0, key).len() == if times.len()
            < max {
            times.len()
        } else {
            max
        },
        forall|j: int|
            0 <= j < attempts_of(run_checks(ledger, key, max, window, times).0, key).len()
                ==> times[0] <= #[trigger] attempts_of(
                run_checks(ledger, key, max, window, times).0,
                key,
            )[j] <= times.last(),
    decreases times.len(),
{
    if times.len() > 0 {
        let prev = times.drop_last();
        assert forall|i: int, j: int| 0 <= i <= j < prev.len() implies prev[i] <= prev[j] by {
            assert(prev[i] == times[i] && prev[j] == times[j]);
        }
        assert(times[0] <= times.last());
        if prev.len() > 0 {
            assert(prev[0] == times[0]);
            assert(prev.last() == times[prev.len() - 1]);
            assert(times[prev.len() - 1] <= times.last());
        }
        lemma_run_prefix(ledger, key, max, window, prev);
        let before = run_checks(ledger, key, max, window, prev);
        let stored = attempts_of(before.0, key);
        let now = times.last();
        assert forall|j: int| 0 <= j < stored.len() implies elapsed(now, #[trigger] stored[j])
            < window * NANOS_PER_SEC by {}
        lemma_live_all(stored, now, window);
        let run = run_checks(ledger, key, max, window, times);
        assert forall|i: int| 0 <= i < times.len() implies #[trigger] run.1[i] == (i < max) by {
            if i < prev.len() {
                assert(run.1[i] == before.1[i]);
            }
        }
        let after = attempts_of(run.0, key);
        assert forall|j: int| 0 <= j < after.len() implies times[0] <= #[trigger] after[j]
            <= times.last() by {
            if j < stored.len() {
                assert(after[j] == stored[j]);
            }
        }
    }
}

proof fn lemma_count_prefix(answers: Seq<bool>, max: nat)
    requires
        forall|i: int| 0 <= i < answers.len() ==> #[trigger] answers[i] == (i < max),
    ensures
        count_allowed(answers) == if answers.len() < max {
            answers.len()
        } else {
            max
        },
    decreases answers.len(),
{
    if answers.len() > 0 {
        let prev = answers.drop_last();
        assert forall|i: int| 0 <= i < prev.len() implies #[trigger] prev[i] == (i < max) by {
            assert(prev[i] == answers[i]);
        }
        lemma_count_prefix(prev, max);
    }
}

/// However many checks of one key come in, from a key with no attempts
/// recorded and all within one window, in whatever order the lock lets them
/// through: the first `max` are allowed and the rest refused, so exactly
/// `max` are allowed once there are more than `max` of them.
pub proof fn lemma_no_over_admission(
    ledger: Map<Seq<char>, Seq<u128>>,
    key: Seq<char>,
    max: nat,
    window: u64,
    times: Seq<u128>,
)
    requires
        attempts_of(ledger, key).len() == 0,
        forall|i: int, j: int| 0 <= i <= j < times.len() ==> times[i] <= times[j],
        times.len() > 0 ==> times.last() - times[0] < window * NANOS_PER_SEC,
    ensures
        forall|i: int|
            0 <= i < times.len() ==> #[trigger] run_checks(ledger, key, max, window, times).1[i]
                == (i < max),
        times.len() > max ==> count_allowed(run_checks(ledger, key, max, window, times).1) == max,
        times.len() > max ==> attempts_of(run_checks(ledger, key, max, window, times).0, key).len()
            == max,
{
    lemma_run_prefix(ledger, key, max, window, times);
    lemma_count_prefix(run_checks(ledger, key, max, window, times).1, max);
}

} // verus!
