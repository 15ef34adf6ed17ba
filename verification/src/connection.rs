//! Connection management: the endpoint URIs, the reconnect back-off, and the
//! random delay before all connections are renewed.
use vstd::prelude::*;
use rand::Rng;
use crate::topics::texts;
use vstd::arithmetic::power2::{
    lemma2_to64,
    lemma2_to64_rest,
    lemma_pow2_strictly_increases,
    lemma_pow2_unfold,
    pow2,
};

verus! {

#[verifier::external_type_specification]
#[verifier::external_body]
pub struct ExStdRng(rand::rngs::StdRng);

/// `rng.gen_range(0..bound)`: random, so only the documented range is stated.
#[verifier::external_body]
pub(crate) fn gen_below(rng: &mut rand::rngs::StdRng, bound: u64) -> (r: u64)
    requires
        bound > 0,
    ensures
        r < bound,
{
    rng.gen_range(0..bound)
}

/// `thread_rng().gen_range(low..high)`: random, so only the documented range
/// is stated. `thread_rng` panics when the operating system's random source
/// fails to seed it.
#[verifier::external_body]
pub(crate) fn gen_in_range(low: u64, high: u64) -> (r: u64)
    requires
        low < high,
    ensures
        low <= r < high,
{
    rand::thread_rng().gen_range(low..high)
}

/// The URI of each endpoint: the base URL followed by the endpoint path.
pub fn endpoint_uris(base_url: &str, endpoints: &Vec<String>) -> (r: Vec<String>)
    ensures
        r@.len() == endpoints@.len(),
        forall|i: int| 0 <= i < endpoints@.len() ==> #[trigger] r@[i]@ == base_url@ + endpoints@[i]@,
{
    let mut out: Vec<String> = Vec::new();
    let n = endpoints.len();
    let mut i: usize = 0;
    while i < n
        invariant
            n == endpoints@.len(),
            i <= n,
            out@.len() == i,
            forall|k: int| 0 <= k < i ==> #[trigger] out@[k]@ == base_url@ + endpoints@[k]@,
        decreases n - i,
    {
        out.push(base_url.to_string().concat(endpoints[i].as_str()));
        i += 1;
    }
    out
}

/// The fewest seconds before the connections are renewed (4 hours).
pub const RENEW_MIN_SECS: u64 = 14400;

/// The bound on the seconds before the connections are renewed (18 hours, excluded).
pub const RENEW_MAX_SECS: u64 = 64800;

/// A random delay between 4 and 18 hours before the connections are renewed.
pub fn renewal_delay_secs() -> (r: u64)
    ensures
        RENEW_MIN_SECS <= r < RENEW_MAX_SECS,
{
    gen_in_range(RENEW_MIN_SECS, RENEW_MAX_SECS)
}

/// The longest back-off step, in seconds, before jitter.
pub const MAX_BACKOFF_SECS: u64 = 1024;

/// Jitter is drawn below this many seconds.
pub const JITTER_BOUND: u64 = 6;

/// The wait before the next connection attempt.
pub open spec fn backoff_wait(delay: u64, jitter: u64) -> int {
    (if delay < MAX_BACKOFF_SECS {
        delay
    } else {
        MAX_BACKOFF_SECS
    }) + jitter
}

/// Reconnect back-off of one endpoint: the delay starts at one second and
/// doubles after every wait; a successful connection starts it over.
/// `attempts` records, for each attempt so far, whether it connected.
pub struct Backoff {
    pub retry_delay: u64,
    pub attempts: Ghost<Seq<bool>>,
}

/// The delay before the wait that follows the next attempt, when that
/// attempt does not connect, after `attempts`.
pub open spec fn delay_before(attempts: Seq<bool>) -> int {
    if attempts.len() == 0 {
        1
    } else {
        2 * delay_at_wait(attempts)
    }
}

/// The step from the delay after `attempts` to the wait after one more
/// attempt: a connection starts the delay over, the wait is the capped delay
/// plus jitter, and the delay then doubles.
pub proof fn lemma_attempt_step(attempts: Seq<bool>, connected: bool)
    ensures
        delay_at_wait(attempts.push(connected)) == if connected {
            1
        } else {
            delay_before(attempts)
        },
        delay_before(attempts.push(connected)) == 2 * delay_at_wait(attempts.push(connected)),
{
    assert(attempts.push(connected).drop_last() =~= attempts);
    assert(attempts.push(connected).last() == connected);
}

impl Backoff {
    /// The delay is the one the attempts so far lead to.
    pub open spec fn follows_attempts(&self) -> bool {
        self.retry_delay == delay_before(self.attempts@)
    }

    /// A fresh back-off: no attempt yet, a delay of one second.
    pub fn new() -> (r: Backoff)
        ensures
            r.retry_delay == 1,
            r.attempts@ == Seq::<bool>::empty(),
            r.follows_attempts(),
    {
        Backoff { retry_delay: 1, attempts: Ghost(Seq::empty()) }
    }

    /// Whether the delay can still be doubled within `u64`.
    pub fn can_double(&self) -> (r: bool)
        ensures
            r == (self.retry_delay as int * 2 <= u64::MAX),
    {
        self.retry_delay <= u64::MAX / 2
    }

    /// The wait after the current delay, given the drawn jitter.
    pub fn next_wait(&self, jitter: u64) -> (r: u64)
        requires
            jitter < JITTER_BOUND,
        ensures
            r == backoff_wait(self.retry_delay, jitter),
    {
        let capped = if self.retry_delay < MAX_BACKOFF_SECS {
            self.retry_delay
        } else {
            MAX_BACKOFF_SECS
        };
        capped + jitter
    }

    /// The wait after the current delay, with jitter drawn from `rng`.
    pub fn next_wait_random(&self, rng: &mut rand::rngs::StdRng) -> (r: u64)
        ensures
            exists|jitter: u64| jitter < JITTER_BOUND && r == backoff_wait(self.retry_delay, jitter),
    {
        let jitter = gen_below(rng, JITTER_BOUND);
        self.next_wait(jitter)
    }

    /// An attempt is over (`connected` when it connected): the delay starts
    /// over after a connection, the wait before the next attempt is computed
    /// from it with the given jitter, and the delay doubles. Without a
    /// connection the doubling must fit in `u64`.
    pub fn wait_after_attempt(&mut self, connected: bool, jitter: u64) -> (r: u64)
        requires
            jitter < JITTER_BOUND,
            old(self).follows_attempts(),
            connected || old(self).retry_delay as int * 2 <= u64::MAX,
        ensures
            final(self).attempts@ == old(self).attempts@.push(connected),
            final(self).follows_attempts(),
            r == backoff_wait(delay_at_wait(final(self).attempts@) as u64, jitter),
            final(self).retry_delay == 2 * (if connected {
                1
            } else {
                old(self).retry_delay as int
            }),
    {
        proof {
            lemma_attempt_step(self.attempts@, connected);
        }
        if connected {
            self.retry_delay = 1;
        }
        let wait = self.next_wait(jitter);
        self.retry_delay = self.retry_delay * 2;
        self.attempts = Ghost(self.attempts@.push(connected));
        wait
    }

    /// `wait_after_attempt` with jitter drawn from `rng`.
    pub fn wait_after_attempt_random(&mut self, connected: bool, rng: &mut rand::rngs::StdRng) -> (r: u64)
        requires
            old(self).follows_attempts(),
            connected || old(self).retry_delay as int * 2 <= u64::MAX,
        ensures
            final(self).attempts@ == old(self).attempts@.push(connected),
            final(self).follows_attempts(),
            exists|jitter: u64|
                jitter < JITTER_BOUND && r == #[trigger] backoff_wait(
                    delay_at_wait(final(self).attempts@) as u64,
                    jitter,
                ),
            final(self).retry_delay == 2 * (if connected {
                1
            } else {
                old(self).retry_delay as int
            }),
    {
        let jitter = gen_below(rng, JITTER_BOUND);
        self.wait_after_attempt(connected, jitter)
    }
}

/// The delay after `k` failed attempts since the last success.
pub open spec fn delay_after(k: nat) -> int
    decreases k,
{
    if k == 0 {
        1
    } else {
        2 * delay_after((k - 1) as nat)
    }
}

/// No wait exceeds the longest step plus the largest jitter (1029 s), and
/// none is shorter than the capped delay.
pub proof fn lemma_wait_bounds(delay: u64, jitter: u64)
    requires
        jitter < JITTER_BOUND,
    ensures
        backoff_wait(delay, jitter) <= MAX_BACKOFF_SECS + JITTER_BOUND - 1,
        backoff_wait(delay, jitter) >= if delay < MAX_BACKOFF_SECS {
            delay as int
        } else {
            MAX_BACKOFF_SECS as int
        },
{
}

/// Starting from a fresh back-off, the delay after `k` attempts is `2^k`,
/// so the first ten waits grow 1, 2, 4, ... 512 s before jitter and every
/// later one is capped at 1024 s.
pub proof fn lemma_delay_doubles(b: Backoff, k: nat, jitter: u64)
    requires
        b.retry_delay == delay_after(k),
        b.retry_delay as int * 2 <= u64::MAX,
        jitter < JITTER_BOUND,
    ensures
        b.retry_delay * 2 == delay_after(k + 1),
        k >= 10 ==> backoff_wait(b.retry_delay, jitter) == MAX_BACKOFF_SECS + jitter,
    decreases k,
{
    if k >= 10 {
        lemma_delay_at_least(k);
    }
}

/// The delay after `k >= 10` attempts is at least 1024.
pub proof fn lemma_delay_at_least(k: nat)
    requires
        k >= 10,
    ensures
        delay_after(k) >= 1024,
    decreases k,
{
    if k == 10 {
        reveal_with_fuel(delay_after, 11);
    } else {
        lemma_delay_at_least((k - 1) as nat);
    }
}

/// The delay after `k` failed attempts is `2^k`.
pub proof fn lemma_delay_is_pow2(k: nat)
    ensures
        delay_after(k) == pow2(k),
    decreases k,
{
    if k == 0 {
        lemma2_to64();
    } else {
        lemma_delay_is_pow2((k - 1) as nat);
        lemma_pow2_unfold(k);
    }
}

/// The delay at the wait after the last of `attempts` (`true` for an attempt
/// that connected): a fresh back-off starts at one second, a connection
/// starts the delay over (`on_connected`), and each wait is followed by a
/// doubling (`double_delay`).
pub open spec fn delay_at_wait(attempts: Seq<bool>) -> int
    decreases attempts.len(),
{
    if attempts.len() <= 1 || attempts.last() {
        1
    } else {
        2 * delay_at_wait(attempts.drop_last())
    }
}

/// How many attempts came after the last one that connected (after the
/// first attempt when none connected).
pub open spec fn attempts_since_success(attempts: Seq<bool>) -> nat
    decreases attempts.len(),
{
    if attempts.len() <= 1 || attempts.last() {
        0
    } else {
        attempts_since_success(attempts.drop_last()) + 1
    }
}

/// The wait after attempt `k` is `min(2^(k - p), 1024)` seconds plus jitter,
/// `p` being the last attempt that connected (the first attempt when none
/// did), as long as `k - p < 64`; in particular the wait after a connection
/// is one second plus jitter. The doubling after that wait stays within
/// `u64` while `k - p < 63`.
pub proof fn lemma_backoff_schedule(attempts: Seq<bool>, jitter: u64)
    requires
        attempts.len() > 0,
        attempts_since_success(attempts) < 64,
        jitter < JITTER_BOUND,
    ensures
        delay_at_wait(attempts) == pow2(attempts_since_success(attempts)),
        delay_at_wait(attempts) <= u64::MAX,
        backoff_wait(delay_at_wait(attempts) as u64, jitter) == (if pow2(
            attempts_since_success(attempts),
        ) < MAX_BACKOFF_SECS {
            pow2(attempts_since_success(attempts)) as int
        } else {
            MAX_BACKOFF_SECS as int
        }) + jitter,
        attempts.last() ==> backoff_wait(delay_at_wait(attempts) as u64, jitter) == 1 + jitter,
        attempts_since_success(attempts) < 63 ==> delay_at_wait(attempts) * 2 <= u64::MAX,
    decreases attempts.len(),
{
    let n = attempts_since_success(attempts);
    if attempts.len() > 1 && !attempts.last() {
        lemma_backoff_schedule(attempts.drop_last(), jitter);
        lemma_pow2_unfold(n);
    } else {
        lemma2_to64();
    }
    lemma2_to64_rest();
    if n < 63 {
        lemma_pow2_strictly_increases(n, 63);
    }
    if n < 62 {
        lemma_pow2_strictly_increases(n, 62);
    }
}

} // verus!
