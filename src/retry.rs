use vstd::prelude::*;

verus! {

/// The HTTP status with which the provider signals rate limiting.
pub const TOO_MANY_REQUESTS: u16 = 429;

/// How one remote response is treated.
#[derive(Clone, Copy, Debug, PartialEq, Eq, Structural)]
pub enum Classified {
    /// The payload is usable.
    Success,
    /// The provider is overloaded: try again later.
    Transient,
    /// Any other failure: give up at once.
    Permanent,
}

pub open spec fn spec_classify(status: u16) -> Classified {
    if status == TOO_MANY_REQUESTS {
        Classified::Transient
    } else if 200 <= status < 300 {
        Classified::Success
    } else {
        Classified::Permanent
    }
}

/// Classifies a response by its status: rate limiting is transient, a
/// success status delivers the payload, everything else is permanent.
pub fn classify(status: u16) -> (r: Classified)
    ensures
        r == spec_classify(status),
{
    if status == TOO_MANY_REQUESTS {
        Classified::Transient
    } else if 200 <= status && status < 300 {
        Classified::Success
    } else {
        Classified::Permanent
    }
}

/// Why a fetch ended without a payload.
#[derive(Clone, Copy, Debug, PartialEq, Eq, Structural)]
pub enum FetchError {
    /// The provider answered with a status that is neither success nor
    /// rate limiting.
    Rejected { status: u16 },
    /// The request failed before any status arrived.
    Transport,
    /// Every allowed attempt was rate limited.
    RetriesExhausted { attempts: u32 },
}

/// What to do after one attempt.
#[derive(Clone, Copy, Debug, PartialEq, Eq, Structural)]
pub enum FetchStep {
    /// Hand the payload on.
    Deliver,
    /// Wait this long, then issue the next attempt.
    Retry { delay_ms: u64 },
    /// Stop with this error.
    GiveUp(FetchError),
}

/// The nominal delay before attempt `n + 1`: `base * 2^(n-1)`.
pub open spec fn nominal_delay(base: nat, n: nat) -> nat
    decreases n,
{
    if n <= 1 {
        base
    } else {
        2 * nominal_delay(base, (n - 1) as nat)
    }
}

/// Exponential backoff with bounded jitter, a delay cap and an attempt cap.
#[derive(Clone, Copy, Debug, PartialEq, Eq, Structural)]
pub struct RetryPolicy {
    pub base_delay_ms: u64,
    pub max_delay_ms: u64,
    /// How many requests may be issued in all; at least one.
    pub max_attempts: u32,
}

impl RetryPolicy {
    pub open spec fn wf(self) -> bool {
        self.max_attempts >= 1
    }

    /// The wait after the `attempt`-th request was rate limited: the nominal
    /// delay plus a jitter of at most the nominal delay itself (the random
    /// draw `jitter` taken modulo `nominal + 1`), capped at `max_delay_ms`.
    pub open spec fn spec_delay(self, attempt: nat, jitter: u64) -> nat {
        let d = nominal_delay(self.base_delay_ms as nat, attempt);
        let j = (jitter as nat) % (d + 1);
        if d + j <= self.max_delay_ms {
            d + j
        } else {
            self.max_delay_ms as nat
        }
    }

    /// The decision after the `attempt`-th request came back as `outcome`.
    pub open spec fn spec_decide(self, attempt: nat, outcome: Classified, status: u16, jitter: u64) -> FetchStep {
        match outcome {
            Classified::Success => FetchStep::Deliver,
            Classified::Permanent => FetchStep::GiveUp(FetchError::Rejected { status }),
            Classified::Transient => if attempt < self.max_attempts {
                FetchStep::Retry { delay_ms: self.spec_delay(attempt, jitter) as u64 }
            } else {
                FetchStep::GiveUp(FetchError::RetriesExhausted { attempts: attempt as u32 })
            },
        }
    }

    /// The wait after the `attempt`-th request was rate limited.
    pub fn backoff_delay(&self, attempt: u32, jitter: u64) -> (r: u64)
        requires
            attempt >= 1,
        ensures
            r == self.spec_delay(attempt as nat, jitter),
    {
        let max = self.max_delay_ms;
        let mut capped: u64 = if self.base_delay_ms < max { self.base_delay_ms } else { max };
        let mut k: u32 = 1;
        while k < attempt
            invariant
                1 <= k <= attempt,
                max == self.max_delay_ms,
                capped as nat == if nominal_delay(self.base_delay_ms as nat, k as nat) < max {
                    nominal_delay(self.base_delay_ms as nat, k as nat)
                } else {
                    max as nat
                },
            decreases attempt - k,
        {
            assert(nominal_delay(self.base_delay_ms as nat, (k + 1) as nat)
                == 2 * nominal_delay(self.base_delay_ms as nat, k as nat));
            capped = if capped > max - capped { max } else { 2 * capped };
            k = k + 1;
        }
        if capped == max {
            return max;
        }
        let j = jitter % (capped + 1);
        if j <= max - capped {
            capped + j
        } else {
            max
        }
    }

    /// Decides what follows the `attempt`-th request, which came back with
    /// `status`; `jitter` is a random draw used only when a retry is due.
    pub fn decide(&self, attempt: u32, status: u16, jitter: u64) -> (r: FetchStep)
        requires
            attempt >= 1,
        ensures
            r == self.spec_decide(attempt as nat, spec_classify(status), status, jitter),
    {
        match classify(status) {
            Classified::Success => FetchStep::Deliver,
            Classified::Permanent => FetchStep::GiveUp(FetchError::Rejected { status }),
            Classified::Transient => if attempt < self.max_attempts {
                FetchStep::Retry { delay_ms: self.backoff_delay(attempt, jitter) }
            } else {
                FetchStep::GiveUp(FetchError::RetriesExhausted { attempts: attempt })
            },
        }
    }
}

/// The waits and the final decision when the requests of one fetch, from
/// the `attempt`-th on, come back with `statuses` in turn, with one random
/// draw from `jitters` per attempt. The final decision is `None` when the
/// statuses run out while retries are still due.
pub open spec fn retry_run(
    p: RetryPolicy,
    attempt: nat,
    statuses: Seq<u16>,
    jitters: Seq<u64>,
) -> (Seq<nat>, Option<FetchStep>)
    decreases statuses.len(),
{
    if statuses.len() == 0 {
        (Seq::empty(), None)
    } else {
        match p.spec_decide(attempt, spec_classify(statuses[0]), statuses[0], jitters[0]) {
            FetchStep::Retry { delay_ms } => {
                let rest = retry_run(p, attempt + 1, statuses.drop_first(), jitters.drop_first());
                (seq![delay_ms as nat] + rest.0, rest.1)
            },
            step => (Seq::empty(), Some(step)),
        }
    }
}

proof fn lemma_nominal_grows(base: nat, a: nat, b: nat)
    requires
        1 <= a < b,
    ensures
        2 * nominal_delay(base, a) <= nominal_delay(base, b),
    decreases b,
{
    if b > a + 1 {
        lemma_nominal_grows(base, a, (b - 1) as nat);
    }
}

/// Waits never shrink from one attempt to a later one, whatever the jitter.
pub proof fn delay_monotone(p: RetryPolicy, a: nat, b: nat, ja: u64, jb: u64)
    requires
        1 <= a < b || (1 <= a == b && ja == jb),
    ensures
        p.spec_delay(a, ja) <= p.spec_delay(b, jb),
        p.spec_delay(b, jb) <= p.max_delay_ms,
{
    let da = nominal_delay(p.base_delay_ms as nat, a);
    let db = nominal_delay(p.base_delay_ms as nat, b);
    assert((ja as nat) % (da + 1) <= da);
    if a < b {
        lemma_nominal_grows(p.base_delay_ms as nat, a, b);
    }
}

proof fn lemma_run_shape(p: RetryPolicy, a: nat, statuses: Seq<u16>, jitters: Seq<u64>)
    requires
        1 <= a <= p.max_attempts,
        jitters.len() >= statuses.len(),
    ensures
        ({
            let r = retry_run(p, a, statuses, jitters);
            &&& r.0.len() + a <= p.max_attempts
            &&& r.0.len() <= statuses.len()
            &&& forall|i: int|
                0 <= i < r.0.len() ==> #[trigger] r.0[i] == p.spec_delay((a + i) as nat, jitters[i])
                    && statuses[i] == TOO_MANY_REQUESTS
            &&& r.0.len() == statuses.len() ==> r.1 is None
            &&& r.0.len() < statuses.len() ==> r.1 == Some(
                p.spec_decide(
                    (a + r.0.len()) as nat,
                    spec_classify(statuses[r.0.len() as int]),
                    statuses[r.0.len() as int],
                    jitters[r.0.len() as int],
                ),
            ) && !(r.1.unwrap() is Retry)
        }),
    decreases statuses.len(),
{
    if statuses.len() > 0 {
        let step = p.spec_decide(a, spec_classify(statuses[0]), statuses[0], jitters[0]);
        if step is Retry {
            lemma_run_shape(p, a + 1, statuses.drop_first(), jitters.drop_first());
            let rest = retry_run(p, a + 1, statuses.drop_first(), jitters.drop_first());
            let r = retry_run(p, a, statuses, jitters);
            assert forall|i: int| 0 <= i < r.0.len() implies #[trigger] r.0[i] == p.spec_delay(
                (a + i) as nat,
                jitters[i],
            ) && statuses[i] == TOO_MANY_REQUESTS by {
                if i > 0 {
                    assert(r.0[i] == rest.0[i - 1]);
                    assert(statuses.drop_first()[i - 1] == statuses[i]);
                    assert(jitters.drop_first()[i - 1] == jitters[i]);
                } else {
                    delay_monotone(p, a, a, jitters[0], jitters[0]);
                }
            }
            if rest.0.len() < statuses.drop_first().len() {
                let k = rest.0.len() as int;
                assert(statuses.drop_first()[k] == statuses[k + 1]);
                assert(jitters.drop_first()[k] == jitters[k + 1]);
            }
        }
    }
}

/// A fetch that meets `n` rate-limited responses and then a success, with
/// `n` below the attempt cap, succeeds after exactly `n` waits; the waits
/// follow the backoff schedule, never shrink, and never exceed the cap.
pub proof fn backoff_schedule(p: RetryPolicy, n: nat, jitters: Seq<u64>)
    requires
        n < p.max_attempts,
        jitters.len() > n,
    ensures
        ({
            let statuses = Seq::new(n, |i: int| TOO_MANY_REQUESTS).push(200u16);
            let r = retry_run(p, 1, statuses, jitters);
            &&& r.1 == Some(FetchStep::Deliver)
            &&& r.0.len() == n
            &&& forall|i: int| 0 <= i < n ==> #[trigger] r.0[i] == p.spec_delay((i + 1) as nat, jitters[i])
            &&& forall|i: int| 0 <= i < n ==> #[trigger] r.0[i] <= p.max_delay_ms
            &&& forall|i: int, k: int| 0 <= i <= k < n ==> #[trigger] r.0[i] <= #[trigger] r.0[k]
        }),
{
    let statuses = Seq::new(n, |i: int| TOO_MANY_REQUESTS).push(200u16);
    let r = retry_run(p, 1, statuses, jitters);
    lemma_run_shape(p, 1, statuses, jitters);
    if r.0.len() < n {
        assert(statuses[r.0.len() as int] == TOO_MANY_REQUESTS);
    }
    if r.0.len() > n {
        assert(r.0[n as int] == p.spec_delay((n + 1) as nat, jitters[n as int]));
    }
    assert forall|i: int| 0 <= i < n implies #[trigger] r.0[i] <= p.max_delay_ms by {
        delay_monotone(p, (i + 1) as nat, (i + 1) as nat, jitters[i], jitters[i]);
    }
    assert forall|i: int, k: int| 0 <= i <= k < n implies #[trigger] r.0[i] <= #[trigger] r.0[k] by {
        delay_monotone(p, (i + 1) as nat, (k + 1) as nat, jitters[i], jitters[k]);
    }
}

/// Whatever the provider answers, a fetch waits fewer times than the
/// attempt cap; once every allowed attempt was rate limited it fails with
/// `RetriesExhausted` instead of retrying again.
pub proof fn backoff_gives_up(p: RetryPolicy, statuses: Seq<u16>, jitters: Seq<u64>)
    requires
        p.wf(),
        jitters.len() >= statuses.len(),
    ensures
        retry_run(p, 1, statuses, jitters).0.len() < p.max_attempts,
        (statuses.len() >= p.max_attempts && forall|i: int|
            0 <= i < p.max_attempts ==> #[trigger] statuses[i] == TOO_MANY_REQUESTS) ==> retry_run(
            p,
            1,
            statuses,
            jitters,
        ).1 == Some(FetchStep::GiveUp(FetchError::RetriesExhausted { attempts: p.max_attempts })),
{
    lemma_run_shape(p, 1, statuses, jitters);
}

} // verus!
