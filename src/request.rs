use vstd::prelude::*;
use vstd::string::StringExecFns;

use crate::grabber::FetchError;
use crate::tag::{Group, Tag, TagModel, TagType};

verus! {

/// What one request attempt failed with.
#[derive(Clone, Copy, Debug, PartialEq, Eq, Structural)]
pub enum AttemptFailure {
    Timeout,
    ServerError,
    RateLimited,
    /// A rejected query: a 4xx answer other than a rate-limit rejection.
    ClientError,
}

/// What to do after a failed attempt.
#[derive(Clone, Copy, Debug, PartialEq, Eq, Structural)]
pub enum RetryDecision {
    Retry { delay_ms: u64 },
    GiveUp(FetchError),
}

pub open spec fn is_transient(f: AttemptFailure) -> bool {
    f != AttemptFailure::ClientError
}

/// `base * 2^n`, capped at `u64::MAX`.
pub open spec fn backoff(base: nat, n: nat) -> nat
    decreases n,
{
    if n == 0 {
        if base > u64::MAX {
            u64::MAX as nat
        } else {
            base
        }
    } else {
        let d = 2 * backoff(base, (n - 1) as nat);
        if d > u64::MAX {
            u64::MAX as nat
        } else {
            d
        }
    }
}

/// Retry with exponential backoff up to a fixed number of attempts.
#[derive(Clone, Copy, Debug, PartialEq, Eq, Structural)]
pub struct RetryPolicy {
    pub max_attempts: u32,
    pub base_delay_ms: u64,
}

impl RetryPolicy {
    /// The wait before attempt `attempt + 1`: the base delay doubled for
    /// each attempt after the first.
    pub fn delay_after(&self, attempt: u32) -> (r: u64)
        requires
            attempt >= 1,
        ensures
            r == backoff(self.base_delay_ms as nat, (attempt - 1) as nat),
    {
        let mut d: u64 = self.base_delay_ms;
        let mut k: u32 = 1;
        while k < attempt
            invariant
                1 <= k <= attempt,
                d == backoff(self.base_delay_ms as nat, (k - 1) as nat),
            decreases attempt - k,
        {
            d = if d > u64::MAX / 2 {
                u64::MAX
            } else {
                d * 2
            };
            k = k + 1;
        }
        d
    }

    /// The decision after attempt `attempt` (counting from 1) failed with
    /// `failure`: a rejected query is never retried, a transient failure is
    /// retried until `max_attempts` attempts have been made.
    pub fn after_failure(&self, attempt: u32, failure: AttemptFailure) -> (r: RetryDecision)
        requires
            attempt >= 1,
        ensures
            !is_transient(failure) ==> r == RetryDecision::GiveUp(FetchError::InvalidQuery),
            is_transient(failure) && attempt < self.max_attempts ==> r == (RetryDecision::Retry {
                delay_ms: backoff(self.base_delay_ms as nat, (attempt - 1) as nat) as u64,
            }),
            is_transient(failure) && attempt >= self.max_attempts ==> r == RetryDecision::GiveUp(
                FetchError::Unavailable,
            ),
    {
        match failure {
            AttemptFailure::ClientError => RetryDecision::GiveUp(FetchError::InvalidQuery),
            _ => if attempt < self.max_attempts {
                RetryDecision::Retry { delay_ms: self.delay_after(attempt) }
            } else {
                RetryDecision::GiveUp(FetchError::Unavailable)
            },
        }
    }
}

/// The shared token that spaces outgoing requests at least `interval_ms` apart.
#[derive(Clone, Copy, Debug, PartialEq, Eq, Structural)]
pub struct RateLimiter {
    pub interval_ms: u64,
    /// The earliest time at which the next request may leave.
    pub next_free_ms: u64,
}

pub open spec fn sat_add(a: nat, b: nat) -> nat {
    if a + b > u64::MAX {
        u64::MAX as nat
    } else {
        a + b
    }
}

impl RateLimiter {
    pub open spec fn spec_new(interval_ms: u64) -> RateLimiter {
        RateLimiter { interval_ms, next_free_ms: 0 }
    }

    pub fn new(interval_ms: u64) -> (r: RateLimiter)
        ensures
            r == RateLimiter::spec_new(interval_ms),
    {
        RateLimiter { interval_ms, next_free_ms: 0 }
    }

    /// Reserves a slot for a request wanted at time `now_ms` and returns how
    /// long to wait before sending it; the following slot starts one
    /// interval after this one.
    pub fn acquire(&mut self, now_ms: u64) -> (wait_ms: u64)
        ensures
            final(self).interval_ms == old(self).interval_ms,
            wait_ms == (if old(self).next_free_ms > now_ms {
                old(self).next_free_ms - now_ms
            } else {
                0
            }),
            final(self).next_free_ms == sat_add(
                (now_ms + wait_ms) as nat,
                old(self).interval_ms as nat,
            ),
    {
        let wait: u64 = if self.next_free_ms > now_ms {
            self.next_free_ms - now_ms
        } else {
            0
        };
        let slot: u64 = now_ms + wait;
        self.next_free_ms = if slot > u64::MAX - self.interval_ms {
            u64::MAX
        } else {
            slot + self.interval_ms
        };
        wait
    }
}

/// The base address of the service: the content-filtered one in safe mode.
pub fn base_url(safe: bool) -> (r: String)
    ensures
        r@ == (if safe {
            "https://e926.net"@
        } else {
            "https://e621.net"@
        }),
{
    if safe {
        String::from_str("https://e926.net")
    } else {
        String::from_str("https://e621.net")
    }
}

/// The search term of one tag: pools and sets are looked up by id through
/// their metatag, every other tag is searched as written.
pub open spec fn term_spec(t: TagModel) -> Seq<char> {
    match t.2 {
        TagType::Pool => "pool:"@ + t.0,
        TagType::PostSet => "set:"@ + t.0,
        _ => t.0,
    }
}

/// The terms of the tags, each after a space but the first.
pub open spec fn query_spec(tags: Seq<TagModel>) -> Seq<char>
    decreases tags.len(),
{
    if tags.len() == 0 {
        Seq::<char>::empty()
    } else if tags.len() == 1 {
        term_spec(tags[0])
    } else {
        query_spec(tags.drop_last()) + seq![' '] + term_spec(tags.last())
    }
}

fn append_term(q: &mut String, t: &Tag)
    ensures
        final(q)@ == old(q)@ + term_spec(t@),
{
    match t.tag_type {
        TagType::Pool => {
            q.append("pool:");
        },
        TagType::PostSet => {
            q.append("set:");
        },
        _ => {},
    }
    q.append(t.name.as_str());
}

/// The one query that combines every tag of a group.
pub fn query_of(group: &Group) -> (r: String)
    ensures
        r@ == query_spec(group@.1),
{
    let ghost tm = group@.1;
    let mut q = String::new();
    let mut i: usize = 0;
    assert(tm.take(0) =~= Seq::<TagModel>::empty());
    while i < group.tags.len()
        invariant
            i <= group.tags@.len(),
            tm == group@.1,
            tm.len() == group.tags@.len(),
            q@ == query_spec(tm.take(i as int)),
        decreases group.tags@.len() - i,
    {
        assert(tm.take(i + 1).drop_last() =~= tm.take(i as int));
        assert(tm[i as int] == group.tags@[i as int]@);
        let ghost before = q@;
        if i > 0 {
            q.append(" ");
            proof {
                reveal_strlit(" ");
            }
        }
        append_term(&mut q, &group.tags[i]);
        proof {
            if i == 0 {
                assert(before =~= Seq::<char>::empty());
                assert(q@ =~= term_spec(tm[0]));
            } else {
                assert(q@ =~= before + seq![' '] + term_spec(tm[i as int]));
            }
        }
        i = i + 1;
    }
    assert(tm.take(i as int) =~= tm);
    q
}

} // verus!
