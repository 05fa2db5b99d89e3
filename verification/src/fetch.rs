//! The paginated fetch protocol: interpreting one transport attempt, and the
//! bounded retry schedule applied across attempts.
//!
//! The transport work itself (issuing the request, sleeping between
//! attempts) happens outside; what is here is the decision kernel: how a
//! completed attempt is classified, how long to back off after a failed
//! attempt, and which outcome a whole fetch surfaces once the retry budget
//! is spent.

use vstd::prelude::*;
use crate::record::Record;

verus! {

/// Why a fetch failed: the taxonomy every attempt is classified under.
#[derive(Clone, Copy, Debug, PartialEq, Eq, Structural)]
pub enum FetchError {
    /// The transport-level request did not complete at all.
    TransportFailure,
    /// The transport completed with a non-success status code.
    BadStatus,
    /// The response body did not match the expected shape.
    MalformedResponse,
    /// A well-formed response whose application status was not "ok".
    ApplicationError,
}

/// The parsed shape of one well-formed response body.
#[derive(Clone, Debug)]
pub struct ResponseBody {
    /// Application-level status field; "ok" on success.
    pub status: String,
    /// Approximate total result count: an observability hint only, never
    /// used for control flow.
    pub total_results: u64,
    /// Continuation token identifying the next page.
    pub next_cursor: String,
    /// The page of records, in the order the source returned them
    /// (descending by indexing time).
    pub items: Vec<Record>,
}

/// What one transport attempt produced, before interpretation.
#[derive(Clone, Debug)]
pub enum FetchAttempt {
    /// The request itself failed (network or I/O error).
    TransportFailed,
    /// The request completed with this status code and a body that either
    /// parsed to the expected shape or did not (`None`).
    Completed { http_status: u16, body: Option<ResponseBody> },
}

/// One page of results: the records in source order plus the continuation
/// cursor for the next request.
#[derive(Clone, Debug)]
pub struct Page {
    /// Records exactly as the source ordered them.
    pub items: Vec<Record>,
    /// The literal next-page cursor token.
    pub next_cursor: String,
}

/// The mathematical image of a page.
pub ghost struct PageV {
    pub items: Seq<Record>,
    pub next_cursor: Seq<char>,
}

impl View for Page {
    type V = PageV;

    open spec fn view(&self) -> PageV {
        PageV { items: self.items@, next_cursor: self.next_cursor@ }
    }
}

/// How one attempt is interpreted: a transport failure, a non-success
/// status, an unparseable body and a non-"ok" application status each map to
/// their error; anything else yields the page.
pub open spec fn classified(a: FetchAttempt) -> Result<PageV, FetchError> {
    match a {
        FetchAttempt::TransportFailed => Err(FetchError::TransportFailure),
        FetchAttempt::Completed { http_status, body } => if http_status != 200 {
            Err(FetchError::BadStatus)
        } else {
            match body {
                None => Err(FetchError::MalformedResponse),
                Some(b) => if b.status@ != "ok"@ {
                    Err(FetchError::ApplicationError)
                } else {
                    Ok(PageV { items: b.items@, next_cursor: b.next_cursor@ })
                },
            }
        },
    }
}

/// Executable counterpart of [`classified`].
pub fn classify_attempt(a: &FetchAttempt) -> (r: Result<Page, FetchError>)
    ensures
        match r {
            Ok(p) => classified(*a) == Ok::<PageV, FetchError>(p@),
            Err(e) => classified(*a) == Err::<PageV, FetchError>(e),
        },
{
    match a {
        FetchAttempt::TransportFailed => Err(FetchError::TransportFailure),
        FetchAttempt::Completed { http_status, body } => {
            if *http_status != 200 {
                Err(FetchError::BadStatus)
            } else {
                match body {
                    None => Err(FetchError::MalformedResponse),
                    Some(b) => {
                        let ok_marker = "ok".to_owned();
                        if b.status == ok_marker {
                            Ok(Page {
                                items: crate::record::duplicate_records(&b.items),
                                next_cursor: b.next_cursor.clone(),
                            })
                        } else {
                            Err(FetchError::ApplicationError)
                        }
                    },
                }
            }
        },
    }
}

/// The retry schedule for transient fetch failures: a fixed number of
/// attempts with exponentially growing delays. An explicit value handed to
/// the fetcher, not a hidden constant, so deterministic schedules can be
/// substituted.
pub struct RetryPolicy {
    /// How many attempts one fetch may make; at least one.
    pub max_attempts: u32,
    /// The delay before the second attempt, in milliseconds; it doubles
    /// after every further failure.
    pub initial_delay_ms: u64,
}

/// Two to the power `k`.
pub open spec fn pow2(k: nat) -> nat
    decreases k,
{
    if k == 0 {
        1
    } else {
        2 * pow2((k - 1) as nat)
    }
}

/// `pow2` never decreases as the exponent grows.
pub proof fn lemma_pow2_increases(a: nat, b: nat)
    requires
        a <= b,
    ensures
        pow2(a) <= pow2(b),
    decreases b,
{
    if a < b {
        lemma_pow2_increases(a, (b - 1) as nat);
        assert(pow2(b) == 2 * pow2((b - 1) as nat));
        assert(pow2((b - 1) as nat) >= 1) by {
            lemma_pow2_increases(0, (b - 1) as nat);
        };
    }
}

impl RetryPolicy {
    /// A policy is usable when it makes at least one attempt and its
    /// largest delay cannot overflow a millisecond count.
    pub open spec fn wf(self) -> bool {
        &&& 1 <= self.max_attempts <= 16
        &&& 1 <= self.initial_delay_ms <= 1000000
    }

    /// The fixed schedule the harvester runs with: five attempts, first
    /// delay ten milliseconds.
    pub fn standard() -> (r: RetryPolicy)
        ensures
            r == (RetryPolicy { max_attempts: 5u32, initial_delay_ms: 10u64 }),
            r.wf(),
    {
        RetryPolicy { max_attempts: 5, initial_delay_ms: 10 }
    }

    /// The backoff delay in milliseconds after failed attempt number
    /// `attempt` (counting from zero): the initial delay doubled once per
    /// prior failure.
    pub fn delay_for(&self, attempt: u32) -> (r: u64)
        requires
            self.wf(),
            attempt < self.max_attempts,
        ensures
            r == self.initial_delay_ms * pow2(attempt as nat),
    {
        let mut d: u64 = self.initial_delay_ms;
        let mut i: u32 = 0;
        proof {
            assert(pow2(0) == 1);
        }
        while i < attempt
            invariant
                self.wf(),
                i <= attempt,
                attempt <= 15,
                d == self.initial_delay_ms * pow2(i as nat),
            decreases attempt - i,
        {
            proof {
                lemma_pow2_increases((i + 1) as nat, 15);
                assert(pow2(15) == 32768) by {
                    reveal_with_fuel(pow2, 16);
                };
                assert(self.initial_delay_ms * pow2((i + 1) as nat) <= 1000000 * 32768)
                    by (nonlinear_arith)
                    requires
                        self.initial_delay_ms <= 1000000,
                        pow2((i + 1) as nat) <= 32768,
                ;
                assert(self.initial_delay_ms * pow2((i + 1) as nat) == 2 * (
                self.initial_delay_ms * pow2(i as nat))) by (nonlinear_arith)
                    requires
                        pow2((i + 1) as nat) == 2 * pow2(i as nat),
                ;
            }
            d = d * 2;
            i = i + 1;
        }
        d
    }
}

/// The outcome of one fetch run against a sequence of attempt outcomes
/// under a budget of `n` attempts: the first attempt that classifies as a
/// page wins; once the budget is spent the last classification error is
/// surfaced.
pub open spec fn fetch_model(attempts: Seq<FetchAttempt>, n: nat) -> Result<PageV, FetchError>
    recommends
        1 <= n <= attempts.len(),
    decreases n,
{
    if n == 0 {
        Err(FetchError::TransportFailure)
    } else {
        match classified(attempts[0]) {
            Ok(p) => Ok(p),
            Err(e) => if n == 1 {
                Err(e)
            } else {
                fetch_model(attempts.drop_first(), (n - 1) as nat)
            },
        }
    }
}

/// Run one fetch: interpret successive attempt outcomes under the policy's
/// retry budget. `attempts[k]` is what attempt number `k` produced; entries
/// beyond the first success are never looked at.
pub fn fetch(attempts: &Vec<FetchAttempt>, policy: &RetryPolicy) -> (r: Result<Page, FetchError>)
    requires
        policy.wf(),
        attempts@.len() >= policy.max_attempts,
    ensures
        match r {
            Ok(p) => fetch_model(attempts@, policy.max_attempts as nat) == Ok::<
                PageV,
                FetchError,
            >(p@),
            Err(e) => fetch_model(attempts@, policy.max_attempts as nat) == Err::<
                PageV,
                FetchError,
            >(e),
        },
{
    let budget = policy.max_attempts;
    let mut i: u32 = 0;
    proof {
        assert(attempts@.skip(0) =~= attempts@);
    }
    loop
        invariant
            i < budget,
            policy.wf(),
            budget == policy.max_attempts,
            attempts@.len() >= budget,
            fetch_model(attempts@, budget as nat) == fetch_model(
                attempts@.skip(i as int),
                (budget - i) as nat,
            ),
        decreases budget - i,
    {
        proof {
            assert(attempts@.skip(i as int)[0] == attempts@[i as int]);
            assert(attempts@.skip(i as int).drop_first() =~= attempts@.skip(i as int + 1));
        }
        match classify_attempt(&attempts[i as usize]) {
            Ok(p) => {
                return Ok(p);
            },
            Err(e) => {
                if i + 1 == budget {
                    return Err(e);
                }
            },
        }
        i = i + 1;
    }
}

} // verus!
