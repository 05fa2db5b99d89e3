//! The harvest pipeline: the producer that drives the fetch protocol page
//! by page and filters against the watermark, the consumer that drains the
//! forwarded stream into the record store while tracking the newest
//! indexing instant, and the orchestrated run that reads and writes the
//! watermark around one harvest.
//!
//! The producer and consumer run concurrently in a deployment, joined by a
//! hand-off channel that preserves page order and is fully drained before a
//! run completes; that ordering guarantee is what lets the pipeline be
//! stated here as one pass over the forwarded stream.

use vstd::prelude::*;
use crate::fetch::{fetch, fetch_model, FetchAttempt, RetryPolicy};
use crate::record::{accept_record, accepted, valid_instant, Record, MAX_INSTANT, MIN_INSTANT};
use crate::store::{
    lookup, process_record, step_latest, step_rows, stored_date, WatermarkStore, WorkStore, WorkV,
};
use crate::{saturating_sub_i64, sub_saturating};

verus! {

/// How many records one page request asks the remote index for.
pub const HARVEST_PAGE_SIZE: u32 = 1000;

/// The calendar day of a unix-second instant, rendered as year-month-day.
/// Named rather than defined: its definition is the whole civil calendar,
/// and it is a function of the instant alone.
pub uninterp spec fn ymd_of(ts: i64) -> Seq<char>;

/// Relies on time's `OffsetDateTime::from_unix_timestamp` and the year-
/// month-day display form of `Date`: the calendar day of the instant, a
/// function of the instant alone, available exactly for representable
/// instants.
#[verifier::external_body]
fn format_day(ts: i64) -> (r: Option<String>)
    ensures
        r matches Some(s) ==> s@ == ymd_of(ts),
        (r is Some) == valid_instant(ts),
{
    match time::OffsetDateTime::from_unix_timestamp(ts) {
        Ok(t) => Some(t.date().to_string()),
        Err(_) => None,
    }
}

/// The day-granularity lower bound the remote index is queried with: one
/// full day before `after`, truncated to its calendar day. The index
/// cannot filter below day granularity and has no secondary sort within a
/// day, so the query window is widened by a day while the acceptance
/// filter stays exact; the overlap is re-scanned and deduplicated
/// downstream.
pub fn query_lower_bound(after: i64) -> (r: Option<String>)
    ensures
        r matches Some(s) ==> s@ == ymd_of(sub_saturating(after, 86400)),
        (r is Some) == valid_instant(sub_saturating(after, 86400)),
{
    let padded = saturating_sub_i64(after, 86400);
    format_day(padded)
}

/// The records of `s` that pass the acceptance filter, in order.
pub open spec fn accepted_of(s: Seq<Record>, after: i64) -> Seq<Record>
    decreases s.len(),
{
    if s.len() == 0 {
        Seq::empty()
    } else {
        let rest = accepted_of(s.drop_last(), after);
        if accepted(s.last(), after) {
            rest.push(s.last())
        } else {
            rest
        }
    }
}

/// Executable counterpart of [`accepted_of`].
pub fn filter_accepted(items: &Vec<Record>, after: i64) -> (r: Vec<Record>)
    ensures
        r@ == accepted_of(items@, after),
{
    let mut out: Vec<Record> = Vec::new();
    let mut i: usize = 0;
    proof {
        assert(items@.take(0) =~= Seq::<Record>::empty());
    }
    while i < items.len()
        invariant
            i <= items@.len(),
            out@ == accepted_of(items@.take(i as int), after),
        decreases items@.len() - i,
    {
        proof {
            assert(items@.take(i as int + 1).drop_last() =~= items@.take(i as int));
            assert(items@.take(i as int + 1).last() == items@[i as int]);
        }
        if accept_record(&items[i], after) {
            out.push(items[i].duplicate());
        }
        i = i + 1;
    }
    proof {
        assert(items@.take(items@.len() as int) =~= items@);
    }
    out
}

/// The stream a full producer run forwards, and whether the run ended in a
/// fetch failure. Pages are fetched in order under the given retry budget;
/// each page is filtered against `after`, and its accepted records are
/// forwarded in page order. The run stops after the first page whose
/// accepted subset is empty — which covers the zero-record page signalling
/// exhaustion, and the page that the descending sort shows is past the
/// watermark — or as soon as a fetch fails.
pub open spec fn produce_model(pages: Seq<Vec<FetchAttempt>>, after: i64, n: nat) -> (
    Seq<Record>,
    bool,
)
    decreases pages.len(),
{
    if pages.len() == 0 {
        (Seq::<Record>::empty(), false)
    } else {
        match fetch_model(pages[0]@, n) {
            Err(_) => (Seq::<Record>::empty(), true),
            Ok(p) => {
                let acc = accepted_of(p.items, after);
                if acc.len() == 0 {
                    (acc, false)
                } else {
                    let rest = produce_model(pages.drop_first(), after, n);
                    (acc + rest.0, rest.1)
                }
            },
        }
    }
}

/// What one producer run handed over: the forwarded records in order, and
/// whether the run ended in a fetch failure rather than normal exhaustion.
pub struct ProducerRun {
    /// The accepted records, in the order they were forwarded.
    pub records: Vec<Record>,
    /// Whether a fetch failure ended the run early.
    pub fetch_failed: bool,
}

/// Drive the fetch protocol page by page: `pages[k]` holds the attempt
/// outcomes available to the fetch of page `k`, in the order a deployment
/// obtains them by following each page's continuation cursor. Pages past
/// the stopping point are never examined.
pub fn harvest_stream(pages: &Vec<Vec<FetchAttempt>>, after: i64, policy: &RetryPolicy) -> (r:
    ProducerRun)
    requires
        policy.wf(),
        forall|i: int|
            0 <= i < pages@.len() ==> #[trigger] pages@[i]@.len() >= policy.max_attempts,
    ensures
        (r.records@, r.fetch_failed) == produce_model(pages@, after, policy.max_attempts as nat),
{
    let ghost n = policy.max_attempts as nat;
    let mut out: Vec<Record> = Vec::new();
    let mut k: usize = 0;
    proof {
        assert(pages@.skip(0) =~= pages@);
        assert(out@ + produce_model(pages@, after, n).0 =~= produce_model(pages@, after, n).0);
    }
    while k < pages.len()
        invariant
            policy.wf(),
            n == policy.max_attempts as nat,
            forall|i: int|
                0 <= i < pages@.len() ==> #[trigger] pages@[i]@.len() >= policy.max_attempts,
            k <= pages@.len(),
            produce_model(pages@, after, n) == (
                out@ + produce_model(pages@.skip(k as int), after, n).0,
                produce_model(pages@.skip(k as int), after, n).1,
            ),
        decreases pages@.len() - k,
    {
        proof {
            assert(pages@.skip(k as int)[0] == pages@[k as int]);
            assert(pages@.skip(k as int).drop_first() =~= pages@.skip(k as int + 1));
        }
        let ghost rest = produce_model(pages@.skip(k as int), after, n);
        match fetch(&pages[k], policy) {
            Err(_) => {
                proof {
                    assert(rest == (Seq::<Record>::empty(), true));
                    assert(out@ + rest.0 =~= out@);
                }
                return ProducerRun { records: out, fetch_failed: true };
            },
            Ok(page) => {
                let mut wanted = filter_accepted(&page.items, after);
                let ghost acc = accepted_of(page.items@, after);
                if wanted.len() == 0 {
                    proof {
                        assert(rest == (acc, false));
                        assert(out@ + rest.0 =~= out@);
                    }
                    return ProducerRun { records: out, fetch_failed: false };
                }
                let ghost out_before = out@;
                out.append(&mut wanted);
                proof {
                    let rest_next = produce_model(pages@.skip(k as int + 1), after, n);
                    assert(rest.0 == acc + rest_next.0);
                    assert((out_before + acc) + rest_next.0 =~= out_before + (acc + rest_next.0));
                }
            },
        }
        k = k + 1;
    }
    proof {
        assert(pages@.skip(pages@.len() as int) =~= Seq::<Vec<FetchAttempt>>::empty());
        assert(out@ + Seq::<Record>::empty() =~= out@);
    }
    ProducerRun { records: out, fetch_failed: false }
}

/// The history rows after the consumer has drained the stream, in order.
pub open spec fn consume_rows(rows: Seq<WorkV>, stream: Seq<Record>) -> Seq<WorkV>
    decreases stream.len(),
{
    if stream.len() == 0 {
        rows
    } else {
        consume_rows(step_rows(rows, stream[0]), stream.drop_first())
    }
}

/// The watermark candidate after the consumer has drained the stream: the
/// maximum valid indexing instant observed, or `latest` unchanged when no
/// record carried one.
pub open spec fn latest_of(latest: i64, stream: Seq<Record>) -> i64
    decreases stream.len(),
{
    if stream.len() == 0 {
        latest
    } else {
        latest_of(step_latest(latest, stream[0]), stream.drop_first())
    }
}

/// The watermark candidate never falls below where it started.
pub proof fn lemma_latest_lower_bound(latest: i64, stream: Seq<Record>)
    ensures
        latest_of(latest, stream) >= latest,
    decreases stream.len(),
{
    if stream.len() > 0 {
        lemma_latest_lower_bound(step_latest(latest, stream[0]), stream.drop_first());
    }
}

/// Drain the forwarded stream in order: every record observed updates the
/// watermark candidate, and the storable ones go to the store.
pub fn consume(store: &mut WorkStore, stream: &Vec<Record>, after: i64) -> (latest: i64)
    requires
        old(store).wf(),
    ensures
        final(store).wf(),
        final(store).rows_v() == consume_rows(old(store).rows_v(), stream@),
        latest == latest_of(after, stream@),
        latest == after || valid_instant(latest),
{
    let mut latest = after;
    let mut i: usize = 0;
    proof {
        assert(stream@.skip(0) =~= stream@);
    }
    while i < stream.len()
        invariant
            store.wf(),
            i <= stream@.len(),
            consume_rows(old(store).rows_v(), stream@) == consume_rows(
                store.rows_v(),
                stream@.skip(i as int),
            ),
            latest_of(after, stream@) == latest_of(latest, stream@.skip(i as int)),
            latest == after || valid_instant(latest),
        decreases stream@.len() - i,
    {
        proof {
            assert(stream@.skip(i as int)[0] == stream@[i as int]);
            assert(stream@.skip(i as int).drop_first() =~= stream@.skip(i as int + 1));
        }
        latest = process_record(store, &stream[i], latest);
        i = i + 1;
    }
    proof {
        assert(stream@.skip(stream@.len() as int) =~= Seq::<Record>::empty());
    }
    latest
}

/// What one full harvest pass reported.
pub struct HarvestOutcome {
    /// The maximum indexing instant observed, or the `after` the run was
    /// started with when nothing was observed at all.
    pub latest: i64,
    /// Whether the producer ended in a fetch failure.
    pub fetch_failed: bool,
}

/// One full harvest pass: the producer filters and forwards pages in order
/// against `after`, and the consumer drains the whole forwarded stream into
/// the store before the outcome is reported — no record is dropped on
/// completion. The returned instant never lies below `after`, and equals
/// `after` exactly when the stream was empty, so an empty run retries the
/// same window instead of advancing past unseen data.
pub fn harvest(
    store: &mut WorkStore,
    pages: &Vec<Vec<FetchAttempt>>,
    after: i64,
    policy: &RetryPolicy,
) -> (r: HarvestOutcome)
    requires
        old(store).wf(),
        policy.wf(),
        forall|i: int|
            0 <= i < pages@.len() ==> #[trigger] pages@[i]@.len() >= policy.max_attempts,
    ensures
        final(store).wf(),
        final(store).rows_v() == consume_rows(
            old(store).rows_v(),
            produce_model(pages@, after, policy.max_attempts as nat).0,
        ),
        r.latest == latest_of(after, produce_model(pages@, after, policy.max_attempts as nat).0),
        r.fetch_failed == produce_model(pages@, after, policy.max_attempts as nat).1,
        r.latest >= after,
        r.latest == after || valid_instant(r.latest),
        produce_model(pages@, after, policy.max_attempts as nat).0.len() == 0 ==> r.latest
            == after,
{
    let run = harvest_stream(pages, after, policy);
    let latest = consume(store, &run.records, after);
    proof {
        lemma_latest_lower_bound(after, run.records@);
    }
    HarvestOutcome { latest, fetch_failed: run.fetch_failed }
}

/// The timestamp a run resumes from before the safety margin: the stored
/// watermark, or `now` when none is stored.
pub open spec fn resume_base(entries: Seq<(String, i64)>, key: Seq<char>, now: i64) -> i64 {
    match stored_date(entries, key) {
        Some(w) => w,
        None => now,
    }
}

/// The true acceptance watermark of a run: the resume point backed off by
/// the one-hour safety margin for clock skew and jitter between runs.
pub open spec fn resume_after(entries: Seq<(String, i64)>, key: Seq<char>, now: i64) -> i64 {
    sub_saturating(resume_base(entries, key, now), 3600)
}

/// The stream one orchestrated run forwards, and whether it failed.
pub open spec fn run_stream(
    entries: Seq<(String, i64)>,
    key: Seq<char>,
    pages: Seq<Vec<FetchAttempt>>,
    n: nat,
    now: i64,
) -> (Seq<Record>, bool) {
    produce_model(pages, resume_after(entries, key, now), n)
}

/// What a read of the watermark yields after one orchestrated run: on a
/// fetch failure the watermark is untouched so the whole window is retried
/// next run; otherwise it becomes the newest instant observed, never
/// falling below the previous watermark.
pub open spec fn run_watermark(
    entries: Seq<(String, i64)>,
    key: Seq<char>,
    pages: Seq<Vec<FetchAttempt>>,
    n: nat,
    now: i64,
) -> Option<i64> {
    let after = resume_after(entries, key, now);
    let sf = run_stream(entries, key, pages, n, now);
    if sf.1 {
        stored_date(entries, key)
    } else {
        let latest = latest_of(after, sf.0);
        match stored_date(entries, key) {
            Some(w) => Some(
                if latest >= w {
                    latest
                } else {
                    w
                },
            ),
            None => Some(latest),
        }
    }
}

/// The watermark decision after one harvest pass: nothing is written when
/// the run ended in a fetch failure, so the whole window is retried next
/// run; otherwise the newest observed instant is written, never below the
/// previously stored value.
pub fn next_watermark(stored: Option<i64>, latest: i64, fetch_failed: bool) -> (r: Option<i64>)
    ensures
        fetch_failed ==> r is None,
        !fetch_failed ==> r == match stored {
            Some(w) => Some::<i64>(
                if latest >= w {
                    latest
                } else {
                    w
                },
            ),
            None => Some::<i64>(latest),
        },
{
    if fetch_failed {
        None
    } else {
        match stored {
            Some(w) => Some(
                if latest >= w {
                    latest
                } else {
                    w
                },
            ),
            None => Some(latest),
        }
    }
}

/// One orchestrated run for the logical source stored under `key`: read the
/// watermark (defaulting to `now`), back off the one-hour margin, harvest,
/// and — unless the run ended in a fetch failure — write back the new
/// watermark. Rows stored before a failure are kept; only the watermark
/// write is withheld, so the next run retries the window.
pub fn run_latest_harvest(
    works: &mut WorkStore,
    marks: &mut WatermarkStore,
    key: &str,
    pages: &Vec<Vec<FetchAttempt>>,
    policy: &RetryPolicy,
    now: i64,
)
    requires
        old(works).wf(),
        old(marks).wf(),
        policy.wf(),
        forall|i: int|
            0 <= i < pages@.len() ==> #[trigger] pages@[i]@.len() >= policy.max_attempts,
        MIN_INSTANT + 3600 <= now <= MAX_INSTANT,
    ensures
        final(works).wf(),
        final(marks).wf(),
        final(works).rows_v() == consume_rows(
            old(works).rows_v(),
            run_stream(
                old(marks).entries_v(),
                key@,
                pages@,
                policy.max_attempts as nat,
                now,
            ).0,
        ),
        stored_date(final(marks).entries_v(), key@) == run_watermark(
            old(marks).entries_v(),
            key@,
            pages@,
            policy.max_attempts as nat,
            now,
        ),
        forall|kk: Seq<char>|
            kk != key@ ==> lookup(final(marks).entries_v(), kk) == lookup(
                old(marks).entries_v(),
                kk,
            ),
{
    let stored = marks.get_date(key);
    let base = match stored {
        Some(w) => w,
        None => now,
    };
    let after = saturating_sub_i64(base, 3600);
    let outcome = harvest(works, pages, after, policy);
    match next_watermark(stored, outcome.latest, outcome.fetch_failed) {
        None => {},
        Some(new_mark) => {
            proof {
                assert(valid_instant(new_mark));
            }
            marks.set_date(key, new_mark);
        },
    }
}

} // verus!
