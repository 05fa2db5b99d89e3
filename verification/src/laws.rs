//! The guarantees the harvester is built around, stated and proved over the
//! models that the executable contracts are written in: re-harvesting is
//! idempotent, the watermark never regresses, the producer's early stop is
//! sound for the order the index promises, and a drained stream leaves no
//! storable record behind.

use vstd::prelude::*;
use crate::fetch::{fetch_model, FetchAttempt};
use crate::harvest::{
    accepted_of, consume_rows, latest_of, produce_model, resume_after, run_stream, run_watermark,
};
use crate::record::{accepted, Record, MIN_INSTANT};
use crate::store::{
    has_key, key_of, row_of_record, step_rows, stored_date, WorkKey, WorkV,
};

verus! {

/// Nothing the consumer does removes a row: a key present in the store is
/// still present after any stream is drained into it.
pub proof fn lemma_consume_preserves_key(rows: Seq<WorkV>, stream: Seq<Record>, k: WorkKey)
    requires
        has_key(rows, k),
    ensures
        has_key(consume_rows(rows, stream), k),
    decreases stream.len(),
{
    if stream.len() > 0 {
        let stepped = step_rows(rows, stream[0]);
        match row_of_record(stream[0]) {
            None => {},
            Some(w) => {
                if !has_key(rows, key_of(w)) {
                    let i = choose|i: int| 0 <= i < rows.len() && key_of(rows[i]) == k;
                    assert(rows.push(w)[i] == rows[i]);
                }
            },
        }
        assert(has_key(stepped, k));
        lemma_consume_preserves_key(stepped, stream.drop_first(), k);
    }
}

/// Channel-drain completeness: once the consumer has drained the stream,
/// every storable record of the stream is present in the store under its
/// dedup key — none is silently dropped.
pub proof fn lemma_drain_complete(rows: Seq<WorkV>, stream: Seq<Record>, i: int)
    requires
        0 <= i < stream.len(),
    ensures
        match row_of_record(stream[i]) {
            Some(w) => has_key(consume_rows(rows, stream), key_of(w)),
            None => true,
        },
    decreases stream.len(),
{
    let stepped = step_rows(rows, stream[0]);
    if i == 0 {
        match row_of_record(stream[0]) {
            None => {},
            Some(w) => {
                if !has_key(rows, key_of(w)) {
                    assert(rows.push(w)[rows.len() as int] == w);
                }
                assert(has_key(stepped, key_of(w)));
                lemma_consume_preserves_key(stepped, stream.drop_first(), key_of(w));
            },
        }
    } else {
        lemma_drain_complete(stepped, stream.drop_first(), i - 1);
        assert(stream.drop_first()[i - 1] == stream[i]);
    }
}

/// A stream whose storable records are all already present changes nothing.
proof fn lemma_consume_noop(rows: Seq<WorkV>, stream: Seq<Record>)
    requires
        forall|j: int|
            0 <= j < stream.len() ==> match row_of_record(#[trigger] stream[j]) {
                Some(w) => has_key(rows, key_of(w)),
                None => true,
            },
    ensures
        consume_rows(rows, stream) == rows,
    decreases stream.len(),
{
    if stream.len() > 0 {
        assert(step_rows(rows, stream[0]) == rows);
        assert forall|j: int|
            0 <= j < stream.drop_first().len() implies match row_of_record(
            #[trigger] stream.drop_first()[j],
        ) {
            Some(w) => has_key(rows, key_of(w)),
            None => true,
        } by {
            assert(stream.drop_first()[j] == stream[j + 1]);
        }
        lemma_consume_noop(rows, stream.drop_first());
    }
}

/// Idempotent re-harvest: draining the same forwarded stream a second time
/// over the store the first drain produced changes nothing — every insert
/// of the replay is a duplicate by content hash.
pub proof fn lemma_harvest_idempotent(rows: Seq<WorkV>, stream: Seq<Record>)
    ensures
        consume_rows(consume_rows(rows, stream), stream) == consume_rows(rows, stream),
{
    let once = consume_rows(rows, stream);
    assert forall|j: int|
        0 <= j < stream.len() implies match row_of_record(#[trigger] stream[j]) {
        Some(w) => has_key(once, key_of(w)),
        None => true,
    } by {
        lemma_drain_complete(rows, stream, j);
    }
    lemma_consume_noop(once, stream);
}

/// Watermark monotonicity: whatever one run observes, and whether or not
/// it fails, the watermark stored afterwards never lies below the one
/// stored before.
pub proof fn lemma_watermark_monotonic(
    entries: Seq<(String, i64)>,
    key: Seq<char>,
    pages: Seq<Vec<FetchAttempt>>,
    n: nat,
    now: i64,
    w: i64,
)
    requires
        stored_date(entries, key) == Some(w),
    ensures
        match run_watermark(entries, key, pages, n, now) {
            Some(w2) => w2 >= w,
            None => false,
        },
{
}

/// A successful run that observes no record at all leaves the watermark
/// unchanged, so the next run retries the same window.
pub proof fn lemma_idle_run_keeps_watermark(
    entries: Seq<(String, i64)>,
    key: Seq<char>,
    pages: Seq<Vec<FetchAttempt>>,
    n: nat,
    now: i64,
    w: i64,
)
    requires
        stored_date(entries, key) == Some(w),
        !run_stream(entries, key, pages, n, now).1,
        run_stream(entries, key, pages, n, now).0.len() == 0,
    ensures
        run_watermark(entries, key, pages, n, now) == Some(w),
{
    assert(w >= MIN_INSTANT);
    assert(resume_after(entries, key, now) == w - 3600);
    assert(latest_of(resume_after(entries, key, now), run_stream(entries, key, pages, n, now).0)
        == w - 3600);
}

/// Every record in the filtered sequence passes the acceptance filter.
pub proof fn lemma_accepted_of_sound(s: Seq<Record>, after: i64, i: int)
    requires
        0 <= i < accepted_of(s, after).len(),
    ensures
        accepted(accepted_of(s, after)[i], after),
    decreases s.len(),
{
    if s.len() > 0 {
        let rest = accepted_of(s.drop_last(), after);
        if accepted(s.last(), after) {
            if i < rest.len() {
                lemma_accepted_of_sound(s.drop_last(), after, i);
            }
        } else {
            lemma_accepted_of_sound(s.drop_last(), after, i);
        }
    }
}

/// Date-boundary exactness: the producer forwards only records whose
/// indexing timestamp lies strictly after the true watermark — widening the
/// query window to day granularity never widens what reaches storage.
pub proof fn lemma_stream_respects_watermark(
    pages: Seq<Vec<FetchAttempt>>,
    after: i64,
    n: nat,
    i: int,
)
    requires
        0 <= i < produce_model(pages, after, n).0.len(),
    ensures
        accepted(produce_model(pages, after, n).0[i], after),
    decreases pages.len(),
{
    if pages.len() > 0 {
        match fetch_model(pages[0]@, n) {
            Err(_) => {},
            Ok(p) => {
                let acc = accepted_of(p.items, after);
                if acc.len() != 0 {
                    let rest = produce_model(pages.drop_first(), after, n);
                    if i < acc.len() {
                        lemma_accepted_of_sound(p.items, after, i);
                        assert((acc + rest.0)[i] == acc[i]);
                    } else {
                        lemma_stream_respects_watermark(pages.drop_first(), after, n, i - acc.len());
                        assert((acc + rest.0)[i] == rest.0[i - acc.len()]);
                    }
                }
            },
        }
    }
}

/// Whether a fetched page keeps the producer going: it classified as a
/// page and some of its records passed the acceptance filter.
pub open spec fn page_continues(attempts: Vec<FetchAttempt>, after: i64, n: nat) -> bool {
    match fetch_model(attempts@, n) {
        Ok(p) => accepted_of(p.items, after).len() != 0,
        Err(_) => false,
    }
}

/// Whether a fetched page stops the producer cleanly: it classified as a
/// page and none of its records passed the acceptance filter (which covers
/// the empty page signalling exhaustion).
pub open spec fn page_stops(attempts: Vec<FetchAttempt>, after: i64, n: nat) -> bool {
    match fetch_model(attempts@, n) {
        Ok(p) => accepted_of(p.items, after).len() == 0,
        Err(_) => false,
    }
}

/// Early stop on the descending order: when every page before `k` kept the
/// producer going and page `k` yields no accepted record, the run's whole
/// outcome is already fixed by the pages up to `k` — whatever the later
/// pages would have held, they are never fetched.
pub proof fn lemma_early_stop(pages: Seq<Vec<FetchAttempt>>, after: i64, n: nat, k: int)
    requires
        0 <= k < pages.len(),
        forall|j: int| 0 <= j < k ==> #[trigger] page_continues(pages[j], after, n),
        page_stops(pages[k], after, n),
    ensures
        produce_model(pages, after, n) == produce_model(pages.take(k + 1), after, n),
    decreases k,
{
    let t = pages.take(k + 1);
    assert(t[0] == pages[0]);
    if k == 0 {
        assert(page_stops(pages[0], after, n));
    } else {
        assert(page_continues(pages[0], after, n));
        assert(t.drop_first() =~= pages.drop_first().take(k));
        assert forall|j: int|
            0 <= j < k - 1 implies #[trigger] page_continues(
            pages.drop_first()[j],
            after,
            n,
        ) by {
            assert(pages.drop_first()[j] == pages[j + 1]);
        }
        assert(pages.drop_first()[k - 1] == pages[k]);
        lemma_early_stop(pages.drop_first(), after, n, k - 1);
    }
}

} // verus!
