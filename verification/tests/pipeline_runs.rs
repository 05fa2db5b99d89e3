use crossref_harvest::fetch::{FetchAttempt, ResponseBody, RetryPolicy};
use crossref_harvest::harvest::{
    harvest, harvest_stream, next_watermark, query_lower_bound, run_latest_harvest,
};
use crossref_harvest::record::Record;
use crossref_harvest::store::{WatermarkStore, WorkStore};

fn rec(ts: &str, id: &str, payload: &str) -> Record {
    Record {
        payload: payload.to_string(),
        indexed: Some(ts.to_string()),
        identifier: Some(id.to_string()),
    }
}

fn page(items: Vec<Record>, cursor: &str) -> Vec<FetchAttempt> {
    vec![FetchAttempt::Completed {
        http_status: 200,
        body: Some(ResponseBody {
            status: "ok".to_string(),
            total_results: 0,
            next_cursor: cursor.to_string(),
            items,
        }),
    }]
}

fn one_shot() -> RetryPolicy {
    RetryPolicy { max_attempts: 1, initial_delay_ms: 1 }
}

const KEY: &str = "crossref-not-before";

#[test]
fn descending_pages_stop_at_first_stale_page() {
    let pages = vec![
        page(
            vec![rec("1970-01-01T00:00:05Z", "10.1/a", "pa"), rec("1970-01-01T00:00:04Z", "10.1/b", "pb")],
            "c1",
        ),
        page(
            vec![rec("1970-01-01T00:00:03Z", "10.1/c", "pc"), rec("1970-01-01T00:00:02Z", "10.1/d", "pd")],
            "c2",
        ),
        page(vec![rec("1970-01-01T00:00:10Z", "10.1/trap", "pe")], "c3"),
    ];
    let run = harvest_stream(&pages, 3, &one_shot());
    assert!(!run.fetch_failed);
    assert_eq!(run.records.len(), 2);
    assert_eq!(run.records[0].identifier.as_deref(), Some("10.1/a"));
    assert_eq!(run.records[1].identifier.as_deref(), Some("10.1/b"));
}

#[test]
fn empty_page_signals_exhaustion() {
    let pages = vec![
        page(vec![rec("1970-01-01T00:00:05Z", "10.1/a", "pa")], "c1"),
        page(vec![], "c2"),
        page(vec![rec("1970-01-01T00:00:09Z", "10.1/trap", "pb")], "c3"),
    ];
    let run = harvest_stream(&pages, 1, &one_shot());
    assert!(!run.fetch_failed);
    assert_eq!(run.records.len(), 1);
    assert_eq!(run.records[0].identifier.as_deref(), Some("10.1/a"));
}

#[test]
fn boundary_records_are_filtered_even_inside_the_widened_window() {
    let after = 1710057600;
    assert_eq!(query_lower_bound(after), Some("2024-03-09".to_string()));
    let pages = vec![page(
        vec![
            rec("2024-03-10T09:00:00Z", "10.1/new", "pn"),
            rec("2024-03-10T08:00:00Z", "10.1/exact", "px"),
            rec("2024-03-10T07:59:59Z", "10.1/old", "po"),
        ],
        "c1",
    )];
    let run = harvest_stream(&pages, after, &one_shot());
    assert_eq!(run.records.len(), 1);
    assert_eq!(run.records[0].identifier.as_deref(), Some("10.1/new"));
}

#[test]
fn harvest_reports_maximum_observed_instant() {
    let mut store = WorkStore::new();
    let pages = vec![
        page(
            vec![rec("1970-01-01T00:01:40Z", "10.1/a", "pa"), rec("1970-01-01T00:01:30Z", "10.1/b", "pb")],
            "c1",
        ),
        page(vec![], "c2"),
    ];
    let out = harvest(&mut store, &pages, 0, &one_shot());
    assert!(!out.fetch_failed);
    assert_eq!(out.latest, 100);
    assert_eq!(store.len(), 2);
}

#[test]
fn harvest_with_nothing_observed_returns_after_unchanged() {
    let mut store = WorkStore::new();
    let pages = vec![page(vec![], "c1")];
    let out = harvest(&mut store, &pages, 123456, &one_shot());
    assert!(!out.fetch_failed);
    assert_eq!(out.latest, 123456);
    assert_eq!(store.len(), 0);
}

#[test]
fn re_harvest_of_unchanged_data_adds_no_rows() {
    let mut store = WorkStore::new();
    let pages = vec![
        page(
            vec![rec("1970-01-01T00:00:09Z", "10.1/a", "pa"), rec("1970-01-01T00:00:08Z", "10.1/b", "pb")],
            "c1",
        ),
        page(vec![], "c2"),
    ];
    let first = harvest(&mut store, &pages, 0, &one_shot());
    let rows_after_first = store.len();
    let second = harvest(&mut store, &pages, 0, &one_shot());
    assert_eq!(rows_after_first, 2);
    assert_eq!(store.len(), rows_after_first);
    assert_eq!(first.latest, second.latest);
}

#[test]
fn slow_consumer_still_stores_every_forwarded_record() {
    let mut items: Vec<Record> = Vec::new();
    for i in 1..=100 {
        let ts = format!("1970-01-01T00:{:02}:{:02}Z", i / 60, i % 60);
        let id = format!("10.1/{}", i);
        items.push(rec(&ts, &id, &format!("payload-{}", i)));
    }
    let pages = vec![page(items, "c1"), page(vec![], "c2")];
    let mut store = WorkStore::new();
    let out = harvest(&mut store, &pages, 0, &one_shot());
    assert!(!out.fetch_failed);
    assert_eq!(store.len(), 100);
    assert_eq!(out.latest, 100);
}

#[test]
fn watermark_advances_and_never_regresses_across_runs() {
    let mut works = WorkStore::new();
    let mut marks = WatermarkStore::new();
    let now = 1710057000;

    let run1 = vec![page(vec![rec("2024-03-10T08:00:00Z", "10.1/a", "pa")], "c1"), page(vec![], "c2")];
    run_latest_harvest(&mut works, &mut marks, KEY, &run1, &one_shot(), now);
    assert_eq!(marks.get_date(KEY), Some(1710057600));

    let idle = vec![page(vec![], "c1")];
    run_latest_harvest(&mut works, &mut marks, KEY, &idle, &one_shot(), now + 10);
    assert_eq!(marks.get_date(KEY), Some(1710057600));

    let run3 = vec![page(vec![rec("2024-03-10T09:00:00Z", "10.1/b", "pb")], "c1"), page(vec![], "c2")];
    run_latest_harvest(&mut works, &mut marks, KEY, &run3, &one_shot(), now + 20);
    assert_eq!(marks.get_date(KEY), Some(1710061200));
}

#[test]
fn watermark_decision_skips_failed_runs_and_never_regresses() {
    assert_eq!(next_watermark(Some(50), 99, true), None);
    assert_eq!(next_watermark(None, 99, true), None);
    assert_eq!(next_watermark(Some(50), 99, false), Some(99));
    assert_eq!(next_watermark(Some(50), 30, false), Some(50));
    assert_eq!(next_watermark(None, 30, false), Some(30));
}

#[test]
fn retry_exhaustion_leaves_watermark_at_pre_run_value() {
    let mut works = WorkStore::new();
    let mut marks = WatermarkStore::new();
    marks.set_date(KEY, 1710057600);
    let failing = vec![vec![FetchAttempt::TransportFailed; 5]];
    run_latest_harvest(&mut works, &mut marks, KEY, &failing, &RetryPolicy::standard(), 1710060000);
    assert_eq!(marks.get_date(KEY), Some(1710057600));
    assert_eq!(works.len(), 0);
}

#[test]
fn first_failing_run_creates_no_watermark() {
    let mut works = WorkStore::new();
    let mut marks = WatermarkStore::new();
    let failing = vec![vec![FetchAttempt::TransportFailed; 5]];
    run_latest_harvest(&mut works, &mut marks, KEY, &failing, &RetryPolicy::standard(), 1710060000);
    assert_eq!(marks.get_date(KEY), None);
}

#[test]
fn rows_stored_before_a_fetch_failure_are_kept() {
    let mut works = WorkStore::new();
    let mut marks = WatermarkStore::new();
    marks.set_date(KEY, 5);
    let pages = vec![
        page(vec![rec("1970-01-01T00:01:40Z", "10.1/a", "pa")], "c1"),
        vec![FetchAttempt::TransportFailed],
    ];
    run_latest_harvest(&mut works, &mut marks, KEY, &pages, &one_shot(), 1000);
    assert_eq!(works.len(), 1);
    assert_eq!(marks.get_date(KEY), Some(5));
}
