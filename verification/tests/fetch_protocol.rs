use crossref_harvest::fetch::{fetch, FetchAttempt, FetchError, Page, ResponseBody, RetryPolicy};
use crossref_harvest::record::Record;

fn rec(ts: &str, id: &str, payload: &str) -> Record {
    Record {
        payload: payload.to_string(),
        indexed: Some(ts.to_string()),
        identifier: Some(id.to_string()),
    }
}

fn ok_response(items: Vec<Record>, cursor: &str) -> FetchAttempt {
    FetchAttempt::Completed {
        http_status: 200,
        body: Some(ResponseBody {
            status: "ok".to_string(),
            total_results: 42,
            next_cursor: cursor.to_string(),
            items,
        }),
    }
}

fn one_shot() -> RetryPolicy {
    RetryPolicy { max_attempts: 1, initial_delay_ms: 1 }
}

#[test]
fn fetch_success_first_attempt() {
    let items = vec![rec("2024-03-10T08:00:00Z", "10.1/a", "{}")];
    let attempts = vec![ok_response(items, "cursor-2")];
    let page: Page = fetch(&attempts, &one_shot()).expect("page");
    assert_eq!(page.items.len(), 1);
    assert_eq!(page.items[0].identifier.as_deref(), Some("10.1/a"));
    assert_eq!(page.next_cursor, "cursor-2");
}

#[test]
fn fetch_retries_past_transport_failure() {
    let attempts = vec![
        FetchAttempt::TransportFailed,
        ok_response(vec![], "done"),
        FetchAttempt::TransportFailed,
        FetchAttempt::TransportFailed,
        FetchAttempt::TransportFailed,
    ];
    let page = fetch(&attempts, &RetryPolicy::standard()).expect("page after retry");
    assert_eq!(page.items.len(), 0);
    assert_eq!(page.next_cursor, "done");
}

#[test]
fn fetch_exhausts_retries_on_persistent_transport_failure() {
    let attempts = vec![FetchAttempt::TransportFailed; 5];
    let err = fetch(&attempts, &RetryPolicy::standard()).expect_err("exhausted");
    assert_eq!(err, FetchError::TransportFailure);
}

#[test]
fn fetch_reports_bad_status() {
    let attempts = vec![FetchAttempt::Completed { http_status: 500, body: None }];
    let err = fetch(&attempts, &one_shot()).expect_err("bad status");
    assert_eq!(err, FetchError::BadStatus);
}

#[test]
fn fetch_reports_malformed_body() {
    let attempts = vec![FetchAttempt::Completed { http_status: 200, body: None }];
    let err = fetch(&attempts, &one_shot()).expect_err("malformed");
    assert_eq!(err, FetchError::MalformedResponse);
}

#[test]
fn fetch_reports_application_error() {
    let attempts = vec![FetchAttempt::Completed {
        http_status: 200,
        body: Some(ResponseBody {
            status: "overloaded".to_string(),
            total_results: 0,
            next_cursor: "x".to_string(),
            items: vec![],
        }),
    }];
    let err = fetch(&attempts, &one_shot()).expect_err("application error");
    assert_eq!(err, FetchError::ApplicationError);
}

#[test]
fn fetch_surfaces_last_error_when_budget_spent() {
    let attempts = vec![
        FetchAttempt::TransportFailed,
        FetchAttempt::TransportFailed,
        FetchAttempt::TransportFailed,
        FetchAttempt::TransportFailed,
        FetchAttempt::Completed { http_status: 503, body: None },
    ];
    let err = fetch(&attempts, &RetryPolicy::standard()).expect_err("budget spent");
    assert_eq!(err, FetchError::BadStatus);
}

#[test]
fn backoff_doubles_from_initial_delay() {
    let policy = RetryPolicy::standard();
    assert_eq!(policy.delay_for(0), 10);
    assert_eq!(policy.delay_for(1), 20);
    assert_eq!(policy.delay_for(2), 40);
    assert_eq!(policy.delay_for(3), 80);
    assert_eq!(policy.delay_for(4), 160);
}
