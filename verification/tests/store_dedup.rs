use crossref_harvest::harvest::consume;
use crossref_harvest::record::{get_index_date, Record};
use crossref_harvest::store::{
    make_work_version, InsertOutcome, WatermarkStore, WorkStore, SOURCE_CROSSREF,
};

fn rec(ts: &str, id: &str, payload: &str) -> Record {
    Record {
        payload: payload.to_string(),
        indexed: Some(ts.to_string()),
        identifier: Some(id.to_string()),
    }
}

#[test]
fn identical_content_is_inserted_once() {
    let mut store = WorkStore::new();
    let first = store.insert_work(SOURCE_CROSSREF, "10.1/abc", 1, "payload-p", 100);
    let second = store.insert_work(SOURCE_CROSSREF, "10.1/abc", 1, "payload-p", 100);
    assert_eq!(first, InsertOutcome::Inserted);
    assert_eq!(second, InsertOutcome::Duplicate);
    assert_eq!(store.len(), 1);
}

#[test]
fn distinct_payloads_keep_both_versions() {
    let mut store = WorkStore::new();
    store.insert_work(SOURCE_CROSSREF, "10.1/abc", 1, "payload-p", 100);
    let second = store.insert_work(SOURCE_CROSSREF, "10.1/abc", 1, "payload-q", 200);
    assert_eq!(second, InsertOutcome::Inserted);
    assert_eq!(store.len(), 2);
}

#[test]
fn duplicate_with_later_timestamp_is_still_discarded() {
    let mut store = WorkStore::new();
    store.insert_work(SOURCE_CROSSREF, "10.1/abc", 1, "payload-p", 100);
    let second = store.insert_work(SOURCE_CROSSREF, "10.1/abc", 1, "payload-p", 999);
    assert_eq!(second, InsertOutcome::Duplicate);
    assert_eq!(store.len(), 1);
    assert_eq!(store.row_at(0).updated_at, 100);
}

#[test]
fn content_hash_is_the_sha1_hex_of_the_payload() {
    let mut store = WorkStore::new();
    store.insert_work(SOURCE_CROSSREF, "10.1/abc", 1, "abc", 1);
    assert_eq!(store.row_at(0).hash, "a9993e364706816aba3e25717850c26c9cd0d89d");
}

#[test]
fn different_identifier_types_are_distinct_keys() {
    let mut store = WorkStore::new();
    store.insert_work(SOURCE_CROSSREF, "10.1/abc", 1, "payload-p", 100);
    let second = store.insert_work(SOURCE_CROSSREF, "10.1/abc", 2, "payload-p", 100);
    assert_eq!(second, InsertOutcome::Inserted);
    assert_eq!(store.len(), 2);
}

#[test]
fn consumer_normalizes_doi_identifiers() {
    let mut store = WorkStore::new();
    let items = vec![rec("2024-03-10T08:00:00Z", "https://doi.org/10.5555/12345678", "{}")];
    consume(&mut store, &items, 0);
    assert_eq!(store.len(), 1);
    let row = store.row_at(0);
    assert_eq!(row.identifier, "10.5555/12345678");
    assert_eq!(row.identifier_type, 1);
    assert_eq!(row.source, SOURCE_CROSSREF);
    assert_eq!(row.updated_at, 1710057600);
}

#[test]
fn records_without_identifier_or_timestamp_are_skipped() {
    let mut store = WorkStore::new();
    let items = vec![
        Record { payload: "{}".to_string(), indexed: None, identifier: Some("10.1/a".to_string()) },
        Record {
            payload: "{}".to_string(),
            indexed: Some("2024-03-10T08:00:00Z".to_string()),
            identifier: None,
        },
        Record {
            payload: "{}".to_string(),
            indexed: Some("not a timestamp".to_string()),
            identifier: Some("10.1/a".to_string()),
        },
    ];
    let latest = consume(&mut store, &items, 7);
    assert_eq!(store.len(), 0);
    assert_eq!(latest, 1710057600);
}

#[test]
fn index_date_parses_iso_instants() {
    let r = rec("2024-03-10T08:00:00Z", "10.1/a", "{}");
    assert_eq!(get_index_date(&r), Some(1710057600));
    let bad = rec("yesterday-ish", "10.1/a", "{}");
    assert_eq!(get_index_date(&bad), None);
}

#[test]
fn offset_timestamps_are_read_in_utc() {
    let r = rec("2024-03-10T09:00:00+01:00", "10.1/a", "{}");
    assert_eq!(get_index_date(&r), Some(1710057600));
}

#[test]
fn timestamps_pushed_out_of_range_by_an_offset_are_invalid() {
    let high = rec("9999-12-31T23:59:59-05:00", "10.1/a", "{}");
    assert_eq!(get_index_date(&high), None);
    let low = rec("-9999-01-01T00:00:00+05:00", "10.1/a", "{}");
    assert_eq!(get_index_date(&low), None);
}

#[test]
fn work_version_carries_the_computed_row_values() {
    let r = rec("2024-03-10T08:00:00Z", "https://doi.org/10.5555/12345678", "abc");
    let v = make_work_version(&r).expect("storable");
    assert_eq!(v.identifier, "10.5555/12345678");
    assert_eq!(v.identifier_type, 1);
    assert_eq!(v.source, SOURCE_CROSSREF);
    assert_eq!(v.hash, "a9993e364706816aba3e25717850c26c9cd0d89d");
    assert_eq!(v.payload, "abc");
    assert_eq!(v.updated_at, 1710057600);
}

#[test]
fn records_missing_either_field_yield_no_work_version() {
    let no_id = Record {
        payload: "{}".to_string(),
        indexed: Some("2024-03-10T08:00:00Z".to_string()),
        identifier: None,
    };
    assert!(make_work_version(&no_id).is_none());
    let no_ts = Record {
        payload: "{}".to_string(),
        indexed: None,
        identifier: Some("10.1/a".to_string()),
    };
    assert!(make_work_version(&no_ts).is_none());
}

#[test]
fn watermark_upsert_keeps_one_row_per_key() {
    let mut marks = WatermarkStore::new();
    assert_eq!(marks.get_date("crossref-not-before"), None);
    marks.set_date("crossref-not-before", 100);
    assert_eq!(marks.get_date("crossref-not-before"), Some(100));
    marks.set_date("crossref-not-before", 200);
    assert_eq!(marks.get_date("crossref-not-before"), Some(200));
    marks.set_date("another-source", 300);
    assert_eq!(marks.get_date("crossref-not-before"), Some(200));
    assert_eq!(marks.get_date("another-source"), Some(300));
}

#[test]
fn out_of_range_watermark_reads_as_absent() {
    let mut marks = WatermarkStore::new();
    marks.set_date("crossref-not-before", 253402300800);
    assert_eq!(marks.get_date("crossref-not-before"), None);
    marks.set_date("crossref-not-before", 253402300799);
    assert_eq!(marks.get_date("crossref-not-before"), Some(253402300799));
}
