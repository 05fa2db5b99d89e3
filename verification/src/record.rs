//! The harvested record as the pipeline sees it, and the acceptance filter.
//!
//! A record's payload is an opaque structured value; only two of its fields
//! are ever interpreted: the indexing timestamp and the identifier. Both are
//! carried verbatim as the raw strings found in the payload, so the record
//! type never depends on the payload schema.

use vstd::prelude::*;

verus! {

/// The instant that an ISO-8601 timestamp string denotes, as a unix-second
/// count, or nothing when the string is not a valid ISO-8601 instant. Named
/// rather than defined: its definition is the whole ISO-8601 grammar, and it
/// is realized by `time`'s parser, a function of the characters alone.
pub uninterp spec fn iso_ts_of(s: Seq<char>) -> Option<i64>;

/// Smallest unix-second instant a timestamp value can denote
/// (midnight opening year -9999, the first representable date).
pub const MIN_INSTANT: i64 = -377705116800;

/// Largest unix-second instant a timestamp value can denote
/// (the last second of year 9999, the last representable date).
pub const MAX_INSTANT: i64 = 253402300799;

/// Whether a unix-second count lies in the representable instant range.
pub open spec fn valid_instant(t: i64) -> bool {
    MIN_INSTANT <= t <= MAX_INSTANT
}

/// Executable counterpart of [`valid_instant`].
pub fn instant_is_valid(t: i64) -> (r: bool)
    ensures
        r == valid_instant(t),
{
    MIN_INSTANT <= t && t <= MAX_INSTANT
}

/// One harvested record: the serialized opaque payload plus the only two
/// fields the harvester reads, extracted verbatim from the payload.
#[derive(Clone, Debug)]
pub struct Record {
    /// The serialized payload, kept byte for byte.
    pub payload: String,
    /// The raw indexing-timestamp string, when the payload carries one.
    pub indexed: Option<String>,
    /// The raw identifier string, when the payload carries one.
    pub identifier: Option<String>,
}

impl Record {
    /// An equal copy of the record.
    pub fn duplicate(&self) -> (r: Record)
        ensures
            r == *self,
    {
        Record {
            payload: self.payload.clone(),
            indexed: match &self.indexed {
                Some(s) => Some(s.clone()),
                None => None,
            },
            identifier: match &self.identifier {
                Some(s) => Some(s.clone()),
                None => None,
            },
        }
    }
}

/// An element-wise copy of a record list.
pub fn duplicate_records(v: &Vec<Record>) -> (r: Vec<Record>)
    ensures
        r@ == v@,
{
    let mut out: Vec<Record> = Vec::new();
    let mut i: usize = 0;
    while i < v.len()
        invariant
            i <= v.len(),
            out@ == v@.take(i as int),
        decreases v.len() - i,
    {
        out.push(v[i].duplicate());
        proof {
            assert(v@.take(i as int + 1) =~= v@.take(i as int).push(v@[i as int]));
        }
        i = i + 1;
    }
    proof {
        assert(v@.take(v@.len() as int) =~= v@);
    }
    out
}

/// The instant a record was last indexed: its raw timestamp string parsed
/// as an ISO-8601 instant, when present and inside the representable
/// range. An explicit offset in the string can push the parsed instant a
/// little past the calendar-date range, so the range test is part of what
/// counts as a valid indexing timestamp.
pub open spec fn rec_ts(r: Record) -> Option<i64> {
    match r.indexed {
        Some(s) => match iso_ts_of(s@) {
            Some(t) => if valid_instant(t) {
                Some(t)
            } else {
                None
            },
            None => None,
        },
        None => None,
    }
}

/// Relies on time's `OffsetDateTime::parse` with the ISO-8601 format and
/// `unix_timestamp`: the result is a function of the characters alone.
#[verifier::external_body]
fn parse_iso8601(s: &str) -> (r: Option<i64>)
    ensures
        r == iso_ts_of(s@),
{
    match time::OffsetDateTime::parse(s, &time::format_description::well_known::Iso8601::DEFAULT) {
        Ok(t) => Some(t.unix_timestamp()),
        Err(_) => None,
    }
}

/// Get the indexed instant for the record, if present and valid.
pub fn get_index_date(r: &Record) -> (res: Option<i64>)
    ensures
        res == rec_ts(*r),
        match res {
            Some(t) => valid_instant(t),
            None => true,
        },
{
    match &r.indexed {
        Some(s) => match parse_iso8601(s.as_str()) {
            Some(t) => if instant_is_valid(t) {
                Some(t)
            } else {
                None
            },
            None => None,
        },
        None => None,
    }
}

/// Whether a record passes the acceptance filter against the true watermark:
/// it carries a valid indexing timestamp strictly greater than `after`.
pub open spec fn accepted(r: Record, after: i64) -> bool {
    match rec_ts(r) {
        Some(t) => t > after,
        None => false,
    }
}

/// Executable counterpart of [`accepted`].
pub fn accept_record(r: &Record, after: i64) -> (res: bool)
    ensures
        res == accepted(*r, after),
{
    match get_index_date(r) {
        Some(t) => t > after,
        None => false,
    }
}

} // verus!
