//! The two persistent structures of the harvester: the content-addressed,
//! deduplicating record store and the per-source watermark store.
//!
//! The record store is an append-only history of work versions keyed by
//! (identifier, identifier type, source, content hash): byte-identical
//! payloads from one source are never duplicated, while distinct payloads
//! for the same identifier coexist as separate rows. The watermark store
//! keeps exactly one timestamp row per key and reads out-of-range values as
//! absent instead of failing.

use vstd::prelude::*;
use crate::record::{Record, rec_ts, valid_instant, MAX_INSTANT, MIN_INSTANT};

verus! {

/// The hex digest the content hash assigns to a payload. Named rather than
/// defined: its definition is the whole SHA-1 algorithm, and it is a
/// function of the input characters alone.
pub uninterp spec fn sha1_hex_of(s: Seq<char>) -> Seq<char>;

/// What identifier normalization assigns to a raw identifier string: the
/// stable normalized form and the numeric identifier-type code. Named
/// rather than defined: it is computed by an external collaborator and is a
/// function of the raw string alone.
pub uninterp spec fn normalized_id_of(s: Seq<char>) -> (Seq<char>, u32);

/// Relies on sha1's `Sha1::digest`: a 20-byte digest of the input, a
/// function of the input alone, rendered here as two lowercase hex digits
/// per byte.
#[verifier::external_body]
fn sha1_hex(s: &str) -> (r: String)
    ensures
        r@ == sha1_hex_of(s@),
        r@.len() == 40,
{
    let digest = <sha1::Sha1 as sha1::Digest>::digest(s.as_bytes());
    let mut out = String::new();
    for b in digest.iter() {
        out.push_str(&format!("{:02x}", b));
    }
    out
}

/// Relies on scholarly_identifiers' `Identifier::parse` and
/// `to_id_string_pair`: parsing always succeeds, and the stable string and
/// type code are a function of the raw input alone.
#[verifier::external_body]
fn normalize_identifier(raw: &str) -> (r: (String, u32))
    ensures
        (r.0@, r.1) == normalized_id_of(raw@),
{
    scholarly_identifiers::identifiers::Identifier::parse(raw).to_id_string_pair()
}

/// The numeric source code this harvester writes rows under.
pub const SOURCE_CROSSREF: u32 = 1;

/// One persisted version of a work: a row of the append-only history.
#[derive(Clone, Debug)]
pub struct WorkVersion {
    /// The normalized identifier.
    pub identifier: String,
    /// The identifier-type code that normalization assigned.
    pub identifier_type: u32,
    /// The numeric code of the source the row came from.
    pub source: u32,
    /// Hex content hash of the payload.
    pub hash: String,
    /// The serialized payload itself.
    pub payload: String,
    /// The indexing instant the row was seen with, in unix seconds.
    pub updated_at: i64,
}

/// The mathematical image of a row.
pub ghost struct WorkV {
    pub identifier: Seq<char>,
    pub identifier_type: u32,
    pub source: u32,
    pub hash: Seq<char>,
    pub payload: Seq<char>,
    pub updated_at: i64,
}

impl View for WorkVersion {
    type V = WorkV;

    open spec fn view(&self) -> WorkV {
        WorkV {
            identifier: self.identifier@,
            identifier_type: self.identifier_type,
            source: self.source,
            hash: self.hash@,
            payload: self.payload@,
            updated_at: self.updated_at,
        }
    }
}

/// The dedup key of a row: everything except the payload bytes and the
/// timestamp.
pub ghost struct WorkKey {
    pub identifier: Seq<char>,
    pub identifier_type: u32,
    pub source: u32,
    pub hash: Seq<char>,
}

/// The key under which a row is deduplicated.
pub open spec fn key_of(w: WorkV) -> WorkKey {
    WorkKey {
        identifier: w.identifier,
        identifier_type: w.identifier_type,
        source: w.source,
        hash: w.hash,
    }
}

/// Whether some row of `rows` carries the key `k`.
pub open spec fn has_key(rows: Seq<WorkV>, k: WorkKey) -> bool {
    exists|i: int| 0 <= i < rows.len() && key_of(rows[i]) == k
}

/// Append the row unless its key is already present: the conflict-ignoring
/// upsert the history table performs.
pub open spec fn insert_row(rows: Seq<WorkV>, w: WorkV) -> Seq<WorkV> {
    if has_key(rows, key_of(w)) {
        rows
    } else {
        rows.push(w)
    }
}

/// No two rows share a dedup key.
pub open spec fn unique_keys(rows: Seq<WorkV>) -> bool {
    forall|i: int, j: int|
        0 <= i < j < rows.len() ==> key_of(rows[i]) != key_of(rows[j])
}

/// The row that an insert with these arguments produces: the payload is
/// content-addressed by its digest.
pub open spec fn work_row(
    source: u32,
    identifier: Seq<char>,
    identifier_type: u32,
    payload: Seq<char>,
    updated_at: i64,
) -> WorkV {
    WorkV {
        identifier,
        identifier_type,
        source,
        hash: sha1_hex_of(payload),
        payload,
        updated_at,
    }
}

/// Whether an insert was new or discarded as an exact duplicate.
#[derive(Clone, Copy, Debug, PartialEq, Eq, Structural)]
pub enum InsertOutcome {
    /// The row was appended.
    Inserted,
    /// A row with the same key already existed; nothing changed.
    Duplicate,
}

/// The deduplicating record store: an append-only history of work versions
/// with pairwise distinct dedup keys.
pub struct WorkStore {
    rows: Vec<WorkVersion>,
}

impl WorkStore {
    /// The rows, as mathematical values, in insertion order.
    pub closed spec fn rows_v(self) -> Seq<WorkV> {
        self.rows@.map_values(|r: WorkVersion| r@)
    }

    /// The store's invariant: no two rows share a dedup key.
    pub open spec fn wf(self) -> bool {
        unique_keys(self.rows_v())
    }

    /// An empty store.
    pub fn new() -> (r: WorkStore)
        ensures
            r.rows_v() == Seq::<WorkV>::empty(),
            r.wf(),
    {
        let r = WorkStore { rows: Vec::new() };
        proof {
            assert(r.rows_v() =~= Seq::<WorkV>::empty());
        }
        r
    }

    /// How many versions the history holds.
    pub fn len(&self) -> (r: usize)
        ensures
            r == self.rows_v().len(),
    {
        self.rows.len()
    }

    /// The row at position `i`, in insertion order.
    pub fn row_at(&self, i: usize) -> (r: &WorkVersion)
        requires
            i < self.rows_v().len(),
        ensures
            r@ == self.rows_v()[i as int],
    {
        &self.rows[i]
    }

    /// Insert one work version: compute the content hash of the payload and
    /// append the row, unless a row with the same (identifier, type,
    /// source, hash) key exists, in which case nothing changes.
    pub fn insert_work(
        &mut self,
        source: u32,
        identifier: &str,
        identifier_type: u32,
        payload: &str,
        updated_at: i64,
    ) -> (r: InsertOutcome)
        requires
            old(self).wf(),
        ensures
            final(self).wf(),
            final(self).rows_v() == insert_row(
                old(self).rows_v(),
                work_row(source, identifier@, identifier_type, payload@, updated_at),
            ),
            (r == InsertOutcome::Duplicate) == has_key(
                old(self).rows_v(),
                key_of(work_row(source, identifier@, identifier_type, payload@, updated_at)),
            ),
    {
        let hash = sha1_hex(payload);
        let row = WorkVersion {
            identifier: identifier.to_owned(),
            identifier_type,
            source,
            hash,
            payload: payload.to_owned(),
            updated_at,
        };
        proof {
            assert(row@ == work_row(source, identifier@, identifier_type, payload@, updated_at));
        }
        self.insert_version(row)
    }

    /// Insert one ready-made work version: append it unless a row with the
    /// same (identifier, type, source, hash) key exists, in which case
    /// nothing changes.
    pub fn insert_version(&mut self, v: WorkVersion) -> (r: InsertOutcome)
        requires
            old(self).wf(),
        ensures
            final(self).wf(),
            final(self).rows_v() == insert_row(old(self).rows_v(), v@),
            (r == InsertOutcome::Duplicate) == has_key(old(self).rows_v(), key_of(v@)),
    {
        let ghost w = v@;
        let mut i: usize = 0;
        while i < self.rows.len()
            invariant
                *self == *old(self),
                old(self).wf(),
                i <= self.rows.len(),
                w == v@,
                forall|j: int| 0 <= j < i ==> key_of(self.rows_v()[j]) != key_of(w),
            decreases self.rows.len() - i,
        {
            let row = &self.rows[i];
            if row.identifier == v.identifier && row.identifier_type == v.identifier_type
                && row.source == v.source && row.hash == v.hash {
                proof {
                    assert(key_of(self.rows_v()[i as int]) == key_of(w));
                    assert(*self == *old(self));
                    assert(self.wf());
                }
                return InsertOutcome::Duplicate;
            }
            i = i + 1;
        }
        proof {
            assert(!has_key(self.rows_v(), key_of(w)));
        }
        let ghost before = self.rows_v();
        self.rows.push(v);
        proof {
            assert(self.rows_v() =~= before.push(w));
            assert forall|a: int, b: int|
                0 <= a < b < self.rows_v().len() implies key_of(self.rows_v()[a]) != key_of(
                self.rows_v()[b],
            ) by {
                if b == self.rows_v().len() - 1 {
                    assert(key_of(before[a]) != key_of(w));
                }
            }
        }
        InsertOutcome::Inserted
    }
}

/// Look a key up in the watermark entries: the value of the first row whose
/// key matches.
pub open spec fn lookup(entries: Seq<(String, i64)>, key: Seq<char>) -> Option<i64>
    decreases entries.len(),
{
    if entries.len() == 0 {
        None
    } else if entries[0].0@ == key {
        Some(entries[0].1)
    } else {
        lookup(entries.drop_first(), key)
    }
}

/// What a read of the watermark yields: the stored value, unless it is
/// absent or outside the representable instant range, which both read as
/// absent.
pub open spec fn stored_date(entries: Seq<(String, i64)>, key: Seq<char>) -> Option<i64> {
    match lookup(entries, key) {
        Some(v) => if valid_instant(v) {
            Some(v)
        } else {
            None
        },
        None => None,
    }
}

/// The per-source watermark store: a settings table with exactly one
/// timestamp row per key.
pub struct WatermarkStore {
    entries: Vec<(String, i64)>,
}

impl WatermarkStore {
    /// The entries, as (key, value) rows.
    pub closed spec fn entries_v(self) -> Seq<(String, i64)> {
        self.entries@
    }

    /// The store's invariant: keys are pairwise distinct.
    pub open spec fn wf(self) -> bool {
        forall|i: int, j: int|
            0 <= i < j < self.entries_v().len() ==> self.entries_v()[i].0@ != self.entries_v()[j].0@
    }

    /// An empty store.
    pub fn new() -> (r: WatermarkStore)
        ensures
            r.entries_v() == Seq::<(String, i64)>::empty(),
            r.wf(),
    {
        let r = WatermarkStore { entries: Vec::new() };
        proof {
            assert(r.entries_v() =~= Seq::<(String, i64)>::empty());
        }
        r
    }

    /// Read the timestamp stored under `key`; a missing or out-of-range
    /// value reads as `None` rather than failing.
    pub fn get_date(&self, key: &str) -> (r: Option<i64>)
        ensures
            r == stored_date(self.entries_v(), key@),
    {
        let k = key.to_owned();
        let mut i: usize = 0;
        proof {
            assert(self.entries_v().skip(0) =~= self.entries_v());
        }
        while i < self.entries.len()
            invariant
                i <= self.entries.len(),
                k@ == key@,
                lookup(self.entries_v(), key@) == lookup(
                    self.entries_v().skip(i as int),
                    key@,
                ),
                forall|j: int| 0 <= j < i ==> self.entries_v()[j].0@ != key@,
            decreases self.entries.len() - i,
        {
            proof {
                assert(self.entries_v().skip(i as int)[0] == self.entries_v()[i as int]);
                assert(self.entries_v().skip(i as int).drop_first() =~= self.entries_v().skip(
                    i as int + 1,
                ));
            }
            let entry = &self.entries[i];
            if entry.0 == k {
                let v = entry.1;
                if MIN_INSTANT <= v && v <= MAX_INSTANT {
                    return Some(v);
                } else {
                    return None;
                }
            }
            i = i + 1;
        }
        proof {
            assert(self.entries_v().skip(self.entries_v().len() as int) =~= Seq::<(
                String,
                i64,
            )>::empty());
        }
        None
    }

    /// Write `value` under `key`: insert the row if the key is new,
    /// overwrite it if present — exactly one row per key at all times.
    pub fn set_date(&mut self, key: &str, value: i64)
        requires
            old(self).wf(),
        ensures
            final(self).wf(),
            lookup(final(self).entries_v(), key@) == Some(value),
            forall|k: Seq<char>|
                k != key@ ==> lookup(final(self).entries_v(), k) == lookup(
                    old(self).entries_v(),
                    k,
                ),
    {
        let k = key.to_owned();
        let mut i: usize = 0;
        while i < self.entries.len()
            invariant
                i <= self.entries.len(),
                k@ == key@,
                *self == *old(self),
                old(self).wf(),
                forall|j: int| 0 <= j < i ==> self.entries_v()[j].0@ != key@,
            decreases self.entries.len() - i,
        {
            if self.entries[i].0 == k {
                let ghost before = self.entries_v();
                let pair = (k.clone(), value);
                let ghost gpair = pair;
                self.entries[i] = pair;
                proof {
                    assert(self.entries_v() =~= before.update(i as int, gpair));
                    lemma_lookup_update(before, key@, i as int, gpair);
                    assert(before[i as int].0@ == key@);
                    assert forall|a: int, b: int|
                        0 <= a < b < self.entries_v().len() implies self.entries_v()[a].0@
                        != self.entries_v()[b].0@ by {
                        if a == i as int {
                            assert(self.entries_v()[a].0@ == gpair.0@);
                        } else {
                            assert(self.entries_v()[a] == before[a]);
                        }
                        if b == i as int {
                            assert(self.entries_v()[b].0@ == gpair.0@);
                        } else {
                            assert(self.entries_v()[b] == before[b]);
                        }
                        assert(before[a].0@ != before[b].0@);
                    }
                    assert(self.wf());
                }
                return ;
            }
            i = i + 1;
        }
        let ghost before = self.entries_v();
        let pair = (k, value);
        let ghost gpair = pair;
        self.entries.push(pair);
        proof {
            assert(self.entries_v() =~= before.push(gpair));
            lemma_lookup_append(before, key@, gpair);
            assert forall|a: int, b: int|
                0 <= a < b < self.entries_v().len() implies self.entries_v()[a].0@
                != self.entries_v()[b].0@ by {
                if b == self.entries_v().len() - 1 {
                    assert(before[a].0@ != key@);
                }
            }
        }
    }
}

/// Updating the first row that holds `key` rewrites that key's value and no
/// other's.
proof fn lemma_lookup_update(entries: Seq<(String, i64)>, key: Seq<char>, i: int, pair: (String, i64))
    requires
        0 <= i < entries.len(),
        entries[i].0@ == key,
        forall|j: int| 0 <= j < i ==> entries[j].0@ != key,
        pair.0@ == key,
    ensures
        lookup(entries.update(i, pair), key) == Some(pair.1),
        forall|k: Seq<char>|
            k != key ==> lookup(entries.update(i, pair), k) == lookup(entries, k),
    decreases i,
{
    let updated = entries.update(i, pair);
    if i == 0 {
        assert(updated[0] == pair);
        assert forall|k: Seq<char>| k != key implies lookup(updated, k) == lookup(entries, k) by {
            assert(updated.drop_first() =~= entries.drop_first());
        }
    } else {
        assert(updated[0] == entries[0]);
        assert(updated.drop_first() =~= entries.drop_first().update(i - 1, pair));
        lemma_lookup_update(entries.drop_first(), key, i - 1, pair);
        assert(entries[0].0@ != key);
        assert(lookup(updated, key) == Some(pair.1));
        assert forall|k: Seq<char>| k != key implies lookup(updated, k) == lookup(entries, k) by {
            if entries[0].0@ == k {
                assert(lookup(updated, k) == Some(entries[0].1));
            } else {
                assert(lookup(updated, k) == lookup(updated.drop_first(), k));
                assert(lookup(entries, k) == lookup(entries.drop_first(), k));
            }
        }
    }
}

/// Appending a row for a key that no row holds adds that key and disturbs
/// no other.
proof fn lemma_lookup_append(entries: Seq<(String, i64)>, key: Seq<char>, pair: (String, i64))
    requires
        forall|j: int| 0 <= j < entries.len() ==> entries[j].0@ != key,
        pair.0@ == key,
    ensures
        lookup(entries.push(pair), key) == Some(pair.1),
        forall|k: Seq<char>|
            k != key ==> lookup(entries.push(pair), k) == lookup(entries, k),
    decreases entries.len(),
{
    let appended = entries.push(pair);
    if entries.len() == 0 {
        assert(appended.len() == 1);
        assert(appended[0] == pair);
        assert(appended.drop_first() =~= Seq::<(String, i64)>::empty());
        assert(lookup(appended, key) == Some(pair.1));
        assert forall|k: Seq<char>| k != key implies lookup(appended, k) == lookup(entries, k) by {
            assert(lookup(appended, k) == lookup(appended.drop_first(), k));
        }
    } else {
        assert(appended[0] == entries[0]);
        assert(appended.drop_first() =~= entries.drop_first().push(pair));
        lemma_lookup_append(entries.drop_first(), key, pair);
        assert(entries[0].0@ != key);
        assert(lookup(appended, key) == Some(pair.1));
        assert forall|k: Seq<char>| k != key implies lookup(appended, k) == lookup(entries, k) by {
            if entries[0].0@ == k {
                assert(lookup(appended, k) == Some(entries[0].1));
            } else {
                assert(lookup(appended, k) == lookup(appended.drop_first(), k));
                assert(lookup(entries, k) == lookup(entries.drop_first(), k));
            }
        }
    }
}

/// The row a record contributes when it is storable: it carries a valid
/// indexing timestamp and an identifier, which is normalized and
/// classified before the row is keyed.
pub open spec fn row_of_record(r: Record) -> Option<WorkV> {
    match rec_ts(r) {
        None => None,
        Some(t) => match r.identifier {
            None => None,
            Some(raw) => Some(
                work_row(
                    SOURCE_CROSSREF,
                    normalized_id_of(raw@).0,
                    normalized_id_of(raw@).1,
                    r.payload@,
                    t,
                ),
            ),
        },
    }
}

/// What one received record does to the history rows.
pub open spec fn step_rows(rows: Seq<WorkV>, r: Record) -> Seq<WorkV> {
    match row_of_record(r) {
        None => rows,
        Some(w) => insert_row(rows, w),
    }
}

/// What one received record does to the watermark candidate: any record
/// with a valid timestamp raises it, stored or not.
pub open spec fn step_latest(latest: i64, r: Record) -> i64 {
    match rec_ts(r) {
        None => latest,
        Some(t) => if t > latest {
            t
        } else {
            latest
        },
    }
}

/// The storable row a record yields, when it carries a valid indexing
/// timestamp and an identifier: the identifier normalized and classified,
/// the payload content-addressed by its digest. This is the one place the
/// row values are computed, for the store and for any mirror of it.
pub fn make_work_version(r: &Record) -> (res: Option<WorkVersion>)
    ensures
        match res {
            Some(v) => row_of_record(*r) == Some(v@),
            None => row_of_record(*r) is None,
        },
{
    match crate::record::get_index_date(r) {
        None => None,
        Some(t) => match &r.identifier {
            None => None,
            Some(raw) => {
                let (norm, type_code) = normalize_identifier(raw.as_str());
                let hash = sha1_hex(r.payload.as_str());
                Some(
                    WorkVersion {
                        identifier: norm,
                        identifier_type: type_code,
                        source: SOURCE_CROSSREF,
                        hash,
                        payload: r.payload.clone(),
                        updated_at: t,
                    },
                )
            },
        },
    }
}

/// Process one received record: track the newest indexing instant seen, and
/// store the record when it carries a valid timestamp and an identifier;
/// a record lacking either is counted as observed but not stored.
pub fn process_record(store: &mut WorkStore, r: &Record, latest: i64) -> (new_latest: i64)
    requires
        old(store).wf(),
    ensures
        final(store).wf(),
        final(store).rows_v() == step_rows(old(store).rows_v(), *r),
        new_latest == step_latest(latest, *r),
        new_latest == latest || valid_instant(new_latest),
{
    let new_latest = match crate::record::get_index_date(r) {
        None => latest,
        Some(t) => if t > latest {
            t
        } else {
            latest
        },
    };
    match make_work_version(r) {
        None => new_latest,
        Some(v) => {
            store.insert_version(v);
            new_latest
        },
    }
}

} // verus!
