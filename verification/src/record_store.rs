//! The record store: a mapping of `(name, type)` to a record value with
//! timestamps. Names are matched without regard to ASCII case; every stored
//! value is a valid IP literal of the family its record type calls for.
//! Upsert keeps `created_at` and advances `updated_at`; delete removes at
//! most one row.

use vstd::prelude::*;
use crate::RecordType;
use crate::ip::data_matches_type;
use crate::text::str_eq_ci;
use crate::text::lemma_str_eq_ci_symmetric;
use crate::text::eq_ignore_case;

verus! {

/// How long after its last update a record still counts as healthy, in
/// seconds (seven minutes).
pub const HEALTHY_AGE_SECONDS: i64 = 420;

/// Whether a record updated at `updated_at` is healthy at `now`.
pub open spec fn spec_healthy(updated_at: i64, now: i64) -> bool {
    now - updated_at <= HEALTHY_AGE_SECONDS
}

/// Computes healthiness at `now`.
pub fn healthy(updated_at: i64, now: i64) -> (r: bool)
    ensures
        r == spec_healthy(updated_at, now),
{
    (now as i128) - (updated_at as i128) <= HEALTHY_AGE_SECONDS as i128
}

/// One stored record.
#[derive(Debug)]
pub struct StoredRecord {
    pub name: String,
    pub rtype: RecordType,
    pub data: String,
    pub ttl: u32,
    pub created_at: i64,
    pub updated_at: i64,
}

/// The mathematical image of one stored record.
pub ghost struct RecView {
    pub name: Seq<char>,
    pub rtype: RecordType,
    pub data: Seq<char>,
    pub ttl: u32,
    pub created_at: i64,
    pub updated_at: i64,
}

impl View for StoredRecord {
    type V = RecView;

    open spec fn view(&self) -> RecView {
        RecView {
            name: self.name@,
            rtype: self.rtype,
            data: self.data@,
            ttl: self.ttl,
            created_at: self.created_at,
            updated_at: self.updated_at,
        }
    }
}

/// Whether two keys are the same: equal types and names equal up to ASCII
/// case.
pub open spec fn key_eq(n1: Seq<char>, t1: RecordType, n2: Seq<char>, t2: RecordType) -> bool {
    str_eq_ci(n1, n2) && t1 == t2
}

/// The index of the first row with the given key, if any.
pub open spec fn spec_find(rows: Seq<RecView>, name: Seq<char>, t: RecordType) -> Option<int>
    decreases rows.len(),
{
    if rows.len() == 0 {
        None
    } else if key_eq(rows[0].name, rows[0].rtype, name, t) {
        Some(0)
    } else {
        match spec_find(rows.drop_first(), name, t) {
            None => None,
            Some(k) => Some(k + 1),
        }
    }
}

proof fn lemma_spec_find_at(rows: Seq<RecView>, name: Seq<char>, t: RecordType, i: int)
    requires
        0 <= i < rows.len(),
        key_eq(rows[i].name, rows[i].rtype, name, t),
        forall|j: int| 0 <= j < i ==> !key_eq(rows[j].name, rows[j].rtype, name, t),
    ensures
        spec_find(rows, name, t) == Some(i),
    decreases rows.len(),
{
    if i > 0 {
        lemma_spec_find_at(rows.drop_first(), name, t, i - 1);
    }
}

proof fn lemma_spec_find_none(rows: Seq<RecView>, name: Seq<char>, t: RecordType)
    requires
        forall|j: int| 0 <= j < rows.len() ==> !key_eq(rows[j].name, rows[j].rtype, name, t),
    ensures
        spec_find(rows, name, t) is None,
    decreases rows.len(),
{
    if rows.len() > 0 {
        lemma_spec_find_none(rows.drop_first(), name, t);
    }
}

/// What a `spec_find` result means: a hit names the first matching row, a
/// miss means no row matches.
pub proof fn lemma_spec_find_props(rows: Seq<RecView>, name: Seq<char>, t: RecordType)
    ensures
        match spec_find(rows, name, t) {
            Some(i) => 0 <= i < rows.len() && key_eq(rows[i].name, rows[i].rtype, name, t)
                && forall|j: int| 0 <= j < i ==> !key_eq(rows[j].name, rows[j].rtype, name, t),
            None => forall|j: int|
                0 <= j < rows.len() ==> !key_eq(rows[j].name, rows[j].rtype, name, t),
        },
    decreases rows.len(),
{
    if rows.len() > 0 {
        lemma_spec_find_props(rows.drop_first(), name, t);
        if !key_eq(rows[0].name, rows[0].rtype, name, t) {
            match spec_find(rows.drop_first(), name, t) {
                Some(k) => {
                    assert(rows.drop_first()[k] == rows[k + 1]);
                    assert forall|j: int| 1 <= j < k + 1 implies !key_eq(
                        rows[j].name,
                        rows[j].rtype,
                        name,
                        t,
                    ) by {
                        assert(rows.drop_first()[j - 1] == rows[j]);
                    }
                },
                None => {
                    assert forall|j: int| 1 <= j < rows.len() implies !key_eq(
                        rows[j].name,
                        rows[j].rtype,
                        name,
                        t,
                    ) by {
                        assert(rows.drop_first()[j - 1] == rows[j]);
                    }
                },
            }
        }
    }
}

/// The first row with the given key, if any.
pub open spec fn spec_lookup(rows: Seq<RecView>, name: Seq<char>, t: RecordType) -> Option<
    RecView,
> {
    match spec_find(rows, name, t) {
        Some(i) => Some(rows[i]),
        None => None,
    }
}

/// The rows after an upsert at time `now`: an existing row keeps its place,
/// name and `created_at` and takes the new data, ttl and `updated_at`; a new
/// key is appended with both timestamps set to `now`.
pub open spec fn spec_upsert(
    rows: Seq<RecView>,
    name: Seq<char>,
    t: RecordType,
    data: Seq<char>,
    ttl: u32,
    now: i64,
) -> Seq<RecView> {
    match spec_find(rows, name, t) {
        Some(i) => rows.update(
            i,
            RecView {
                name: rows[i].name,
                rtype: rows[i].rtype,
                data: data,
                ttl: ttl,
                created_at: rows[i].created_at,
                updated_at: now,
            },
        ),
        None => rows.push(
            RecView {
                name: name,
                rtype: t,
                data: data,
                ttl: ttl,
                created_at: now,
                updated_at: now,
            },
        ),
    }
}

/// The rows after a delete: the first row with the key is removed; without a
/// hit nothing changes.
pub open spec fn spec_delete(rows: Seq<RecView>, name: Seq<char>, t: RecordType) -> Seq<RecView> {
    match spec_find(rows, name, t) {
        Some(i) => rows.remove(i),
        None => rows,
    }
}

/// No two rows share a key.
pub open spec fn unique_keys(rows: Seq<RecView>) -> bool {
    forall|i: int, j: int|
        0 <= i < j < rows.len() ==> !key_eq(rows[i].name, rows[i].rtype, rows[j].name, rows[j].rtype)
}

/// A row the store accepts: the data parses in the family of the type.
pub open spec fn row_valid(r: RecView) -> bool {
    data_matches_type(r.data, r.rtype)
}

pub open spec fn valid_rows(rows: Seq<RecView>) -> bool {
    forall|i: int| 0 <= i < rows.len() ==> row_valid(#[trigger] rows[i])
}

/// `spec_find` reads only the keys: two row sequences with the same names
/// and types in the same places are searched alike.
pub proof fn lemma_spec_find_same_keys(
    rows1: Seq<RecView>,
    rows2: Seq<RecView>,
    name: Seq<char>,
    t: RecordType,
)
    requires
        rows1.len() == rows2.len(),
        forall|i: int|
            0 <= i < rows1.len() ==> rows1[i].name == rows2[i].name && rows1[i].rtype
                == rows2[i].rtype,
    ensures
        spec_find(rows1, name, t) == spec_find(rows2, name, t),
    decreases rows1.len(),
{
    if rows1.len() > 0 {
        assert forall|i: int| 0 <= i < rows1.len() - 1 implies rows1.drop_first()[i].name
            == rows2.drop_first()[i].name && rows1.drop_first()[i].rtype
            == rows2.drop_first()[i].rtype by {
            assert(rows1[i + 1].name == rows2[i + 1].name);
        }
        lemma_spec_find_same_keys(rows1.drop_first(), rows2.drop_first(), name, t);
    }
}

/// Where the key stands after an upsert: at its old place on a hit, at the
/// end on a fresh insert.
pub proof fn lemma_upsert_find_idx(
    rows: Seq<RecView>,
    name: Seq<char>,
    t: RecordType,
    data: Seq<char>,
    ttl: u32,
    now: i64,
)
    ensures
        spec_find(spec_upsert(rows, name, t, data, ttl, now), name, t) == match spec_find(
            rows,
            name,
            t,
        ) {
            Some(i) => Some(i),
            None => Some(rows.len() as int),
        },
{
    let rows2 = spec_upsert(rows, name, t, data, ttl, now);
    lemma_spec_find_props(rows, name, t);
    match spec_find(rows, name, t) {
        Some(i) => {
            assert(rows2 == rows.update(
                i,
                RecView {
                    name: rows[i].name,
                    rtype: rows[i].rtype,
                    data: data,
                    ttl: ttl,
                    created_at: rows[i].created_at,
                    updated_at: now,
                },
            ));
            lemma_spec_find_same_keys(rows, rows2, name, t);
        },
        None => {
            lemma_spec_find_at(rows2, name, t, rows.len() as int);
        },
    }
}

/// After an upsert, looking the key up returns the upserted record: the same
/// type, data and ttl, a name equal up to ASCII case, and `updated_at` set
/// to the time of the upsert.
pub proof fn lemma_upsert_then_lookup(
    rows: Seq<RecView>,
    name: Seq<char>,
    t: RecordType,
    data: Seq<char>,
    ttl: u32,
    now: i64,
)
    ensures
        ({
            let found = spec_lookup(spec_upsert(rows, name, t, data, ttl, now), name, t);
            &&& found is Some
            &&& str_eq_ci(found.unwrap().name, name)
            &&& found.unwrap().rtype == t
            &&& found.unwrap().data == data
            &&& found.unwrap().ttl == ttl
            &&& found.unwrap().updated_at == now
        }),
{
    lemma_spec_find_props(rows, name, t);
    lemma_upsert_find_idx(rows, name, t, data, ttl, now);
    match spec_find(rows, name, t) {
        Some(i) => {
            lemma_str_eq_ci_symmetric(rows[i].name, name);
        },
        None => {},
    }
}

/// Immediately after an upsert the resulting record is healthy.
pub proof fn lemma_upsert_healthy(
    rows: Seq<RecView>,
    name: Seq<char>,
    t: RecordType,
    data: Seq<char>,
    ttl: u32,
    now: i64,
)
    ensures
        spec_healthy(
            spec_lookup(spec_upsert(rows, name, t, data, ttl, now), name, t).unwrap().updated_at,
            now,
        ),
{
    lemma_upsert_then_lookup(rows, name, t, data, ttl, now);
}

/// After a delete the key is gone, and deleting it again changes nothing.
pub proof fn lemma_delete_then_lookup(rows: Seq<RecView>, name: Seq<char>, t: RecordType)
    requires
        unique_keys(rows),
    ensures
        spec_lookup(spec_delete(rows, name, t), name, t) is None,
        spec_delete(spec_delete(rows, name, t), name, t) == spec_delete(rows, name, t),
{
    lemma_spec_find_props(rows, name, t);
    match spec_find(rows, name, t) {
        Some(i) => {
            let rows2 = rows.remove(i);
            assert forall|j: int| 0 <= j < rows2.len() implies !key_eq(
                rows2[j].name,
                rows2[j].rtype,
                name,
                t,
            ) by {
                let j0 = if j < i { j } else { j + 1 };
                assert(rows2[j] == rows[j0]);
                if j0 != i && key_eq(rows[j0].name, rows[j0].rtype, name, t) {
                    lemma_str_eq_ci_symmetric(rows[j0].name, name);
                    crate::text::lemma_str_eq_ci_transitive(rows[i].name, name, rows[j0].name);
                    if i < j0 {
                        assert(!key_eq(rows[i].name, rows[i].rtype, rows[j0].name, rows[j0].rtype));
                    } else {
                        assert(!key_eq(rows[j0].name, rows[j0].rtype, rows[i].name, rows[i].rtype));
                        lemma_str_eq_ci_symmetric(rows[i].name, rows[j0].name);
                    }
                }
            }
            lemma_spec_find_none(rows2, name, t);
        },
        None => {},
    }
}

/// Upserting the same key twice keeps `created_at` and moves `updated_at`
/// forward, never backward, when time does not run backward.
pub proof fn lemma_upsert_twice(
    rows: Seq<RecView>,
    name: Seq<char>,
    t: RecordType,
    data: Seq<char>,
    ttl: u32,
    now1: i64,
    now2: i64,
)
    requires
        now1 <= now2,
    ensures
        ({
            let rows1 = spec_upsert(rows, name, t, data, ttl, now1);
            let rows2 = spec_upsert(rows1, name, t, data, ttl, now2);
            let first = spec_lookup(rows1, name, t).unwrap();
            let second = spec_lookup(rows2, name, t).unwrap();
            &&& spec_lookup(rows1, name, t) is Some
            &&& spec_lookup(rows2, name, t) is Some
            &&& second.created_at == first.created_at
            &&& second.updated_at >= first.updated_at
        }),
{
    let rows1 = spec_upsert(rows, name, t, data, ttl, now1);
    let rows2 = spec_upsert(rows1, name, t, data, ttl, now2);
    lemma_upsert_then_lookup(rows, name, t, data, ttl, now1);
    lemma_upsert_then_lookup(rows1, name, t, data, ttl, now2);
    lemma_upsert_find_idx(rows, name, t, data, ttl, now1);
    lemma_upsert_find_idx(rows1, name, t, data, ttl, now2);
    lemma_spec_find_props(rows, name, t);
}

/// The record store.
#[derive(Debug)]
pub struct RecordStore {
    pub records: Vec<StoredRecord>,
}

impl RecordStore {
    /// The mathematical contents of the store.
    pub open spec fn rows(&self) -> Seq<RecView> {
        self.records@.map_values(|r: StoredRecord| r@)
    }

    /// The store's invariant.
    pub open spec fn wf(&self) -> bool {
        unique_keys(self.rows()) && valid_rows(self.rows())
    }

    /// An empty store.
    pub fn new() -> (s: Self)
        ensures
            s.rows() =~= Seq::<RecView>::empty(),
            s.wf(),
    {
        RecordStore { records: Vec::new() }
    }

    /// Finds the row with the given key, if any.
    pub fn find(&self, name: &str, t: RecordType) -> (r: Option<&StoredRecord>)
        ensures
            match r {
                Some(rec) => spec_lookup(self.rows(), name@, t) == Some(rec@),
                None => spec_lookup(self.rows(), name@, t) is None,
            },
    {
        let n = self.records.len();
        let mut i: usize = 0;
        while i < n
            invariant
                i <= n,
                n == self.records@.len(),
                forall|j: int|
                    0 <= j < i ==> !key_eq(
                        self.rows()[j].name,
                        self.rows()[j].rtype,
                        name@,
                        t,
                    ),
            decreases n - i,
        {
            let rec = &self.records[i];
            proof {
                assert(self.rows()[i as int] == self.records@[i as int]@);
            }
            if rec.rtype == t && eq_ignore_case(rec.name.as_str(), name) {
                proof {
                    lemma_spec_find_at(self.rows(), name@, t, i as int);
                }
                return Some(rec);
            }
            i = i + 1;
        }
        proof {
            lemma_spec_find_none(self.rows(), name@, t);
        }
        None
    }

    /// Inserts or updates the row with key `(name, t)` at time `now`.
    pub fn upsert(&mut self, name: String, t: RecordType, data: String, ttl: u32, now: i64)
        requires
            old(self).wf(),
            data_matches_type(data@, t),
        ensures
            final(self).wf(),
            final(self).rows() == spec_upsert(old(self).rows(), name@, t, data@, ttl, now),
    {
        let n = self.records.len();
        let mut i: usize = 0;
        while i < n
            invariant
                old(self).wf(),
                data_matches_type(data@, t),
                i <= n,
                n == self.records@.len(),
                self == old(self),
                forall|j: int|
                    0 <= j < i ==> !key_eq(
                        self.rows()[j].name,
                        self.rows()[j].rtype,
                        name@,
                        t,
                    ),
            decreases n - i,
        {
            proof {
                assert(self.rows()[i as int] == self.records@[i as int]@);
            }
            if self.records[i].rtype == t && eq_ignore_case(
                self.records[i].name.as_str(),
                name.as_str(),
            ) {
                let ghost rows0 = old(self).rows();
                proof {
                    lemma_spec_find_at(rows0, name@, t, i as int);
                }
                let updated = StoredRecord {
                    name: self.records[i].name.clone(),
                    rtype: self.records[i].rtype,
                    data: data,
                    ttl: ttl,
                    created_at: self.records[i].created_at,
                    updated_at: now,
                };
                self.records.remove(i);
                self.records.insert(i, updated);
                proof {
                    assert(self.rows() =~= spec_upsert(rows0, name@, t, data@, ttl, now));
                    assert(unique_keys(self.rows())) by {
                        assert(forall|a: int|
                            0 <= a < self.rows().len() ==> self.rows()[a].name == rows0[a].name
                                && self.rows()[a].rtype == rows0[a].rtype);
                    }
                    assert(valid_rows(self.rows())) by {
                        assert(forall|a: int|
                            0 <= a < self.rows().len() && a != i ==> self.rows()[a] == rows0[a]);
                        assert(row_valid(self.rows()[i as int]));
                    }
                }
                return ;
            }
            i = i + 1;
        }
        let ghost rows0 = old(self).rows();
        proof {
            lemma_spec_find_none(rows0, name@, t);
        }
        let fresh = StoredRecord {
            name: name,
            rtype: t,
            data: data,
            ttl: ttl,
            created_at: now,
            updated_at: now,
        };
        let ghost fresh_view = fresh@;
        self.records.push(fresh);
        proof {
            assert(self.rows() =~= rows0.push(fresh_view));
            assert(self.rows() == spec_upsert(
                rows0,
                fresh_view.name,
                t,
                fresh_view.data,
                ttl,
                now,
            ));
            assert(unique_keys(self.rows())) by {
                assert forall|a: int, b: int| 0 <= a < b < self.rows().len() implies !key_eq(
                    self.rows()[a].name,
                    self.rows()[a].rtype,
                    self.rows()[b].name,
                    self.rows()[b].rtype,
                ) by {
                    if b == rows0.len() {
                        assert(self.rows()[a] == rows0[a]);
                        assert(!key_eq(rows0[a].name, rows0[a].rtype, fresh_view.name, t)) by {
                            lemma_str_eq_ci_symmetric(rows0[a].name, fresh_view.name);
                        }
                    }
                }
            }
            assert(valid_rows(self.rows())) by {
                assert(row_valid(fresh_view));
                assert(forall|a: int| 0 <= a < rows0.len() ==> self.rows()[a] == rows0[a]);
            }
        }
    }

    /// Removes the row with key `(name, t)`, if present. Succeeds either way.
    pub fn delete(&mut self, name: &str, t: RecordType)
        requires
            old(self).wf(),
        ensures
            final(self).wf(),
            final(self).rows() == spec_delete(old(self).rows(), name@, t),
    {
        let n = self.records.len();
        let mut i: usize = 0;
        while i < n
            invariant
                old(self).wf(),
                i <= n,
                n == self.records@.len(),
                self == old(self),
                forall|j: int|
                    0 <= j < i ==> !key_eq(
                        self.rows()[j].name,
                        self.rows()[j].rtype,
                        name@,
                        t,
                    ),
            decreases n - i,
        {
            proof {
                assert(self.rows()[i as int] == self.records@[i as int]@);
            }
            if self.records[i].rtype == t && eq_ignore_case(self.records[i].name.as_str(), name) {
                let ghost rows0 = old(self).rows();
                proof {
                    lemma_spec_find_at(rows0, name@, t, i as int);
                }
                self.records.remove(i);
                proof {
                    assert(self.rows() =~= rows0.remove(i as int));
                    assert(unique_keys(self.rows())) by {
                        assert forall|a: int, b: int|
                            0 <= a < b < self.rows().len() implies !key_eq(
                            self.rows()[a].name,
                            self.rows()[a].rtype,
                            self.rows()[b].name,
                            self.rows()[b].rtype,
                        ) by {
                            let a0 = if a < i { a } else { a + 1 };
                            let b0 = if b < i { b } else { b + 1 };
                            assert(self.rows()[a] == rows0[a0]);
                            assert(self.rows()[b] == rows0[b0]);
                        }
                    }
                    assert(valid_rows(self.rows())) by {
                        assert forall|a: int| 0 <= a < self.rows().len() implies row_valid(
                            #[trigger] self.rows()[a],
                        ) by {
                            let a0 = if a < i { a } else { a + 1 };
                            assert(self.rows()[a] == rows0[a0]);
                        }
                    }
                }
                return ;
            }
            i = i + 1;
        }
        proof {
            lemma_spec_find_none(old(self).rows(), name@, t);
        }
    }

}

} // verus!
