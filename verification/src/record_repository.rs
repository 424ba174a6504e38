//! The repository over the record store: the four operations of the mutation
//! surface, working on request and reply messages. The repository normalises
//! names by removing a single trailing dot on every path, validates an
//! upserted value against the family its type tag calls for, and computes
//! `healthy` at read time.

use vstd::prelude::*;
use crate::ErrorKind;
use crate::RecordType;
use crate::spec_parse_record_type;
use crate::parse_record_type;
use crate::ip::data_matches_type;
use crate::ip::check_data_matches_type;
use crate::proto::EmptyReply;
use crate::proto::FindUniqueRecordRequest;
use crate::proto::RecordReply;
use crate::proto::UpsertRecordRequest;
use crate::record_store::RecView;
use crate::record_store::RecordStore;
use crate::record_store::StoredRecord;
use crate::record_store::healthy;
use crate::record_store::lemma_upsert_then_lookup;
use crate::record_store::spec_delete;
use crate::record_store::spec_healthy;
use crate::record_store::spec_lookup;
use crate::record_store::spec_upsert;
use crate::text::spec_strip_trailing_dot;
use crate::text::strip_trailing_dot;
use crate::util::now_unix;

verus! {

/// Whether `rep` renders `rv` as seen at time `now`.
pub open spec fn reply_matches_row(rep: RecordReply, rv: RecView, now: i64) -> bool {
    &&& rep.name@ == rv.name
    &&& rep.rtype@ == rv.rtype.spec_tag()
    &&& rep.data@ == rv.data
    &&& rep.ttl == rv.ttl
    &&& rep.created_at == rv.created_at
    &&& rep.updated_at == rv.updated_at
    &&& rep.healthy == spec_healthy(rv.updated_at, now)
}

/// Whether `rep` renders `rv` apart from healthiness, which depends on the
/// clock.
pub open spec fn reply_matches_row_fields(rep: RecordReply, rv: RecView) -> bool {
    &&& rep.name@ == rv.name
    &&& rep.rtype@ == rv.rtype.spec_tag()
    &&& rep.data@ == rv.data
    &&& rep.ttl == rv.ttl
    &&& rep.created_at == rv.created_at
    &&& rep.updated_at == rv.updated_at
}

/// What a find request denotes: the row under the normalised name and the
/// parsed type tag. A tag other than `A` or `AAAA` denotes no row.
pub open spec fn spec_repo_lookup(
    rows: Seq<RecView>,
    name: Seq<char>,
    rtype_tag: Seq<char>,
) -> Option<RecView> {
    match spec_parse_record_type(rtype_tag) {
        Some(t) => spec_lookup(rows, spec_strip_trailing_dot(name), t),
        None => None,
    }
}

/// Whether an upsert request is acceptable: a supported type tag and a value
/// that parses in the family the tag calls for.
pub open spec fn upsert_request_valid(rtype_tag: Seq<char>, value: Seq<char>) -> bool {
    &&& spec_parse_record_type(rtype_tag) is Some
    &&& data_matches_type(value, spec_parse_record_type(rtype_tag).unwrap())
}

/// The rows after an upsert request is applied at time `now`.
pub open spec fn spec_repo_upsert(
    rows: Seq<RecView>,
    name: Seq<char>,
    rtype_tag: Seq<char>,
    value: Seq<char>,
    ttl: u32,
    now: i64,
) -> Seq<RecView> {
    spec_upsert(
        rows,
        spec_strip_trailing_dot(name),
        spec_parse_record_type(rtype_tag).unwrap(),
        value,
        ttl,
        now,
    )
}

/// The rows after a delete request is applied. An unsupported tag deletes
/// nothing.
pub open spec fn spec_repo_delete(
    rows: Seq<RecView>,
    name: Seq<char>,
    rtype_tag: Seq<char>,
) -> Seq<RecView> {
    match spec_parse_record_type(rtype_tag) {
        Some(t) => spec_delete(rows, spec_strip_trailing_dot(name), t),
        None => rows,
    }
}

/// After an accepted upsert request, finding the same key returns the
/// upserted record: the request's data and ttl, the tag's type, a name equal
/// to the normalised request name up to ASCII case, and a record that is
/// healthy at the time of the upsert.
pub proof fn lemma_repo_upsert_then_find(
    rows: Seq<RecView>,
    name: Seq<char>,
    rtype_tag: Seq<char>,
    value: Seq<char>,
    ttl: u32,
    now: i64,
)
    requires
        upsert_request_valid(rtype_tag, value),
    ensures
        ({
            let rows2 = spec_repo_upsert(rows, name, rtype_tag, value, ttl, now);
            let found = spec_repo_lookup(rows2, name, rtype_tag);
            &&& found is Some
            &&& crate::text::str_eq_ci(found.unwrap().name, spec_strip_trailing_dot(name))
            &&& found.unwrap().rtype == spec_parse_record_type(rtype_tag).unwrap()
            &&& found.unwrap().data == value
            &&& found.unwrap().ttl == ttl
            &&& spec_healthy(found.unwrap().updated_at, now)
        }),
{
    let t = spec_parse_record_type(rtype_tag).unwrap();
    lemma_upsert_then_lookup(rows, spec_strip_trailing_dot(name), t, value, ttl, now);
}

/// After a delete request the key is gone, and repeating the delete changes
/// nothing.
pub proof fn lemma_repo_delete_then_find(rows: Seq<RecView>, name: Seq<char>, rtype_tag: Seq<
    char,
>)
    requires
        crate::record_store::unique_keys(rows),
    ensures
        spec_repo_lookup(spec_repo_delete(rows, name, rtype_tag), name, rtype_tag) is None,
        spec_repo_delete(spec_repo_delete(rows, name, rtype_tag), name, rtype_tag)
            == spec_repo_delete(rows, name, rtype_tag),
{
    match spec_parse_record_type(rtype_tag) {
        Some(t) => {
            crate::record_store::lemma_delete_then_lookup(rows, spec_strip_trailing_dot(name), t);
        },
        None => {},
    }
}

/// Renders one stored record as a reply, computing `healthy` at `now`.
fn build_reply(rec: &StoredRecord, now: i64) -> (r: RecordReply)
    ensures
        reply_matches_row(r, rec@, now),
{
    RecordReply {
        name: rec.name.clone(),
        rtype: String::from_str(rec.rtype.tag()),
        data: rec.data.clone(),
        ttl: rec.ttl,
        created_at: rec.created_at,
        updated_at: rec.updated_at,
        healthy: healthy(rec.updated_at, now),
    }
}

/// The mutation surface over the record store.
#[derive(Debug)]
pub struct RecordRepository {
    pub store: RecordStore,
}

impl RecordRepository {
    /// The mathematical contents of the repository.
    pub open spec fn rows(&self) -> Seq<RecView> {
        self.store.rows()
    }

    pub open spec fn wf(&self) -> bool {
        self.store.wf()
    }

    /// An empty repository.
    pub fn new() -> (r: Self)
        ensures
            r.rows() =~= Seq::<RecView>::empty(),
            r.wf(),
    {
        RecordRepository { store: RecordStore::new() }
    }

    /// Returns the record under the request's key as seen at `now`, or
    /// `NotFound`.
    pub fn find_unique_at(&self, request: &FindUniqueRecordRequest, now: i64) -> (r: Result<
        RecordReply,
        ErrorKind,
    >)
        ensures
            match spec_repo_lookup(self.rows(), request.name@, request.rtype@) {
                Some(rv) => r is Ok && reply_matches_row(r.unwrap(), rv, now),
                None => r == Err::<RecordReply, ErrorKind>(ErrorKind::NotFound),
            },
    {
        let t = match parse_record_type(request.rtype.as_str()) {
            Some(t) => t,
            None => {
                return Err(ErrorKind::NotFound);
            },
        };
        let name = strip_trailing_dot(request.name.as_str());
        match self.store.find(name.as_str(), t) {
            Some(rec) => Ok(build_reply(rec, now)),
            None => Err(ErrorKind::NotFound),
        }
    }

    /// Like `find_unique_at`, reading the clock itself; nothing is known of
    /// the healthiness flag in the reply.
    pub fn find_unique(&self, request: &FindUniqueRecordRequest) -> (r: Result<
        RecordReply,
        ErrorKind,
    >)
        ensures
            match spec_repo_lookup(self.rows(), request.name@, request.rtype@) {
                Some(rv) => r is Ok && reply_matches_row_fields(r.unwrap(), rv),
                None => r == Err::<RecordReply, ErrorKind>(ErrorKind::NotFound),
            },
    {
        let now = now_unix();
        self.find_unique_at(request, now)
    }

    /// Applies an upsert request at time `now` and returns the stored result.
    /// A request whose type tag is unsupported or whose value does not parse
    /// in the tag's family is rejected as an invalid argument and changes
    /// nothing.
    pub fn upsert_at(&mut self, request: &UpsertRecordRequest, now: i64) -> (r: Result<
        RecordReply,
        ErrorKind,
    >)
        requires
            old(self).wf(),
        ensures
            final(self).wf(),
            ({
                if upsert_request_valid(request.rtype@, request.value@) {
                    let rows2 = spec_repo_upsert(
                        old(self).rows(),
                        request.name@,
                        request.rtype@,
                        request.value@,
                        request.ttl,
                        now,
                    );
                    &&& final(self).rows() == rows2
                    &&& r is Ok
                    &&& reply_matches_row(
                        r.unwrap(),
                        spec_repo_lookup(rows2, request.name@, request.rtype@).unwrap(),
                        now,
                    )
                } else {
                    &&& final(self).rows() == old(self).rows()
                    &&& r == Err::<RecordReply, ErrorKind>(ErrorKind::InvalidArgument)
                }
            }),
    {
        let t = match parse_record_type(request.rtype.as_str()) {
            Some(t) => t,
            None => {
                return Err(ErrorKind::InvalidArgument);
            },
        };
        if !check_data_matches_type(request.value.as_str(), t) {
            return Err(ErrorKind::InvalidArgument);
        }
        let name = strip_trailing_dot(request.name.as_str());
        let name_again = name.clone();
        proof {
            lemma_upsert_then_lookup(
                self.rows(),
                name@,
                t,
                request.value@,
                request.ttl,
                now,
            );
        }
        self.store.upsert(name, t, request.value.clone(), request.ttl, now);
        match self.store.find(name_again.as_str(), t) {
            Some(rec) => Ok(build_reply(rec, now)),
            None => {
                proof {
                    assert(false);
                }
                Err(ErrorKind::NotFound)
            },
        }
    }

    /// Like `upsert_at`, reading the clock itself: the store afterwards holds
    /// the upsert as applied at some instant, whatever the clock returned.
    pub fn upsert(&mut self, request: &UpsertRecordRequest) -> (r: Result<RecordReply, ErrorKind>)
        requires
            old(self).wf(),
        ensures
            final(self).wf(),
            upsert_request_valid(request.rtype@, request.value@) ==> r is Ok && exists|now: i64|
                final(self).rows() == spec_repo_upsert(
                    old(self).rows(),
                    request.name@,
                    request.rtype@,
                    request.value@,
                    request.ttl,
                    now,
                ),
            !upsert_request_valid(request.rtype@, request.value@) ==> final(self).rows() == old(
                self,
            ).rows() && r == Err::<RecordReply, ErrorKind>(ErrorKind::InvalidArgument),
    {
        let now = now_unix();
        let r = self.upsert_at(request, now);
        r
    }

    /// Renders every row as seen at `now`, in store order.
    pub fn list_at(&self, now: i64) -> (r: Vec<RecordReply>)
        ensures
            r@.len() == self.rows().len(),
            forall|i: int|
                0 <= i < r@.len() ==> reply_matches_row(#[trigger] r@[i], self.rows()[i], now),
    {
        let n = self.store.records.len();
        let mut out: Vec<RecordReply> = Vec::new();
        let mut i: usize = 0;
        while i < n
            invariant
                i <= n,
                n == self.store.records@.len(),
                out@.len() == i,
                forall|j: int|
                    0 <= j < i ==> reply_matches_row(#[trigger] out@[j], self.rows()[j], now),
            decreases n - i,
        {
            proof {
                assert(self.rows()[i as int] == self.store.records@[i as int]@);
            }
            out.push(build_reply(&self.store.records[i], now));
            i = i + 1;
        }
        out
    }

    /// Like `list_at`, reading the clock itself; nothing is known of the
    /// healthiness flags.
    pub fn list(&self) -> (r: Vec<RecordReply>)
        ensures
            r@.len() == self.rows().len(),
            forall|i: int|
                0 <= i < r@.len() ==> reply_matches_row_fields(#[trigger] r@[i], self.rows()[i]),
    {
        let now = now_unix();
        self.list_at(now)
    }

    /// Applies a delete request. Succeeds whether or not the row existed.
    pub fn delete(&mut self, request: &FindUniqueRecordRequest) -> (r: Result<
        EmptyReply,
        ErrorKind,
    >)
        requires
            old(self).wf(),
        ensures
            final(self).wf(),
            final(self).rows() == spec_repo_delete(old(self).rows(), request.name@, request.rtype@),
            r is Ok,
    {
        let t = match parse_record_type(request.rtype.as_str()) {
            Some(t) => t,
            None => {
                return Ok(EmptyReply {  });
            },
        };
        let name = strip_trailing_dot(request.name.as_str());
        self.store.delete(name.as_str(), t);
        Ok(EmptyReply {  })
    }
}

} // verus!
