//! The fall-through core: per zone, the static, dynamic and forward tiers
//! composed into one authority. A lookup tries the static tier, then the
//! dynamic tier, and otherwise hands the query to the forward tier; an error
//! in a tier never ends the lookup, it demotes to the next tier.

use vstd::prelude::*;
use crate::RecordType;
use crate::authority::DnsRecView;
use crate::authority::DnsRecord;
use crate::authority::LookupError;
use crate::authority::ResponseCode;
use crate::authority::StaticAuthority;
use crate::authority::ZoneType;
use crate::authority::spec_static_matches;
use crate::proto::FindUniqueRecordRequest;
use crate::record_repository::RecordRepository;
use crate::record_store::RecView;
use crate::record_store::spec_lookup;
use crate::sqlite_authority::SqliteAuthority;
use crate::sqlite_authority::spec_row_record;
use crate::text::spec_strip_trailing_dot;
use crate::util::SocketSpec;

verus! {

/// The records a local tier answered with.
#[derive(Debug)]
pub struct SplitLookup {
    pub records: Vec<DnsRecord>,
}

impl SplitLookup {
    /// The mathematical contents of the answer.
    pub open spec fn recs(&self) -> Seq<DnsRecView> {
        self.records@.map_values(|r: DnsRecord| r@)
    }

    /// Whether the answer holds no records.
    pub fn is_empty(&self) -> (r: bool)
        ensures
            r == (self.recs().len() == 0),
    {
        self.records.len() == 0
    }

    /// The answer records, in order.
    pub fn iter(&self) -> (r: &Vec<DnsRecord>)
        ensures
            r@.map_values(|rec: DnsRecord| rec@) == self.recs(),
    {
        &self.records
    }

    /// There are never additional records.
    pub fn take_additionals(&mut self) -> (r: Option<SplitLookup>)
        ensures
            r is None,
            *final(self) == *old(self),
    {
        None
    }
}

/// What a local lookup decided.
#[derive(Debug)]
pub enum SplitDecision {
    /// A local tier answered with these records.
    Answer(SplitLookup),
    /// No local tier answered; the query goes to the forward tier.
    Forward,
}

/// The outcome the fall-through order prescribes: the static tier's records
/// when it has any, else the record-store row when one matches, else the
/// forward tier.
pub ghost enum SplitOutcome {
    Static(Seq<DnsRecView>),
    Dynamic(RecView),
    Forward,
}

pub open spec fn spec_split_outcome(
    static_recs: Seq<DnsRecView>,
    rows: Seq<RecView>,
    name: Seq<char>,
    t: RecordType,
) -> SplitOutcome {
    let stat = spec_static_matches(static_recs, name, t);
    if stat.len() > 0 {
        SplitOutcome::Static(stat)
    } else {
        match spec_lookup(rows, spec_strip_trailing_dot(name), t) {
            Some(rv) => SplitOutcome::Dynamic(rv),
            None => SplitOutcome::Forward,
        }
    }
}

/// A static answer stands whatever the record store holds: two stores give
/// the same outcome as soon as the static tier matches.
pub proof fn lemma_static_wins(
    static_recs: Seq<DnsRecView>,
    rows1: Seq<RecView>,
    rows2: Seq<RecView>,
    name: Seq<char>,
    t: RecordType,
)
    requires
        spec_static_matches(static_recs, name, t).len() > 0,
    ensures
        spec_split_outcome(static_recs, rows1, name, t) == SplitOutcome::Static(
            spec_static_matches(static_recs, name, t),
        ),
        spec_split_outcome(static_recs, rows1, name, t) == spec_split_outcome(
            static_recs,
            rows2,
            name,
            t,
        ),
{
}

/// Where a static and a dynamic record both exist for the same name and
/// type, the static records are the answer.
pub proof fn lemma_static_over_dynamic(
    static_recs: Seq<DnsRecView>,
    rows: Seq<RecView>,
    name: Seq<char>,
    t: RecordType,
)
    requires
        spec_static_matches(static_recs, name, t).len() > 0,
        spec_lookup(rows, spec_strip_trailing_dot(name), t) is Some,
    ensures
        spec_split_outcome(static_recs, rows, name, t) == SplitOutcome::Static(
            spec_static_matches(static_recs, name, t),
        ),
{
}

/// One zone's composed authority.
#[derive(Debug)]
pub struct SplitAuthority {
    pub origin: String,
    pub in_memory_authority: StaticAuthority,
    pub sqlite_authority: SqliteAuthority,
    pub upstreams: Vec<SocketSpec>,
}

impl SplitAuthority {
    /// The composed zone reports the forward kind to the catalog.
    pub fn zone_type(&self) -> (r: ZoneType)
        ensures
            r == ZoneType::Forward,
    {
        ZoneType::Forward
    }

    /// Zone transfer is never allowed.
    pub fn is_axfr_allowed(&self) -> (r: bool)
        ensures
            !r,
    {
        false
    }

    /// DNS-level UPDATE is not implemented.
    pub fn update(&self) -> (r: Result<bool, ResponseCode>)
        ensures
            r == Err::<bool, ResponseCode>(ResponseCode::NotImp),
    {
        Err(ResponseCode::NotImp)
    }

    /// The zone apex this authority serves.
    pub fn origin(&self) -> (r: &String)
        ensures
            r@ == self.origin@,
    {
        &self.origin
    }

    /// Looks the query up through the tiers in order. The result follows
    /// `spec_split_outcome`: the static tier's matches when it has any, else
    /// one record from the store, else the decision to forward.
    pub fn lookup(&self, repo: &RecordRepository, name: &str, rtype: RecordType) -> (r:
        SplitDecision)
        requires
            repo.wf(),
        ensures
            match spec_split_outcome(self.in_memory_authority.recs(), repo.rows(), name@, rtype) {
                SplitOutcome::Static(recs) => r matches SplitDecision::Answer(l) && l.recs()
                    == recs,
                SplitOutcome::Dynamic(rv) => r matches SplitDecision::Answer(l) && l.recs()
                    =~= seq![spec_row_record(rv)],
                SplitOutcome::Forward => r matches SplitDecision::Forward,
            },
    {
        match self.in_memory_authority.lookup(name, rtype) {
            Some(records) => SplitDecision::Answer(SplitLookup { records }),
            None => {
                match self.sqlite_authority.lookup(repo, name, rtype) {
                    Ok(records) => {
                        proof {
                            assert(records@.map_values(|rec: DnsRecord| rec@) =~= seq![
                                records@[0]@,
                            ]);
                        }
                        SplitDecision::Answer(SplitLookup { records })
                    },
                    Err(_) => SplitDecision::Forward,
                }
            },
        }
    }

    /// Answers the query carried by a request; the same as `lookup`.
    pub fn search(&self, repo: &RecordRepository, request: &FindUniqueRecordRequest) -> (r:
        SplitDecision)
        requires
            repo.wf(),
        ensures
            match crate::spec_parse_record_type(request.rtype@) {
                Some(t) => match spec_split_outcome(
                    self.in_memory_authority.recs(),
                    repo.rows(),
                    request.name@,
                    t,
                ) {
                    SplitOutcome::Static(recs) => r matches SplitDecision::Answer(l) && l.recs()
                        == recs,
                    SplitOutcome::Dynamic(rv) => r matches SplitDecision::Answer(l) && l.recs()
                        =~= seq![spec_row_record(rv)],
                    SplitOutcome::Forward => r matches SplitDecision::Forward,
                },
                None => r matches SplitDecision::Forward,
            },
    {
        match crate::parse_record_type(request.rtype.as_str()) {
            Some(t) => self.lookup(repo, request.name.as_str(), t),
            None => SplitDecision::Forward,
        }
    }

    /// NSEC retrieval is not implemented.
    pub fn get_nsec_records(&self) -> (r: Result<Vec<DnsRecord>, LookupError>)
        ensures
            r == Err::<Vec<DnsRecord>, LookupError>(LookupError::Unimplemented),
    {
        Err(LookupError::Unimplemented)
    }
}

} // verus!
