//! The dynamic tier: an adapter that answers lookups from the record store.
//! It strips a single trailing dot from the query name, consults the store
//! under the query's type tag, and synthesises exactly one answer record from
//! a hit; a miss is reported as `NXDOMAIN`.

use vstd::prelude::*;
use crate::RecordType;
use crate::authority::DnsClass;
use crate::authority::DnsRecView;
use crate::authority::DnsRecord;
use crate::authority::LookupError;
use crate::authority::ResponseCode;
use crate::authority::ZoneType;
use crate::ip::DnsData;
use crate::ip::parse_ipv4;
use crate::ip::parse_ipv6;
use crate::ip::spec_parse_ipv4;
use crate::ip::spec_parse_ipv6;
use crate::proto::FindUniqueRecordRequest;
use crate::record_repository::RecordRepository;
use crate::record_store::RecView;
use crate::record_store::spec_lookup;
use crate::text::spec_strip_trailing_dot;
use crate::text::strip_trailing_dot;

verus! {

/// The IP value a stored row's data denotes, read in the family of the row's
/// type. Meaningful for rows the store accepts, whose data always parses.
pub open spec fn spec_data_of_row(rv: RecView) -> DnsData {
    match rv.rtype {
        RecordType::A => {
            let (a, b, c, d) = spec_parse_ipv4(rv.data).unwrap();
            DnsData::V4(a, b, c, d)
        },
        RecordType::AAAA => {
            let g = spec_parse_ipv6(rv.data).unwrap();
            DnsData::V6(g[0], g[1], g[2], g[3], g[4], g[5], g[6], g[7])
        },
    }
}

/// The one answer record synthesised from a stored row.
pub open spec fn spec_row_record(rv: RecView) -> DnsRecView {
    DnsRecView {
        name: rv.name,
        rtype: rv.rtype,
        class: DnsClass::In,
        ttl: rv.ttl,
        data: spec_data_of_row(rv),
    }
}

/// The dynamic tier of one zone.
#[derive(Debug)]
pub struct SqliteAuthority {
    pub origin: String,
    pub zone_type: ZoneType,
}

impl SqliteAuthority {
    /// The zone kind this tier was built with.
    pub fn zone_type(&self) -> (r: ZoneType)
        ensures
            r == self.zone_type,
    {
        self.zone_type
    }

    /// Zone transfer is never allowed.
    pub fn is_axfr_allowed(&self) -> (r: bool)
        ensures
            !r,
    {
        false
    }

    /// DNS-level UPDATE is not implemented.
    pub fn update(&self) -> (r: Result<bool, ResponseCode>)
        ensures
            r == Err::<bool, ResponseCode>(ResponseCode::NotImp),
    {
        Err(ResponseCode::NotImp)
    }

    /// The zone apex this tier serves.
    pub fn origin(&self) -> (r: &String)
        ensures
            r@ == self.origin@,
    {
        &self.origin
    }

    /// Answers a query from the store: one record synthesised from the row
    /// under the dot-stripped name and the query type, or `NXDOMAIN`.
    pub fn lookup(&self, repo: &RecordRepository, name: &str, rtype: RecordType) -> (r: Result<
        Vec<DnsRecord>,
        LookupError,
    >)
        requires
            repo.wf(),
        ensures
            match spec_lookup(repo.rows(), spec_strip_trailing_dot(name@), rtype) {
                Some(rv) => r is Ok && r.unwrap()@.len() == 1 && r.unwrap()@[0]@
                    == spec_row_record(rv),
                None => r == Err::<Vec<DnsRecord>, LookupError>(
                    LookupError::Response(ResponseCode::NXDomain),
                ),
            },
    {
        let name_param = strip_trailing_dot(name);
        match repo.store.find(name_param.as_str(), rtype) {
            None => Err(LookupError::Response(ResponseCode::NXDomain)),
            Some(row) => {
                proof {
                    let rows = repo.rows();
                    crate::record_store::lemma_spec_find_props(
                        rows,
                        spec_strip_trailing_dot(name@),
                        rtype,
                    );
                    let found = spec_lookup(rows, spec_strip_trailing_dot(name@), rtype);
                    assert(crate::record_store::row_valid(found.unwrap()));
                }
                let data = match row.rtype {
                    RecordType::A => {
                        let (a, b, c, d) = parse_ipv4(row.data.as_str()).unwrap();
                        DnsData::V4(a, b, c, d)
                    },
                    RecordType::AAAA => {
                        let g = parse_ipv6(row.data.as_str()).unwrap();
                        DnsData::V6(g[0], g[1], g[2], g[3], g[4], g[5], g[6], g[7])
                    },
                };
                let record = DnsRecord {
                    name: row.name.clone(),
                    rtype: row.rtype,
                    class: DnsClass::In,
                    ttl: row.ttl,
                    data: data,
                };
                let mut out: Vec<DnsRecord> = Vec::new();
                out.push(record);
                Ok(out)
            },
        }
    }

    /// Answers the query carried by a request; the same as `lookup`.
    pub fn search(&self, repo: &RecordRepository, request: &FindUniqueRecordRequest) -> (r: Result<
        Vec<DnsRecord>,
        LookupError,
    >)
        requires
            repo.wf(),
        ensures
            match crate::spec_parse_record_type(request.rtype@) {
                Some(t) => match spec_lookup(repo.rows(), spec_strip_trailing_dot(request.name@), t) {
                    Some(rv) => r is Ok && r.unwrap()@.len() == 1 && r.unwrap()@[0]@
                        == spec_row_record(rv),
                    None => r == Err::<Vec<DnsRecord>, LookupError>(
                        LookupError::Response(ResponseCode::NXDomain),
                    ),
                },
                None => r == Err::<Vec<DnsRecord>, LookupError>(
                    LookupError::Response(ResponseCode::NXDomain),
                ),
            },
    {
        match crate::parse_record_type(request.rtype.as_str()) {
            Some(t) => self.lookup(repo, request.name.as_str(), t),
            None => Err(LookupError::Response(ResponseCode::NXDomain)),
        }
    }

    /// NSEC retrieval is not implemented.
    pub fn get_nsec_records(&self) -> (r: Result<Vec<DnsRecord>, LookupError>)
        ensures
            r == Err::<Vec<DnsRecord>, LookupError>(LookupError::Unimplemented),
    {
        Err(LookupError::Unimplemented)
    }
}

} // verus!
