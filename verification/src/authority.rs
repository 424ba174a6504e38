//! The authority model: DNS answer records, the outcome and error shapes an
//! authority reports, and the static tier, which serves the records fixed at
//! boot.

use vstd::prelude::*;
use crate::RecordType;
use crate::ip::DnsData;
use crate::text::str_eq_ci;
use crate::text::eq_ignore_case;

verus! {

/// The kind a zone reports to the catalog.
#[derive(Clone, Copy, PartialEq, Eq, Structural, Debug)]
pub enum ZoneType {
    Primary,
    Forward,
}

/// The class of an answer record; only the internet class is served.
#[derive(Clone, Copy, PartialEq, Eq, Structural, Debug)]
pub enum DnsClass {
    In,
}

/// DNS response codes the core produces.
#[derive(Clone, Copy, PartialEq, Eq, Structural, Debug)]
pub enum ResponseCode {
    NoError,
    NXDomain,
    NotImp,
    Refused,
    ServFail,
}

/// Why a lookup produced no records.
#[derive(Clone, Copy, PartialEq, Eq, Structural, Debug)]
pub enum LookupError {
    Response(ResponseCode),
    Unimplemented,
}

/// One answer record.
#[derive(Clone, Debug)]
pub struct DnsRecord {
    pub name: String,
    pub rtype: RecordType,
    pub class: DnsClass,
    pub ttl: u32,
    pub data: DnsData,
}

/// The mathematical image of one answer record.
pub ghost struct DnsRecView {
    pub name: Seq<char>,
    pub rtype: RecordType,
    pub class: DnsClass,
    pub ttl: u32,
    pub data: DnsData,
}

impl View for DnsRecord {
    type V = DnsRecView;

    open spec fn view(&self) -> DnsRecView {
        DnsRecView {
            name: self.name@,
            rtype: self.rtype,
            class: self.class,
            ttl: self.ttl,
            data: self.data,
        }
    }
}

/// Whether a record answers a query: the same type and a name equal up to
/// ASCII case.
pub open spec fn static_match_pred(name: Seq<char>, t: RecordType) -> spec_fn(DnsRecView) -> bool {
    |r: DnsRecView| str_eq_ci(r.name, name) && r.rtype == t
}

/// The static records matching a query, in configuration order.
pub open spec fn spec_static_matches(
    recs: Seq<DnsRecView>,
    name: Seq<char>,
    t: RecordType,
) -> Seq<DnsRecView> {
    recs.filter(static_match_pred(name, t))
}

/// The static tier: a fixed set of records supplied at boot. It never
/// mutates.
#[derive(Debug)]
pub struct StaticAuthority {
    pub records: Vec<DnsRecord>,
}

impl StaticAuthority {
    /// The mathematical contents of the static tier.
    pub open spec fn recs(&self) -> Seq<DnsRecView> {
        self.records@.map_values(|r: DnsRecord| r@)
    }

    /// Looks the query up: a non-empty set of matching records, or nothing.
    pub fn lookup(&self, name: &str, t: RecordType) -> (r: Option<Vec<DnsRecord>>)
        ensures
            match r {
                Some(v) => v@.len() > 0 && v@.map_values(|rec: DnsRecord| rec@)
                    == spec_static_matches(self.recs(), name@, t),
                None => spec_static_matches(self.recs(), name@, t).len() == 0,
            },
    {
        let ghost pred = static_match_pred(name@, t);
        let n = self.records.len();
        let mut out: Vec<DnsRecord> = Vec::new();
        let mut i: usize = 0;
        proof {
            assert(self.recs().subrange(0, 0) =~= Seq::<DnsRecView>::empty());
            assert(Seq::<DnsRecView>::empty().filter(pred) =~= Seq::<DnsRecView>::empty()) by {
                reveal_with_fuel(Seq::filter, 1);
            }
        }
        while i < n
            invariant
                i <= n,
                n == self.records@.len(),
                out@.map_values(|rec: DnsRecord| rec@) =~= self.recs().subrange(
                    0,
                    i as int,
                ).filter(static_match_pred(name@, t)),
            decreases n - i,
        {
            let rec = &self.records[i];
            proof {
                assert(self.recs()[i as int] == self.records@[i as int]@);
                let pred = static_match_pred(name@, t);
                let prefix = self.recs().subrange(0, i as int);
                let next = self.recs().subrange(0, i as int + 1);
                assert(next.drop_last() =~= prefix);
                assert(next.last() == self.recs()[i as int]);
                assert(next.filter(pred) == if pred(next.last()) {
                    prefix.filter(pred).push(next.last())
                } else {
                    prefix.filter(pred)
                }) by {
                    reveal_with_fuel(Seq::filter, 2);
                }
            }
            if rec.rtype == t && eq_ignore_case(rec.name.as_str(), name) {
                let copied = DnsRecord {
                    name: rec.name.clone(),
                    rtype: rec.rtype,
                    class: rec.class,
                    ttl: rec.ttl,
                    data: rec.data,
                };
                let ghost old_out = out@.map_values(|r2: DnsRecord| r2@);
                out.push(copied);
                proof {
                    assert(out@.map_values(|r2: DnsRecord| r2@) =~= old_out.push(
                        self.recs()[i as int],
                    ));
                }
            }
            i = i + 1;
        }
        proof {
            assert(self.recs().subrange(0, n as int) =~= self.recs());
        }
        if out.len() == 0 {
            None
        } else {
            Some(out)
        }
    }
}

} // verus!
