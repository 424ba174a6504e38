//! The zone catalog and the query path. At boot the catalog is built from the
//! configuration, one composed authority per zone. For each query the catalog
//! picks the zone whose apex is the longest suffix of the query name; a query
//! in no configured zone is refused.

use vstd::prelude::*;
use crate::ErrorKind;
use crate::RecordType;
use crate::authority::DnsClass;
use crate::authority::DnsRecView;
use crate::authority::DnsRecord;
use crate::authority::StaticAuthority;
use crate::authority::ZoneType;
use crate::config::RecordConfig;
use crate::config::ServerConfig;
use crate::config::ZoneConfig;
use crate::ip::spec_family;
use crate::ip::spec_parse_ip;
use crate::record_repository::RecordRepository;
use crate::split_authority::SplitAuthority;
use crate::split_authority::SplitDecision;
use crate::split_authority::SplitLookup;
use crate::split_authority::SplitOutcome;
use crate::split_authority::spec_split_outcome;
use crate::sqlite_authority::SqliteAuthority;
use crate::text::char_eq_ci;
use crate::text::eq_ignore_case;
use crate::text::str_eq_ci;
use crate::text::spec_strip_trailing_dot;
use crate::text::strip_trailing_dot;
use crate::util::SocketSpec;
use crate::util::create_record_data;
use crate::util::get_ip_addr_record_type;
use crate::util::parse_ip_optional_socket;
use crate::util::render_record_name;
use crate::util::spec_parse_socket;
use crate::util::spec_render_name;

verus! {

/// Whether a query name lies in the zone rooted at `origin`: the name is the
/// apex itself, or ends with a dot followed by the apex, up to ASCII case.
pub open spec fn name_in_zone(q: Seq<char>, origin: Seq<char>) -> bool {
    str_eq_ci(q, origin) || (q.len() > origin.len() && q[q.len() - origin.len() - 1] == '.'
        && str_eq_ci(q.subrange(q.len() - origin.len(), q.len() as int), origin))
}

/// Checks zone membership.
pub fn check_name_in_zone(q: &str, origin: &str) -> (r: bool)
    ensures
        r == name_in_zone(q@, origin@),
{
    let qn: usize = q.unicode_len();
    let on: usize = origin.unicode_len();
    if qn == on {
        return eq_ignore_case(q, origin);
    }
    if qn < on {
        return false;
    }
    if q.get_char(qn - on - 1) != '.' {
        proof {
            assert(!str_eq_ci(q@, origin@));
        }
        return false;
    }
    let mut i: usize = 0;
    while i < on
        invariant
            i <= on,
            on < qn,
            qn == q@.len(),
            on == origin@.len(),
            forall|j: int|
                0 <= j < i ==> char_eq_ci(q@[q@.len() - origin@.len() + j], origin@[j]),
        decreases on - i,
    {
        let ca = q.get_char(qn - on + i) as u32;
        let cb = origin.get_char(i) as u32;
        let la = if 65 <= ca && ca <= 90 {
            ca + 32
        } else {
            ca
        };
        let lb = if 65 <= cb && cb <= 90 {
            cb + 32
        } else {
            cb
        };
        if la != lb {
            proof {
                assert(!char_eq_ci(q@[q@.len() - origin@.len() + i], origin@[i as int]));
                let suffix = q@.subrange(q@.len() - origin@.len(), q@.len() as int);
                assert(suffix[i as int] == q@[q@.len() - origin@.len() + i]);
                assert(!str_eq_ci(suffix, origin@));
                assert(!str_eq_ci(q@, origin@));
            }
            return false;
        }
        i = i + 1;
    }
    proof {
        let suffix = q@.subrange(q@.len() - origin@.len(), q@.len() as int);
        assert forall|j: int| 0 <= j < origin@.len() implies char_eq_ci(
            suffix[j],
            origin@[j],
        ) by {
            assert(suffix[j] == q@[q@.len() - origin@.len() + j]);
        }
        assert(str_eq_ci(suffix, origin@));
    }
    true
}

/// The zone the catalog picks, scanning from `i` with `cur` the best so far:
/// a matching zone replaces the best only with a strictly longer apex, so of
/// equal apexes the first wins.
pub open spec fn spec_best_zone_from(
    origins: Seq<Seq<char>>,
    q: Seq<char>,
    i: int,
    cur: Option<int>,
) -> Option<int>
    decreases origins.len() - i,
{
    if i < 0 || i >= origins.len() {
        cur
    } else {
        let better = name_in_zone(q, origins[i]) && (cur is None || origins[i].len()
            > origins[cur.unwrap()].len());
        spec_best_zone_from(
            origins,
            q,
            i + 1,
            if better {
                Some(i)
            } else {
                cur
            },
        )
    }
}

/// The zone the catalog picks for a query name, if any.
pub open spec fn spec_best_zone(origins: Seq<Seq<char>>, q: Seq<char>) -> Option<int> {
    spec_best_zone_from(origins, q, 0, None)
}

proof fn lemma_best_zone_from_props(origins: Seq<Seq<char>>, q: Seq<char>, i: int, cur: Option<
    int,
>)
    requires
        0 <= i <= origins.len(),
        match cur {
            None => forall|j: int| 0 <= j < i ==> !name_in_zone(q, origins[j]),
            Some(c) => 0 <= c < i && name_in_zone(q, origins[c]) && forall|j: int|
                0 <= j < i && name_in_zone(q, origins[j]) ==> origins[j].len()
                    <= origins[c].len(),
        },
    ensures
        match spec_best_zone_from(origins, q, i, cur) {
            None => forall|j: int| 0 <= j < origins.len() ==> !name_in_zone(q, origins[j]),
            Some(k) => 0 <= k < origins.len() && name_in_zone(q, origins[k]) && forall|j: int|
                0 <= j < origins.len() && name_in_zone(q, origins[j]) ==> origins[j].len()
                    <= origins[k].len(),
        },
    decreases origins.len() - i,
{
    if i < origins.len() {
        let better = name_in_zone(q, origins[i]) && (cur is None || origins[i].len()
            > origins[cur.unwrap()].len());
        let next = if better {
            Some(i)
        } else {
            cur
        };
        lemma_best_zone_from_props(origins, q, i + 1, next);
    }
}

/// What the catalog's choice means: a picked zone matches the query and no
/// matching zone has a longer apex; no pick means no zone matches.
pub proof fn lemma_best_zone_props(origins: Seq<Seq<char>>, q: Seq<char>)
    ensures
        match spec_best_zone(origins, q) {
            None => forall|j: int| 0 <= j < origins.len() ==> !name_in_zone(q, origins[j]),
            Some(k) => 0 <= k < origins.len() && name_in_zone(q, origins[k]) && forall|j: int|
                0 <= j < origins.len() && name_in_zone(q, origins[j]) ==> origins[j].len()
                    <= origins[k].len(),
        },
{
    lemma_best_zone_from_props(origins, q, 0, None);
}

/// A query whose name lies in no configured zone is picked by no zone.
pub proof fn lemma_no_zone_matches(origins: Seq<Seq<char>>, q: Seq<char>)
    requires
        forall|j: int| 0 <= j < origins.len() ==> !name_in_zone(q, origins[j]),
    ensures
        spec_best_zone(origins, q) is None,
{
    lemma_best_zone_props(origins, q);
    if spec_best_zone(origins, q) is Some {
        assert(false);
    }
}

/// What the server answers, before the forward tier runs.
#[derive(Debug)]
pub enum QueryOutcome {
    /// The query name lies in no configured zone.
    Refused,
    /// A local tier answered.
    Answer(SplitLookup),
    /// The zone at this index decided to forward; its upstreams apply.
    Forward(usize),
}

/// The zone catalog: one composed authority per configured zone.
#[derive(Debug)]
pub struct Catalog {
    pub zones: Vec<SplitAuthority>,
}

impl Catalog {
    /// The apexes of the configured zones, in order.
    pub open spec fn origins(&self) -> Seq<Seq<char>> {
        self.zones@.map_values(|z: SplitAuthority| z.origin@)
    }

    /// Picks the zone for a (dot-stripped) query name: the matching zone with
    /// the longest apex, the first of equals.
    pub fn find_zone(&self, q: &str) -> (r: Option<usize>)
        ensures
            match r {
                Some(k) => spec_best_zone(self.origins(), q@) == Some(k as int),
                None => spec_best_zone(self.origins(), q@) is None,
            },
    {
        let n = self.zones.len();
        let mut cur: Option<usize> = None;
        let mut i: usize = 0;
        while i < n
            invariant
                i <= n,
                n == self.zones@.len(),
                match cur {
                    Some(c) => c < i,
                    None => true,
                },
                spec_best_zone(self.origins(), q@) == spec_best_zone_from(
                    self.origins(),
                    q@,
                    i as int,
                    match cur {
                        Some(c) => Some(c as int),
                        None => None,
                    },
                ),
            decreases n - i,
        {
            proof {
                assert(self.origins()[i as int] == self.zones@[i as int].origin@);
            }
            let matches_zone = check_name_in_zone(q, self.zones[i].origin.as_str());
            let better = matches_zone && match cur {
                None => true,
                Some(c) => {
                    proof {
                        assert(self.origins()[c as int] == self.zones@[c as int].origin@);
                    }
                    self.zones[i].origin.as_str().unicode_len()
                        > self.zones[c].origin.as_str().unicode_len()
                },
            };
            if better {
                cur = Some(i);
            }
            i = i + 1;
        }
        cur
    }

    /// Serves one query: refused outside every zone, else the picked zone's
    /// fall-through decision on the dot-stripped name.
    pub fn handle_query(&self, repo: &RecordRepository, qname: &str, rtype: RecordType) -> (r:
        QueryOutcome)
        requires
            repo.wf(),
        ensures
            ({
                let q = spec_strip_trailing_dot(qname@);
                match spec_best_zone(self.origins(), q) {
                    None => r matches QueryOutcome::Refused,
                    Some(k) => match spec_split_outcome(
                        self.zones@[k].in_memory_authority.recs(),
                        repo.rows(),
                        q,
                        rtype,
                    ) {
                        SplitOutcome::Static(recs) => r matches QueryOutcome::Answer(l)
                            && l.recs() == recs,
                        SplitOutcome::Dynamic(rv) => r matches QueryOutcome::Answer(l)
                            && l.recs() =~= seq![crate::sqlite_authority::spec_row_record(rv)],
                        SplitOutcome::Forward => r matches QueryOutcome::Forward(z) && z == k,
                    },
                }
            }),
    {
        let q = strip_trailing_dot(qname);
        proof {
            lemma_best_zone_props(self.origins(), q@);
        }
        match self.find_zone(q.as_str()) {
            None => QueryOutcome::Refused,
            Some(k) => {
                match self.zones[k].lookup(repo, q.as_str(), rtype) {
                    SplitDecision::Answer(l) => QueryOutcome::Answer(l),
                    SplitDecision::Forward => QueryOutcome::Forward(k),
                }
            },
        }
    }
}

/// Whether a configured static record is acceptable: its value is an IP
/// literal.
pub open spec fn record_config_ok(rc: RecordConfig) -> bool {
    spec_parse_ip(rc.value@) is Some
}

/// The answer record a configured static record denotes: the rendered name,
/// the family of its value, and a fixed TTL of 30 seconds.
pub open spec fn spec_static_record(apex: Seq<char>, rc: RecordConfig) -> DnsRecView {
    DnsRecView {
        name: spec_render_name(rc.key@, apex),
        rtype: spec_family(spec_parse_ip(rc.value@).unwrap()),
        class: DnsClass::In,
        ttl: 30,
        data: spec_parse_ip(rc.value@).unwrap(),
    }
}

pub open spec fn zone_config_ok(zc: ZoneConfig) -> bool {
    forall|j: int| 0 <= j < zc.records@.len() ==> record_config_ok(#[trigger] zc.records@[j])
}

pub open spec fn nameservers_ok(ns: Seq<String>) -> bool {
    forall|j: int| 0 <= j < ns.len() ==> spec_parse_socket(#[trigger] ns[j]@, 53) is Some
}

/// Whether a server configuration can boot: every upstream endpoint parses
/// and every static record value is an IP literal.
pub open spec fn server_config_ok(cfg: ServerConfig) -> bool {
    &&& nameservers_ok(cfg.nameservers@)
    &&& forall|i: int| 0 <= i < cfg.zones@.len() ==> zone_config_ok(#[trigger] cfg.zones@[i])
}

/// The parsed upstream endpoints, in configuration order.
pub open spec fn spec_upstreams(ns: Seq<String>) -> Seq<SocketSpec> {
    Seq::new(ns.len(), |j: int| spec_parse_socket(ns[j]@, 53).unwrap())
}

/// The static records of one zone, in configuration order.
pub open spec fn spec_zone_static(zc: ZoneConfig) -> Seq<DnsRecView> {
    Seq::new(zc.records@.len(), |j: int| spec_static_record(zc.name@, zc.records@[j]))
}

/// Whether one built zone renders one configured zone: the apexes agree, the
/// static tier holds the configured records, the dynamic tier serves the same
/// apex as a primary, and the upstreams are the configured endpoints.
pub open spec fn zone_built(z: SplitAuthority, zc: ZoneConfig, ns: Seq<String>) -> bool {
    &&& z.origin@ == zc.name@
    &&& z.in_memory_authority.recs() == spec_zone_static(zc)
    &&& z.sqlite_authority.origin@ == zc.name@
    &&& z.sqlite_authority.zone_type == ZoneType::Primary
    &&& z.upstreams@ == spec_upstreams(ns)
}

/// Builds the catalog from the configuration: one composed authority per
/// zone, or `InvalidConfig` exactly when the configuration cannot boot.
pub fn build_catalog(cfg: &ServerConfig) -> (r: Result<Catalog, ErrorKind>)
    ensures
        match r {
            Ok(cat) => server_config_ok(*cfg) && cat.zones@.len() == cfg.zones@.len()
                && forall|i: int|
                0 <= i < cfg.zones@.len() ==> zone_built(
                    #[trigger] cat.zones@[i],
                    cfg.zones@[i],
                    cfg.nameservers@,
                ),
            Err(e) => !server_config_ok(*cfg) && e == ErrorKind::InvalidConfig,
        },
{
    let nz = cfg.zones.len();
    let mut zones: Vec<SplitAuthority> = Vec::new();
    let mut i: usize = 0;
    while i < nz
        invariant
            i <= nz,
            nz == cfg.zones@.len(),
            zones@.len() == i,
            forall|k: int|
                0 <= k < i ==> zone_built(#[trigger] zones@[k], cfg.zones@[k], cfg.nameservers@),
            forall|k: int| 0 <= k < i ==> zone_config_ok(#[trigger] cfg.zones@[k]),
            i > 0 ==> nameservers_ok(cfg.nameservers@),
        decreases nz - i,
    {
        let zone_config = &cfg.zones[i];
        let nr = zone_config.records.len();
        let mut static_records: Vec<DnsRecord> = Vec::new();
        let mut j: usize = 0;
        while j < nr
            invariant
                i < nz,
                nz == cfg.zones@.len(),
                *zone_config == cfg.zones@[i as int],
                j <= nr,
                nr == zone_config.records@.len(),
                static_records@.len() == j,
                forall|k: int|
                    0 <= k < j ==> (#[trigger] static_records@[k])@ == spec_static_record(
                        zone_config.name@,
                        zone_config.records@[k],
                    ),
                forall|k: int|
                    0 <= k < j ==> record_config_ok(#[trigger] zone_config.records@[k]),
            decreases nr - j,
        {
            let record_config = &zone_config.records[j];
            let name = render_record_name(record_config.key.as_str(), zone_config.name.as_str());
            let data = match create_record_data(record_config.value.as_str()) {
                Ok(d) => d,
                Err(_) => {
                    proof {
                        assert(!record_config_ok(cfg.zones@[i as int].records@[j as int]));
                        assert(!zone_config_ok(cfg.zones@[i as int]));
                        assert(!server_config_ok(*cfg));
                    }
                    return Err(ErrorKind::InvalidConfig);
                },
            };
            let rtype = get_ip_addr_record_type(&data);
            static_records.push(
                DnsRecord { name, rtype, class: DnsClass::In, ttl: 30, data },
            );
            j = j + 1;
        }
        let nn = cfg.nameservers.len();
        let mut upstreams: Vec<SocketSpec> = Vec::new();
        let mut u: usize = 0;
        while u < nn
            invariant
                u <= nn,
                nn == cfg.nameservers@.len(),
                upstreams@.len() == u,
                forall|k: int|
                    0 <= k < u ==> #[trigger] upstreams@[k] == spec_parse_socket(
                        cfg.nameservers@[k]@,
                        53,
                    ).unwrap(),
                forall|k: int|
                    0 <= k < u ==> spec_parse_socket(#[trigger] cfg.nameservers@[k]@, 53) is Some,
            decreases nn - u,
        {
            let sock = match parse_ip_optional_socket(cfg.nameservers[u].as_str(), 53) {
                Ok(s) => s,
                Err(_) => {
                    proof {
                        assert(spec_parse_socket(cfg.nameservers@[u as int]@, 53) is None);
                        assert(!nameservers_ok(cfg.nameservers@));
                        assert(!server_config_ok(*cfg));
                    }
                    return Err(ErrorKind::InvalidConfig);
                },
            };
            upstreams.push(sock);
            u = u + 1;
        }
        let in_memory_authority = StaticAuthority { records: static_records };
        let sqlite_authority = SqliteAuthority {
            origin: zone_config.name.clone(),
            zone_type: ZoneType::Primary,
        };
        let split = SplitAuthority {
            origin: zone_config.name.clone(),
            in_memory_authority,
            sqlite_authority,
            upstreams,
        };
        proof {
            assert(split.in_memory_authority.recs() =~= spec_zone_static(cfg.zones@[i as int]));
            assert(split.upstreams@ =~= spec_upstreams(cfg.nameservers@));
        }
        zones.push(split);
        i = i + 1;
    }
    if nz == 0 {
        // With no zones there are no records and no per-zone upstream parse;
        // an empty catalog accepts any nameserver list only if it parses.
        let nn = cfg.nameservers.len();
        let mut u: usize = 0;
        while u < nn
            invariant
                u <= nn,
                nn == cfg.nameservers@.len(),
                forall|k: int|
                    0 <= k < u ==> spec_parse_socket(#[trigger] cfg.nameservers@[k]@, 53) is Some,
            decreases nn - u,
        {
            match parse_ip_optional_socket(cfg.nameservers[u].as_str(), 53) {
                Ok(_) => {},
                Err(_) => {
                    proof {
                        assert(spec_parse_socket(cfg.nameservers@[u as int]@, 53) is None);
                        assert(!nameservers_ok(cfg.nameservers@));
                        assert(!server_config_ok(*cfg));
                    }
                    return Err(ErrorKind::InvalidConfig);
                },
            }
            u = u + 1;
        }
    }
    Ok(Catalog { zones })
}

} // verus!
