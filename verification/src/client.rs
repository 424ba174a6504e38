//! The decisions of the update client: which interface address to publish,
//! which server to call, and the upsert request to send. Resolving interface
//! addresses and carrying the call happen outside the core.

use vstd::prelude::*;
use crate::ErrorKind;
use crate::RecordType;
use crate::config::ClientConfig;
use crate::config::ClientRecordConfig;
use crate::ip::DnsData;
use crate::ip::parse_ip;
use crate::ip::spec_family;
use crate::ip::spec_parse_ip;
use crate::proto::UpsertRecordRequest;
use crate::text::eq_ignore_case;
use crate::text::str_eq_ci;
use crate::util::get_ip_addr_record_type;

verus! {

/// One network interface as handed in: its name and the literal of its
/// address.
#[derive(Debug)]
pub struct NetInterface {
    pub name: String,
    pub addr: String,
}

/// The mathematical image of one interface.
pub ghost struct NetIfView {
    pub name: Seq<char>,
    pub addr: Seq<char>,
}

impl View for NetInterface {
    type V = NetIfView;

    open spec fn view(&self) -> NetIfView {
        NetIfView { name: self.name@, addr: self.addr@ }
    }
}

impl DeepView for NetInterface {
    type V = NetIfView;

    open spec fn deep_view(&self) -> NetIfView {
        self.view()
    }
}

/// The address family a requested protocol word denotes: `ipv4` and `ipv6`,
/// compared without regard to ASCII case; an absent word means `ipv4`.
pub open spec fn spec_desired_family(protocol: Option<Seq<char>>) -> Option<RecordType> {
    match protocol {
        None => Some(RecordType::A),
        Some(p) => if str_eq_ci(p, "ipv4"@) {
            Some(RecordType::A)
        } else if str_eq_ci(p, "ipv6"@) {
            Some(RecordType::AAAA)
        } else {
            None
        },
    }
}

/// Whether an interface entry serves the request: its name matches up to
/// ASCII case and its address is an IP literal of the desired family.
pub open spec fn iface_entry_matches(e: NetIfView, iface: Seq<char>, desired: RecordType) -> bool {
    &&& str_eq_ci(e.name, iface)
    &&& spec_parse_ip(e.addr) is Some
    &&& spec_family(spec_parse_ip(e.addr).unwrap()) == desired
}

/// The address of the first matching interface entry, if any.
pub open spec fn spec_select_iface(
    ifaces: Seq<NetIfView>,
    iface: Seq<char>,
    desired: RecordType,
) -> Option<DnsData>
    decreases ifaces.len(),
{
    if ifaces.len() == 0 {
        None
    } else if iface_entry_matches(ifaces[0], iface, desired) {
        Some(spec_parse_ip(ifaces[0].addr).unwrap())
    } else {
        spec_select_iface(ifaces.drop_first(), iface, desired)
    }
}

proof fn lemma_select_iface_at(
    ifaces: Seq<NetIfView>,
    iface: Seq<char>,
    desired: RecordType,
    i: int,
)
    requires
        0 <= i < ifaces.len(),
        iface_entry_matches(ifaces[i], iface, desired),
        forall|j: int| 0 <= j < i ==> !iface_entry_matches(ifaces[j], iface, desired),
    ensures
        spec_select_iface(ifaces, iface, desired) == Some(
            spec_parse_ip(ifaces[i].addr).unwrap(),
        ),
    decreases ifaces.len(),
{
    if i > 0 {
        lemma_select_iface_at(ifaces.drop_first(), iface, desired, i - 1);
    }
}

proof fn lemma_select_iface_none(ifaces: Seq<NetIfView>, iface: Seq<char>, desired: RecordType)
    requires
        forall|j: int| 0 <= j < ifaces.len() ==> !iface_entry_matches(ifaces[j], iface, desired),
    ensures
        spec_select_iface(ifaces, iface, desired) is None,
    decreases ifaces.len(),
{
    if ifaces.len() > 0 {
        lemma_select_iface_none(ifaces.drop_first(), iface, desired);
    }
}

/// Picks the address of the named interface in the requested family: the
/// first matching entry wins. An unknown protocol word is an invalid
/// configuration; a missing interface is not found.
pub fn select_iface_addr(
    interfaces: &Vec<NetInterface>,
    iface: &str,
    protocol: Option<&str>,
) -> (r: Result<DnsData, ErrorKind>)
    ensures
        match spec_desired_family(
            match protocol {
                Some(p) => Some(p@),
                None => None,
            },
        ) {
            None => r == Err::<DnsData, ErrorKind>(ErrorKind::InvalidConfig),
            Some(desired) => match spec_select_iface(interfaces.deep_view(), iface@, desired) {
                Some(d) => r == Ok::<DnsData, ErrorKind>(d),
                None => r == Err::<DnsData, ErrorKind>(ErrorKind::NotFound),
            },
        },
{
    let desired: RecordType = match protocol {
        None => RecordType::A,
        Some(p) => {
            if eq_ignore_case(p, "ipv4") {
                RecordType::A
            } else if eq_ignore_case(p, "ipv6") {
                RecordType::AAAA
            } else {
                return Err(ErrorKind::InvalidConfig);
            }
        },
    };
    let n = interfaces.len();
    let mut i: usize = 0;
    while i < n
        invariant
            i <= n,
            n == interfaces@.len(),
            spec_desired_family(
                match protocol {
                    Some(p) => Some(p@),
                    None => None,
                },
            ) == Some(desired),
            forall|j: int|
                0 <= j < i ==> !iface_entry_matches(interfaces.deep_view()[j], iface@, desired),
        decreases n - i,
    {
        let entry = &interfaces[i];
        proof {
            assert(interfaces.deep_view()[i as int] == interfaces@[i as int]@);
        }
        if eq_ignore_case(entry.name.as_str(), iface) {
            match parse_ip(entry.addr.as_str()) {
                Some(d) => {
                    let family = get_ip_addr_record_type(&d);
                    if family == desired {
                        proof {
                            lemma_select_iface_at(
                                interfaces.deep_view(),
                                iface@,
                                desired,
                                i as int,
                            );
                        }
                        return Ok(d);
                    }
                },
                None => {},
            }
        }
        i = i + 1;
    }
    proof {
        lemma_select_iface_none(interfaces.deep_view(), iface@, desired);
    }
    Err(ErrorKind::NotFound)
}

/// The first of two optional settings, record over default.
pub fn first_some(a: &Option<String>, b: &Option<String>) -> (r: Option<String>)
    ensures
        match a {
            Some(x) => r matches Some(y) && y@ == x@,
            None => match b {
                Some(x) => r matches Some(y) && y@ == x@,
                None => r is None,
            },
        },
{
    match a {
        Some(x) => Some(x.clone()),
        None => match b {
            Some(x) => Some(x.clone()),
            None => None,
        },
    }
}

/// The server a record update is sent to: the record's own URL, else the
/// configured default, else the local API endpoint.
pub fn resolve_server_url(record: &ClientRecordConfig, cfg: &ClientConfig) -> (r: String)
    ensures
        match record.server_url {
            Some(u) => r@ == u@,
            None => match cfg.default_server_url {
                Some(u) => r@ == u@,
                None => r@ == "http://127.0.0.1:8080"@,
            },
        },
{
    match &record.server_url {
        Some(u) => u.clone(),
        None => match &cfg.default_server_url {
            Some(u) => u.clone(),
            None => String::from_str("http://127.0.0.1:8080"),
        },
    }
}

/// The upsert request publishing `ip` under `name`: the record type follows
/// the address family, the TTL is 30 seconds. A value that is no IP literal
/// is an invalid argument.
pub fn build_update_request(name: &str, ip: &str) -> (r: Result<UpsertRecordRequest, ErrorKind>)
    ensures
        match spec_parse_ip(ip@) {
            Some(d) => r is Ok && r.unwrap().name@ == name@ && r.unwrap().rtype@ == spec_family(
                d,
            ).spec_tag() && r.unwrap().value@ == ip@ && r.unwrap().ttl == 30,
            None => r == Err::<UpsertRecordRequest, ErrorKind>(ErrorKind::InvalidArgument),
        },
{
    match parse_ip(ip) {
        Some(d) => {
            let rtype = get_ip_addr_record_type(&d);
            Ok(
                UpsertRecordRequest {
                    name: String::from_str(name),
                    rtype: String::from_str(rtype.tag()),
                    value: String::from_str(ip),
                    ttl: 30,
                },
            )
        },
        None => Err(ErrorKind::InvalidArgument),
    }
}

} // verus!
