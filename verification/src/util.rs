//! Small shared helpers: the wall clock, record-data validation, rendering a
//! configured record key against its zone apex, and parsing of nameserver
//! endpoints (an IP with an optional port).

use vstd::prelude::*;
use crate::ErrorKind;
use crate::RecordType;
use crate::ip::DnsData;
use crate::ip::dec_val;
use crate::ip::is_dec_digit;
use crate::ip::parse_ip;
use crate::ip::parse_ipv4;
use crate::ip::parse_ipv6;
use crate::ip::spec_family;
use crate::ip::spec_parse_ip;
use crate::ip::spec_parse_ipv4;
use crate::ip::spec_parse_ipv6;
use crate::text::split_chars;
use crate::text::split_str;

verus! {

/// Relies on time::OffsetDateTime::now_utc: the wall clock, read as unix
/// seconds. Nothing is promised of its value.
#[verifier::external_body]
pub(crate) fn now_unix() -> i64 {
    time::OffsetDateTime::now_utc().unix_timestamp()
}

/// Parses `value` as an IP literal of either family; a value that parses as
/// neither is an invalid argument.
pub fn create_record_data(value: &str) -> (r: Result<DnsData, ErrorKind>)
    ensures
        match spec_parse_ip(value@) {
            Some(d) => r == Ok::<DnsData, ErrorKind>(d),
            None => r == Err::<DnsData, ErrorKind>(ErrorKind::InvalidArgument),
        },
{
    match parse_ip(value) {
        Some(d) => Ok(d),
        None => Err(ErrorKind::InvalidArgument),
    }
}

/// The record type under which an IP value is served: `A` for IPv4, `AAAA`
/// for IPv6.
pub fn get_ip_addr_record_type(data: &DnsData) -> (r: RecordType)
    ensures
        r == spec_family(*data),
{
    match data {
        DnsData::V4(..) => RecordType::A,
        DnsData::V6(..) => RecordType::AAAA,
    }
}

/// The name a configured record key denotes: the zone apex for `@`, else the
/// key as a label prepended to the apex.
pub open spec fn spec_render_name(key: Seq<char>, apex: Seq<char>) -> Seq<char> {
    if key == "@"@ {
        apex
    } else {
        key + "."@ + apex
    }
}

/// Renders a configured record key against the zone apex.
pub fn render_record_name(key: &str, zone_name: &str) -> (r: String)
    ensures
        r@ == spec_render_name(key@, zone_name@),
{
    proof {
        reveal_strlit("@");
        reveal_strlit(".");
    }
    let n: usize = key.unicode_len();
    if n == 1 && key.get_char(0) == '@' {
        proof {
            assert(key@ =~= "@"@);
        }
        String::from_str(zone_name)
    } else {
        proof {
            assert(key@ != "@"@);
        }
        String::from_str(key).concat(".").concat(zone_name)
    }
}

/// The value of `s` read as a decimal numeral.
pub open spec fn dec_seq_val(s: Seq<char>) -> int
    decreases s.len(),
{
    if s.len() == 0 {
        0
    } else {
        dec_seq_val(s.drop_last()) * 10 + dec_val(s.last())
    }
}

pub open spec fn all_dec(s: Seq<char>) -> bool {
    forall|i: int| 0 <= i < s.len() ==> is_dec_digit(s[i])
}

spec fn pow10(n: nat) -> int
    decreases n,
{
    if n == 0 {
        1
    } else {
        10 * pow10((n - 1) as nat)
    }
}

proof fn lemma_dec_seq_val_bound(s: Seq<char>)
    requires
        all_dec(s),
    ensures
        0 <= dec_seq_val(s) < pow10(s.len()),
    decreases s.len(),
{
    if s.len() > 0 {
        assert(all_dec(s.drop_last()));
        lemma_dec_seq_val_bound(s.drop_last());
        assert(0 <= dec_val(s.last()) < 10);
    }
}

/// A port numeral: one to five decimal digits, value at most 65535.
pub open spec fn spec_parse_port(s: Seq<char>) -> Option<u16> {
    if 1 <= s.len() <= 5 && all_dec(s) && dec_seq_val(s) <= 65535 {
        Some(dec_seq_val(s) as u16)
    } else {
        None
    }
}

/// Parses a port numeral.
pub fn parse_port(s: &str) -> (r: Option<u16>)
    ensures
        r == spec_parse_port(s@),
{
    let n: usize = s.unicode_len();
    if n < 1 || n > 5 {
        return None;
    }
    let mut val: u32 = 0;
    let mut i: usize = 0;
    while i < n
        invariant
            i <= n,
            n == s@.len(),
            1 <= n <= 5,
            all_dec(s@.subrange(0, i as int)),
            val == dec_seq_val(s@.subrange(0, i as int)),
            val < 100000,
        decreases n - i,
    {
        let c = s.get_char(i) as u32;
        if c < 48 || c > 57 {
            proof {
                assert(!is_dec_digit(s@[i as int]));
                assert(!all_dec(s@));
            }
            return None;
        }
        proof {
            let prefix = s@.subrange(0, i as int);
            let next = s@.subrange(0, i as int + 1);
            assert(next.drop_last() =~= prefix);
            assert(next.last() == s@[i as int]);
            assert(all_dec(next));
            lemma_dec_seq_val_bound(next);
            assert(next.len() <= 5);
            assert(pow10(next.len()) <= pow10(5)) by {
                reveal_with_fuel(pow10, 6);
            }
            assert(pow10(5) == 100000) by {
                reveal_with_fuel(pow10, 6);
            }
        }
        val = val * 10 + (c - 48);
        i = i + 1;
    }
    proof {
        assert(s@.subrange(0, n as int) =~= s@);
    }
    if val > 65535 {
        return None;
    }
    Some(val as u16)
}

/// A nameserver endpoint: an address and a port.
#[derive(Clone, Copy, PartialEq, Eq, Structural, Debug)]
pub struct SocketSpec {
    pub ip: DnsData,
    pub port: u16,
}

/// The index of the first occurrence of `c` in `s`, if any.
pub open spec fn find_char(s: Seq<char>, c: char) -> Option<int>
    decreases s.len(),
{
    if s.len() == 0 {
        None
    } else if s[0] == c {
        Some(0)
    } else {
        match find_char(s.drop_first(), c) {
            None => None,
            Some(k) => Some(k + 1),
        }
    }
}

proof fn lemma_find_char_at(s: Seq<char>, c: char, i: int)
    requires
        0 <= i < s.len(),
        s[i] == c,
        forall|j: int| 0 <= j < i ==> s[j] != c,
    ensures
        find_char(s, c) == Some(i),
    decreases s.len(),
{
    if i > 0 {
        lemma_find_char_at(s.drop_first(), c, i - 1);
    }
}

proof fn lemma_find_char_none(s: Seq<char>, c: char)
    requires
        forall|j: int| 0 <= j < s.len() ==> s[j] != c,
    ensures
        find_char(s, c) is None,
    decreases s.len(),
{
    if s.len() > 0 {
        lemma_find_char_none(s.drop_first(), c);
    }
}

/// A nameserver endpoint literal: a bare IP of either family, which takes the
/// default port; a bracketed IPv6 with a port; or an IPv4 with a port.
pub open spec fn spec_parse_socket(s: Seq<char>, default_port: u16) -> Option<SocketSpec> {
    if spec_parse_ip(s) is Some {
        Some(SocketSpec { ip: spec_parse_ip(s).unwrap(), port: default_port })
    } else if s.len() > 0 && s[0] == '[' {
        match find_char(s, ']') {
            Some(j) => if j + 1 < s.len() && s[j + 1] == ':' {
                match spec_parse_ipv6(s.subrange(1, j)) {
                    Some(g) => match spec_parse_port(s.subrange(j + 2, s.len() as int)) {
                        Some(p) => Some(
                            SocketSpec {
                                ip: DnsData::V6(g[0], g[1], g[2], g[3], g[4], g[5], g[6], g[7]),
                                port: p,
                            },
                        ),
                        None => None,
                    },
                    None => None,
                }
            } else {
                None
            },
            None => None,
        }
    } else {
        let parts = split_chars(s, ':');
        if parts.len() == 2 {
            match spec_parse_ipv4(parts[0]) {
                Some((a, b, c, d)) => match spec_parse_port(parts[1]) {
                    Some(p) => Some(SocketSpec { ip: DnsData::V4(a, b, c, d), port: p }),
                    None => None,
                },
                None => None,
            }
        } else {
            None
        }
    }
}

/// Parses a nameserver endpoint, supplying `default_port` when the literal
/// carries none. A literal in no accepted shape is an invalid configuration.
pub fn parse_ip_optional_socket(value: &str, default_port: u16) -> (r: Result<
    SocketSpec,
    ErrorKind,
>)
    ensures
        match spec_parse_socket(value@, default_port) {
            Some(sock) => r == Ok::<SocketSpec, ErrorKind>(sock),
            None => r == Err::<SocketSpec, ErrorKind>(ErrorKind::InvalidConfig),
        },
{
    if let Some(ip) = parse_ip(value) {
        return Ok(SocketSpec { ip, port: default_port });
    }
    let n: usize = value.unicode_len();
    if n > 0 && value.get_char(0) == '[' {
        // Bracketed IPv6 with a port.
        let mut j: usize = 0;
        let mut found = false;
        while j < n && !found
            invariant
                j <= n,
                n == value@.len(),
                !found ==> forall|k: int| 0 <= k < j ==> value@[k] != ']',
                found ==> j < n && value@[j as int] == ']' && forall|k: int|
                    0 <= k < j ==> value@[k] != ']',
            decreases n - j + (if found {
                0int
            } else {
                1int
            }),
        {
            if value.get_char(j) == ']' {
                found = true;
            } else {
                j = j + 1;
            }
        }
        if !found {
            proof {
                lemma_find_char_none(value@, ']');
            }
            return Err(ErrorKind::InvalidConfig);
        }
        proof {
            lemma_find_char_at(value@, ']', j as int);
        }
        if j + 1 >= n || value.get_char(j + 1) != ':' {
            return Err(ErrorKind::InvalidConfig);
        }
        let inner = value.substring_char(1, j);
        let port_text = value.substring_char(j + 2, n);
        match parse_ipv6(inner) {
            Some(g) => match parse_port(port_text) {
                Some(p) => Ok(
                    SocketSpec {
                        ip: DnsData::V6(g[0], g[1], g[2], g[3], g[4], g[5], g[6], g[7]),
                        port: p,
                    },
                ),
                None => Err(ErrorKind::InvalidConfig),
            },
            None => Err(ErrorKind::InvalidConfig),
        }
    } else {
        // An IPv4 with a port.
        let parts = split_str(value, ':');
        proof {
            assert(parts.deep_view() == split_chars(value@, ':'));
        }
        if parts.len() != 2 {
            return Err(ErrorKind::InvalidConfig);
        }
        proof {
            assert(parts.deep_view()[0] == parts@[0]@);
            assert(parts.deep_view()[1] == parts@[1]@);
        }
        match parse_ipv4(parts[0].as_str()) {
            Some((a, b, c, d)) => match parse_port(parts[1].as_str()) {
                Some(p) => Ok(SocketSpec { ip: DnsData::V4(a, b, c, d), port: p }),
                None => Err(ErrorKind::InvalidConfig),
            },
            None => Err(ErrorKind::InvalidConfig),
        }
    }
}

/// The address to bind when none is configured: the all-zero address of the
/// requested family, `ipv4` when no family is named.
pub open spec fn spec_unspecified_addr(proto: Option<Seq<char>>) -> Option<DnsData> {
    match proto {
        None => Some(DnsData::V4(0, 0, 0, 0)),
        Some(p) => if p == "ipv4"@ {
            Some(DnsData::V4(0, 0, 0, 0))
        } else if p == "ipv6"@ {
            Some(DnsData::V6(0, 0, 0, 0, 0, 0, 0, 0))
        } else {
            None
        },
    }
}

/// Whether `s` is exactly `ipv4`.
pub fn is_word_ipv4(s: &str) -> (r: bool)
    ensures
        r == (s@ == "ipv4"@),
{
    proof {
        reveal_strlit("ipv4");
    }
    let n: usize = s.unicode_len();
    if n == 4 && s.get_char(0) == 'i' && s.get_char(1) == 'p' && s.get_char(2) == 'v'
        && s.get_char(3) == '4' {
        proof {
            assert(s@ =~= "ipv4"@);
        }
        true
    } else {
        proof {
            assert(s@ != "ipv4"@);
        }
        false
    }
}

/// Whether `s` is exactly `ipv6`.
pub fn is_word_ipv6(s: &str) -> (r: bool)
    ensures
        r == (s@ == "ipv6"@),
{
    proof {
        reveal_strlit("ipv6");
    }
    let n: usize = s.unicode_len();
    if n == 4 && s.get_char(0) == 'i' && s.get_char(1) == 'p' && s.get_char(2) == 'v'
        && s.get_char(3) == '6' {
        proof {
            assert(s@ =~= "ipv6"@);
        }
        true
    } else {
        proof {
            assert(s@ != "ipv6"@);
        }
        false
    }
}

/// The listening endpoint: a configured bind address with the given port, or
/// the all-zero address of the requested protocol family.
pub fn get_socket_addr(bind: Option<&DnsData>, port: u16, proto: Option<&str>) -> (r: Result<
    SocketSpec,
    ErrorKind,
>)
    ensures
        match bind {
            Some(addr) => r == Ok::<SocketSpec, ErrorKind>(SocketSpec { ip: *addr, port }),
            None => match spec_unspecified_addr(
                match proto {
                    Some(p) => Some(p@),
                    None => None,
                },
            ) {
                Some(addr) => r == Ok::<SocketSpec, ErrorKind>(SocketSpec { ip: addr, port }),
                None => r == Err::<SocketSpec, ErrorKind>(ErrorKind::InvalidConfig),
            },
        },
{
    match bind {
        Some(addr) => Ok(SocketSpec { ip: *addr, port }),
        None => {
            match proto {
                None => Ok(SocketSpec { ip: DnsData::V4(0, 0, 0, 0), port }),
                Some(p) => {
                    if is_word_ipv4(p) {
                        Ok(SocketSpec { ip: DnsData::V4(0, 0, 0, 0), port })
                    } else if is_word_ipv6(p) {
                        Ok(SocketSpec { ip: DnsData::V6(0, 0, 0, 0, 0, 0, 0, 0), port })
                    } else {
                        Err(ErrorKind::InvalidConfig)
                    }
                },
            }
        },
    }
}

} // verus!
