//! Textual IP literals. The store keeps record data as text, so the crate
//! fixes an exact grammar for IPv4 (dotted quad, no leading zeros) and IPv6
//! (1-4 hex digit groups separated by `:`, with at most one `::` standing for
//! one or more zero groups) and proves the parsers against it.

use vstd::prelude::*;
use crate::text::split_chars;
use crate::text::split_str;
use crate::RecordType;

verus! {

pub open spec fn is_dec_digit(c: char) -> bool {
    ('0' as int) <= (c as int) && (c as int) <= ('9' as int)
}

pub open spec fn dec_val(c: char) -> int {
    (c as int) - ('0' as int)
}

pub open spec fn is_hex_digit(c: char) -> bool {
    is_dec_digit(c) || (('a' as int) <= (c as int) && (c as int) <= ('f' as int)) || (('A' as int)
        <= (c as int) && (c as int) <= ('F' as int))
}

pub open spec fn hex_val(c: char) -> int {
    if is_dec_digit(c) {
        dec_val(c)
    } else if ('a' as int) <= (c as int) && (c as int) <= ('f' as int) {
        (c as int) - ('a' as int) + 10
    } else {
        (c as int) - ('A' as int) + 10
    }
}

/// The value of `s` read as a hexadecimal numeral.
pub open spec fn hex_seq_val(s: Seq<char>) -> int
    decreases s.len(),
{
    if s.len() == 0 {
        0
    } else {
        hex_seq_val(s.drop_last()) * 16 + hex_val(s.last())
    }
}

pub open spec fn all_hex(s: Seq<char>) -> bool {
    forall|i: int| 0 <= i < s.len() ==> is_hex_digit(s[i])
}

spec fn pow16(n: nat) -> int
    decreases n,
{
    if n == 0 {
        1
    } else {
        16 * pow16((n - 1) as nat)
    }
}

proof fn lemma_hex_seq_val_bound(s: Seq<char>)
    requires
        all_hex(s),
    ensures
        0 <= hex_seq_val(s) < pow16(s.len()),
    decreases s.len(),
{
    if s.len() > 0 {
        assert(all_hex(s.drop_last()));
        lemma_hex_seq_val_bound(s.drop_last());
        assert(0 <= hex_val(s.last()) < 16);
    }
}

/// One IPv6 group: one to four hex digits.
pub open spec fn spec_h16(s: Seq<char>) -> Option<u16> {
    if 1 <= s.len() <= 4 && all_hex(s) {
        Some(hex_seq_val(s) as u16)
    } else {
        None
    }
}

/// Parses one to four hex digits.
pub fn parse_h16(s: &str) -> (r: Option<u16>)
    ensures
        r == spec_h16(s@),
{
    let n: usize = s.unicode_len();
    if n < 1 || n > 4 {
        return None;
    }
    let mut val: u32 = 0;
    let mut i: usize = 0;
    while i < n
        invariant
            i <= n,
            n == s@.len(),
            1 <= n <= 4,
            all_hex(s@.subrange(0, i as int)),
            val == hex_seq_val(s@.subrange(0, i as int)),
            val < 0x10000,
        decreases n - i,
    {
        let c = s.get_char(i) as u32;
        let d: u32 = if 48 <= c && c <= 57 {
            c - 48
        } else if 97 <= c && c <= 102 {
            c - 97 + 10
        } else if 65 <= c && c <= 70 {
            c - 65 + 10
        } else {
            proof {
                assert(!is_hex_digit(s@[i as int]));
                assert(!all_hex(s@));
            }
            return None;
        };
        proof {
            let prefix = s@.subrange(0, i as int);
            let next = s@.subrange(0, i as int + 1);
            assert(next.drop_last() =~= prefix);
            assert(next.last() == s@[i as int]);
            assert(is_hex_digit(s@[i as int]) && hex_val(s@[i as int]) == d);
            assert(all_hex(next));
            lemma_hex_seq_val_bound(next);
            assert(next.len() <= 4);
            assert(pow16(next.len()) <= pow16(4)) by {
                reveal_with_fuel(pow16, 5);
            }
            assert(pow16(4) == 0x10000) by {
                reveal_with_fuel(pow16, 5);
            }
        }
        val = val * 16 + d;
        i = i + 1;
    }
    proof {
        assert(s@.subrange(0, n as int) =~= s@);
    }
    Some(val as u16)
}

/// One IPv4 octet: one to three decimal digits, value at most 255, with no
/// leading zero.
pub open spec fn spec_dec_octet(s: Seq<char>) -> Option<u8> {
    if s.len() == 1 && is_dec_digit(s[0]) {
        Some(dec_val(s[0]) as u8)
    } else if s.len() == 2 && is_dec_digit(s[0]) && is_dec_digit(s[1]) && dec_val(s[0]) != 0 {
        Some((dec_val(s[0]) * 10 + dec_val(s[1])) as u8)
    } else if s.len() == 3 && is_dec_digit(s[0]) && is_dec_digit(s[1]) && is_dec_digit(s[2])
        && dec_val(s[0]) != 0 && dec_val(s[0]) * 100 + dec_val(s[1]) * 10 + dec_val(s[2]) <= 255 {
        Some((dec_val(s[0]) * 100 + dec_val(s[1]) * 10 + dec_val(s[2])) as u8)
    } else {
        None
    }
}

/// Parses one decimal octet.
pub fn parse_dec_octet(s: &str) -> (r: Option<u8>)
    ensures
        r == spec_dec_octet(s@),
{
    let n: usize = s.unicode_len();
    if n == 0 || n > 3 {
        return None;
    }
    let c0 = s.get_char(0) as u32;
    if c0 < 48 || c0 > 57 {
        return None;
    }
    if n == 1 {
        return Some((c0 - 48) as u8);
    }
    if c0 == 48 {
        return None;
    }
    let c1 = s.get_char(1) as u32;
    if c1 < 48 || c1 > 57 {
        return None;
    }
    if n == 2 {
        return Some(((c0 - 48) * 10 + (c1 - 48)) as u8);
    }
    let c2 = s.get_char(2) as u32;
    if c2 < 48 || c2 > 57 {
        return None;
    }
    let v: u32 = (c0 - 48) * 100 + (c1 - 48) * 10 + (c2 - 48);
    if v > 255 {
        return None;
    }
    Some(v as u8)
}

/// An IPv4 literal: four decimal octets joined by dots.
pub open spec fn spec_parse_ipv4(s: Seq<char>) -> Option<(u8, u8, u8, u8)> {
    let parts = split_chars(s, '.');
    if parts.len() == 4 && spec_dec_octet(parts[0]) is Some && spec_dec_octet(parts[1]) is Some
        && spec_dec_octet(parts[2]) is Some && spec_dec_octet(parts[3]) is Some {
        Some(
            (
                spec_dec_octet(parts[0]).unwrap(),
                spec_dec_octet(parts[1]).unwrap(),
                spec_dec_octet(parts[2]).unwrap(),
                spec_dec_octet(parts[3]).unwrap(),
            ),
        )
    } else {
        None
    }
}

/// Parses an IPv4 literal.
pub fn parse_ipv4(s: &str) -> (r: Option<(u8, u8, u8, u8)>)
    ensures
        r == spec_parse_ipv4(s@),
{
    let parts = split_str(s, '.');
    proof {
        assert(parts.deep_view() == split_chars(s@, '.'));
    }
    if parts.len() != 4 {
        return None;
    }
    proof {
        assert(parts.deep_view()[0] == parts@[0]@);
        assert(parts.deep_view()[1] == parts@[1]@);
        assert(parts.deep_view()[2] == parts@[2]@);
        assert(parts.deep_view()[3] == parts@[3]@);
    }
    let a = match parse_dec_octet(parts[0].as_str()) {
        Some(v) => v,
        None => {
            return None;
        },
    };
    let b = match parse_dec_octet(parts[1].as_str()) {
        Some(v) => v,
        None => {
            return None;
        },
    };
    let c = match parse_dec_octet(parts[2].as_str()) {
        Some(v) => v,
        None => {
            return None;
        },
    };
    let d = match parse_dec_octet(parts[3].as_str()) {
        Some(v) => v,
        None => {
            return None;
        },
    };
    Some((a, b, c, d))
}

/// The index of the first empty piece, if any.
pub open spec fn first_empty(parts: Seq<Seq<char>>) -> Option<int>
    decreases parts.len(),
{
    if parts.len() == 0 {
        None
    } else if parts[0].len() == 0 {
        Some(0)
    } else {
        match first_empty(parts.drop_first()) {
            None => None,
            Some(k) => Some(k + 1),
        }
    }
}

proof fn lemma_first_empty_at(parts: Seq<Seq<char>>, i: int)
    requires
        0 <= i < parts.len(),
        parts[i].len() == 0,
        forall|j: int| 0 <= j < i ==> parts[j].len() != 0,
    ensures
        first_empty(parts) == Some(i),
    decreases parts.len(),
{
    if i > 0 {
        lemma_first_empty_at(parts.drop_first(), i - 1);
    }
}

proof fn lemma_first_empty_none(parts: Seq<Seq<char>>)
    requires
        forall|j: int| 0 <= j < parts.len() ==> parts[j].len() != 0,
    ensures
        first_empty(parts) is None,
    decreases parts.len(),
{
    if parts.len() > 0 {
        lemma_first_empty_none(parts.drop_first());
    }
}

/// Whether each piece in `[lo, hi)` is a valid IPv6 group.
pub open spec fn all_h16(parts: Seq<Seq<char>>, lo: int, hi: int) -> bool {
    forall|i: int| lo <= i < hi ==> spec_h16(parts[i]) is Some
}

/// The group values of the pieces in `[lo, hi)`.
pub open spec fn groups_of(parts: Seq<Seq<char>>, lo: int, hi: int) -> Seq<u16> {
    parts.subrange(lo, hi).map_values(|p: Seq<char>| spec_h16(p).unwrap())
}

pub open spec fn zero_groups(k: int) -> Seq<u16> {
    Seq::new(k as nat, |i: int| 0u16)
}

/// An IPv6 literal over its `:`-separated pieces. Exactly eight groups, or a
/// single `::` standing for the missing all-zero groups.
pub open spec fn spec_parse_ipv6(s: Seq<char>) -> Option<Seq<u16>> {
    let parts = split_chars(s, ':');
    let n = parts.len() as int;
    match first_empty(parts) {
        None => if n == 8 && all_h16(parts, 0, 8) {
            Some(groups_of(parts, 0, 8))
        } else {
            None
        },
        Some(e) => if e == 0 {
            if n == 3 && parts[1].len() == 0 && parts[2].len() == 0 {
                Some(zero_groups(8))
            } else if n >= 3 && parts[1].len() == 0 && n - 2 <= 7 && all_h16(parts, 2, n) {
                Some(zero_groups(8 - (n - 2)) + groups_of(parts, 2, n))
            } else {
                None
            }
        } else if e == n - 2 && parts[n - 1].len() == 0 {
            if n >= 3 && n - 2 <= 7 && all_h16(parts, 0, n - 2) {
                Some(groups_of(parts, 0, n - 2) + zero_groups(8 - (n - 2)))
            } else {
                None
            }
        } else if 1 <= e <= n - 2 && n - 1 <= 7 && all_h16(parts, 0, e) && all_h16(
            parts,
            e + 1,
            n,
        ) {
            Some(groups_of(parts, 0, e) + zero_groups(8 - (n - 1)) + groups_of(parts, e + 1, n))
        } else {
            None
        },
    }
}

/// Parses the pieces in `[lo, hi)` as IPv6 groups.
fn parse_groups(parts: &Vec<String>, lo: usize, hi: usize) -> (r: Option<Vec<u16>>)
    requires
        lo <= hi <= parts@.len(),
    ensures
        match r {
            Some(v) => all_h16(parts.deep_view(), lo as int, hi as int) && v@ == groups_of(
                parts.deep_view(),
                lo as int,
                hi as int,
            ),
            None => !all_h16(parts.deep_view(), lo as int, hi as int),
        },
{
    let mut acc: Vec<u16> = Vec::new();
    let mut i: usize = lo;
    while i < hi
        invariant
            lo <= i <= hi <= parts@.len(),
            all_h16(parts.deep_view(), lo as int, i as int),
            acc@ == groups_of(parts.deep_view(), lo as int, i as int),
        decreases hi - i,
    {
        proof {
            assert(parts.deep_view()[i as int] == parts@[i as int]@);
        }
        match parse_h16(parts[i].as_str()) {
            Some(v) => {
                acc.push(v);
                proof {
                    assert(groups_of(parts.deep_view(), lo as int, i as int + 1) =~= groups_of(
                        parts.deep_view(),
                        lo as int,
                        i as int,
                    ) + seq![spec_h16(parts.deep_view()[i as int]).unwrap()]);
                }
            },
            None => {
                return None;
            },
        }
        i = i + 1;
    }
    Some(acc)
}

/// Parses an IPv6 literal into its eight groups.
pub fn parse_ipv6(s: &str) -> (r: Option<Vec<u16>>)
    ensures
        match r {
            Some(v) => spec_parse_ipv6(s@) == Some(v@) && v@.len() == 8,
            None => spec_parse_ipv6(s@) is None,
        },
{
    let parts = split_str(s, ':');
    let n = parts.len();
    proof {
        assert(parts.deep_view() == split_chars(s@, ':'));
        assert(parts.deep_view().len() == n);
    }
    // Find the first empty piece.
    let mut e: usize = 0;
    let mut found = false;
    while e < n && !found
        invariant
            e <= n,
            n == parts@.len(),
            !found ==> forall|j: int| 0 <= j < e ==> parts.deep_view()[j].len() != 0,
            found ==> e < n && parts.deep_view()[e as int].len() == 0 && forall|j: int|
                0 <= j < e ==> parts.deep_view()[j].len() != 0,
        decreases n - e + (if found {
            0int
        } else {
            1int
        }),
    {
        proof {
            assert(parts.deep_view()[e as int] == parts@[e as int]@);
        }
        if parts[e].as_str().unicode_len() == 0 {
            found = true;
        } else {
            e = e + 1;
        }
    }
    let ghost pdv = parts.deep_view();
    if !found {
        proof {
            lemma_first_empty_none(pdv);
        }
        if n != 8 {
            return None;
        }
        return parse_groups(&parts, 0, 8);
    }
    proof {
        lemma_first_empty_at(pdv, e as int);
    }
    if e == 0 {
        if n < 3 {
            return None;
        }
        proof {
            assert(pdv[1] == parts@[1]@);
            assert(pdv[n - 1] == parts@[n - 1]@);
            assert(pdv[2] == parts@[2]@);
        }
        if parts[1].as_str().unicode_len() != 0 {
            return None;
        }
        if n == 3 && parts[2].as_str().unicode_len() == 0 {
            let mut v: Vec<u16> = Vec::new();
            let mut k: usize = 0;
            while k < 8
                invariant
                    k <= 8,
                    v@ =~= zero_groups(k as int),
                decreases 8 - k,
            {
                v.push(0u16);
                proof {
                    assert(v@ =~= zero_groups(k as int + 1));
                }
                k = k + 1;
            }
            proof {
                assert(v@ =~= zero_groups(8));
            }
            return Some(v);
        }
        if n - 2 > 7 {
            return None;
        }
        match parse_groups(&parts, 2, n) {
            Some(tail) => {
                // "::" must stand for at least one zero group, and with
                // n >= 3 and one piece parsed the tail has n - 2 >= 1 groups.
                let mut v: Vec<u16> = Vec::new();
                let fill = 8 - (n - 2);
                let mut k: usize = 0;
                while k < fill
                    invariant
                        k <= fill,
                        v@ =~= zero_groups(k as int),
                    decreases fill - k,
                {
                    v.push(0u16);
                    proof {
                        assert(v@ =~= zero_groups(k as int + 1));
                    }
                    k = k + 1;
                }
                let mut t: usize = 0;
                let ghost tail_seq = tail@;
                while t < tail.len()
                    invariant
                        t <= tail@.len(),
                        tail@ == tail_seq,
                        v@ =~= zero_groups(fill as int) + tail_seq.subrange(0, t as int),
                        fill == 8 - (n - 2),
                        n == parts@.len(),
                        3 <= n,
                        n - 2 <= 7,
                    decreases tail@.len() - t,
                {
                    v.push(tail[t]);
                    proof {
                        assert(v@ =~= zero_groups(fill as int) + tail_seq.subrange(
                            0,
                            t as int + 1,
                        ));
                    }
                    t = t + 1;
                }
                proof {
                    assert(tail_seq.subrange(0, tail_seq.len() as int) =~= tail_seq);
                    assert(v@ =~= zero_groups(fill as int) + tail_seq);
                    assert(tail_seq.len() == n - 2);
                }
                return Some(v);
            },
            None => {
                return None;
            },
        }
    }
    // e >= 1 here.
    proof {
        assert(pdv[n - 1] == parts@[n - 1]@);
    }
    let last_empty = parts[n - 1].as_str().unicode_len() == 0;
    if e == n - 2 && last_empty {
        if n < 3 || n - 2 > 7 {
            return None;
        }
        match parse_groups(&parts, 0, n - 2) {
            Some(head) => {
                let mut v = head;
                let fill = 8 - (n - 2);
                let ghost head_seq = v@;
                let mut k: usize = 0;
                while k < fill
                    invariant
                        k <= fill,
                        v@ =~= head_seq + zero_groups(k as int),
                    decreases fill - k,
                {
                    v.push(0u16);
                    proof {
                        assert(v@ =~= head_seq + zero_groups(k as int + 1));
                    }
                    k = k + 1;
                }
                proof {
                    assert(head_seq.len() == n - 2);
                }
                return Some(v);
            },
            None => {
                return None;
            },
        }
    }
    if e > n - 2 {
        // A single trailing empty piece: a lone `:` at the end.
        return None;
    }
    // Middle compression: head, one empty piece, tail.
    if n - 1 > 7 {
        return None;
    }
    if last_empty {
        // The tail would hold an empty piece other than the one at `e`.
        proof {
            assert(!all_h16(pdv, e as int + 1, n as int)) by {
                assert(spec_h16(pdv[n - 1]) is None);
            }
        }
        return None;
    }
    match parse_groups(&parts, 0, e) {
        Some(head) => {
            match parse_groups(&parts, e + 1, n) {
                Some(tail) => {
                    let mut v = head;
                    let fill = 8 - (n - 1);
                    let ghost head_seq = v@;
                    let ghost tail_seq = tail@;
                    let mut k: usize = 0;
                    while k < fill
                        invariant
                            k <= fill,
                            v@ =~= head_seq + zero_groups(k as int),
                        decreases fill - k,
                    {
                        v.push(0u16);
                        proof {
                            assert(v@ =~= head_seq + zero_groups(k as int + 1));
                        }
                        k = k + 1;
                    }
                    let mut t: usize = 0;
                    while t < tail.len()
                        invariant
                            t <= tail@.len(),
                            tail@ == tail_seq,
                            v@ =~= head_seq + zero_groups(fill as int) + tail_seq.subrange(
                                0,
                                t as int,
                            ),
                            fill == 8 - (n - 1),
                            n == parts@.len(),
                            n - 1 <= 7,
                        decreases tail@.len() - t,
                    {
                        v.push(tail[t]);
                        proof {
                            assert(v@ =~= head_seq + zero_groups(fill as int) + tail_seq.subrange(
                                0,
                                t as int + 1,
                            ));
                        }
                        t = t + 1;
                    }
                    proof {
                        assert(tail_seq.subrange(0, tail_seq.len() as int) =~= tail_seq);
                        assert(head_seq.len() == e);
                        assert(tail_seq.len() == n - (e + 1));
                    }
                    return Some(v);
                },
                None => {
                    return None;
                },
            }
        },
        None => {
            return None;
        },
    }
}

/// A parsed IP value: four IPv4 octets or eight IPv6 groups.
#[derive(Clone, Copy, PartialEq, Eq, Structural, Debug)]
pub enum DnsData {
    V4(u8, u8, u8, u8),
    V6(u16, u16, u16, u16, u16, u16, u16, u16),
}

/// The address family of a parsed IP value.
pub open spec fn spec_family(d: DnsData) -> RecordType {
    match d {
        DnsData::V4(..) => RecordType::A,
        DnsData::V6(..) => RecordType::AAAA,
    }
}

/// An IP literal of either family. IPv4 is tried first; an IPv4 literal never
/// contains `:` and so never parses as IPv6.
pub open spec fn spec_parse_ip(s: Seq<char>) -> Option<DnsData> {
    match spec_parse_ipv4(s) {
        Some((a, b, c, d)) => Some(DnsData::V4(a, b, c, d)),
        None => match spec_parse_ipv6(s) {
            Some(g) => Some(DnsData::V6(g[0], g[1], g[2], g[3], g[4], g[5], g[6], g[7])),
            None => None,
        },
    }
}

/// Whether `s` is a valid IP literal of the family that `t` calls for.
pub open spec fn data_matches_type(s: Seq<char>, t: RecordType) -> bool {
    match t {
        RecordType::A => spec_parse_ipv4(s) is Some,
        RecordType::AAAA => spec_parse_ipv6(s) is Some,
    }
}

/// Parses an IP literal of either family.
pub fn parse_ip(s: &str) -> (r: Option<DnsData>)
    ensures
        r == spec_parse_ip(s@),
{
    match parse_ipv4(s) {
        Some((a, b, c, d)) => Some(DnsData::V4(a, b, c, d)),
        None => match parse_ipv6(s) {
            Some(g) => Some(DnsData::V6(g[0], g[1], g[2], g[3], g[4], g[5], g[6], g[7])),
            None => None,
        },
    }
}

/// Checks that `s` is a valid IP literal of the family that `t` calls for.
pub fn check_data_matches_type(s: &str, t: RecordType) -> (r: bool)
    ensures
        r == data_matches_type(s@, t),
{
    match t {
        RecordType::A => parse_ipv4(s).is_some(),
        RecordType::AAAA => parse_ipv6(s).is_some(),
    }
}

} // verus!
