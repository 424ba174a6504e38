//! Character-sequence utilities the rest of the crate builds on: splitting a
//! string at a separator, ASCII-case-insensitive comparison, and trailing-dot
//! stripping, each with an exact specification.

use vstd::prelude::*;

verus! {

/// The pieces of `s` between occurrences of `sep`, in order. A string with no
/// separator yields one piece; `n` separators yield `n + 1` pieces, some
/// possibly empty.
pub open spec fn split_chars(s: Seq<char>, sep: char) -> Seq<Seq<char>>
    decreases s.len(),
{
    if s.len() == 0 {
        seq![Seq::<char>::empty()]
    } else if s[0] == sep {
        seq![Seq::<char>::empty()] + split_chars(s.drop_first(), sep)
    } else {
        let rest = split_chars(s.drop_first(), sep);
        seq![seq![s[0]] + rest[0]] + rest.drop_first()
    }
}

proof fn lemma_split_chars_nonempty(s: Seq<char>, sep: char)
    ensures
        split_chars(s, sep).len() >= 1,
    decreases s.len(),
{
    if s.len() != 0 {
        lemma_split_chars_nonempty(s.drop_first(), sep);
    }
}

/// `parts` with `p` glued onto the front of its first piece.
spec fn prepend_to_first(p: Seq<char>, parts: Seq<Seq<char>>) -> Seq<Seq<char>> {
    seq![p + parts[0]] + parts.drop_first()
}

proof fn lemma_prepend_assoc(p: Seq<char>, q: Seq<char>, parts: Seq<Seq<char>>)
    ensures
        prepend_to_first(p, prepend_to_first(q, parts)) =~~= prepend_to_first(p + q, parts),
{
}

/// Splits `s` at every occurrence of `sep`.
pub fn split_str(s: &str, sep: char) -> (r: Vec<String>)
    ensures
        r.deep_view() == split_chars(s@, sep),
{
    let n: usize = s.unicode_len();
    let mut parts: Vec<String> = Vec::new();
    let mut start: usize = 0;
    let mut i: usize = 0;
    proof {
        assert(s@.subrange(0, s@.len() as int) =~= s@);
    }
    while i < n
        invariant
            start <= i <= n,
            n == s@.len(),
            split_chars(s@, sep) =~~= parts.deep_view() + prepend_to_first(
                s@.subrange(start as int, i as int),
                split_chars(s@.subrange(i as int, n as int), sep),
            ),
        decreases n - i,
    {
        let c = s.get_char(i);
        let ghost suffix = s@.subrange(i as int, n as int);
        let ghost cur = s@.subrange(start as int, i as int);
        proof {
            assert(suffix.len() > 0);
            assert(suffix[0] == s@[i as int]);
            assert(suffix.drop_first() =~= s@.subrange(i as int + 1, n as int));
            lemma_split_chars_nonempty(suffix.drop_first(), sep);
        }
        if c == sep {
            let piece = s.substring_char(start, i);
            proof {
                let rest = split_chars(suffix.drop_first(), sep);
                assert(split_chars(suffix, sep) == seq![Seq::<char>::empty()] + rest);
                assert(prepend_to_first(cur, seq![Seq::<char>::empty()] + rest) =~~= seq![cur]
                    + rest) by {
                    assert(cur + Seq::<char>::empty() =~= cur);
                    assert((seq![Seq::<char>::empty()] + rest).drop_first() =~= rest);
                }
                assert(prepend_to_first(Seq::<char>::empty(), rest) =~~= rest) by {
                    assert(Seq::<char>::empty() + rest[0] =~= rest[0]);
                    assert(seq![rest[0]] + rest.drop_first() =~= rest);
                }
            }
            let ghost old_parts = parts.deep_view();
            parts.push(String::from_str(piece));
            proof {
                assert(parts.deep_view() =~= old_parts + seq![cur]);
                assert(split_chars(s@, sep) =~~= parts.deep_view() + prepend_to_first(
                    Seq::<char>::empty(),
                    split_chars(s@.subrange(i as int + 1, n as int), sep),
                ));
            }
            start = i + 1;
        } else {
            proof {
                let rest = split_chars(suffix.drop_first(), sep);
                assert(split_chars(suffix, sep) == seq![seq![suffix[0]] + rest[0]]
                    + rest.drop_first());
                assert(split_chars(suffix, sep) =~~= prepend_to_first(seq![suffix[0]], rest));
                lemma_prepend_assoc(cur, seq![suffix[0]], rest);
                assert(cur + seq![suffix[0]] =~= s@.subrange(start as int, i as int + 1));
            }
        }
        i = i + 1;
    }
    let piece = s.substring_char(start, n);
    proof {
        let ghost cur = s@.subrange(start as int, n as int);
        assert(s@.subrange(n as int, n as int).len() == 0);
        assert(split_chars(s@.subrange(n as int, n as int), sep) == seq![Seq::<char>::empty()]);
        assert(prepend_to_first(cur, seq![Seq::<char>::empty()]) =~~= seq![cur]) by {
            assert(cur + Seq::<char>::empty() =~= cur);
            assert(seq![cur + Seq::<char>::empty()].drop_last() =~= Seq::<Seq<char>>::empty());
        }
    }
    let ghost old_parts = parts.deep_view();
    parts.push(String::from_str(piece));
    proof {
        assert(parts.deep_view() =~= old_parts + seq![s@.subrange(start as int, s@.len() as int)]);
        assert(parts.deep_view() =~~= split_chars(s@, sep));
    }
    parts
}

/// Whether `c` is an ASCII upper-case letter.
pub open spec fn is_upper(c: char) -> bool {
    ('A' as int) <= (c as int) && (c as int) <= ('Z' as int)
}

/// Equality of two characters up to ASCII case.
pub open spec fn char_eq_ci(a: char, b: char) -> bool {
    a == b || (is_upper(a) && b as int == a as int + 32) || (is_upper(b) && a as int == b as int
        + 32)
}

/// Equality of two character sequences up to ASCII case.
pub open spec fn str_eq_ci(a: Seq<char>, b: Seq<char>) -> bool {
    a.len() == b.len() && forall|i: int| 0 <= i < a.len() ==> char_eq_ci(a[i], b[i])
}

pub proof fn lemma_str_eq_ci_symmetric(a: Seq<char>, b: Seq<char>)
    ensures
        str_eq_ci(a, b) == str_eq_ci(b, a),
{
}

pub proof fn lemma_str_eq_ci_transitive(a: Seq<char>, b: Seq<char>, c: Seq<char>)
    requires
        str_eq_ci(a, b),
        str_eq_ci(b, c),
    ensures
        str_eq_ci(a, c),
{
    assert forall|i: int| 0 <= i < a.len() implies char_eq_ci(a[i], c[i]) by {
        assert(char_eq_ci(a[i], b[i]));
        assert(char_eq_ci(b[i], c[i]));
    }
}

/// Compares two strings up to ASCII case.
pub fn eq_ignore_case(a: &str, b: &str) -> (r: bool)
    ensures
        r == str_eq_ci(a@, b@),
{
    let na: usize = a.unicode_len();
    let nb: usize = b.unicode_len();
    if na != nb {
        return false;
    }
    let mut i: usize = 0;
    while i < na
        invariant
            i <= na,
            na == a@.len(),
            na == b@.len(),
            forall|j: int| 0 <= j < i ==> char_eq_ci(a@[j], b@[j]),
        decreases na - i,
    {
        let ca = a.get_char(i) as u32;
        let cb = b.get_char(i) as u32;
        let la = if 65 <= ca && ca <= 90 {
            ca + 32
        } else {
            ca
        };
        let lb = if 65 <= cb && cb <= 90 {
            cb + 32
        } else {
            cb
        };
        if la != lb {
            return false;
        }
        i = i + 1;
    }
    true
}

/// `s` with one trailing `.` removed, if it carries one.
pub open spec fn spec_strip_trailing_dot(s: Seq<char>) -> Seq<char> {
    if s.len() > 0 && s[s.len() - 1] == '.' {
        s.drop_last()
    } else {
        s
    }
}

/// Removes a single trailing dot from `s`, if present.
pub fn strip_trailing_dot(s: &str) -> (r: String)
    ensures
        r@ == spec_strip_trailing_dot(s@),
{
    let n: usize = s.unicode_len();
    if n > 0 && s.get_char(n - 1) == '.' {
        let prefix = s.substring_char(0, n - 1);
        proof {
            assert(s@.subrange(0, n as int - 1) =~= s@.drop_last());
        }
        String::from_str(prefix)
    } else {
        String::from_str(s)
    }
}

} // verus!
