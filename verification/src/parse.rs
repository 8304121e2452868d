//! Character-level scanning helpers: prefix tests, splitting on a separator,
//! trimming, and repeated prefix stripping, each proved against a direct
//! specification.

use vstd::prelude::*;
use vstd::string::*;
use crate::strings::str_to_chars;

verus! {

/// Whether `s` begins with `p`.
pub open spec fn seq_starts_with(s: Seq<char>, p: Seq<char>) -> bool {
    s.len() >= p.len() && s.take(p.len() as int) == p
}

/// Whitespace for trimming purposes: ASCII blank characters.
pub open spec fn is_blank_char(c: char) -> bool {
    c == ' ' || c == '\t' || c == '\n' || c == '\r'
}

/// `s` split at every `sep`, the text scanned so far held in `cur`.
pub open spec fn split_from(s: Seq<char>, sep: char, cur: Seq<char>) -> Seq<Seq<char>>
    decreases s.len(),
{
    if s.len() == 0 {
        seq![cur]
    } else if s[0] == sep {
        seq![cur] + split_from(s.drop_first(), sep, Seq::empty())
    } else {
        split_from(s.drop_first(), sep, cur.push(s[0]))
    }
}

/// The pieces of `s` between occurrences of `sep`; always one more piece
/// than there are separators.
pub open spec fn split_chars(s: Seq<char>, sep: char) -> Seq<Seq<char>> {
    split_from(s, sep, Seq::empty())
}

/// `s` without its leading blank characters.
pub open spec fn trim_start_spec(s: Seq<char>) -> Seq<char>
    decreases s.len(),
{
    if s.len() > 0 && is_blank_char(s[0]) {
        trim_start_spec(s.drop_first())
    } else {
        s
    }
}

/// `s` without its trailing blank characters.
pub open spec fn trim_end_spec(s: Seq<char>) -> Seq<char>
    decreases s.len(),
{
    if s.len() > 0 && is_blank_char(s.last()) {
        trim_end_spec(s.drop_last())
    } else {
        s
    }
}

/// `s` without leading and trailing blank characters.
pub open spec fn trim_chars(s: Seq<char>) -> Seq<char> {
    trim_end_spec(trim_start_spec(s))
}

/// `s` with every leading repetition of the prefix `p` removed.
pub open spec fn strip_prefix_rec(s: Seq<char>, p: Seq<char>) -> Seq<char>
    decreases s.len(),
{
    if p.len() > 0 && seq_starts_with(s, p) {
        if s.len() == p.len() {
            Seq::empty()
        } else {
            strip_prefix_rec(s.skip(p.len() as int), p)
        }
    } else {
        s
    }
}

/// Whether the characters `s` begin with the literal `p`.
pub fn starts_with_lit(s: &Vec<char>, p: &str) -> (r: bool)
    ensures
        r == seq_starts_with(s@, p@),
{
    let pn = p.unicode_len();
    if s.len() < pn {
        return false;
    }
    let mut i: usize = 0;
    while i < pn
        invariant
            pn == p@.len(),
            s@.len() >= pn,
            i <= pn,
            forall|j: int| 0 <= j < i ==> s@[j] == p@[j],
        decreases pn - i,
    {
        if s[i] != p.get_char(i) {
            return false;
        }
        i = i + 1;
    }
    proof {
        assert(s@.take(pn as int) =~= p@);
    }
    true
}

/// The contiguous piece `s[a..b]`.
pub fn subchars(s: &Vec<char>, a: usize, b: usize) -> (r: Vec<char>)
    requires
        a <= b <= s@.len(),
    ensures
        r@ == s@.subrange(a as int, b as int),
{
    let mut r: Vec<char> = Vec::new();
    let mut i: usize = a;
    while i < b
        invariant
            a <= i <= b <= s@.len(),
            r@ == s@.subrange(a as int, i as int),
        decreases b - i,
    {
        r.push(s[i]);
        i = i + 1;
        assert(r@ =~= s@.subrange(a as int, i as int));
    }
    r
}

/// `s` split at every occurrence of `sep`.
pub fn split_on(s: &Vec<char>, sep: char) -> (r: Vec<Vec<char>>)
    ensures
        r@.map_values(|p: Vec<char>| p@) == split_chars(s@, sep),
{
    let mut parts: Vec<Vec<char>> = Vec::new();
    let mut cur: Vec<char> = Vec::new();
    let mut i: usize = 0;
    proof {
        assert(s@.skip(0) =~= s@);
        assert(parts@.map_values(|p: Vec<char>| p@) + split_from(s@, sep, cur@) =~= split_from(
            s@,
            sep,
            cur@,
        ));
    }
    while i < s.len()
        invariant
            i <= s@.len(),
            split_chars(s@, sep) == parts@.map_values(|p: Vec<char>| p@) + split_from(
                s@.skip(i as int),
                sep,
                cur@,
            ),
        decreases s@.len() - i,
    {
        proof {
            assert(s@.skip(i as int).drop_first() =~= s@.skip(i + 1));
            assert(s@.skip(i as int)[0] == s@[i as int]);
        }
        if s[i] == sep {
            let ghost old_pv = parts@.map_values(|p: Vec<char>| p@);
            let ghost old_cur = cur@;
            parts.push(cur);
            cur = Vec::new();
            proof {
                assert(split_from(s@.skip(i as int), sep, old_cur) == seq![old_cur] + split_from(
                    s@.skip(i + 1),
                    sep,
                    Seq::empty(),
                ));
                assert(parts@.map_values(|p: Vec<char>| p@) =~= old_pv.push(old_cur));
                assert(old_pv + (seq![old_cur] + split_from(s@.skip(i + 1), sep, cur@)) =~= old_pv.push(
                    old_cur,
                ) + split_from(s@.skip(i + 1), sep, cur@));
            }
        } else {
            cur.push(s[i]);
        }
        i = i + 1;
    }
    proof {
        assert(s@.skip(s@.len() as int) =~= Seq::<char>::empty());
    }
    let ghost old_pv = parts@.map_values(|p: Vec<char>| p@);
    let ghost old_cur = cur@;
    parts.push(cur);
    proof {
        assert(parts@.map_values(|p: Vec<char>| p@) =~= old_pv.push(old_cur));
        assert(old_pv + seq![old_cur] =~= old_pv.push(old_cur));
    }
    parts
}

/// `s` with blank characters removed from both ends.
pub fn trim_blank(s: &Vec<char>) -> (r: Vec<char>)
    ensures
        r@ == trim_chars(s@),
{
    let mut a: usize = 0;
    proof {
        assert(s@.skip(0) =~= s@);
    }
    while a < s.len() && (s[a] == ' ' || s[a] == '\t' || s[a] == '\n' || s[a] == '\r')
        invariant
            a <= s@.len(),
            trim_start_spec(s@) == trim_start_spec(s@.skip(a as int)),
        decreases s@.len() - a,
    {
        proof {
            assert(s@.skip(a as int).drop_first() =~= s@.skip(a + 1));
        }
        a = a + 1;
    }
    proof {
        if a < s@.len() {
            assert(s@.skip(a as int)[0] == s@[a as int]);
        } else {
            assert(s@.skip(a as int) =~= Seq::<char>::empty());
        }
        assert(trim_start_spec(s@.skip(a as int)) == s@.skip(a as int));
    }
    let mut b: usize = s.len();
    proof {
        assert(s@.skip(a as int).take(s@.len() - a as int) =~= s@.skip(a as int));
    }
    while b > a && (s[b - 1] == ' ' || s[b - 1] == '\t' || s[b - 1] == '\n' || s[b - 1] == '\r')
        invariant
            a <= b <= s@.len(),
            trim_start_spec(s@) == s@.skip(a as int),
            trim_end_spec(s@.skip(a as int)) == trim_end_spec(
                s@.skip(a as int).take(b - a as int),
            ),
        decreases b,
    {
        proof {
            let u = s@.skip(a as int);
            assert(u.take(b - a as int).drop_last() =~= u.take(b - 1 - a as int));
            assert(u.take(b - a as int).last() == s@[b - 1]);
        }
        b = b - 1;
    }
    proof {
        let u = s@.skip(a as int);
        if b > a {
            assert(u.take(b - a as int).last() == s@[b - 1]);
        }
        assert(trim_end_spec(u.take(b - a as int)) == u.take(b - a as int));
        assert(u.take(b - a as int) =~= s@.subrange(a as int, b as int));
    }
    subchars(s, a, b)
}

/// `s` with every leading repetition of the literal `p` removed.
pub fn strip_prefix_repeated(s: &Vec<char>, p: &str) -> (r: Vec<char>)
    requires
        p@.len() > 0,
    ensures
        r@ == strip_prefix_rec(s@, p@),
{
    let pn = p.unicode_len();
    let mut i: usize = 0;
    let mut rest = subchars(s, 0, s.len());
    proof {
        assert(s@.subrange(0, s@.len() as int) =~= s@);
    }
    loop
        invariant
            pn == p@.len(),
            pn > 0,
            strip_prefix_rec(s@, p@) == strip_prefix_rec(rest@, p@),
        ensures
            !seq_starts_with(rest@, p@),
            strip_prefix_rec(s@, p@) == rest@,
        decreases rest@.len(),
    {
        if !starts_with_lit(&rest, p) {
            break;
        }
        let n = rest.len();
        rest = subchars(&rest, pn, n);
    }
    rest
}

} // verus!
