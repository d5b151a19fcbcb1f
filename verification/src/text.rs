//! Character-level helpers shared by the router and the response builders:
//! converting between strings and character vectors, string equality,
//! substring search, and decimal rendering of byte counts.

use vstd::prelude::*;
use vstd::string::*;

verus! {

/// Collects the characters of a string slice into a vector.
pub fn chars_of(s: &str) -> (v: Vec<char>)
    ensures
        v@ == s@,
{
    let n: usize = s.unicode_len();
    let mut v: Vec<char> = Vec::new();
    let mut i: usize = 0;
    while i < n
        invariant
            i <= n,
            n == s@.len(),
            v@ == s@.take(i as int),
        decreases n - i,
    {
        let c = s.get_char(i);
        v.push(c);
        proof {
            assert(v@ =~= s@.take(i + 1 as int));
        }
        i = i + 1;
    }
    proof {
        assert(v@ =~= s@);
    }
    v
}

/// Relies on `String`'s `FromIterator<char>` implementation: collecting an
/// iterator of characters yields a string holding exactly those characters.
#[verifier::external_body]
pub fn string_from_chars(v: &Vec<char>) -> (r: String)
    ensures
        r@ == v@,
{
    v.iter().collect()
}

/// Character-for-character equality of two string slices.
pub fn str_eq(a: &str, b: &str) -> (r: bool)
    ensures
        r == (a@ == b@),
{
    let na: usize = a.unicode_len();
    let nb: usize = b.unicode_len();
    if na != nb {
        return false;
    }
    let mut i: usize = 0;
    while i < na
        invariant
            i <= na,
            na == a@.len(),
            na == b@.len(),
            forall|j: int| 0 <= j < i ==> a@[j] == b@[j],
        decreases na - i,
    {
        if a.get_char(i) != b.get_char(i) {
            return false;
        }
        i = i + 1;
    }
    proof {
        assert(a@ =~= b@);
    }
    true
}

/// Two characters match up to ASCII letter case.
pub open spec fn chars_eq_nocase(a: char, b: char) -> bool {
    ||| a == b
    ||| ('A' <= a <= 'Z' && a as u32 + 32 == b as u32)
    ||| ('a' <= a <= 'z' && a as u32 == b as u32 + 32)
}

/// Two character sequences match up to ASCII letter case.
pub open spec fn seq_eq_nocase(a: Seq<char>, b: Seq<char>) -> bool {
    a.len() == b.len() && forall|i: int| 0 <= i < a.len() ==> chars_eq_nocase(a[i], b[i])
}

/// ASCII-case-insensitive equality of two string slices.
pub fn str_eq_nocase(a: &str, b: &str) -> (r: bool)
    ensures
        r == seq_eq_nocase(a@, b@),
{
    let na: usize = a.unicode_len();
    let nb: usize = b.unicode_len();
    if na != nb {
        return false;
    }
    let mut i: usize = 0;
    while i < na
        invariant
            i <= na,
            na == a@.len(),
            na == b@.len(),
            forall|j: int| 0 <= j < i ==> chars_eq_nocase(a@[j], b@[j]),
        decreases na - i,
    {
        let ca = a.get_char(i);
        let cb = b.get_char(i);
        let ua = ca as u32;
        let ub = cb as u32;
        let same = ca == cb || ('A' <= ca && ca <= 'Z' && ua + 32 == ub) || ('a' <= ca && ca
            <= 'z' && ua == ub + 32);
        if !same {
            return false;
        }
        i = i + 1;
    }
    true
}

/// The sequence `s` begins with the sequence `p`.
pub open spec fn starts_with(s: Seq<char>, p: Seq<char>) -> bool {
    p.len() <= s.len() && s.take(p.len() as int) == p
}

/// Index of the first occurrence of `p` in `s`, or `-1` when there is none.
pub open spec fn first_occurrence(s: Seq<char>, p: Seq<char>) -> int
    decreases s.len(),
{
    if starts_with(s, p) {
        0
    } else if s.len() == 0 {
        -1
    } else if first_occurrence(s.skip(1), p) < 0 {
        -1
    } else {
        1 + first_occurrence(s.skip(1), p)
    }
}

proof fn lemma_first_occurrence_at(s: Seq<char>, p: Seq<char>, i: int)
    requires
        0 <= i,
        forall|k: int| 0 <= k < i ==> !starts_with(#[trigger] s.skip(k), p),
        i <= s.len(),
        starts_with(s.skip(i), p),
    ensures
        first_occurrence(s, p) == i,
    decreases i,
{
    if i == 0 {
        assert(s.skip(0) =~= s);
    } else {
        assert(!starts_with(s.skip(0), p));
        assert(s.skip(0) =~= s);
        assert(s.len() > 0);
        assert forall|k: int| 0 <= k < i - 1 implies !starts_with(
            #[trigger] s.skip(1).skip(k),
            p,
        ) by {
            assert(s.skip(1).skip(k) =~= s.skip(1 + k));
        }
        assert(s.skip(1).skip(i - 1) =~= s.skip(i));
        lemma_first_occurrence_at(s.skip(1), p, i - 1);
    }
}

proof fn lemma_first_occurrence_none(s: Seq<char>, p: Seq<char>)
    requires
        forall|k: int| 0 <= k <= s.len() ==> !starts_with(#[trigger] s.skip(k), p),
    ensures
        first_occurrence(s, p) == -1,
    decreases s.len(),
{
    assert(s.skip(0) =~= s);
    if s.len() > 0 {
        assert forall|k: int| 0 <= k <= s.skip(1).len() implies !starts_with(
            #[trigger] s.skip(1).skip(k),
            p,
        ) by {
            assert(s.skip(1).skip(k) =~= s.skip(1 + k));
        }
        lemma_first_occurrence_none(s.skip(1), p);
    }
}

/// Tests whether `p` occurs in `s` starting at position `i`.
fn matches_at(s: &str, n: usize, p: &str, m: usize, i: usize) -> (r: bool)
    requires
        n == s@.len(),
        m == p@.len(),
        i + m <= n,
    ensures
        r == starts_with(s@.skip(i as int), p@),
{
    let mut j: usize = 0;
    while j < m
        invariant
            j <= m,
            n == s@.len(),
            m == p@.len(),
            i + m <= n,
            forall|k: int| 0 <= k < j ==> s@[i + k] == p@[k],
        decreases m - j,
    {
        if s.get_char(i + j) != p.get_char(j) {
            proof {
                assert(s@.skip(i as int).take(m as int)[j as int] != p@[j as int]);
            }
            return false;
        }
        j = j + 1;
    }
    proof {
        assert(s@.skip(i as int).take(m as int) =~= p@);
    }
    true
}

/// Finds the first occurrence of `p` in `s`, scanning left to right.
pub fn find_first(s: &str, p: &str) -> (r: Option<usize>)
    requires
        p@.len() >= 1,
    ensures
        match r {
            Some(i) => {
                &&& first_occurrence(s@, p@) == i as int
                &&& i + p@.len() <= s@.len()
                &&& starts_with(s@.skip(i as int), p@)
            },
            None => first_occurrence(s@, p@) == -1,
        },
{
    let n: usize = s.unicode_len();
    let m: usize = p.unicode_len();
    if m > n {
        proof {
            assert forall|k: int| 0 <= k <= s@.len() implies !starts_with(
                #[trigger] s@.skip(k),
                p@,
            ) by {}
            lemma_first_occurrence_none(s@, p@);
        }
        return None;
    }
    let mut i: usize = 0;
    while i <= n - m
        invariant
            m >= 1,
            m <= n,
            i <= n - m + 1,
            n == s@.len(),
            m == p@.len(),
            forall|k: int| 0 <= k < i ==> !starts_with(#[trigger] s@.skip(k), p@),
        decreases n + 1 - m - i,
    {
        if matches_at(s, n, p, m, i) {
            proof {
                lemma_first_occurrence_at(s@, p@, i as int);
            }
            return Some(i);
        }
        i = i + 1;
    }
    proof {
        assert forall|k: int| 0 <= k <= s@.len() implies !starts_with(
            #[trigger] s@.skip(k),
            p@,
        ) by {
            if k > n - m {
                assert(s@.skip(k).len() < p@.len());
            }
        }
        lemma_first_occurrence_none(s@, p@);
    }
    None
}

/// The decimal digit character for `n`.
pub open spec fn dec_digit(n: int) -> char {
    seq!['0', '1', '2', '3', '4', '5', '6', '7', '8', '9'][n]
}

/// The decimal rendering of a nonnegative number, most significant digit first.
pub open spec fn dec_str(n: int) -> Seq<char>
    decreases n,
{
    if n < 10 {
        seq![dec_digit(n)]
    } else {
        dec_str(n / 10).push(dec_digit(n % 10))
    }
}

fn digit_char(d: u64) -> (c: char)
    requires
        d < 10,
    ensures
        c == dec_digit(d as int),
{
    match d {
        0 => '0',
        1 => '1',
        2 => '2',
        3 => '3',
        4 => '4',
        5 => '5',
        6 => '6',
        7 => '7',
        8 => '8',
        _ => '9',
    }
}

/// Renders `n` in decimal, as a character vector.
pub fn dec_chars(n: u64) -> (v: Vec<char>)
    ensures
        v@ == dec_str(n as int),
    decreases n,
{
    if n < 10 {
        let mut v: Vec<char> = Vec::new();
        v.push(digit_char(n));
        proof {
            assert(v@ =~= dec_str(n as int));
        }
        v
    } else {
        let mut v = dec_chars(n / 10);
        v.push(digit_char(n % 10));
        proof {
            assert(v@ =~= dec_str(n as int));
        }
        v
    }
}

} // verus!
