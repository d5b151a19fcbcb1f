//! Query-string handling: splitting a request URL at the first `?`, decoding
//! the `application/x-www-form-urlencoded` pairs, and collapsing duplicate
//! keys so that the last occurrence wins.

use vstd::prelude::*;
use vstd::string::*;
use crate::text::{first_occurrence, str_eq};

verus! {

/// The path part of a request URL: everything before the first `?`.
pub open spec fn path_of(u: Seq<char>) -> Seq<char> {
    if first_occurrence(u, seq!['?']) < 0 {
        u
    } else {
        u.take(first_occurrence(u, seq!['?']))
    }
}

/// The query part of a request URL: everything after the first `?`, empty
/// when there is none.
pub open spec fn query_of(u: Seq<char>) -> Seq<char> {
    if first_occurrence(u, seq!['?']) < 0 {
        Seq::empty()
    } else {
        u.skip(first_occurrence(u, seq!['?']) + 1)
    }
}

/// Splits a request URL into its path and its query string.
pub fn split_url(url: &str) -> (r: (String, String))
    ensures
        r.0@ == path_of(url@),
        r.1@ == query_of(url@),
{
    proof {
        reveal_strlit("?");
        assert("?"@ =~= seq!['?']);
    }
    let n: usize = url.unicode_len();
    match crate::text::find_first(url, "?") {
        Some(i) => {
            let path = url.substring_char(0, i).to_owned();
            let query = url.substring_char(i + 1, n).to_owned();
            proof {
                assert(path@ =~= path_of(url@));
                assert(query@ =~= query_of(url@));
            }
            (path, query)
        },
        None => {
            let path = url.to_owned();
            (path, String::new())
        },
    }
}

/// The parsed form of a URL-encoded string, as form_urlencoded reads it:
/// pairs split on `&` and `=`, names and values percent-decoded, `+` read
/// as a space.
pub uninterp spec fn form_pairs_of(s: Seq<char>) -> Seq<(Seq<char>, Seq<char>)>;

/// Relies on `form_urlencoded::parse`: yields the percent-decoded (name,
/// value) pairs of its input, a function of the input characters alone, and
/// yields nothing on an empty input.
#[verifier::external_body]
pub fn parse_form_pairs(s: &str) -> (r: Vec<(String, String)>)
    ensures
        r.deep_view() == form_pairs_of(s@),
        s@.len() == 0 ==> r.deep_view().len() == 0,
{
    form_urlencoded::parse(s.as_bytes()).into_owned().collect()
}

/// The lossy UTF-8 reading of a byte sequence.
pub uninterp spec fn lossy_of(b: Seq<u8>) -> Seq<char>;

/// Relies on `String::from_utf8_lossy`: decodes UTF-8, replacing invalid
/// sequences with the replacement character; valid UTF-8 decodes exactly.
#[verifier::external_body]
pub fn utf8_lossy(b: &Vec<u8>) -> (r: String)
    ensures
        r@ == lossy_of(b@),
        vstd::utf8::valid_utf8(b@) ==> r@ == vstd::utf8::decode_utf8(b@),
{
    String::from_utf8_lossy(b.as_slice()).into_owned()
}

/// Index of the first pair whose key is `k`, or `-1` when there is none.
pub open spec fn key_index(ps: Seq<(Seq<char>, Seq<char>)>, k: Seq<char>) -> int
    decreases ps.len(),
{
    if ps.len() == 0 {
        -1
    } else if ps[0].0 == k {
        0
    } else if key_index(ps.skip(1), k) < 0 {
        -1
    } else {
        1 + key_index(ps.skip(1), k)
    }
}

/// Some pair carries the key `k`.
pub open spec fn has_key(ps: Seq<(Seq<char>, Seq<char>)>, k: Seq<char>) -> bool {
    key_index(ps, k) >= 0
}

/// The value of the first pair whose key is `k`.
pub open spec fn lookup(ps: Seq<(Seq<char>, Seq<char>)>, k: Seq<char>) -> Seq<char> {
    ps[key_index(ps, k)].1
}

/// Index of the last pair whose key is `k`, or `-1` when there is none.
pub open spec fn last_key_index(ps: Seq<(Seq<char>, Seq<char>)>, k: Seq<char>) -> int
    decreases ps.len(),
{
    if ps.len() == 0 {
        -1
    } else if ps.last().0 == k {
        ps.len() - 1
    } else {
        last_key_index(ps.drop_last(), k)
    }
}

/// Replaces the value under `k` where the key is present, else appends.
pub open spec fn upsert(
    acc: Seq<(Seq<char>, Seq<char>)>,
    k: Seq<char>,
    v: Seq<char>,
) -> Seq<(Seq<char>, Seq<char>)> {
    if has_key(acc, k) {
        acc.update(key_index(acc, k), (k, v))
    } else {
        acc.push((k, v))
    }
}

/// The pairs with duplicate keys collapsed: keys keep the position of their
/// first occurrence, and each key carries the value of its last occurrence.
pub open spec fn last_wins(ps: Seq<(Seq<char>, Seq<char>)>) -> Seq<(Seq<char>, Seq<char>)>
    decreases ps.len(),
{
    if ps.len() == 0 {
        Seq::empty()
    } else {
        upsert(last_wins(ps.drop_last()), ps.last().0, ps.last().1)
    }
}

/// No two pairs carry the same key.
pub open spec fn distinct_keys(ps: Seq<(Seq<char>, Seq<char>)>) -> bool {
    forall|i: int, j: int| 0 <= i < j < ps.len() ==> ps[i].0 != ps[j].0
}

proof fn lemma_key_index_bounds(ps: Seq<(Seq<char>, Seq<char>)>, k: Seq<char>)
    ensures
        -1 <= key_index(ps, k) < ps.len(),
        key_index(ps, k) >= 0 ==> ps[key_index(ps, k)].0 == k,
        key_index(ps, k) >= 0 ==> forall|j: int| 0 <= j < key_index(ps, k) ==> ps[j].0 != k,
        key_index(ps, k) == -1 ==> forall|j: int| 0 <= j < ps.len() ==> ps[j].0 != k,
    decreases ps.len(),
{
    if ps.len() > 0 && ps[0].0 != k {
        lemma_key_index_bounds(ps.skip(1), k);
        assert(forall|j: int| 1 <= j < ps.len() ==> #[trigger] ps[j] == ps.skip(1)[j - 1]);
    }
}

proof fn lemma_key_index_at(ps: Seq<(Seq<char>, Seq<char>)>, k: Seq<char>, j: int)
    requires
        0 <= j < ps.len(),
        ps[j].0 == k,
        forall|m: int| 0 <= m < j ==> ps[m].0 != k,
    ensures
        key_index(ps, k) == j,
    decreases j,
{
    if j > 0 {
        assert(forall|m: int| 1 <= m < ps.len() ==> #[trigger] ps[m] == ps.skip(1)[m - 1]);
        lemma_key_index_at(ps.skip(1), k, j - 1);
    }
}

proof fn lemma_key_index_none(ps: Seq<(Seq<char>, Seq<char>)>, k: Seq<char>)
    requires
        forall|m: int| 0 <= m < ps.len() ==> ps[m].0 != k,
    ensures
        key_index(ps, k) == -1,
    decreases ps.len(),
{
    if ps.len() > 0 {
        assert(forall|m: int| 1 <= m < ps.len() ==> #[trigger] ps[m] == ps.skip(1)[m - 1]);
        lemma_key_index_none(ps.skip(1), k);
    }
}

proof fn lemma_last_key_index_bounds(ps: Seq<(Seq<char>, Seq<char>)>, k: Seq<char>)
    ensures
        -1 <= last_key_index(ps, k) < ps.len(),
        last_key_index(ps, k) >= 0 ==> ps[last_key_index(ps, k)].0 == k,
        last_key_index(ps, k) >= 0 ==> forall|j: int|
            last_key_index(ps, k) < j < ps.len() ==> ps[j].0 != k,
        last_key_index(ps, k) == -1 ==> forall|j: int| 0 <= j < ps.len() ==> ps[j].0 != k,
    decreases ps.len(),
{
    if ps.len() > 0 && ps.last().0 != k {
        lemma_last_key_index_bounds(ps.drop_last(), k);
        assert(forall|j: int|
            0 <= j < ps.len() - 1 ==> #[trigger] ps[j] == ps.drop_last()[j]);
    }
}

proof fn lemma_upsert(acc: Seq<(Seq<char>, Seq<char>)>, k: Seq<char>, v: Seq<char>, k2: Seq<char>)
    ensures
        has_key(upsert(acc, k, v), k),
        lookup(upsert(acc, k, v), k) == v,
        k2 != k ==> has_key(upsert(acc, k, v), k2) == has_key(acc, k2),
        k2 != k && has_key(acc, k2) ==> lookup(upsert(acc, k, v), k2) == lookup(acc, k2),
        distinct_keys(acc) ==> distinct_keys(upsert(acc, k, v)),
{
    lemma_key_index_bounds(acc, k);
    lemma_key_index_bounds(acc, k2);
    let r = upsert(acc, k, v);
    if has_key(acc, k) {
        lemma_key_index_at(r, k, key_index(acc, k));
    } else {
        lemma_key_index_at(r, k, acc.len() as int);
    }
    if k2 != k {
        if has_key(acc, k2) {
            lemma_key_index_at(r, k2, key_index(acc, k2));
        } else {
            lemma_key_index_none(r, k2);
        }
    }
}

/// Collapsing duplicates round-trips the pairs exactly: a key is present in
/// the collapsed list just when it occurs in the input, it carries the value
/// of its last occurrence there, and no key appears twice.
pub proof fn lemma_last_wins_lookup(ps: Seq<(Seq<char>, Seq<char>)>, k: Seq<char>)
    ensures
        has_key(last_wins(ps), k) == (last_key_index(ps, k) >= 0),
        last_key_index(ps, k) >= 0 ==> lookup(last_wins(ps), k) == ps[last_key_index(ps, k)].1,
        distinct_keys(last_wins(ps)),
    decreases ps.len(),
{
    if ps.len() == 0 {
        lemma_key_index_none(last_wins(ps), k);
    } else {
        let prev = last_wins(ps.drop_last());
        lemma_last_wins_lookup(ps.drop_last(), k);
        lemma_upsert(prev, ps.last().0, ps.last().1, k);
        lemma_last_key_index_bounds(ps.drop_last(), k);
        if ps.last().0 != k && last_key_index(ps, k) >= 0 {
            assert(ps.drop_last()[last_key_index(ps.drop_last(), k)]
                == ps[last_key_index(ps, k)]);
        }
    }
}

/// A key occurs in the input just when it occurs somewhere; ties the
/// recursive index functions to a plain existence statement.
pub proof fn lemma_key_occurrence(ps: Seq<(Seq<char>, Seq<char>)>, k: Seq<char>)
    ensures
        (last_key_index(ps, k) >= 0) == exists|j: int| 0 <= j < ps.len() && ps[j].0 == k,
        last_key_index(ps, k) >= 0 ==> {
            &&& 0 <= last_key_index(ps, k) < ps.len()
            &&& ps[last_key_index(ps, k)].0 == k
            &&& forall|j: int| last_key_index(ps, k) < j < ps.len() ==> ps[j].0 != k
        },
{
    lemma_last_key_index_bounds(ps, k);
}

fn find_key(r: &Vec<(String, String)>, key: &str) -> (found: Option<usize>)
    ensures
        match found {
            Some(j) => j < r.len() && key_index(r.deep_view(), key@) == j as int,
            None => key_index(r.deep_view(), key@) == -1,
        },
{
    let ghost racc = r.deep_view();
    let mut j: usize = 0;
    while j < r.len()
        invariant
            j <= r.len(),
            racc == r.deep_view(),
            racc.len() == r.len(),
            forall|m: int| 0 <= m < r.len() ==> #[trigger] racc[m] == (r@[m].0@, r@[m].1@),
            forall|m: int| 0 <= m < j ==> racc[m].0 != key@,
        decreases r.len() - j,
    {
        if str_eq(r[j].0.as_str(), key) {
            proof {
                lemma_key_index_at(racc, key@, j as int);
            }
            return Some(j);
        }
        j = j + 1;
    }
    proof {
        lemma_key_index_none(racc, key@);
    }
    None
}

/// Collapses duplicate keys: each key keeps its first position and takes the
/// value of its last occurrence.
pub fn dedup_last_wins(pairs: &Vec<(String, String)>) -> (r: Vec<(String, String)>)
    ensures
        r.deep_view() == last_wins(pairs.deep_view()),
{
    let ghost ps = pairs.deep_view();
    let mut r: Vec<(String, String)> = Vec::new();
    let mut i: usize = 0;
    while i < pairs.len()
        invariant
            i <= pairs.len(),
            ps == pairs.deep_view(),
            ps.len() == pairs.len(),
            forall|j: int|
                0 <= j < pairs.len() ==> #[trigger] ps[j] == (pairs@[j].0@, pairs@[j].1@),
            r.deep_view() == last_wins(ps.take(i as int)),
        decreases pairs.len() - i,
    {
        let ghost racc = r.deep_view();
        let key = pairs[i].0.clone();
        let val = pairs[i].1.clone();
        let found = find_key(&r, key.as_str());
        match found {
            Some(j) => {
                r[j] = (key, val);
                proof {
                    assert(r.deep_view() =~= upsert(racc, ps[i as int].0, ps[i as int].1));
                }
            },
            None => {
                r.push((key, val));
                proof {
                    assert(r.deep_view() =~= upsert(racc, ps[i as int].0, ps[i as int].1));
                }
            },
        }
        proof {
            assert(ps.take(i + 1 as int).drop_last() =~= ps.take(i as int));
            assert(ps.take(i + 1 as int).last() == ps[i as int]);
        }
        i = i + 1;
    }
    proof {
        assert(ps.take(pairs.len() as int) =~= ps);
    }
    r
}

} // verus!
