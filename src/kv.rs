use vstd::prelude::*;
use vstd::string::StrSliceExecFns;

use crate::error::Error;

verus! {

/// One `key=value` argument of a request body.
#[derive(Debug, PartialEq, Clone)]
pub struct KvPair {
    pub key: String,
    pub value: String,
}

/// Index of the first `c` in `s`, or `s.len()` where there is none.
pub open spec fn first_index(s: Seq<char>, c: char) -> int
    decreases s.len(),
{
    if s.len() == 0 {
        0
    } else if s[0] == c {
        0
    } else {
        1 + first_index(s.drop_first(), c)
    }
}

/// What a token means as a pair: the text before its first `=` and the
/// text after it, or nothing where it holds no `=`.
pub open spec fn kv_parse(s: Seq<char>) -> Option<(Seq<char>, Seq<char>)> {
    if s.contains('=') {
        let i = first_index(s, '=');
        Some((s.take(i), s.skip(i + 1)))
    } else {
        None
    }
}

/// Where `s` is `a`, then `c`, then `b`, and `a` holds no `c`, the first `c`
/// of `s` is the one right after `a`.
proof fn lemma_first_index_split(a: Seq<char>, b: Seq<char>, c: char)
    requires
        !a.contains(c),
    ensures
        first_index(a + seq![c] + b, c) == a.len(),
    decreases a.len(),
{
    let s = a + seq![c] + b;
    if a.len() == 0 {
        assert(s[0] == c);
    } else {
        assert(a[0] != c) by {
            assert(a.contains(a[0]));
        }
        assert(s[0] == a[0]);
        let t = a.drop_first();
        assert(!t.contains(c)) by {
            if t.contains(c) {
                let k = choose|k: int| 0 <= k < t.len() && t[k] == c;
                assert(a[k + 1] == c);
            }
        }
        assert(s.drop_first() =~= t + seq![c] + b);
        lemma_first_index_split(t, b, c);
    }
}

/// The meaning of a token that splits as `a`, `=`, `b` with no `=` in `a`.
proof fn lemma_kv_parse_split(a: Seq<char>, b: Seq<char>)
    requires
        !a.contains('='),
    ensures
        kv_parse(a + seq!['='] + b) == Some((a, b)),
{
    let s = a + seq!['='] + b;
    lemma_first_index_split(a, b, '=');
    assert(s[a.len() as int] == '=');
    assert(s.contains('='));
    assert(s.take(a.len() as int) =~= a);
    assert(s.skip(a.len() as int + 1) =~= b);
}

/// A token without `=` is not a pair.
pub proof fn law_no_separator_rejected(s: Seq<char>)
    requires
        !s.contains('='),
    ensures
        kv_parse(s) is None,
{
}

/// A key without `=`, then `=`, then any value, reads back as that key and
/// that value.
pub proof fn law_key_value_read_back(k: Seq<char>, v: Seq<char>)
    requires
        !k.contains('='),
    ensures
        kv_parse(k + seq!['='] + v) == Some((k, v)),
{
    lemma_kv_parse_split(k, v);
}

/// The text before the first `d` of `s` and the text after it, or `None`
/// where `s` holds no `d`.
pub(crate) fn split_once_at(s: &str, d: char) -> (r: Option<(String, String)>)
    ensures
        match r {
            None => !s@.contains(d),
            Some(p) => s@ == p.0@ + seq![d] + p.1@ && !p.0@.contains(d),
        },
{
    let n = s.unicode_len();
    let mut i: usize = 0;
    while i < n
        invariant
            n == s@.len(),
            i <= n,
            forall|k: int| 0 <= k < i ==> s@[k] != d,
        decreases n - i,
    {
        if s.get_char(i) == d {
            let a = s.substring_char(0, i);
            let b = s.substring_char(i + 1, n);
            proof {
                assert(s@ =~= a@ + seq![d] + b@);
                assert(!a@.contains(d)) by {
                    if a@.contains(d) {
                        let k = choose|k: int| 0 <= k < a@.len() && a@[k] == d;
                        assert(s@[k] == d);
                    }
                }
            }
            return Some((a.to_owned(), b.to_owned()));
        }
        i = i + 1;
    }
    assert(!s@.contains(d)) by {
        if s@.contains(d) {
            let k = choose|k: int| 0 <= k < s@.len() && s@[k] == d;
            assert(s@[k] != d);
        }
    }
    None
}

impl KvPair {
    /// Reads a `key=value` token, split at its first `=`. The value may be
    /// empty and may itself hold `=`; so may the key be empty.
    pub fn parse(s: &str) -> (r: Result<KvPair, Error>)
        ensures
            match r {
                Ok(p) => kv_parse(s@) == Some((p.key@, p.value@)),
                Err(e) => kv_parse(s@) is None && e is MalformedPair && e->MalformedPair_0@ == s@,
            },
    {
        match split_once_at(s, '=') {
            Some((key, value)) => {
                proof {
                    lemma_kv_parse_split(key@, value@);
                }
                Ok(KvPair { key, value })
            },
            None => Err(Error::MalformedPair(s.to_owned())),
        }
    }
}

impl std::str::FromStr for KvPair {
    type Err = Error;

    fn from_str(s: &str) -> (r: Result<KvPair, Error>)
        ensures
            match r {
                Ok(p) => kv_parse(s@) == Some((p.key@, p.value@)),
                Err(e) => kv_parse(s@) is None && e is MalformedPair && e->MalformedPair_0@ == s@,
            },
    {
        KvPair::parse(s)
    }
}

/// Reads one `key=value` token of a request body.
pub fn parse_kv_pair(s: &str) -> (r: Result<KvPair, Error>)
    ensures
        match r {
            Ok(p) => kv_parse(s@) == Some((p.key@, p.value@)),
            Err(e) => kv_parse(s@) is None && e is MalformedPair && e->MalformedPair_0@ == s@,
        },
{
    KvPair::parse(s)
}

/// The map that a sequence of pairs builds when each pair is written in turn:
/// a later pair with the same key overwrites an earlier one.
pub open spec fn pairs_map(s: Seq<KvPair>) -> Map<Seq<char>, Seq<char>>
    decreases s.len(),
{
    if s.len() == 0 {
        Map::empty()
    } else {
        pairs_map(s.drop_last()).insert(s.last().key@, s.last().value@)
    }
}

/// No two pairs share a key.
pub open spec fn keys_unique(s: Seq<KvPair>) -> bool {
    forall|i: int, j: int| 0 <= i < j < s.len() ==> s[i].key@ != s[j].key@
}

/// In a sequence with unique keys, replacing the pair at `j` by one with the
/// same key writes that key's new value into the map.
proof fn lemma_pairs_map_update(s: Seq<KvPair>, j: int, p: KvPair)
    requires
        keys_unique(s),
        0 <= j < s.len(),
        s[j].key@ == p.key@,
    ensures
        pairs_map(s.update(j, p)) == pairs_map(s).insert(p.key@, p.value@),
    decreases s.len(),
{
    let t = s.update(j, p);
    if j == s.len() - 1 {
        assert(t.drop_last() =~= s.drop_last());
        assert(pairs_map(t) =~= pairs_map(s).insert(p.key@, p.value@));
    } else {
        assert(t.drop_last() =~= s.drop_last().update(j, p));
        lemma_pairs_map_update(s.drop_last(), j, p);
        assert(s.last().key@ != p.key@);
        assert(pairs_map(t) =~= pairs_map(s).insert(p.key@, p.value@));
    }
}

/// In a sequence with unique keys, a key is in the map exactly when some pair
/// holds it.
proof fn lemma_pairs_map_keys(s: Seq<KvPair>, k: Seq<char>)
    ensures
        pairs_map(s).contains_key(k) <==> exists|i: int| 0 <= i < s.len() && s[i].key@ == k,
    decreases s.len(),
{
    if s.len() > 0 {
        lemma_pairs_map_keys(s.drop_last(), k);
        if pairs_map(s.drop_last()).contains_key(k) {
            let i = choose|i: int| 0 <= i < s.len() - 1 && s.drop_last()[i].key@ == k;
            assert(s[i].key@ == k);
        }
        if exists|i: int| 0 <= i < s.len() && s[i].key@ == k {
            let i = choose|i: int| 0 <= i < s.len() && s[i].key@ == k;
            if i < s.len() - 1 {
                assert(s.drop_last()[i].key@ == k);
            }
        }
    }
}

/// The body of a request as a map: one pair per key, where a later pair with
/// a key overwrites an earlier one.
pub fn body_map(pairs: &Vec<KvPair>) -> (r: Vec<KvPair>)
    ensures
        keys_unique(r@),
        pairs_map(r@) == pairs_map(pairs@),
{
    let mut out: Vec<KvPair> = Vec::new();
    let mut i: usize = 0;
    while i < pairs.len()
        invariant
            i <= pairs.len(),
            keys_unique(out@),
            pairs_map(out@) == pairs_map(pairs@.take(i as int)),
        decreases pairs.len() - i,
    {
        let p = KvPair { key: pairs[i].key.clone(), value: pairs[i].value.clone() };
        assert(pairs@.take(i as int + 1).drop_last() =~= pairs@.take(i as int));
        let mut j: usize = 0;
        let mut found: bool = false;
        while j < out.len() && !found
            invariant
                j <= out.len(),
                found ==> j < out.len() && out@[j as int].key@ == p.key@,
                !found ==> forall|m: int| 0 <= m < j ==> out@[m].key@ != p.key@,
            decreases out.len() - j, if found { 0int } else { 1int },
        {
            if out[j].key == p.key {
                found = true;
            } else {
                j = j + 1;
            }
        }
        if found {
            proof {
                lemma_pairs_map_update(out@, j as int, p);
            }
            let ghost prev = out@;
            out.set(j, p);
            assert forall|a: int, b: int| 0 <= a < b < out@.len() implies out@[a].key@
                != out@[b].key@ by {
                assert(prev.len() == out@.len());
                assert(prev[a].key@ != prev[b].key@);
            }
        } else {
            proof {
                lemma_pairs_map_keys(out@, p.key@);
            }
            let ghost prev = out@;
            out.push(p);
            assert(out@.drop_last() =~= prev);
        }
        i = i + 1;
    }
    assert(pairs@.take(pairs.len() as int) =~= pairs@);
    out
}

} // verus!
