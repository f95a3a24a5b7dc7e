use vstd::prelude::*;

verus! {

/// The value stored under `k` in an association list of 32-byte keys: the
/// first entry whose key equals `k`, or `None` if no entry has that key.
pub open spec fn lookup<V>(s: Seq<(Seq<u8>, V)>, k: Seq<u8>) -> Option<V>
    decreases s.len(),
{
    if s.len() == 0 {
        None
    } else if s[0].0 == k {
        Some(s[0].1)
    } else {
        lookup(s.drop_first(), k)
    }
}

/// Whether some entry of `s` is stored under `k`.
pub open spec fn contains_key<V>(s: Seq<(Seq<u8>, V)>, k: Seq<u8>) -> bool {
    lookup(s, k) is Some
}

/// No two entries share a key.
pub open spec fn distinct_keys<V>(s: Seq<(Seq<u8>, V)>) -> bool {
    forall|i: int, j: int| 0 <= i < j < s.len() ==> s[i].0 != s[j].0
}

/// Appending an entry leaves every present key's value unchanged and binds
/// the new key only if it was absent.
pub proof fn lemma_lookup_push<V>(s: Seq<(Seq<u8>, V)>, p: (Seq<u8>, V), k: Seq<u8>)
    ensures
        lookup(s.push(p), k) == (if lookup(s, k) is Some {
            lookup(s, k)
        } else if p.0 == k {
            Some(p.1)
        } else {
            None::<V>
        }),
    decreases s.len(),
{
    if s.len() == 0 {
        assert(s.push(p).len() == 1);
        assert(s.push(p)[0] == p);
        assert(s.push(p).drop_first() =~= Seq::<(Seq<u8>, V)>::empty());
        if p.0 == k {
            assert(lookup(s.push(p), k) == Some(p.1));
        } else {
            assert(lookup(s.push(p), k) == lookup(s.push(p).drop_first(), k));
            assert(lookup(s.push(p), k) is None);
        }
        assert(lookup(s, k) is None);
    } else {
        assert(s.push(p).len() > 0);
        assert(s.push(p)[0] == s[0]);
        assert(s.push(p).drop_first() =~= s.drop_first().push(p));
        lemma_lookup_push(s.drop_first(), p, k);
        if s[0].0 == k {
            assert(lookup(s.push(p), k) == Some(s[0].1));
            assert(lookup(s, k) == Some(s[0].1));
        } else {
            assert(lookup(s.push(p), k) == lookup(s.drop_first().push(p), k));
            assert(lookup(s, k) == lookup(s.drop_first(), k));
        }
    }
}

/// Under distinct keys, the entry at index `i` is what lookup of its key
/// finds.
pub proof fn lemma_lookup_at_index<V>(s: Seq<(Seq<u8>, V)>, i: int)
    requires
        distinct_keys(s),
        0 <= i < s.len(),
    ensures
        lookup(s, s[i].0) == Some(s[i].1),
    decreases i,
{
    if i == 0 {
    } else {
        assert(s[0].0 != s[i].0);
        assert(distinct_keys(s.drop_first())) by {
            assert(forall|a: int, b: int|
                0 <= a < b < s.drop_first().len() ==> s.drop_first()[a].0 != s.drop_first()[b].0)
                by {
                assert(forall|a: int|
                    0 <= a < s.drop_first().len() ==> s.drop_first()[a] == s[a + 1]);
            }
        }
        assert(s.drop_first()[i - 1] == s[i]);
        lemma_lookup_at_index(s.drop_first(), i - 1);
    }
}

/// A key is absent exactly when no entry carries it.
pub proof fn lemma_lookup_none<V>(s: Seq<(Seq<u8>, V)>, k: Seq<u8>)
    ensures
        (lookup(s, k) is None) <==> (forall|i: int| 0 <= i < s.len() ==> s[i].0 != k),
    decreases s.len(),
{
    if s.len() == 0 {
    } else {
        lemma_lookup_none(s.drop_first(), k);
        if s[0].0 == k {
            assert(!(forall|i: int| 0 <= i < s.len() ==> s[i].0 != k)) by {
                assert(s[0].0 == k);
            }
        } else {
            assert(lookup(s, k) == lookup(s.drop_first(), k));
            if lookup(s, k) is None {
                assert forall|i: int| 0 <= i < s.len() implies s[i].0 != k by {
                    if i > 0 {
                        assert(s.drop_first()[i - 1] == s[i]);
                    }
                }
            } else {
                assert(!(forall|i: int|
                    0 <= i < s.drop_first().len() ==> s.drop_first()[i].0 != k));
                let w = choose|i: int|
                    0 <= i < s.drop_first().len() && s.drop_first()[i].0 == k;
                assert(s[w + 1].0 == k);
            }
        }
    }
}

/// Under distinct keys, replacing the value at index `i` rebinds only that
/// entry's key and leaves every other key's value unchanged.
pub proof fn lemma_lookup_update<V>(s: Seq<(Seq<u8>, V)>, i: int, v: V, k2: Seq<u8>)
    requires
        distinct_keys(s),
        0 <= i < s.len(),
    ensures
        lookup(s.update(i, (s[i].0, v)), k2) == (if k2 == s[i].0 {
            Some(v)
        } else {
            lookup(s, k2)
        }),
    decreases i,
{
    let t = s.update(i, (s[i].0, v));
    if i == 0 {
        assert(t[0] == (s[0].0, v));
        assert(t.drop_first() =~= s.drop_first());
    } else {
        assert(t[0] == s[0]);
        assert(s[0].0 != s[i].0);
        assert(distinct_keys(s.drop_first())) by {
            assert(forall|a: int|
                0 <= a < s.drop_first().len() ==> s.drop_first()[a] == s[a + 1]);
        }
        assert(t.drop_first() =~= s.drop_first().update(i - 1, (s.drop_first()[i - 1].0, v)));
        lemma_lookup_update(s.drop_first(), i - 1, v, k2);
    }
}

} // verus!
