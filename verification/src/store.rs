use vstd::prelude::*;

verus! {

// A small theory of association vectors: a sequence of records, each
// carrying its own key, read as a finite map. The two collections of the
// persistent store — applications keyed by id, tasks keyed by owner and
// span id — are both instances of it.

/// The map read of a sequence of records under a key reading and a value
/// reading; a later record shadows an earlier one with the same key.
pub open spec fn seq_kv_map<T, K, V>(s: Seq<T>, kf: spec_fn(T) -> K, vf: spec_fn(T) -> V) -> Map<
    K,
    V,
>
    decreases s.len(),
{
    if s.len() == 0 {
        Map::empty()
    } else {
        seq_kv_map(s.drop_last(), kf, vf).insert(kf(s.last()), vf(s.last()))
    }
}

/// No two records carry the same key.
pub open spec fn unique_keys<T, K>(s: Seq<T>, kf: spec_fn(T) -> K) -> bool {
    forall|i: int, j: int| 0 <= i < j < s.len() ==> kf(s[i]) != kf(s[j])
}

/// A key is in the map read exactly when some record carries it.
pub proof fn lemma_map_contains<T, K, V>(s: Seq<T>, kf: spec_fn(T) -> K, vf: spec_fn(T) -> V, k: K)
    ensures
        seq_kv_map(s, kf, vf).contains_key(k) <==> exists|i: int|
            0 <= i < s.len() && kf(s[i]) == k,
    decreases s.len(),
{
    if s.len() > 0 {
        lemma_map_contains(s.drop_last(), kf, vf, k);
        if kf(s.last()) == k {
            assert(kf(s[s.len() - 1]) == k);
        } else if exists|i: int| 0 <= i < s.len() && kf(s[i]) == k {
            let i = choose|i: int| 0 <= i < s.len() && kf(s[i]) == k;
            assert(0 <= i < s.len() - 1 && kf(s.drop_last()[i]) == k);
        }
    }
}

/// Under unique keys, the record at any index is what the map read yields
/// for its key.
pub proof fn lemma_map_index<T, K, V>(s: Seq<T>, kf: spec_fn(T) -> K, vf: spec_fn(T) -> V, i: int)
    requires
        unique_keys(s, kf),
        0 <= i < s.len(),
    ensures
        seq_kv_map(s, kf, vf).contains_key(kf(s[i])),
        seq_kv_map(s, kf, vf)[kf(s[i])] == vf(s[i]),
    decreases s.len(),
{
    if i == s.len() - 1 {
    } else {
        assert(s.drop_last()[i] == s[i]);
        lemma_map_index(s.drop_last(), kf, vf, i);
        assert(kf(s[i]) != kf(s[s.len() - 1]));
    }
}

/// Appending a record inserts its pair into the map read.
pub proof fn lemma_map_push<T, K, V>(s: Seq<T>, kf: spec_fn(T) -> K, vf: spec_fn(T) -> V, x: T)
    ensures
        seq_kv_map(s.push(x), kf, vf) == seq_kv_map(s, kf, vf).insert(kf(x), vf(x)),
{
    assert(s.push(x).drop_last() =~= s);
    assert(s.push(x).last() == x);
}

/// Replacing the record at an index by one with the same key updates the map
/// read at that key.
pub proof fn lemma_map_update<T, K, V>(
    s: Seq<T>,
    kf: spec_fn(T) -> K,
    vf: spec_fn(T) -> V,
    i: int,
    x: T,
)
    requires
        unique_keys(s, kf),
        0 <= i < s.len(),
        kf(x) == kf(s[i]),
    ensures
        seq_kv_map(s.update(i, x), kf, vf) =~= seq_kv_map(s, kf, vf).insert(kf(x), vf(x)),
    decreases s.len(),
{
    if i == s.len() - 1 {
        assert(s.update(i, x).drop_last() =~= s.drop_last());
        assert(s.update(i, x).last() == x);
        assert(seq_kv_map(s, kf, vf).insert(kf(x), vf(x)) =~= seq_kv_map(
            s.drop_last(),
            kf,
            vf,
        ).insert(kf(x), vf(x)));
    } else {
        assert(s.update(i, x).drop_last() =~= s.drop_last().update(i, x));
        assert(s.update(i, x).last() == s.last());
        assert(s.drop_last()[i] == s[i]);
        lemma_map_update(s.drop_last(), kf, vf, i, x);
        assert(kf(s[i]) != kf(s.last()));
    }
}

/// Removing the record at an index removes its key from the map read.
pub proof fn lemma_map_remove<T, K, V>(
    s: Seq<T>,
    kf: spec_fn(T) -> K,
    vf: spec_fn(T) -> V,
    i: int,
)
    requires
        unique_keys(s, kf),
        0 <= i < s.len(),
    ensures
        seq_kv_map(s.remove(i), kf, vf) =~= seq_kv_map(s, kf, vf).remove(kf(s[i])),
    decreases s.len(),
{
    if i == s.len() - 1 {
        assert(s.remove(i) =~= s.drop_last());
        lemma_map_contains(s.drop_last(), kf, vf, kf(s[i]));
        assert(forall|j: int|
            0 <= j < s.len() - 1 ==> kf(#[trigger] s.drop_last()[j]) != kf(s[i]));
        assert(seq_kv_map(s.drop_last(), kf, vf) =~= seq_kv_map(s, kf, vf).remove(kf(s[i])));
    } else {
        assert(s.remove(i).drop_last() =~= s.drop_last().remove(i));
        assert(s.remove(i).last() == s.last());
        assert(s.drop_last()[i] == s[i]);
        lemma_map_remove(s.drop_last(), kf, vf, i);
        assert(kf(s[i]) != kf(s.last()));
    }
}

} // verus!
