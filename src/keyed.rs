use vstd::prelude::*;

verus! {

/// The map that a sequence of keyed records stands for: each record maps its
/// key to its value, a later record overriding an earlier one.
pub open spec fn records_map<T, K, V>(s: Seq<T>, key: spec_fn(T) -> K, val: spec_fn(T) -> V) -> Map<
    K,
    V,
>
    decreases s.len(),
{
    if s.len() == 0 {
        Map::empty()
    } else {
        records_map(s.drop_last(), key, val).insert(key(s.last()), val(s.last()))
    }
}

/// No two records share a key.
pub open spec fn keys_unique<T, K>(s: Seq<T>, key: spec_fn(T) -> K) -> bool {
    forall|i: int, j: int| 0 <= i < j < s.len() ==> key(s[i]) != key(s[j])
}

/// A record's key maps to that record's value.
pub proof fn lemma_records_lookup<T, K, V>(
    s: Seq<T>,
    key: spec_fn(T) -> K,
    val: spec_fn(T) -> V,
    i: int,
)
    requires
        keys_unique(s, key),
        0 <= i < s.len(),
    ensures
        records_map(s, key, val).contains_key(key(s[i])),
        records_map(s, key, val)[key(s[i])] == val(s[i]),
    decreases s.len(),
{
    if i < s.len() - 1 {
        let d = s.drop_last();
        assert(d[i] == s[i]);
        assert forall|a: int, b: int| 0 <= a < b < d.len() implies key(d[a]) != key(d[b]) by {
            assert(d[a] == s[a] && d[b] == s[b]);
        }
        lemma_records_lookup(d, key, val, i);
        assert(key(s[i]) != key(s[s.len() - 1]));
    }
}

/// A key that no record carries is not in the map.
pub proof fn lemma_records_absent<T, K, V>(
    s: Seq<T>,
    key: spec_fn(T) -> K,
    val: spec_fn(T) -> V,
    k: K,
)
    requires
        forall|i: int| 0 <= i < s.len() ==> key(#[trigger] s[i]) != k,
    ensures
        !records_map(s, key, val).contains_key(k),
    decreases s.len(),
{
    if s.len() > 0 {
        let d = s.drop_last();
        assert forall|i: int| 0 <= i < d.len() implies key(#[trigger] d[i]) != k by {
            assert(d[i] == s[i]);
        }
        lemma_records_absent(d, key, val, k);
        assert(key(s[s.len() - 1]) != k);
    }
}

/// Every key of the map is carried by some record.
pub proof fn lemma_records_domain<T, K, V>(
    s: Seq<T>,
    key: spec_fn(T) -> K,
    val: spec_fn(T) -> V,
    k: K,
)
    requires
        records_map(s, key, val).contains_key(k),
    ensures
        exists|i: int| 0 <= i < s.len() && key(#[trigger] s[i]) == k,
    decreases s.len(),
{
    if key(s.last()) != k {
        let d = s.drop_last();
        lemma_records_domain(d, key, val, k);
        let i = choose|i: int| 0 <= i < d.len() && key(#[trigger] d[i]) == k;
        assert(s[i] == d[i]);
    } else {
        assert(key(s[s.len() - 1]) == k);
    }
}

/// Appending a record under a fresh key inserts it into the map.
pub proof fn lemma_records_push<T, K, V>(
    s: Seq<T>,
    key: spec_fn(T) -> K,
    val: spec_fn(T) -> V,
    e: T,
)
    requires
        keys_unique(s, key),
        forall|i: int| 0 <= i < s.len() ==> key(#[trigger] s[i]) != key(e),
    ensures
        records_map(s.push(e), key, val) == records_map(s, key, val).insert(key(e), val(e)),
        keys_unique(s.push(e), key),
{
    assert(s.push(e).drop_last() =~= s);
    let t = s.push(e);
    assert forall|a: int, b: int| 0 <= a < b < t.len() implies key(t[a]) != key(t[b]) by {
        if b == s.len() {
            assert(t[a] == s[a]);
        } else {
            assert(t[a] == s[a] && t[b] == s[b]);
        }
    }
}

/// Replacing a record by one with the same key updates that key's value.
pub proof fn lemma_records_update<T, K, V>(
    s: Seq<T>,
    key: spec_fn(T) -> K,
    val: spec_fn(T) -> V,
    j: int,
    e: T,
)
    requires
        keys_unique(s, key),
        0 <= j < s.len(),
        key(e) == key(s[j]),
    ensures
        records_map(s.update(j, e), key, val) == records_map(s, key, val).insert(key(e), val(e)),
        keys_unique(s.update(j, e), key),
    decreases s.len(),
{
    let t = s.update(j, e);
    assert forall|a: int, b: int| 0 <= a < b < t.len() implies key(t[a]) != key(t[b]) by {
        assert(key(t[a]) == key(s[a]) && key(t[b]) == key(s[b]));
    }
    let d = s.drop_last();
    if j == s.len() - 1 {
        assert(t.drop_last() =~= d);
        assert(records_map(t, key, val) =~= records_map(s, key, val).insert(key(e), val(e)));
    } else {
        assert(t.drop_last() =~= d.update(j, e));
        assert forall|a: int, b: int| 0 <= a < b < d.len() implies key(d[a]) != key(d[b]) by {
            assert(d[a] == s[a] && d[b] == s[b]);
        }
        lemma_records_update(d, key, val, j, e);
        assert(key(s[j]) != key(s[s.len() - 1]));
        assert(t.last() == s.last());
        assert(records_map(t, key, val) =~= records_map(s, key, val).insert(key(e), val(e)));
    }
}

/// The sum of the weights of the records.
pub open spec fn sum_of<T>(s: Seq<T>, w: spec_fn(T) -> nat) -> nat
    decreases s.len(),
{
    if s.len() == 0 {
        0
    } else {
        sum_of(s.drop_last(), w) + w(s.last())
    }
}

/// Appending a record adds its weight.
pub proof fn lemma_sum_push<T>(s: Seq<T>, w: spec_fn(T) -> nat, e: T)
    ensures
        sum_of(s.push(e), w) == sum_of(s, w) + w(e),
{
    assert(s.push(e).drop_last() =~= s);
}

/// Replacing a record trades its weight for the new one's.
pub proof fn lemma_sum_update<T>(s: Seq<T>, w: spec_fn(T) -> nat, j: int, e: T)
    requires
        0 <= j < s.len(),
    ensures
        sum_of(s.update(j, e), w) + w(s[j]) == sum_of(s, w) + w(e),
    decreases s.len(),
{
    let t = s.update(j, e);
    if j == s.len() - 1 {
        assert(t.drop_last() =~= s.drop_last());
    } else {
        assert(t.drop_last() =~= s.drop_last().update(j, e));
        lemma_sum_update(s.drop_last(), w, j, e);
    }
}

/// Records that agree key by key and value by value stand for the same map.
pub proof fn lemma_records_congruent<T, U, K, V>(
    s: Seq<T>,
    t: Seq<U>,
    ks: spec_fn(T) -> K,
    vs: spec_fn(T) -> V,
    kt: spec_fn(U) -> K,
    vt: spec_fn(U) -> V,
)
    requires
        s.len() == t.len(),
        forall|i: int| 0 <= i < s.len() ==> ks(#[trigger] s[i]) == kt(t[i]) && vs(s[i]) == vt(t[i]),
    ensures
        records_map(s, ks, vs) == records_map(t, kt, vt),
        keys_unique(s, ks) ==> keys_unique(t, kt),
    decreases s.len(),
{
    if s.len() > 0 {
        let (ds, dt) = (s.drop_last(), t.drop_last());
        assert forall|i: int| 0 <= i < ds.len() implies ks(#[trigger] ds[i]) == kt(dt[i]) && vs(ds[i])
            == vt(dt[i]) by {
            assert(ds[i] == s[i] && dt[i] == t[i]);
        }
        lemma_records_congruent(ds, dt, ks, vs, kt, vt);
        assert(ks(s[s.len() - 1]) == kt(t[t.len() - 1]));
    }
    if keys_unique(s, ks) {
        assert forall|a: int, b: int| 0 <= a < b < t.len() implies kt(t[a]) != kt(t[b]) by {
            assert(ks(s[a]) != ks(s[b]));
        }
    }
}

/// A record never weighs more than all records together.
pub proof fn lemma_sum_member<T>(s: Seq<T>, w: spec_fn(T) -> nat, i: int)
    requires
        0 <= i < s.len(),
    ensures
        w(s[i]) <= sum_of(s, w),
    decreases s.len(),
{
    if i < s.len() - 1 {
        let d = s.drop_last();
        assert(d[i] == s[i]);
        lemma_sum_member(d, w, i);
    }
}

/// Zero weights everywhere sum to zero.
pub proof fn lemma_sum_zero<T>(s: Seq<T>, w: spec_fn(T) -> nat)
    requires
        forall|i: int| 0 <= i < s.len() ==> w(#[trigger] s[i]) == 0,
    ensures
        sum_of(s, w) == 0,
    decreases s.len(),
{
    if s.len() > 0 {
        let d = s.drop_last();
        assert forall|i: int| 0 <= i < d.len() implies w(#[trigger] d[i]) == 0 by {
            assert(d[i] == s[i]);
        }
        lemma_sum_zero(d, w);
        assert(w(s[s.len() - 1]) == 0);
    }
}

/// A prefix with distinct keys stays so when extended by a record whose key
/// differs from all of its keys.
pub proof fn lemma_unique_prefix<T, K>(s: Seq<T>, key: spec_fn(T) -> K, n: int)
    requires
        0 <= n < s.len(),
        keys_unique(s.subrange(0, n), key),
        forall|j: int| 0 <= j < n ==> key(#[trigger] s[j]) != key(s[n]),
    ensures
        keys_unique(s.subrange(0, n + 1), key),
{
    let p = s.subrange(0, n + 1);
    assert forall|a: int, b: int| 0 <= a < b < p.len() implies key(p[a]) != key(p[b]) by {
        if b < n {
            assert(s.subrange(0, n)[a] == p[a] && s.subrange(0, n)[b] == p[b]);
        }
    }
}

} // verus!
