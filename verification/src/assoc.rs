use vstd::prelude::*;

verus! {

/// The key under which every record of this crate is filed: a path,
/// viewed as its sequence of components.
pub type PathKey = Seq<Seq<char>>;

/// The map abstraction of an association list of path-keyed rows.
/// Later rows win, which coincides with lookup order once keys are
/// distinct.
pub open spec fn as_map<K, V>(s: Seq<(K, V)>) -> Map<K, V>
    decreases s.len(),
{
    if s.len() == 0 {
        Map::empty()
    } else {
        as_map(s.drop_last()).insert(s.last().0, s.last().1)
    }
}

/// No two rows share a key.
pub open spec fn distinct_keys<K, V>(s: Seq<(K, V)>) -> bool {
    forall|i: int, j: int| 0 <= i < j < s.len() ==> s[i].0 != s[j].0
}

pub proof fn lemma_distinct_drop_last<K, V>(s: Seq<(K, V)>)
    requires
        distinct_keys(s),
        s.len() > 0,
    ensures
        distinct_keys(s.drop_last()),
{
    assert forall|i: int, j: int| 0 <= i < j < s.drop_last().len() implies s.drop_last()[i].0
        != s.drop_last()[j].0 by {
        assert(s[i].0 != s[j].0);
    }
}

/// A key is in the abstraction exactly when some row carries it.
pub proof fn lemma_as_map_contains<K, V>(s: Seq<(K, V)>, k: K)
    ensures
        as_map(s).contains_key(k) <==> exists|i: int| 0 <= i < s.len() && s[i].0 == k,
    decreases s.len(),
{
    if s.len() > 0 {
        lemma_as_map_contains(s.drop_last(), k);
        if s.last().0 == k {
            assert(s[s.len() - 1].0 == k);
        } else {
            if as_map(s).contains_key(k) {
                let i = choose|i: int|
                    0 <= i < s.drop_last().len() && s.drop_last()[i].0 == k;
                assert(s[i].0 == k);
            }
            if exists|i: int| 0 <= i < s.len() && s[i].0 == k {
                let i = choose|i: int| 0 <= i < s.len() && s[i].0 == k;
                assert(i < s.len() - 1);
                assert(s.drop_last()[i].0 == k);
            }
        }
    }
}

/// With distinct keys, the abstraction maps each row's key to its value.
pub proof fn lemma_as_map_index<K, V>(s: Seq<(K, V)>, i: int)
    requires
        distinct_keys(s),
        0 <= i < s.len(),
    ensures
        as_map(s).contains_key(s[i].0),
        as_map(s)[s[i].0] == s[i].1,
    decreases s.len(),
{
    if i == s.len() - 1 {
    } else {
        lemma_distinct_drop_last(s);
        lemma_as_map_index(s.drop_last(), i);
        assert(s.drop_last()[i] == s[i]);
        assert(s[i].0 != s.last().0);
    }
}

/// Replacing the value of row `i` updates the abstraction at its key.
pub proof fn lemma_as_map_update<K, V>(s: Seq<(K, V)>, i: int, v: V)
    requires
        distinct_keys(s),
        0 <= i < s.len(),
    ensures
        distinct_keys(s.update(i, (s[i].0, v))),
        as_map(s.update(i, (s[i].0, v))) == as_map(s).insert(s[i].0, v),
    decreases s.len(),
{
    let t = s.update(i, (s[i].0, v));
    assert forall|p: int, q: int| 0 <= p < q < t.len() implies t[p].0 != t[q].0 by {
        assert(s[p].0 != s[q].0);
    }
    if i == s.len() - 1 {
        assert(t.drop_last() =~= s.drop_last());
        assert(t.last() == (s[i].0, v));
        assert(as_map(t) == as_map(s.drop_last()).insert(s[i].0, v));
        assert(as_map(s).insert(s[i].0, v) =~= as_map(s.drop_last()).insert(s[i].0, v));
    } else {
        lemma_distinct_drop_last(s);
        lemma_as_map_update(s.drop_last(), i, v);
        assert(t.drop_last() =~= s.drop_last().update(i, (s[i].0, v)));
        assert(t.last() == s.last());
        assert(as_map(t) == as_map(s.drop_last()).insert(s[i].0, v).insert(
            s.last().0,
            s.last().1,
        ));
        assert(s[i].0 != s.last().0);
        assert(as_map(s.drop_last()).insert(s[i].0, v).insert(s.last().0, s.last().1)
            =~= as_map(s.drop_last()).insert(s.last().0, s.last().1).insert(s[i].0, v));
    }
}

/// Appending a row with a fresh key inserts it into the abstraction.
pub proof fn lemma_as_map_push<K, V>(s: Seq<(K, V)>, k: K, v: V)
    requires
        distinct_keys(s),
        forall|i: int| 0 <= i < s.len() ==> s[i].0 != k,
    ensures
        distinct_keys(s.push((k, v))),
        as_map(s.push((k, v))) == as_map(s).insert(k, v),
{
    let t = s.push((k, v));
    assert forall|p: int, q: int| 0 <= p < q < t.len() implies t[p].0 != t[q].0 by {
        if q < s.len() {
            assert(s[p].0 != s[q].0);
        } else {
            assert(t[p].0 == s[p].0 && t[q].0 == k);
        }
    }
    assert(t.drop_last() =~= s);
    assert(t.last() == (k, v));
}

/// Extending a prefix by its next row inserts that row's key, which no
/// earlier row holds.
pub proof fn lemma_as_map_take_step<K, V>(s: Seq<(K, V)>, i: int)
    requires
        distinct_keys(s),
        0 <= i < s.len(),
    ensures
        as_map(s.take(i + 1)) == as_map(s.take(i)).insert(s[i].0, s[i].1),
        !as_map(s.take(i)).contains_key(s[i].0),
{
    assert(s.take(i + 1).drop_last() =~= s.take(i));
    assert(s.take(i + 1).last() == s[i]);
    assert(s.take(i + 1).len() == i + 1);
    lemma_as_map_contains(s.take(i), s[i].0);
    if as_map(s.take(i)).contains_key(s[i].0) {
        let j = choose|j: int| 0 <= j < s.take(i).len() && s.take(i)[j].0 == s[i].0;
        assert(s[j].0 == s[i].0);
    }
}

/// With distinct keys, the abstraction has exactly one entry per row.
pub proof fn lemma_as_map_dom_len<K, V>(s: Seq<(K, V)>)
    requires
        distinct_keys(s),
    ensures
        as_map(s).dom().finite(),
        as_map(s).dom().len() == s.len(),
    decreases s.len(),
{
    if s.len() > 0 {
        lemma_distinct_drop_last(s);
        lemma_as_map_dom_len(s.drop_last());
        lemma_as_map_contains(s.drop_last(), s.last().0);
        assert(forall|i: int| 0 <= i < s.drop_last().len() ==> s.drop_last()[i].0
            != s.last().0);
        assert(!as_map(s.drop_last()).contains_key(s.last().0));
    }
}

/// Transforming each row's value pointwise maps the abstraction's values.
pub proof fn lemma_as_map_map_values<K, V, W>(
    s: Seq<(K, V)>,
    t: Seq<(K, W)>,
    f: spec_fn(V) -> W,
)
    requires
        distinct_keys(s),
        t.len() == s.len(),
        forall|j: int| 0 <= j < s.len() ==> t[j].0 == s[j].0 && t[j].1 == f(s[j].1),
    ensures
        as_map(t) == as_map(s).map_values(f),
{
    assert forall|p: int, q: int| 0 <= p < q < t.len() implies t[p].0 != t[q].0 by {
        assert(s[p].0 != s[q].0);
    }
    assert forall|k: K|
        as_map(t).contains_key(k) <==> as_map(s).map_values(f).contains_key(k) by {
        lemma_as_map_contains(s, k);
        lemma_as_map_contains(t, k);
    }
    assert forall|k: K| as_map(t).contains_key(k) implies as_map(t)[k] == as_map(s).map_values(
        f,
    )[k] by {
        lemma_as_map_contains(t, k);
        let i = choose|i: int| 0 <= i < t.len() && t[i].0 == k;
        lemma_as_map_index(t, i);
        lemma_as_map_index(s, i);
    }
    assert(as_map(t) =~= as_map(s).map_values(f));
}

} // verus!
