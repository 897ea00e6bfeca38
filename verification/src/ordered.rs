//! The keys of an ordered map, in their order.
use std::collections::BTreeMap;
use vstd::prelude::*;
use vstd::std_specs::btree::increasing_seq;
use vstd::std_specs::cmp::OrdSpec;
use vstd::std_specs::iter::IteratorSpec;

verus! {

/// Whether `keys` are the numbers of `ids`, each once, from the smallest to the largest.
pub open spec fn ascending_u32(keys: Seq<u32>, ids: Set<u32>) -> bool {
    &&& forall|i: int, j: int| 0 <= i < j < keys.len() ==> #[trigger] keys[i] < #[trigger] keys[j]
    &&& forall|k: u32| #[trigger] keys.contains(k) <==> ids.contains(k)
}

proof fn lemma_increasing_u32(keys: Seq<u32>)
    requires
        increasing_seq(keys),
    ensures
        forall|i: int, j: int|
            0 <= i < j < keys.len() ==> #[trigger] keys[i] < #[trigger] keys[j],
{
    assert forall|i: int, j: int| 0 <= i < j < keys.len() implies #[trigger] keys[i]
        < #[trigger] keys[j] by {
        assert(keys[i].cmp_spec(&keys[j]) is Less);
    }
}

/// The keys of a map, from the smallest to the largest.
pub fn keys_u32<V>(map: &BTreeMap<u32, V>) -> (r: Vec<u32>)
    ensures
        ascending_u32(r@, map@.dom()),
{
    let mut r: Vec<u32> = Vec::new();
    let entries = map.iter();
    let ghost all = entries.remaining();
    let ghost keys = all.map_values(|kv: (&u32, &V)| *kv.0);
    proof {
        lemma_increasing_u32(keys);
    }
    for kv in it: entries
        invariant
            it.seq() == all,
            keys == all.map_values(|kv: (&u32, &V)| *kv.0),
            r@ == keys.take(it.index() as int),
    {
        assert(keys[it.index() as int] == *kv.0);
        r.push(*kv.0);
    }
    assert(r@ == keys);
    assert forall|k: u32| #[trigger] keys.contains(k) <==> map@.dom().contains(k) by {
        if keys.contains(k) {
            let i = choose|i: int| 0 <= i < keys.len() && keys[i] == k;
            assert(map@.contains_key(*all[i].0));
        }
        if map@.dom().contains(k) {
            assert(map@.contains_key(k));
            assert(all.contains((&k, &map@[k])));
            let i = choose|i: int| 0 <= i < all.len() && all[i] == (&k, &map@[k]);
            assert(keys[i] == k);
        }
    }
    r
}

/// The keys of a map stand in this order in one way only.
pub proof fn law_one_ascending_order_u32(a: Seq<u32>, b: Seq<u32>, ids: Set<u32>)
    requires
        ascending_u32(a, ids),
        ascending_u32(b, ids),
    ensures
        a == b,
    decreases a.len(),
{
    if a.len() == 0 {
        if b.len() > 0 {
            assert(b.contains(b[0]));
            assert(a.contains(b[0]));
        }
    } else {
        assert(a.contains(a.last()));
        assert(b.contains(a.last()));
        assert(b.contains(b.last()));
        assert(a.contains(b.last()));
        assert(a.last() == b.last());
        let rest = ids.remove(a.last());
        assert forall|k: u32| #[trigger] a.drop_last().contains(k) <==> rest.contains(k) by {
            if a.drop_last().contains(k) {
                let i = choose|i: int| 0 <= i < a.len() - 1 && a.drop_last()[i] == k;
                assert(a[i] == k);
                assert(a.contains(k));
            }
            if rest.contains(k) {
                assert(a.contains(k));
                let i = choose|i: int| 0 <= i < a.len() && a[i] == k;
                assert(a.drop_last()[i] == k);
            }
        }
        assert forall|k: u32| #[trigger] b.drop_last().contains(k) <==> rest.contains(k) by {
            if b.drop_last().contains(k) {
                let i = choose|i: int| 0 <= i < b.len() - 1 && b.drop_last()[i] == k;
                assert(b[i] == k);
                assert(b.contains(k));
            }
            if rest.contains(k) {
                assert(b.contains(k));
                let i = choose|i: int| 0 <= i < b.len() && b[i] == k;
                assert(b.drop_last()[i] == k);
            }
        }
        law_one_ascending_order_u32(a.drop_last(), b.drop_last(), rest);
        assert(a == a.drop_last().push(a.last()));
        assert(b == b.drop_last().push(b.last()));
    }
}

/// Whether `keys` are the numbers of `ids`, each once, from the smallest to the largest.
pub open spec fn ascending_i64(keys: Seq<i64>, ids: Set<i64>) -> bool {
    &&& forall|i: int, j: int| 0 <= i < j < keys.len() ==> #[trigger] keys[i] < #[trigger] keys[j]
    &&& forall|k: i64| #[trigger] keys.contains(k) <==> ids.contains(k)
}

proof fn lemma_increasing_i64(keys: Seq<i64>)
    requires
        increasing_seq(keys),
    ensures
        forall|i: int, j: int|
            0 <= i < j < keys.len() ==> #[trigger] keys[i] < #[trigger] keys[j],
{
    assert forall|i: int, j: int| 0 <= i < j < keys.len() implies #[trigger] keys[i]
        < #[trigger] keys[j] by {
        assert(keys[i].cmp_spec(&keys[j]) is Less);
    }
}

/// The keys of a map, from the smallest to the largest.
pub fn keys_i64<V>(map: &BTreeMap<i64, V>) -> (r: Vec<i64>)
    ensures
        ascending_i64(r@, map@.dom()),
{
    let mut r: Vec<i64> = Vec::new();
    let entries = map.iter();
    let ghost all = entries.remaining();
    let ghost keys = all.map_values(|kv: (&i64, &V)| *kv.0);
    proof {
        lemma_increasing_i64(keys);
    }
    for kv in it: entries
        invariant
            it.seq() == all,
            keys == all.map_values(|kv: (&i64, &V)| *kv.0),
            r@ == keys.take(it.index() as int),
    {
        assert(keys[it.index() as int] == *kv.0);
        r.push(*kv.0);
    }
    assert(r@ == keys);
    assert forall|k: i64| #[trigger] keys.contains(k) <==> map@.dom().contains(k) by {
        if keys.contains(k) {
            let i = choose|i: int| 0 <= i < keys.len() && keys[i] == k;
            assert(map@.contains_key(*all[i].0));
        }
        if map@.dom().contains(k) {
            assert(map@.contains_key(k));
            assert(all.contains((&k, &map@[k])));
            let i = choose|i: int| 0 <= i < all.len() && all[i] == (&k, &map@[k]);
            assert(keys[i] == k);
        }
    }
    r
}

/// The keys of a map stand in this order in one way only.
pub proof fn law_one_ascending_order_i64(a: Seq<i64>, b: Seq<i64>, ids: Set<i64>)
    requires
        ascending_i64(a, ids),
        ascending_i64(b, ids),
    ensures
        a == b,
    decreases a.len(),
{
    if a.len() == 0 {
        if b.len() > 0 {
            assert(b.contains(b[0]));
            assert(a.contains(b[0]));
        }
    } else {
        assert(a.contains(a.last()));
        assert(b.contains(a.last()));
        assert(b.contains(b.last()));
        assert(a.contains(b.last()));
        assert(a.last() == b.last());
        let rest = ids.remove(a.last());
        assert forall|k: i64| #[trigger] a.drop_last().contains(k) <==> rest.contains(k) by {
            if a.drop_last().contains(k) {
                let i = choose|i: int| 0 <= i < a.len() - 1 && a.drop_last()[i] == k;
                assert(a[i] == k);
                assert(a.contains(k));
            }
            if rest.contains(k) {
                assert(a.contains(k));
                let i = choose|i: int| 0 <= i < a.len() && a[i] == k;
                assert(a.drop_last()[i] == k);
            }
        }
        assert forall|k: i64| #[trigger] b.drop_last().contains(k) <==> rest.contains(k) by {
            if b.drop_last().contains(k) {
                let i = choose|i: int| 0 <= i < b.len() - 1 && b.drop_last()[i] == k;
                assert(b[i] == k);
                assert(b.contains(k));
            }
            if rest.contains(k) {
                assert(b.contains(k));
                let i = choose|i: int| 0 <= i < b.len() && b[i] == k;
                assert(b.drop_last()[i] == k);
            }
        }
        law_one_ascending_order_i64(a.drop_last(), b.drop_last(), rest);
        assert(a == a.drop_last().push(a.last()));
        assert(b == b.drop_last().push(b.last()));
    }
}

} // verus!
