//! Settings kept per application stream, keyed by the stream's index, and
//! how they follow a fresh list of streams.
use vstd::prelude::*;
use std::collections::HashMap;

verus! {

/// The settings kept for the streams that are playing: each stream that
/// had a setting keeps it; a stream without one gets the value it came with
/// (its first listing's, when it is listed twice); streams that stopped
/// lose theirs.
pub open spec fn refreshed_map<V>(old: Map<u32, V>, current: Seq<(u32, V)>) -> Map<u32, V>
    decreases current.len(),
{
    if current.len() == 0 {
        Map::empty()
    } else {
        let m = refreshed_map(old, current.drop_last());
        let (k, d) = current.last();
        if m.dom().contains(k) {
            m
        } else {
            m.insert(
                k,
                if old.dom().contains(k) {
                    old[k]
                } else {
                    d
                },
            )
        }
    }
}

/// The settings kept for the streams in `current` (each given with the
/// value it came with), see [`refreshed_map`].
pub fn refreshed_settings<V: Copy>(old: &HashMap<u32, V>, current: &Vec<(u32, V)>) -> (r: HashMap<
    u32,
    V,
>)
    ensures
        r@ == refreshed_map(old@, current@),
{
    broadcast use vstd::std_specs::hash::group_hash_axioms;

    let mut out: HashMap<u32, V> = HashMap::new();
    let mut i: usize = 0;
    while i < current.len()
        invariant
            i <= current.len(),
            out@ == refreshed_map(old@, current@.take(i as int)),
        decreases current.len() - i,
    {
        let (k, d) = current[i];
        assert(current@.take(i + 1).drop_last() =~= current@.take(i as int));
        assert(current@.take(i + 1).last() == (k, d));
        if !out.contains_key(&k) {
            let v = match old.get(&k) {
                Some(kept) => *kept,
                None => d,
            };
            out.insert(k, v);
        }
        i = i + 1;
    }
    assert(current@.take(i as int) =~= current@);
    out
}

/// After a refresh exactly the streams listed have a value.
pub proof fn lemma_refreshed_dom<V>(old: Map<u32, V>, current: Seq<(u32, V)>, k: u32)
    ensures
        refreshed_map(old, current).dom().contains(k) <==> exists|i: int|
            0 <= i < current.len() && (#[trigger] current[i]).0 == k,
    decreases current.len(),
{
    if current.len() > 0 {
        let d = current.drop_last();
        lemma_refreshed_dom(old, d, k);
        if exists|i: int| 0 <= i < current.len() && (#[trigger] current[i]).0 == k {
            let i = choose|i: int| 0 <= i < current.len() && (#[trigger] current[i]).0 == k;
            if i < current.len() - 1 {
                assert(d[i] == current[i]);
            }
        }
        if exists|i: int| 0 <= i < d.len() && (#[trigger] d[i]).0 == k {
            let i = choose|i: int| 0 <= i < d.len() && (#[trigger] d[i]).0 == k;
            assert(current[i] == d[i]);
        }
    }
}

/// A refresh keeps the value of every listed stream that had one.
pub proof fn lemma_refreshed_keeps<V>(old: Map<u32, V>, current: Seq<(u32, V)>, k: u32)
    requires
        old.dom().contains(k),
        refreshed_map(old, current).dom().contains(k),
    ensures
        refreshed_map(old, current)[k] == old[k],
    decreases current.len(),
{
    if current.len() > 0 {
        let m = refreshed_map(old, current.drop_last());
        if m.dom().contains(k) {
            lemma_refreshed_keeps(old, current.drop_last(), k);
        }
    }
}

} // verus!
