use vstd::prelude::*;

use crate::domain::{DataCenter, Item, World};
use crate::seqs::lemma_filter_push;

verus! {

/// Whether a run of ids holds the given id.
pub fn contains_id(ids: &Vec<u64>, id: u64) -> (r: bool)
    ensures
        r == ids@.contains(id),
{
    let n = ids.len();
    let mut k: usize = 0;
    while k < n
        invariant
            n == ids@.len(),
            0 <= k <= n,
            forall|k2: int| 0 <= k2 < k ==> ids@[k2] != id,
        decreases n - k,
    {
        if ids[k] == id {
            return true;
        }
        k = k + 1;
    }
    false
}

/// Keeps the catalog items whose ids the marketable set names, in catalog
/// order.
pub fn filter_marketable(items: &Vec<Item>, marketable_ids: &Vec<u64>) -> (r: Vec<Item>)
    ensures
        r@ == items@.filter(|it: Item| marketable_ids@.contains(it.id)),
{
    let ghost marketable = |it: Item| marketable_ids@.contains(it.id);
    let mut out: Vec<Item> = Vec::new();
    let n = items.len();
    let mut i: usize = 0;
    while i < n
        invariant
            n == items@.len(),
            0 <= i <= n,
            marketable == (|it: Item| marketable_ids@.contains(it.id)),
            out@ == items@.take(i as int).filter(marketable),
        decreases n - i,
    {
        let it = &items[i];
        proof {
            assert(items@.take(i + 1 as int) =~= items@.take(i as int).push(items@[i as int]));
            lemma_filter_push(items@.take(i as int), marketable, items@[i as int]);
        }
        if contains_id(marketable_ids, it.id) {
            let kept = Item { id: it.id, name: it.name.clone() };
            proof {
                assert(kept == items@[i as int]);
            }
            out.push(kept);
        }
        i = i + 1;
    }
    proof {
        assert(items@.take(n as int) =~= items@);
    }
    out
}

/// The stored catalog ids that the marketable set no longer names: these
/// rows are stale and due for deletion.
pub fn items_ids_for_delete(stored_ids: &Vec<u64>, actual_ids: &Vec<u64>) -> (r: Vec<u64>)
    ensures
        r@ == stored_ids@.filter(|id: u64| !actual_ids@.contains(id)),
{
    let ghost stale = |id: u64| !actual_ids@.contains(id);
    let mut out: Vec<u64> = Vec::new();
    let n = stored_ids.len();
    let mut i: usize = 0;
    while i < n
        invariant
            n == stored_ids@.len(),
            0 <= i <= n,
            stale == (|id: u64| !actual_ids@.contains(id)),
            out@ == stored_ids@.take(i as int).filter(stale),
        decreases n - i,
    {
        let id = stored_ids[i];
        proof {
            assert(stored_ids@.take(i + 1 as int) =~= stored_ids@.take(i as int).push(
                stored_ids@[i as int],
            ));
            lemma_filter_push(stored_ids@.take(i as int), stale, stored_ids@[i as int]);
        }
        if !contains_id(actual_ids, id) {
            out.push(id);
        }
        i = i + 1;
    }
    proof {
        assert(stored_ids@.take(n as int) =~= stored_ids@);
    }
    out
}

/// Keeps the worlds that belong to the given data center, in service order.
pub fn filter_worlds_by_data_center(worlds: &Vec<World>, data_center: &DataCenter) -> (r: Vec<
    World,
>)
    ensures
        r@ == worlds@.filter(|w: World| data_center.worlds@.contains(w.id)),
{
    let ghost member = |w: World| data_center.worlds@.contains(w.id);
    let mut out: Vec<World> = Vec::new();
    let n = worlds.len();
    let mut i: usize = 0;
    while i < n
        invariant
            n == worlds@.len(),
            0 <= i <= n,
            member == (|w: World| data_center.worlds@.contains(w.id)),
            out@ == worlds@.take(i as int).filter(member),
        decreases n - i,
    {
        let w = &worlds[i];
        proof {
            assert(worlds@.take(i + 1 as int) =~= worlds@.take(i as int).push(worlds@[i as int]));
            lemma_filter_push(worlds@.take(i as int), member, worlds@[i as int]);
        }
        if contains_id(&data_center.worlds, w.id) {
            let kept = World { id: w.id, name: w.name.clone() };
            proof {
                assert(kept == worlds@[i as int]);
            }
            out.push(kept);
        }
        i = i + 1;
    }
    proof {
        assert(worlds@.take(n as int) =~= worlds@);
    }
    out
}

} // verus!
