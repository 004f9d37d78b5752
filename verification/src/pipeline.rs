use vstd::prelude::*;

use std::collections::HashMap;

use crate::domain::{DBItem, ItemTradeVolume, ItemVelocity, LowestPriceRecord, WorldSaleBatch};
use crate::errors::ImportError;
use crate::reduce::{has_valid_obs, lemma_reduce_spec_domain, records_wf, reduce_spec};
use crate::score::{build_trade_volume, trade_volume_spec};
use crate::seqs::lemma_filter_push;

verus! {

broadcast use vstd::std_specs::hash::group_hash_axioms;

/// The catalog items that survived the reduction, as ids in catalog order.
pub open spec fn surviving_ids_spec(
    items: Seq<DBItem>,
    records: Map<u64, LowestPriceRecord>,
) -> Seq<u64> {
    items.map_values(|it: DBItem| it.item_id).filter(|id: u64| records.contains_key(id))
}

/// Walks the catalog in order and keeps the id of every item the reduction
/// produced a record for; items absent from every world's sale history have
/// no record and are passed over.
pub fn surviving_item_ids(items: &Vec<DBItem>, records: &HashMap<u64, LowestPriceRecord>) -> (r:
    Vec<u64>)
    ensures
        r@ == surviving_ids_spec(items@, records@),
{
    let ghost to_id = |it: DBItem| it.item_id;
    let ghost surviving = |id: u64| records@.contains_key(id);
    let mut out: Vec<u64> = Vec::new();
    let n = items.len();
    let mut i: usize = 0;
    while i < n
        invariant
            n == items@.len(),
            0 <= i <= n,
            to_id == (|it: DBItem| it.item_id),
            surviving == (|id: u64| records@.contains_key(id)),
            out@ == items@.take(i as int).map_values(to_id).filter(surviving),
        decreases n - i,
    {
        let id = items[i].item_id;
        proof {
            let t0 = items@.take(i as int);
            let t1 = items@.take(i + 1 as int);
            assert(t1 =~= t0.push(items@[i as int]));
            assert(t1.map_values(to_id) =~= t0.map_values(to_id).push(id));
            lemma_filter_push(t0.map_values(to_id), surviving, id);
        }
        if records.contains_key(&id) {
            out.push(id);
        }
        i = i + 1;
    }
    proof {
        assert(items@.take(n as int) =~= items@);
    }
    out
}

/// The output rows for a run of surviving items, each paired with the
/// velocity fetched for it on the home world.
pub open spec fn rows_spec(
    home_world_id: u64,
    velocities: Seq<(u64, ItemVelocity)>,
    records: Map<u64, LowestPriceRecord>,
) -> Seq<ItemTradeVolume> {
    velocities.map_values(
        |p: (u64, ItemVelocity)| trade_volume_spec(p.0, home_world_id, records[p.0], p.1),
    )
}

/// Every scored item has a record, and none of those records carries a
/// cheapest average of zero.
pub open spec fn all_scorable(
    velocities: Seq<(u64, ItemVelocity)>,
    records: Map<u64, LowestPriceRecord>,
) -> bool {
    forall|k: int|
        0 <= k < velocities.len() ==> records.contains_key((#[trigger] velocities[k]).0)
            && !records[velocities[k].0].cheapest_avg_price.is_zero()
}

/// Builds one output row per fetched velocity, in input order.
///
/// An id without a record signals a reduction bug and fails the run; a
/// record whose cheapest average is zero leaves the price ratio undefined
/// and fails the run.  Each built row scores the unit ratio exactly when the
/// home world is its stored winner.
pub fn build_trade_volumes(
    home_world_id: u64,
    velocities: &Vec<(u64, ItemVelocity)>,
    records: &HashMap<u64, LowestPriceRecord>,
) -> (r: Result<Vec<ItemTradeVolume>, ImportError>)
    ensures
        r is Ok <==> all_scorable(velocities@, records@),
        r matches Ok(rows) ==> rows@ == rows_spec(home_world_id, velocities@, records@),
        records_wf(records@, home_world_id) ==> (r matches Ok(rows) ==> (forall|k: int|
            0 <= k < rows@.len() ==> ((#[trigger] rows@[k]).price_diff_score.is_unit()
                <==> records@[velocities@[k].0].cheapest_world_id == home_world_id))),
        r is Err ==> (r == Err::<Vec<ItemTradeVolume>, ImportError>(ImportError::HashMapAccessError)
            && (exists|k: int|
            0 <= k < velocities@.len() && !records@.contains_key(
                (#[trigger] velocities@[k]).0,
            ))) || (r == Err::<Vec<ItemTradeVolume>, ImportError>(ImportError::ArithmeticError) && (
        exists|k: int|
            0 <= k < velocities@.len() && records@.contains_key((#[trigger] velocities@[k]).0)
                && records@[velocities@[k].0].cheapest_avg_price.is_zero())),
{
    let mut rows: Vec<ItemTradeVolume> = Vec::new();
    let n = velocities.len();
    let mut k: usize = 0;
    while k < n
        invariant
            n == velocities@.len(),
            0 <= k <= n,
            rows@ == rows_spec(home_world_id, velocities@.take(k as int), records@),
            forall|k2: int|
                0 <= k2 < k ==> records@.contains_key((#[trigger] velocities@[k2]).0)
                    && !records@[velocities@[k2].0].cheapest_avg_price.is_zero(),
            records_wf(records@, home_world_id) ==> (forall|k2: int|
                0 <= k2 < k ==> ((#[trigger] rows@[k2]).price_diff_score.is_unit()
                    <==> records@[velocities@[k2].0].cheapest_world_id == home_world_id)),
        decreases n - k,
    {
        let pair = &velocities[k];
        let item_id = pair.0;
        let rec = match records.get(&item_id) {
            Some(rec) => *rec,
            None => {
                return Err(ImportError::HashMapAccessError);
            },
        };
        let row = match build_trade_volume(item_id, home_world_id, &rec, &pair.1) {
            Ok(row) => row,
            Err(e) => {
                return Err(e);
            },
        };
        rows.push(row);
        proof {
            let t0 = velocities@.take(k as int);
            let t1 = velocities@.take(k + 1 as int);
            assert(t1 =~= t0.push(velocities@[k as int]));
            assert(rows@ =~= rows_spec(home_world_id, t1, records@));
        }
        k = k + 1;
    }
    proof {
        assert(velocities@.take(n as int) =~= velocities@);
    }
    Ok(rows)
}

/// Items absent from every world's sale history produce no output row: the
/// reduction records nothing for them, and the surviving-id walk passes
/// them over, whatever the catalog holds.
pub proof fn lemma_absent_item_no_output(
    home_world_id: u64,
    batches: Seq<WorldSaleBatch>,
    items: Seq<DBItem>,
    item_id: u64,
)
    requires
        !has_valid_obs(batches, item_id),
    ensures
        !reduce_spec(home_world_id, batches).contains_key(item_id),
        !surviving_ids_spec(items, reduce_spec(home_world_id, batches)).contains(item_id),
{
    broadcast use vstd::seq_lib::group_filter_ensures;

    lemma_reduce_spec_domain(home_world_id, batches, item_id);
    let m = reduce_spec(home_world_id, batches);
    let kept = surviving_ids_spec(items, m);
    if kept.contains(item_id) {
        let j = choose|j: int| 0 <= j < kept.len() && kept[j] == item_id;
        assert(m.contains_key(kept[j]));
        assert(false);
    }
}

} // verus!
