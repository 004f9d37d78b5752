use vstd::prelude::*;

use crate::domain::ItemTradeVolume;

verus! {

/// Some row with the given (item, world) key is present.
pub open spec fn has_key(rows: Seq<ItemTradeVolume>, item_id: u64, world_id: u64) -> bool {
    exists|k: int|
        0 <= k < rows.len() && (#[trigger] rows[k]).item_id == item_id && rows[k].world_id
            == world_id
}

/// Insert-ignore of one row: a row whose key is already present is dropped,
/// anything else is appended.
pub open spec fn insert_ignore_spec(
    rows: Seq<ItemTradeVolume>,
    row: ItemTradeVolume,
) -> Seq<ItemTradeVolume> {
    if has_key(rows, row.item_id, row.world_id) {
        rows
    } else {
        rows.push(row)
    }
}

/// Insert-ignore of a run of rows, in order.
pub open spec fn write_all_spec(
    rows: Seq<ItemTradeVolume>,
    new_rows: Seq<ItemTradeVolume>,
) -> Seq<ItemTradeVolume>
    decreases new_rows.len(),
{
    if new_rows.len() == 0 {
        rows
    } else {
        insert_ignore_spec(write_all_spec(rows, new_rows.drop_last()), new_rows.last())
    }
}

/// In-memory model of the persisted trade-volume table: rows keyed by
/// (item, world), written with insert-ignore semantics.  A rerun for a key
/// already present neither duplicates nor updates its row; refreshing a row
/// takes deleting it first.
pub struct TradeVolumeStore {
    pub rows: Vec<ItemTradeVolume>,
}

impl TradeVolumeStore {
    /// No two rows share an (item, world) key.
    pub open spec fn wf(self) -> bool {
        forall|k1: int, k2: int|
            0 <= k1 < k2 < self.rows@.len() ==> !((#[trigger] self.rows@[k1]).item_id == (
            #[trigger] self.rows@[k2]).item_id && self.rows@[k1].world_id
                == self.rows@[k2].world_id)
    }

    pub fn new() -> (r: TradeVolumeStore)
        ensures
            r.rows@ == Seq::<ItemTradeVolume>::empty(),
            r.wf(),
    {
        TradeVolumeStore { rows: Vec::new() }
    }

    /// Whether a row with the given key is already stored.
    pub fn contains(&self, item_id: u64, world_id: u64) -> (r: bool)
        ensures
            r == has_key(self.rows@, item_id, world_id),
    {
        let n = self.rows.len();
        let mut k: usize = 0;
        while k < n
            invariant
                n == self.rows@.len(),
                0 <= k <= n,
                forall|k2: int|
                    0 <= k2 < k ==> !((#[trigger] self.rows@[k2]).item_id == item_id
                        && self.rows@[k2].world_id == world_id),
            decreases n - k,
        {
            let row = &self.rows[k];
            if row.item_id == item_id && row.world_id == world_id {
                return true;
            }
            k = k + 1;
        }
        false
    }

    /// Writes one row, ignoring it when its key is already present.
    pub fn insert_ignore(&mut self, row: ItemTradeVolume)
        requires
            old(self).wf(),
        ensures
            final(self).rows@ == insert_ignore_spec(old(self).rows@, row),
            final(self).wf(),
    {
        if !self.contains(row.item_id, row.world_id) {
            self.rows.push(row);
        }
    }

    /// Writes a run of rows in order, each with insert-ignore semantics.
    /// Rows already present keep their stored values untouched.
    pub fn save_item_trade_volumes(&mut self, new_rows: &Vec<ItemTradeVolume>)
        requires
            old(self).wf(),
        ensures
            final(self).rows@ == write_all_spec(old(self).rows@, new_rows@),
            final(self).wf(),
    {
        let n = new_rows.len();
        let mut k: usize = 0;
        while k < n
            invariant
                n == new_rows@.len(),
                0 <= k <= n,
                self.rows@ == write_all_spec(old(self).rows@, new_rows@.take(k as int)),
                self.wf(),
            decreases n - k,
        {
            proof {
                assert(new_rows@.take(k + 1 as int).drop_last() =~= new_rows@.take(k as int));
                assert(new_rows@.take(k + 1 as int).last() == new_rows@[k as int]);
            }
            self.insert_ignore(new_rows[k]);
            k = k + 1;
        }
        proof {
            assert(new_rows@.take(n as int) =~= new_rows@);
        }
    }
}

/// Insert-ignore adds exactly the written key, and no key is lost.
proof fn lemma_insert_ignore_keys(
    rows: Seq<ItemTradeVolume>,
    row: ItemTradeVolume,
    item_id: u64,
    world_id: u64,
)
    ensures
        has_key(insert_ignore_spec(rows, row), item_id, world_id) <==> (has_key(
            rows,
            item_id,
            world_id,
        ) || (row.item_id == item_id && row.world_id == world_id)),
{
    let out = insert_ignore_spec(rows, row);
    if has_key(rows, item_id, world_id) {
        let k = choose|k: int|
            0 <= k < rows.len() && (#[trigger] rows[k]).item_id == item_id && rows[k].world_id
                == world_id;
        assert(out[k].item_id == item_id && out[k].world_id == world_id);
        assert(has_key(out, item_id, world_id));
    }
    if row.item_id == item_id && row.world_id == world_id {
        if !has_key(rows, row.item_id, row.world_id) {
            assert(out[rows.len() as int].item_id == item_id);
            assert(has_key(out, item_id, world_id));
        }
    }
    if has_key(out, item_id, world_id) && !(row.item_id == item_id && row.world_id == world_id) {
        let k = choose|k: int|
            0 <= k < out.len() && (#[trigger] out[k]).item_id == item_id && out[k].world_id
                == world_id;
        assert(k < rows.len());
        assert(rows[k] == out[k]);
        assert(has_key(rows, item_id, world_id));
    }
}

/// After a write, every written key is present, and every key present
/// before still is.
proof fn lemma_write_all_keys(
    rows: Seq<ItemTradeVolume>,
    new_rows: Seq<ItemTradeVolume>,
    item_id: u64,
    world_id: u64,
)
    ensures
        has_key(write_all_spec(rows, new_rows), item_id, world_id) <==> (has_key(
            rows,
            item_id,
            world_id,
        ) || has_key(new_rows, item_id, world_id)),
    decreases new_rows.len(),
{
    if new_rows.len() == 0 {
        assert(!has_key(new_rows, item_id, world_id));
    } else {
        lemma_write_all_keys(rows, new_rows.drop_last(), item_id, world_id);
        lemma_insert_ignore_keys(
            write_all_spec(rows, new_rows.drop_last()),
            new_rows.last(),
            item_id,
            world_id,
        );
        let dl = new_rows.drop_last();
        let last = new_rows.last();
        if has_key(new_rows, item_id, world_id) {
            let k = choose|k: int|
                0 <= k < new_rows.len() && (#[trigger] new_rows[k]).item_id == item_id
                    && new_rows[k].world_id == world_id;
            if k < new_rows.len() - 1 {
                assert(dl[k] == new_rows[k]);
                assert(has_key(dl, item_id, world_id));
            }
        }
        if has_key(dl, item_id, world_id) {
            let k = choose|k: int|
                0 <= k < dl.len() && (#[trigger] dl[k]).item_id == item_id && dl[k].world_id
                    == world_id;
            assert(new_rows[k] == dl[k]);
            assert(has_key(new_rows, item_id, world_id));
        }
        if last.item_id == item_id && last.world_id == world_id {
            assert(new_rows[new_rows.len() - 1].item_id == item_id);
            assert(has_key(new_rows, item_id, world_id));
        }
    }
}

/// A write whose every key is already present changes nothing.
proof fn lemma_write_all_present_noop(rows: Seq<ItemTradeVolume>, new_rows: Seq<ItemTradeVolume>)
    requires
        forall|k: int|
            0 <= k < new_rows.len() ==> has_key(
                rows,
                (#[trigger] new_rows[k]).item_id,
                new_rows[k].world_id,
            ),
    ensures
        write_all_spec(rows, new_rows) == rows,
    decreases new_rows.len(),
{
    if new_rows.len() > 0 {
        lemma_write_all_present_noop(rows, new_rows.drop_last());
        assert(new_rows[new_rows.len() - 1] == new_rows.last());
    }
}

/// Rerunning the same aggregation against an insert-ignore store is a
/// no-op: the second write adds no row and changes no stored value.
pub proof fn lemma_rerun_no_change(rows: Seq<ItemTradeVolume>, new_rows: Seq<ItemTradeVolume>)
    ensures
        write_all_spec(write_all_spec(rows, new_rows), new_rows) == write_all_spec(rows, new_rows),
{
    let once = write_all_spec(rows, new_rows);
    assert forall|k: int|
        0 <= k < new_rows.len() implies has_key(
        once,
        (#[trigger] new_rows[k]).item_id,
        new_rows[k].world_id,
    ) by {
        lemma_write_all_keys(rows, new_rows, new_rows[k].item_id, new_rows[k].world_id);
        assert(has_key(new_rows, new_rows[k].item_id, new_rows[k].world_id));
    }
    lemma_write_all_present_noop(once, new_rows);
}

/// A write never rewrites what is already stored: the stored rows stay, in
/// place, and new rows only follow them.
pub proof fn lemma_write_preserves_existing(
    rows: Seq<ItemTradeVolume>,
    new_rows: Seq<ItemTradeVolume>,
)
    ensures
        write_all_spec(rows, new_rows).len() >= rows.len(),
        forall|k: int|
            0 <= k < rows.len() ==> #[trigger] write_all_spec(rows, new_rows)[k] == rows[k],
    decreases new_rows.len(),
{
    if new_rows.len() > 0 {
        lemma_write_preserves_existing(rows, new_rows.drop_last());
    }
}

} // verus!
