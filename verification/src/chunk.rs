use vstd::prelude::*;

use crate::domain::DBItem;
use crate::seqs::{concat_all, lemma_concat_all_push};

verus! {

/// The ceiling on item ids per sale-history request.
pub const HISTORY_CHUNK_SIZE: usize = 90;

/// The backing store's ceiling on bound parameters per statement.
pub const BIND_LIMIT: usize = 65535;

/// The bound parameters each output row takes.
pub const TRADE_VOLUME_FIELDS: usize = 6;

/// Cuts a run of values into chunks of at most `chunk_size`, in order: every
/// chunk but the last is full, no chunk is empty, and laid end to end the
/// chunks give back the input.
pub fn chunk_values<T: Copy>(values: &Vec<T>, chunk_size: usize) -> (r: Vec<Vec<T>>)
    requires
        chunk_size >= 1,
    ensures
        concat_all(r@.map_values(|c: Vec<T>| c@)) == values@,
        forall|k: int| 0 <= k < r@.len() ==> 1 <= (#[trigger] r@[k])@.len() <= chunk_size,
        forall|k: int| 0 <= k < r@.len() - 1 ==> (#[trigger] r@[k])@.len() == chunk_size,
{
    let ghost to_view = |c: Vec<T>| c@;
    let mut out: Vec<Vec<T>> = Vec::new();
    let n = values.len();
    let mut i: usize = 0;
    while i < n
        invariant
            n == values@.len(),
            0 <= i <= n,
            chunk_size >= 1,
            to_view == (|c: Vec<T>| c@),
            concat_all(out@.map_values(to_view)) == values@.take(i as int),
            forall|k: int| 0 <= k < out@.len() ==> 1 <= (#[trigger] out@[k])@.len() <= chunk_size,
            forall|k: int|
                0 <= k < out@.len() ==> ((#[trigger] out@[k])@.len() == chunk_size || (k == out@.len()
                    - 1 && i == n)),
        decreases n - i,
    {
        let end = if n - i >= chunk_size {
            i + chunk_size
        } else {
            n
        };
        let mut chunk: Vec<T> = Vec::new();
        let mut j = i;
        while j < end
            invariant
                i <= j <= end <= n,
                n == values@.len(),
                chunk@ == values@.subrange(i as int, j as int),
            decreases end - j,
        {
            chunk.push(values[j]);
            proof {
                assert(values@.subrange(i as int, j + 1 as int) =~= values@.subrange(
                    i as int,
                    j as int,
                ).push(values@[j as int]));
            }
            j = j + 1;
        }
        proof {
            lemma_concat_all_push(out@.map_values(to_view), chunk@);
            assert(out@.push(chunk).map_values(to_view) =~= out@.map_values(to_view).push(chunk@));
            assert(values@.take(i as int) + values@.subrange(i as int, end as int) =~= values@.take(
                end as int,
            ));
            assert(chunk@.len() == end - i);
            assert(1 <= chunk@.len() <= chunk_size);
            assert(end == n ==> chunk@.len() <= chunk_size);
            assert(end < n ==> chunk@.len() == chunk_size);
        }
        out.push(chunk);
        i = end;
    }
    proof {
        assert(values@.take(n as int) =~= values@);
    }
    out
}

/// Extracts the catalog ids, in catalog order.
pub fn item_ids(items: &Vec<DBItem>) -> (r: Vec<u64>)
    ensures
        r@ == items@.map_values(|it: DBItem| it.item_id),
{
    let ghost to_id = |it: DBItem| it.item_id;
    let mut out: Vec<u64> = Vec::new();
    let n = items.len();
    let mut i: usize = 0;
    while i < n
        invariant
            n == items@.len(),
            0 <= i <= n,
            to_id == (|it: DBItem| it.item_id),
            out@ == items@.take(i as int).map_values(to_id),
        decreases n - i,
    {
        out.push(items[i].item_id);
        proof {
            assert(items@.take(i + 1 as int).map_values(to_id) =~= items@.take(
                i as int,
            ).map_values(to_id).push(items@[i as int].item_id));
        }
        i = i + 1;
    }
    proof {
        assert(items@.take(n as int) =~= items@);
    }
    out
}

} // verus!
