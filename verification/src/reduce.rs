use vstd::prelude::*;

use std::collections::HashMap;

use crate::average::{batch_average, batch_avg, sum_qty, sums_fit};
use crate::domain::{AvgPrice, ItemMapping, ItemSaleHistory, LowestPriceRecord, WorldSaleBatch};
use crate::errors::ImportError;
use crate::seqs::lemma_filter_push;

verus! {

broadcast use vstd::std_specs::hash::group_hash_axioms;

/// The record made on the first observation of an item: the observing world
/// is the cheapest so far, and the home average is set exactly when the
/// observation came from the home world.
pub open spec fn init_record(
    item_id: u64,
    world_id: u64,
    home_world_id: u64,
    avg: AvgPrice,
) -> LowestPriceRecord {
    LowestPriceRecord {
        item_id,
        cheapest_world_id: world_id,
        cheapest_avg_price: avg,
        home_world_avg_price: if world_id == home_world_id {
            Some(avg)
        } else {
            None
        },
    }
}

/// A later observation of the same item: the stored winner is replaced only
/// by a strictly lower average, and the home average is refreshed on every
/// home-world observation, independently of the replacement.
pub open spec fn updated_record(
    r: LowestPriceRecord,
    world_id: u64,
    home_world_id: u64,
    avg: AvgPrice,
) -> LowestPriceRecord {
    LowestPriceRecord {
        item_id: r.item_id,
        cheapest_world_id: if avg.lt(r.cheapest_avg_price) {
            world_id
        } else {
            r.cheapest_world_id
        },
        cheapest_avg_price: if avg.lt(r.cheapest_avg_price) {
            avg
        } else {
            r.cheapest_avg_price
        },
        home_world_avg_price: if world_id == home_world_id {
            Some(avg)
        } else {
            r.home_world_avg_price
        },
    }
}

/// One valid observation folded into the running map.
pub open spec fn observe(
    m: Map<u64, LowestPriceRecord>,
    world_id: u64,
    home_world_id: u64,
    item_id: u64,
    avg: AvgPrice,
) -> Map<u64, LowestPriceRecord> {
    if m.contains_key(item_id) {
        m.insert(item_id, updated_record(m[item_id], world_id, home_world_id, avg))
    } else {
        m.insert(item_id, init_record(item_id, world_id, home_world_id, avg))
    }
}

/// One reported item folded into the running map: a batch whose quantities
/// sum to zero carries no data point and leaves the map unchanged.
pub open spec fn observe_sale(
    m: Map<u64, LowestPriceRecord>,
    world_id: u64,
    home_world_id: u64,
    item_id: u64,
    mapping: ItemMapping,
) -> Map<u64, LowestPriceRecord> {
    if sum_qty(mapping.entries@) > 0 {
        observe(m, world_id, home_world_id, item_id, batch_avg(mapping.entries@))
    } else {
        m
    }
}

/// One world's reported items folded into the running map, in report order.
pub open spec fn hist_fold(
    m0: Map<u64, LowestPriceRecord>,
    world_id: u64,
    home_world_id: u64,
    items: Seq<(u64, ItemMapping)>,
) -> Map<u64, LowestPriceRecord>
    decreases items.len(),
{
    if items.len() == 0 {
        m0
    } else {
        observe_sale(
            hist_fold(m0, world_id, home_world_id, items.drop_last()),
            world_id,
            home_world_id,
            items.last().0,
            items.last().1,
        )
    }
}

/// A run of batches folded into the running map, in batch order.
pub open spec fn batches_fold(
    m0: Map<u64, LowestPriceRecord>,
    home_world_id: u64,
    batches: Seq<WorldSaleBatch>,
) -> Map<u64, LowestPriceRecord>
    decreases batches.len(),
{
    if batches.len() == 0 {
        m0
    } else {
        hist_fold(
            batches_fold(m0, home_world_id, batches.drop_last()),
            batches.last().world_id,
            home_world_id,
            batches.last().history.items@,
        )
    }
}

/// The batches fetched from the home world itself, in order.
pub open spec fn home_part(batches: Seq<WorldSaleBatch>, home_world_id: u64) -> Seq<
    WorldSaleBatch,
> {
    batches.filter(|b: WorldSaleBatch| b.world_id == home_world_id)
}

/// The batches fetched from every other world, in order.
pub open spec fn away_part(batches: Seq<WorldSaleBatch>, home_world_id: u64) -> Seq<
    WorldSaleBatch,
> {
    batches.filter(|b: WorldSaleBatch| b.world_id != home_world_id)
}

/// What the reduction computes: the batches folded one record per item, the
/// home world's own batches first, so that the home world is always a
/// candidate and equal prices elsewhere never displace it.
pub open spec fn reduce_spec(home_world_id: u64, batches: Seq<WorldSaleBatch>) -> Map<
    u64,
    LowestPriceRecord,
> {
    batches_fold(
        Map::empty(),
        home_world_id,
        home_part(batches, home_world_id) + away_part(batches, home_world_id),
    )
}

/// Every reported item of every batch has sums that fit the machine word.
pub open spec fn batch_fits(items: Seq<(u64, ItemMapping)>) -> bool {
    forall|j: int| 0 <= j < items.len() ==> sums_fit((#[trigger] items[j]).1.entries@)
}

pub open spec fn all_batches_fit(batches: Seq<WorldSaleBatch>) -> bool {
    forall|k: int|
        0 <= k < batches.len() ==> batch_fits((#[trigger] batches[k]).history.items@)
}

/// Some world reported at least one actual sale of the item.
pub open spec fn batch_has_valid_obs(items: Seq<(u64, ItemMapping)>, item_id: u64) -> bool {
    exists|j: int|
        0 <= j < items.len() && (#[trigger] items[j]).0 == item_id && sum_qty(
            items[j].1.entries@,
        ) > 0
}

pub open spec fn has_valid_obs(batches: Seq<WorldSaleBatch>, item_id: u64) -> bool {
    exists|k: int|
        0 <= k < batches.len() && batch_has_valid_obs(
            (#[trigger] batches[k]).history.items@,
            item_id,
        )
}

pub open spec fn has_valid_home_obs(
    batches: Seq<WorldSaleBatch>,
    home_world_id: u64,
    item_id: u64,
) -> bool {
    exists|k: int|
        0 <= k < batches.len() && (#[trigger] batches[k]).world_id == home_world_id
            && batch_has_valid_obs(batches[k].history.items@, item_id)
}

pub open spec fn has_valid_away_obs(
    batches: Seq<WorldSaleBatch>,
    home_world_id: u64,
    item_id: u64,
) -> bool {
    exists|k: int|
        0 <= k < batches.len() && (#[trigger] batches[k]).world_id != home_world_id
            && batch_has_valid_obs(batches[k].history.items@, item_id)
}

/// No item is reported twice by the home world, within or across its
/// batches: the catalog is chunked into disjoint id sets, so each world sees
/// each item at most once.
pub open spec fn home_items_unique(batches: Seq<WorldSaleBatch>, home_world_id: u64) -> bool {
    forall|k1: int, j1: int, k2: int, j2: int|
        0 <= k1 < batches.len() && 0 <= k2 < batches.len() && batches[k1].world_id
            == home_world_id && batches[k2].world_id == home_world_id && 0 <= j1
            < batches[k1].history.items@.len() && 0 <= j2 < batches[k2].history.items@.len() && (k1
            != k2 || j1 != j2) ==> (#[trigger] batches[k1].history.items@[j1]).0 != (
        #[trigger] batches[k2].history.items@[j2]).0
}

/// All records of a reduction map are well formed and keyed by their item.
pub open spec fn records_wf(m: Map<u64, LowestPriceRecord>, home_world_id: u64) -> bool {
    forall|id: u64|
        m.contains_key(id) ==> (#[trigger] m[id]).wf(home_world_id) && m[id].item_id == id
}

/// A strictly lower average stays strictly lower than anything the stored
/// winner does not exceed.
proof fn lemma_lt_le_trans(a: AvgPrice, c: AvgPrice, h: AvgPrice)
    requires
        a.wf(),
        c.wf(),
        h.wf(),
        a.lt(c),
        c.le(h),
    ensures
        a.lt(h),
{
    assert(a.total_gil * h.quantity < h.total_gil * a.quantity) by (nonlinear_arith)
        requires
            a.quantity >= 1,
            c.quantity >= 1,
            h.quantity >= 1,
            a.total_gil >= 0,
            c.total_gil >= 0,
            h.total_gil >= 0,
            a.total_gil * c.quantity < c.total_gil * a.quantity,
            c.total_gil * h.quantity <= h.total_gil * c.quantity,
    ;
}

/// A later observation from a world other than the home world keeps a record
/// well formed.
proof fn lemma_updated_away_wf(
    r: LowestPriceRecord,
    world_id: u64,
    home_world_id: u64,
    avg: AvgPrice,
)
    requires
        r.wf(home_world_id),
        avg.wf(),
        world_id != home_world_id,
    ensures
        updated_record(r, world_id, home_world_id, avg).wf(home_world_id),
{
    if avg.lt(r.cheapest_avg_price) {
        match r.home_world_avg_price {
            Some(h) => {
                lemma_lt_le_trans(avg, r.cheapest_avg_price, h);
            },
            None => {},
        }
    }
}

/// An update never replaces the stored winner with an equal price: equal
/// averages leave both the winning world and its price unchanged.
pub proof fn lemma_equal_price_never_replaces(
    r: LowestPriceRecord,
    world_id: u64,
    home_world_id: u64,
    avg: AvgPrice,
)
    requires
        avg.eq_val(r.cheapest_avg_price),
    ensures
        updated_record(r, world_id, home_world_id, avg).cheapest_world_id == r.cheapest_world_id,
        updated_record(r, world_id, home_world_id, avg).cheapest_avg_price == r.cheapest_avg_price,
{
}

/// Replaces the stored winner only on a strictly lower average; refreshes the
/// home average on every home-world observation.
pub fn apply_observation(
    r: LowestPriceRecord,
    world_id: u64,
    home_world_id: u64,
    avg: AvgPrice,
) -> (res: LowestPriceRecord)
    ensures
        res == updated_record(r, world_id, home_world_id, avg),
{
    let replaced = avg.is_lower_than(&r.cheapest_avg_price);
    LowestPriceRecord {
        item_id: r.item_id,
        cheapest_world_id: if replaced {
            world_id
        } else {
            r.cheapest_world_id
        },
        cheapest_avg_price: if replaced {
            avg
        } else {
            r.cheapest_avg_price
        },
        home_world_avg_price: if world_id == home_world_id {
            Some(avg)
        } else {
            r.home_world_avg_price
        },
    }
}

/// Folds one world's sale history into the running map: per item, the
/// entries are averaged exactly, zero-quantity items carry no data point,
/// the first valid observation of an item installs it and later ones replace
/// the winner only on a strictly lower average.
fn absorb_history(
    m: &mut HashMap<u64, LowestPriceRecord>,
    world_id: u64,
    home_world_id: u64,
    history: &ItemSaleHistory,
) -> (r: Result<(), ImportError>)
    requires
        records_wf(old(m)@, home_world_id),
        world_id == home_world_id ==> (forall|j: int|
            0 <= j < history.items@.len() ==> !old(m)@.contains_key(
                (#[trigger] history.items@[j]).0,
            )),
        world_id == home_world_id ==> (forall|j1: int, j2: int|
            0 <= j1 < j2 < history.items@.len() ==> (#[trigger] history.items@[j1]).0 != (
            #[trigger] history.items@[j2]).0),
    ensures
        r is Ok <==> batch_fits(history.items@),
        r is Ok ==> final(m)@ == hist_fold(old(m)@, world_id, home_world_id, history.items@),
        r is Err ==> r == Err::<(), ImportError>(ImportError::ArithmeticError),
        r is Ok ==> records_wf(final(m)@, home_world_id),
        r is Ok ==> (forall|id: u64|
            final(m)@.contains_key(id) <==> old(m)@.contains_key(id) || batch_has_valid_obs(
                history.items@,
                id,
            )),
{
    let ghost s = history.items@;
    let items_len = history.items.len();
    let mut j: usize = 0;
    while j < items_len
        invariant
            items_len == s.len(),
            s == history.items@,
            0 <= j <= items_len,
            m@ == hist_fold(old(m)@, world_id, home_world_id, s.take(j as int)),
            forall|j2: int| 0 <= j2 < j ==> sums_fit((#[trigger] s[j2]).1.entries@),
            records_wf(m@, home_world_id),
            forall|id: u64|
                m@.contains_key(id) <==> old(m)@.contains_key(id) || batch_has_valid_obs(
                    s.take(j as int),
                    id,
                ),
            records_wf(old(m)@, home_world_id),
            world_id == home_world_id ==> (forall|j2: int|
                0 <= j2 < s.len() ==> !old(m)@.contains_key((#[trigger] s[j2]).0)),
            world_id == home_world_id ==> (forall|j1: int, j2: int|
                0 <= j1 < j2 < s.len() ==> (#[trigger] s[j1]).0 != (#[trigger] s[j2]).0),
        decreases items_len - j,
    {
        let ghost m_prev = m@;
        let pair = &history.items[j];
        let avg_opt = match batch_average(&pair.1.entries) {
            Ok(a) => a,
            Err(e) => {
                proof {
                    crate::average::lemma_sums_nonneg(pair.1.entries@);
                    assert(!sums_fit((s[j as int]).1.entries@));
                }
                return Err(e);
            },
        };
        proof {
            crate::average::lemma_sums_nonneg(pair.1.entries@);
        }
        match avg_opt {
            None => {},
            Some(avg) => {
                let item_id = pair.0;
                let existing = match m.get(&item_id) {
                    Some(rec) => Some(*rec),
                    None => None,
                };
                match existing {
                    Some(rec) => {
                        proof {
                            if world_id != home_world_id {
                                lemma_updated_away_wf(rec, world_id, home_world_id, avg);
                            } else {
                                // the home world reports each item at most
                                // once, and nothing it reports was in the map
                                // before this history was folded in
                                let t0 = s.take(j as int);
                                assert(batch_has_valid_obs(t0, item_id));
                                let j2 = choose|j2: int|
                                    0 <= j2 < t0.len() && (#[trigger] t0[j2]).0 == item_id
                                        && sum_qty(t0[j2].1.entries@) > 0;
                                assert((s[j2]).0 == (s[j as int]).0);
                                assert(false);
                            }
                        }
                        let updated = apply_observation(rec, world_id, home_world_id, avg);
                        m.insert(item_id, updated);
                        proof {
                            assert(m@ == observe(
                                m_prev,
                                world_id,
                                home_world_id,
                                item_id,
                                avg,
                            ));
                        }
                    },
                    None => {
                        m.insert(
                            item_id,
                            LowestPriceRecord {
                                item_id,
                                cheapest_world_id: world_id,
                                cheapest_avg_price: avg,
                                home_world_avg_price: if world_id == home_world_id {
                                    Some(avg)
                                } else {
                                    None
                                },
                            },
                        );
                        proof {
                            assert(m@ == observe(
                                m_prev,
                                world_id,
                                home_world_id,
                                item_id,
                                avg,
                            ));
                        }
                    },
                }
            },
        }
        proof {
            let t0 = s.take(j as int);
            let t1 = s.take(j + 1 as int);
            assert(t1.drop_last() =~= t0);
            assert(t1.last() == s[j as int]);
            assert(m@ == observe_sale(
                m_prev,
                world_id,
                home_world_id,
                (s[j as int]).0,
                (s[j as int]).1,
            ));
            assert(hist_fold(old(m)@, world_id, home_world_id, t1) == observe_sale(
                hist_fold(old(m)@, world_id, home_world_id, t0),
                world_id,
                home_world_id,
                (s[j as int]).0,
                (s[j as int]).1,
            ));
            assert forall|id: u64|
                batch_has_valid_obs(t1, id) <==> (batch_has_valid_obs(t0, id) || ((
                s[j as int]).0 == id && sum_qty((s[j as int]).1.entries@) > 0)) by {
                if batch_has_valid_obs(t1, id) {
                    let j2 = choose|j2: int|
                        0 <= j2 < t1.len() && (#[trigger] t1[j2]).0 == id && sum_qty(
                            t1[j2].1.entries@,
                        ) > 0;
                    if j2 < j {
                        assert(t0[j2] == t1[j2]);
                        assert(batch_has_valid_obs(t0, id));
                    } else {
                        assert(t1[j2] == s[j as int]);
                    }
                }
                if batch_has_valid_obs(t0, id) {
                    let j2 = choose|j2: int|
                        0 <= j2 < t0.len() && (#[trigger] t0[j2]).0 == id && sum_qty(
                            t0[j2].1.entries@,
                        ) > 0;
                    assert(t1[j2] == t0[j2]);
                    assert(batch_has_valid_obs(t1, id));
                }
                if (s[j as int]).0 == id && sum_qty((s[j as int]).1.entries@) > 0 {
                    assert(t1[j as int] == s[j as int]);
                    assert(batch_has_valid_obs(t1, id));
                }
            }
        }
        j = j + 1;
    }
    proof {
        assert(s.take(items_len as int) =~= s);
    }
    Ok(())
}

/// Folding a concatenation folds the two runs in turn.
proof fn lemma_batches_fold_concat(
    m0: Map<u64, LowestPriceRecord>,
    home_world_id: u64,
    a: Seq<WorldSaleBatch>,
    b: Seq<WorldSaleBatch>,
)
    ensures
        batches_fold(m0, home_world_id, a + b) == batches_fold(
            batches_fold(m0, home_world_id, a),
            home_world_id,
            b,
        ),
    decreases b.len(),
{
    if b.len() == 0 {
        assert(a + b =~= a);
    } else {
        assert((a + b).drop_last() =~= a + b.drop_last());
        assert((a + b).last() == b.last());
        lemma_batches_fold_concat(m0, home_world_id, a, b.drop_last());
    }
}

/// Reduces all per-(world, chunk) sale batches to one record per item.
///
/// The home world's own batches are folded first, so the home average is
/// always the candidate that every other world must strictly undercut; among
/// equal prices the first world seen wins and is never displaced.  Items
/// that no world reported with a positive quantity get no record.
pub fn reduce_sale_histories(home_world_id: u64, batches: &Vec<WorldSaleBatch>) -> (r: Result<
    HashMap<u64, LowestPriceRecord>,
    ImportError,
>)
    requires
        home_items_unique(batches@, home_world_id),
    ensures
        r is Ok <==> all_batches_fit(batches@),
        r is Err ==> r == Err::<HashMap<u64, LowestPriceRecord>, ImportError>(
            ImportError::ArithmeticError,
        ),
        r matches Ok(map) ==> map@ == reduce_spec(home_world_id, batches@),
        r matches Ok(map) ==> records_wf(map@, home_world_id),
        r matches Ok(map) ==> (forall|id: u64|
            map@.contains_key(id) <==> has_valid_obs(batches@, id)),
{
    let ghost s = batches@;
    let ghost is_home = |b: WorldSaleBatch| b.world_id == home_world_id;
    let ghost is_away = |b: WorldSaleBatch| b.world_id != home_world_id;
    let mut m: HashMap<u64, LowestPriceRecord> = HashMap::new();
    let n = batches.len();

    let mut i: usize = 0;
    while i < n
        invariant
            n == s.len(),
            s == batches@,
            is_home == (|b: WorldSaleBatch| b.world_id == home_world_id),
            0 <= i <= n,
            home_items_unique(s, home_world_id),
            m@ == batches_fold(Map::empty(), home_world_id, s.take(i as int).filter(is_home)),
            forall|k: int|
                0 <= k < i && (#[trigger] s[k]).world_id == home_world_id ==> batch_fits(
                    s[k].history.items@,
                ),
            records_wf(m@, home_world_id),
            forall|id: u64|
                m@.contains_key(id) <==> has_valid_home_obs(s.take(i as int), home_world_id, id),
        decreases n - i,
    {
        let b = &batches[i];
        if b.world_id == home_world_id {
            proof {
                let t0 = s.take(i as int);
                // nothing this batch reports is in the map yet: the home
                // world reports each item at most once across its batches
                assert forall|j: int|
                    0 <= j < b.history.items@.len() implies !m@.contains_key(
                    (#[trigger] b.history.items@[j]).0,
                ) by {
                    let id = b.history.items@[j].0;
                    if m@.contains_key(id) {
                        let k = choose|k: int|
                            0 <= k < t0.len() && (#[trigger] t0[k]).world_id == home_world_id
                                && batch_has_valid_obs(t0[k].history.items@, id);
                        let j2 = choose|j2: int|
                            0 <= j2 < t0[k].history.items@.len() && (
                            #[trigger] t0[k].history.items@[j2]).0 == id && sum_qty(
                                t0[k].history.items@[j2].1.entries@,
                            ) > 0;
                        assert(t0[k] == s[k]);
                        assert((s[k].history.items@[j2]).0 != (s[i as int].history.items@[j]).0);
                    }
                }
                assert forall|j1: int, j2: int|
                    0 <= j1 < j2 < b.history.items@.len() implies (
                #[trigger] b.history.items@[j1]).0 != (#[trigger] b.history.items@[j2]).0 by {
                    assert((s[i as int].history.items@[j1]).0 != (
                    s[i as int].history.items@[j2]).0);
                }
            }
            match absorb_history(&mut m, b.world_id, home_world_id, &b.history) {
                Ok(()) => {},
                Err(e) => {
                    proof {
                        assert(!batch_fits((s[i as int]).history.items@));
                        assert(!all_batches_fit(s));
                    }
                    return Err(e);
                },
            }
        }
        proof {
            let t0 = s.take(i as int);
            let t1 = s.take(i + 1 as int);
            assert(t1 =~= t0.push(s[i as int]));
            lemma_filter_push(t0, is_home, s[i as int]);
            if s[i as int].world_id == home_world_id {
                let fp = t0.filter(is_home);
                assert(t1.filter(is_home) == fp.push(s[i as int]));
                assert(fp.push(s[i as int]).drop_last() =~= fp);
                assert(batches_fold(Map::empty(), home_world_id, fp.push(s[i as int]))
                    == hist_fold(
                    batches_fold(Map::empty(), home_world_id, fp),
                    s[i as int].world_id,
                    home_world_id,
                    s[i as int].history.items@,
                ));
            }
            assert forall|id: u64|
                has_valid_home_obs(t1, home_world_id, id) <==> (has_valid_home_obs(
                    t0,
                    home_world_id,
                    id,
                ) || (s[i as int].world_id == home_world_id && batch_has_valid_obs(
                    s[i as int].history.items@,
                    id,
                ))) by {
                if has_valid_home_obs(t1, home_world_id, id) {
                    let k = choose|k: int|
                        0 <= k < t1.len() && (#[trigger] t1[k]).world_id == home_world_id
                            && batch_has_valid_obs(t1[k].history.items@, id);
                    if k < i {
                        assert(t0[k] == t1[k]);
                        assert(has_valid_home_obs(t0, home_world_id, id));
                    } else {
                        assert(t1[k] == s[i as int]);
                    }
                }
                if has_valid_home_obs(t0, home_world_id, id) {
                    let k = choose|k: int|
                        0 <= k < t0.len() && (#[trigger] t0[k]).world_id == home_world_id
                            && batch_has_valid_obs(t0[k].history.items@, id);
                    assert(t1[k] == t0[k]);
                    assert(has_valid_home_obs(t1, home_world_id, id));
                }
                if s[i as int].world_id == home_world_id && batch_has_valid_obs(
                    s[i as int].history.items@,
                    id,
                ) {
                    assert(t1[i as int] == s[i as int]);
                    assert(has_valid_home_obs(t1, home_world_id, id));
                }
            }
        }
        i = i + 1;
    }

    proof {
        assert(s.take(n as int) =~= s);
    }

    let mut i: usize = 0;
    while i < n
        invariant
            n == s.len(),
            s == batches@,
            is_home == (|b: WorldSaleBatch| b.world_id == home_world_id),
            is_away == (|b: WorldSaleBatch| b.world_id != home_world_id),
            0 <= i <= n,
            m@ == batches_fold(
                Map::empty(),
                home_world_id,
                s.filter(is_home) + s.take(i as int).filter(is_away),
            ),
            forall|k: int|
                0 <= k < s.len() && (#[trigger] s[k]).world_id == home_world_id ==> batch_fits(
                    s[k].history.items@,
                ),
            forall|k: int|
                0 <= k < i && (#[trigger] s[k]).world_id != home_world_id ==> batch_fits(
                    s[k].history.items@,
                ),
            records_wf(m@, home_world_id),
            forall|id: u64|
                m@.contains_key(id) <==> has_valid_home_obs(s, home_world_id, id)
                    || has_valid_away_obs(s.take(i as int), home_world_id, id),
        decreases n - i,
    {
        let ghost m_prev = m@;
        let b = &batches[i];
        if b.world_id != home_world_id {
            match absorb_history(&mut m, b.world_id, home_world_id, &b.history) {
                Ok(()) => {},
                Err(e) => {
                    proof {
                        assert(!batch_fits((s[i as int]).history.items@));
                        assert(!all_batches_fit(s));
                    }
                    return Err(e);
                },
            }
            proof {
                assert(b.history.items@ == (s[i as int]).history.items@);
                assert forall|id: u64|
                    m@.contains_key(id) <==> m_prev.contains_key(id) || batch_has_valid_obs(
                        (s[i as int]).history.items@,
                        id,
                    ) by {
                    // each test puts its term in scope, so the call's
                    // domain clause instantiates at this id
                    if m@.contains_key(id) {
                    }
                    if m_prev.contains_key(id) {
                    }
                    if batch_has_valid_obs(b.history.items@, id) {
                    }
                }
            }
        }
        proof {
            let t0 = s.take(i as int);
            let t1 = s.take(i + 1 as int);
            assert(t1 =~= t0.push(s[i as int]));
            lemma_filter_push(t0, is_away, s[i as int]);
            if s[i as int].world_id != home_world_id {
                let fp = s.filter(is_home) + t0.filter(is_away);
                assert(s.filter(is_home) + t1.filter(is_away) =~= fp.push(s[i as int]));
                assert(fp.push(s[i as int]).drop_last() =~= fp);
                assert(batches_fold(Map::empty(), home_world_id, fp.push(s[i as int]))
                    == hist_fold(
                    batches_fold(Map::empty(), home_world_id, fp),
                    s[i as int].world_id,
                    home_world_id,
                    s[i as int].history.items@,
                ));
            } else {
                assert(s.filter(is_home) + t1.filter(is_away) =~= s.filter(is_home) + t0.filter(
                    is_away,
                ));
            }
            assert forall|id: u64|
                m@.contains_key(id) <==> (has_valid_home_obs(s, home_world_id, id)
                    || has_valid_away_obs(t1, home_world_id, id)) by {
                assert(m_prev.contains_key(id) <==> has_valid_home_obs(s, home_world_id, id)
                    || has_valid_away_obs(t0, home_world_id, id));
                if s[i as int].world_id != home_world_id {
                    assert(m@.contains_key(id) <==> m_prev.contains_key(id)
                        || batch_has_valid_obs(s[i as int].history.items@, id));
                } else {
                    assert(m@ == m_prev);
                }
                if has_valid_away_obs(t1, home_world_id, id) {
                    let k = choose|k: int|
                        0 <= k < t1.len() && (#[trigger] t1[k]).world_id != home_world_id
                            && batch_has_valid_obs(t1[k].history.items@, id);
                    if k < i {
                        assert(t0[k] == t1[k]);
                        assert(has_valid_away_obs(t0, home_world_id, id));
                    } else {
                        assert(t1[k] == s[i as int]);
                    }
                }
                if has_valid_away_obs(t0, home_world_id, id) {
                    let k = choose|k: int|
                        0 <= k < t0.len() && (#[trigger] t0[k]).world_id != home_world_id
                            && batch_has_valid_obs(t0[k].history.items@, id);
                    assert(t1[k] == t0[k]);
                    assert(has_valid_away_obs(t1, home_world_id, id));
                }
                if s[i as int].world_id != home_world_id && batch_has_valid_obs(
                    s[i as int].history.items@,
                    id,
                ) {
                    assert(t1[i as int] == s[i as int]);
                    assert(has_valid_away_obs(t1, home_world_id, id));
                }
            }
        }
        i = i + 1;
    }

    proof {
        assert(s.take(n as int) =~= s);
        assert(m@ == reduce_spec(home_world_id, s));
        assert forall|k: int| 0 <= k < s.len() implies batch_fits(
            (#[trigger] s[k]).history.items@,
        ) by {
            if s[k].world_id == home_world_id {
            } else {
            }
        }
        assert forall|id: u64|
            m@.contains_key(id) <==> has_valid_obs(s, id) by {
            if has_valid_home_obs(s, home_world_id, id) {
                let k = choose|k: int|
                    0 <= k < s.len() && (#[trigger] s[k]).world_id == home_world_id
                        && batch_has_valid_obs(s[k].history.items@, id);
                assert(has_valid_obs(s, id));
            }
            if has_valid_away_obs(s, home_world_id, id) {
                let k = choose|k: int|
                    0 <= k < s.len() && (#[trigger] s[k]).world_id != home_world_id
                        && batch_has_valid_obs(s[k].history.items@, id);
                assert(has_valid_obs(s, id));
            }
            if has_valid_obs(s, id) {
                let k = choose|k: int|
                    0 <= k < s.len() && batch_has_valid_obs(
                        (#[trigger] s[k]).history.items@,
                        id,
                    );
                if s[k].world_id == home_world_id {
                    assert(has_valid_home_obs(s, home_world_id, id));
                } else {
                    assert(has_valid_away_obs(s, home_world_id, id));
                }
            }
        }
    }
    Ok(m)
}

/// Where the home world's batches stand among the others makes no
/// difference: the reduction folds the home part first either way, so two
/// runs that agree on each part agree on every record.
pub proof fn lemma_reduce_insensitive_to_home_position(
    home_world_id: u64,
    batches1: Seq<WorldSaleBatch>,
    batches2: Seq<WorldSaleBatch>,
)
    requires
        home_part(batches1, home_world_id) == home_part(batches2, home_world_id),
        away_part(batches1, home_world_id) == away_part(batches2, home_world_id),
    ensures
        reduce_spec(home_world_id, batches1) == reduce_spec(home_world_id, batches2),
{
}

/// The keys a history fold adds are exactly the items it validly observes.
pub proof fn lemma_hist_fold_domain(
    m0: Map<u64, LowestPriceRecord>,
    world_id: u64,
    home_world_id: u64,
    items: Seq<(u64, ItemMapping)>,
    id: u64,
)
    ensures
        hist_fold(m0, world_id, home_world_id, items).contains_key(id) <==> m0.contains_key(id)
            || batch_has_valid_obs(items, id),
    decreases items.len(),
{
    if items.len() == 0 {
        assert(!batch_has_valid_obs(items, id));
    } else {
        let dl = items.drop_last();
        lemma_hist_fold_domain(m0, world_id, home_world_id, dl, id);
        if batch_has_valid_obs(items, id) {
            let j = choose|j: int|
                0 <= j < items.len() && (#[trigger] items[j]).0 == id && sum_qty(
                    items[j].1.entries@,
                ) > 0;
            if j < items.len() - 1 {
                assert(dl[j] == items[j]);
                assert(batch_has_valid_obs(dl, id));
            }
        }
        if batch_has_valid_obs(dl, id) {
            let j = choose|j: int|
                0 <= j < dl.len() && (#[trigger] dl[j]).0 == id && sum_qty(dl[j].1.entries@) > 0;
            assert(items[j] == dl[j]);
            assert(batch_has_valid_obs(items, id));
        }
        if items.last().0 == id && sum_qty(items.last().1.entries@) > 0 {
            assert((items[items.len() - 1]).0 == id);
            assert(batch_has_valid_obs(items, id));
        }
    }
}

/// The keys a batch-run fold adds are exactly the items some batch validly
/// observes.
pub proof fn lemma_batches_fold_domain(
    m0: Map<u64, LowestPriceRecord>,
    home_world_id: u64,
    batches: Seq<WorldSaleBatch>,
    id: u64,
)
    ensures
        batches_fold(m0, home_world_id, batches).contains_key(id) <==> m0.contains_key(id)
            || has_valid_obs(batches, id),
    decreases batches.len(),
{
    if batches.len() == 0 {
        assert(!has_valid_obs(batches, id));
    } else {
        let dl = batches.drop_last();
        lemma_batches_fold_domain(m0, home_world_id, dl, id);
        lemma_hist_fold_domain(
            batches_fold(m0, home_world_id, dl),
            batches.last().world_id,
            home_world_id,
            batches.last().history.items@,
            id,
        );
        if has_valid_obs(batches, id) {
            let k = choose|k: int|
                0 <= k < batches.len() && batch_has_valid_obs(
                    (#[trigger] batches[k]).history.items@,
                    id,
                );
            if k < batches.len() - 1 {
                assert(dl[k] == batches[k]);
                assert(has_valid_obs(dl, id));
            }
        }
        if has_valid_obs(dl, id) {
            let k = choose|k: int|
                0 <= k < dl.len() && batch_has_valid_obs((#[trigger] dl[k]).history.items@, id);
            assert(batches[k] == dl[k]);
            assert(has_valid_obs(batches, id));
        }
        if batch_has_valid_obs(batches.last().history.items@, id) {
            assert(batch_has_valid_obs((batches[batches.len() - 1]).history.items@, id));
            assert(has_valid_obs(batches, id));
        }
    }
}

/// The reduction records exactly the items some world validly observed.
pub proof fn lemma_reduce_spec_domain(
    home_world_id: u64,
    batches: Seq<WorldSaleBatch>,
    id: u64,
)
    ensures
        reduce_spec(home_world_id, batches).contains_key(id) <==> has_valid_obs(batches, id),
{
    let is_home = |b: WorldSaleBatch| b.world_id == home_world_id;
    let is_away = |b: WorldSaleBatch| b.world_id != home_world_id;
    let hp = home_part(batches, home_world_id);
    let ap = away_part(batches, home_world_id);
    lemma_batches_fold_domain(Map::empty(), home_world_id, hp + ap, id);
    if has_valid_obs(hp + ap, id) {
        let k = choose|k: int|
            0 <= k < (hp + ap).len() && batch_has_valid_obs(
                (#[trigger] (hp + ap)[k]).history.items@,
                id,
            );
        let b = (hp + ap)[k];
        if k < hp.len() {
            assert(hp[k] == b);
            assert(hp.contains(b));
            batches.lemma_filter_contains_rev(is_home, b);
        } else {
            assert(ap[k - hp.len()] == b);
            assert(ap.contains(b));
            batches.lemma_filter_contains_rev(is_away, b);
        }
        let k2 = choose|k2: int| 0 <= k2 < batches.len() && batches[k2] == b;
        assert(batch_has_valid_obs((batches[k2]).history.items@, id));
        assert(has_valid_obs(batches, id));
    }
    if has_valid_obs(batches, id) {
        let k = choose|k: int|
            0 <= k < batches.len() && batch_has_valid_obs(
                (#[trigger] batches[k]).history.items@,
                id,
            );
        let b = batches[k];
        if b.world_id == home_world_id {
            batches.lemma_filter_contains(is_home, k);
            assert(hp.contains(b));
            let j = choose|j: int| 0 <= j < hp.len() && hp[j] == b;
            assert((hp + ap)[j] == b);
            assert(has_valid_obs(hp + ap, id));
        } else {
            batches.lemma_filter_contains(is_away, k);
            assert(ap.contains(b));
            let j = choose|j: int| 0 <= j < ap.len() && ap[j] == b;
            assert((hp + ap)[hp.len() + j] == b);
            assert(has_valid_obs(hp + ap, id));
        }
    }
}

} // verus!
