use vstd::prelude::*;

use crate::domain::{AvgPrice, ItemTradeVolume, ItemVelocity, LowestPriceRecord, PriceRatio};
use crate::errors::ImportError;

verus! {

/// The home average a record is scored with: an item the home world never
/// sold is scored against a zero home average, as a zero-over-one rational.
pub open spec fn home_avg_or_zero(rec: LowestPriceRecord) -> AvgPrice {
    match rec.home_world_avg_price {
        Some(h) => h,
        None => AvgPrice { total_gil: 0, quantity: 1 },
    }
}

/// The exact price-diff score of a record: the home-world average divided by
/// the cheapest-world average, as one rational.
pub open spec fn price_ratio_spec(rec: LowestPriceRecord) -> PriceRatio {
    let h = home_avg_or_zero(rec);
    let c = rec.cheapest_avg_price;
    PriceRatio {
        numerator: (h.total_gil * c.quantity) as u128,
        denominator: (h.quantity * c.total_gil) as u128,
    }
}

/// The output row a surviving item reduces to.
pub open spec fn trade_volume_spec(
    item_id: u64,
    home_world_id: u64,
    rec: LowestPriceRecord,
    velocity: ItemVelocity,
) -> ItemTradeVolume {
    ItemTradeVolume {
        item_id,
        world_id: home_world_id,
        cheapest_world_id: rec.cheapest_world_id,
        sale_score: velocity.better_velocity(),
        price_diff_score: price_ratio_spec(rec),
        home_world_avg_price: home_avg_or_zero(rec),
    }
}

/// Builds the output row for one surviving item.
///
/// The sale score is the effective velocity (hq preferred whenever positive)
/// and the price-diff score is the exact ratio of the home average to the
/// cheapest average.  A cheapest average of zero leaves that ratio undefined
/// and fails the item rather than passing an unbounded score on.  For every
/// row built, the score is the unit ratio exactly when the home world itself
/// is the stored winner.
pub fn build_trade_volume(
    item_id: u64,
    home_world_id: u64,
    rec: &LowestPriceRecord,
    velocity: &ItemVelocity,
) -> (r: Result<ItemTradeVolume, ImportError>)
    ensures
        rec.cheapest_avg_price.is_zero() <==> r == Err::<ItemTradeVolume, ImportError>(
            ImportError::ArithmeticError,
        ),
        !rec.cheapest_avg_price.is_zero() ==> r == Ok::<ItemTradeVolume, ImportError>(
            trade_volume_spec(item_id, home_world_id, *rec, *velocity),
        ),
        r matches Ok(row) ==> row.sale_score == (if velocity.hq_velocity > 0 {
            velocity.hq_velocity
        } else {
            velocity.nq_velocity
        }),
        rec.wf(home_world_id) ==> (r matches Ok(row) ==> row.price_diff_score.wf()),
        rec.wf(home_world_id) ==> (r matches Ok(row) ==> (row.price_diff_score.is_unit()
            <==> rec.cheapest_world_id == home_world_id)),
{
    let c = rec.cheapest_avg_price;
    if c.total_gil == 0 {
        return Err(ImportError::ArithmeticError);
    }
    let h = match rec.home_world_avg_price {
        Some(h) => h,
        None => AvgPrice { total_gil: 0, quantity: 1 },
    };
    proof {
        lemma_ratio_facts(h, c);
    }
    let numerator: u128 = (h.total_gil as u128) * (c.quantity as u128);
    let denominator: u128 = (h.quantity as u128) * (c.total_gil as u128);
    Ok(
        ItemTradeVolume {
            item_id,
            world_id: home_world_id,
            cheapest_world_id: rec.cheapest_world_id,
            sale_score: velocity.get_better_velocity(),
            price_diff_score: PriceRatio { numerator, denominator },
            home_world_avg_price: h,
        },
    )
}

/// Both score products fit the double word, and the denominator is positive
/// whenever its factors are.
proof fn lemma_ratio_facts(h: AvgPrice, c: AvgPrice)
    requires
        c.total_gil >= 1,
    ensures
        h.total_gil * c.quantity <= u128::MAX,
        h.quantity * c.total_gil <= u128::MAX,
        h.quantity >= 1 ==> h.quantity * c.total_gil >= 1,
{
    assert(h.total_gil * c.quantity <= u128::MAX && h.quantity * c.total_gil <= u128::MAX && (
    h.quantity >= 1 ==> h.quantity * c.total_gil >= 1)) by (nonlinear_arith)
        requires
            h.total_gil <= u64::MAX,
            c.quantity <= u64::MAX,
            h.quantity <= u64::MAX,
            c.total_gil <= u64::MAX,
            c.total_gil >= 1,
    ;
}

} // verus!
