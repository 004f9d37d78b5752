use vstd::prelude::*;

use crate::domain::{AvgPrice, ItemSaleHistoryUnit};
use crate::errors::ImportError;

verus! {

broadcast use vstd::arithmetic::mul::lemma_mul_nonnegative;

/// Total gil spent over a run of sales: the sum of price times quantity.
pub open spec fn sum_gil(entries: Seq<ItemSaleHistoryUnit>) -> int
    decreases entries.len(),
{
    if entries.len() == 0 {
        0
    } else {
        sum_gil(entries.drop_last()) + entries.last().price_per_unit * entries.last().quantity
    }
}

/// Total quantity sold over a run of sales.
pub open spec fn sum_qty(entries: Seq<ItemSaleHistoryUnit>) -> int
    decreases entries.len(),
{
    if entries.len() == 0 {
        0
    } else {
        sum_qty(entries.drop_last()) + entries.last().quantity
    }
}

/// Both sums fit the machine word, so an exact average can be carried.
pub open spec fn sums_fit(entries: Seq<ItemSaleHistoryUnit>) -> bool {
    sum_gil(entries) <= u64::MAX && sum_qty(entries) <= u64::MAX
}

/// The exact average price of a run of sales with a positive quantity sum.
pub open spec fn batch_avg(entries: Seq<ItemSaleHistoryUnit>) -> AvgPrice {
    AvgPrice { total_gil: sum_gil(entries) as u64, quantity: sum_qty(entries) as u64 }
}

pub proof fn lemma_sums_nonneg(entries: Seq<ItemSaleHistoryUnit>)
    ensures
        sum_gil(entries) >= 0,
        sum_qty(entries) >= 0,
    decreases entries.len(),
{
    if entries.len() > 0 {
        lemma_sums_nonneg(entries.drop_last());
    }
}

/// Extending a run of sales by one entry adds its contribution to each sum.
pub proof fn lemma_sums_push(entries: Seq<ItemSaleHistoryUnit>, e: ItemSaleHistoryUnit)
    ensures
        sum_gil(entries.push(e)) == sum_gil(entries) + e.price_per_unit * e.quantity,
        sum_qty(entries.push(e)) == sum_qty(entries) + e.quantity,
{
    assert(entries.push(e).drop_last() =~= entries);
}

/// A prefix of a run never sums to more than the whole run.
pub proof fn lemma_sums_prefix_le(entries: Seq<ItemSaleHistoryUnit>, i: int)
    requires
        0 <= i <= entries.len(),
    ensures
        sum_gil(entries.take(i)) <= sum_gil(entries),
        sum_qty(entries.take(i)) <= sum_qty(entries),
    decreases entries.len(),
{
    if i == entries.len() {
        assert(entries.take(i) =~= entries);
    } else {
        assert(entries.drop_last().take(i) =~= entries.take(i));
        lemma_sums_prefix_le(entries.drop_last(), i);
    }
}

/// If nothing was sold, nothing was spent.
pub proof fn lemma_zero_qty_zero_gil(entries: Seq<ItemSaleHistoryUnit>)
    requires
        sum_qty(entries) == 0,
    ensures
        sum_gil(entries) == 0,
    decreases entries.len(),
{
    if entries.len() > 0 {
        lemma_sums_nonneg(entries.drop_last());
        lemma_zero_qty_zero_gil(entries.drop_last());
        assert(entries.last().price_per_unit * entries.last().quantity == 0) by (nonlinear_arith)
            requires
                entries.last().quantity == 0,
        ;
    }
}

/// Folds one item's sale entries into its exact average price.
///
/// A batch whose quantities sum to zero yields no data point (never a price
/// of zero); sums past the machine word are rejected as an arithmetic fault
/// rather than wrapped.
pub fn batch_average(entries: &Vec<ItemSaleHistoryUnit>) -> (r: Result<
    Option<AvgPrice>,
    ImportError,
>)
    ensures
        r == Err::<Option<AvgPrice>, ImportError>(ImportError::ArithmeticError) <==> !sums_fit(
            entries@,
        ),
        sums_fit(entries@) && sum_qty(entries@) == 0 ==> r == Ok::<Option<AvgPrice>, ImportError>(
            None,
        ),
        sums_fit(entries@) && sum_qty(entries@) > 0 ==> r == Ok::<Option<AvgPrice>, ImportError>(
            Some(batch_avg(entries@)),
        ),
        r matches Ok(Some(a)) ==> a.wf(),
{
    let mut total_gil: u128 = 0;
    let mut quantity: u128 = 0;
    let mut i: usize = 0;
    let max64: u128 = u64::MAX as u128;
    while i < entries.len()
        invariant
            0 <= i <= entries.len(),
            total_gil == sum_gil(entries@.take(i as int)),
            quantity == sum_qty(entries@.take(i as int)),
            total_gil <= u64::MAX,
            quantity <= u64::MAX,
            max64 == u64::MAX,
        decreases entries.len() - i,
    {
        let e = entries[i];
        proof {
            assert(entries@.take(i as int).push(e) =~= entries@.take(i + 1 as int));
            lemma_sums_push(entries@.take(i as int), e);
            lemma_u64_product_fits(e.price_per_unit, e.quantity);
        }
        let product: u128 = (e.price_per_unit as u128) * (e.quantity as u128);
        let new_gil: u128 = total_gil + product;
        let new_qty: u128 = quantity + (e.quantity as u128);
        if new_gil > max64 || new_qty > max64 {
            proof {
                lemma_sums_prefix_le(entries@, i + 1 as int);
            }
            return Err(ImportError::ArithmeticError);
        }
        total_gil = new_gil;
        quantity = new_qty;
        i = i + 1;
    }
    proof {
        assert(entries@.take(entries@.len() as int) =~= entries@);
    }
    if quantity == 0 {
        proof {
            lemma_zero_qty_zero_gil(entries@);
        }
        Ok(None)
    } else {
        Ok(Some(AvgPrice { total_gil: total_gil as u64, quantity: quantity as u64 }))
    }
}

/// The product of two machine words fits the double word.
proof fn lemma_u64_product_fits(a: u64, b: u64)
    ensures
        a * b <= u128::MAX - u64::MAX,
{
    assert(a * b <= u128::MAX - u64::MAX) by (nonlinear_arith)
        requires
            a <= u64::MAX,
            b <= u64::MAX,
    ;
}

} // verus!
