use vstd::prelude::*;

verus! {

/// A data center as reported by the market-data service: a named cluster of
/// worlds, given by their ids.
#[derive(Debug, Clone)]
pub struct DataCenter {
    pub name: String,
    pub region: String,
    pub worlds: Vec<u64>,
}

/// A world as reported by the market-data service.
#[derive(Debug, Clone)]
pub struct World {
    pub id: u64,
    pub name: String,
}

/// A data center together with the worlds that belong to it.
#[derive(Debug, Clone)]
pub struct Server {
    pub data_center: DataCenter,
    pub worlds: Vec<World>,
}

/// A catalog item.
#[derive(Debug, Clone)]
pub struct Item {
    pub id: u64,
    pub name: String,
}

/// A stored data-center row.
#[derive(Debug, Clone)]
pub struct DBDataCenter {
    pub id: u64,
    pub name: String,
    pub region: String,
}

/// A stored world row.
#[derive(Debug, Clone)]
pub struct DBWorld {
    pub world_id: u64,
    pub name: String,
    pub data_center_id: u64,
}

/// A stored data center together with its stored worlds.
#[derive(Debug, Clone)]
pub struct DBServer {
    pub data_center: DBDataCenter,
    pub worlds: Vec<DBWorld>,
}

/// A stored catalog item.
#[derive(Debug, Clone)]
pub struct DBItem {
    pub item_id: u64,
    pub name: String,
}

/// One raw sale: a quantity sold at a price per unit, in gil.
#[derive(Debug, Clone, Copy, PartialEq, Eq, Structural)]
pub struct ItemSaleHistoryUnit {
    pub quantity: u64,
    pub price_per_unit: u64,
}

/// The sale entries reported for one item.
#[derive(Debug, Clone)]
pub struct ItemMapping {
    pub entries: Vec<ItemSaleHistoryUnit>,
}

/// One world's sale history for a chunk of items: each item id paired with
/// its entries.  Kept as a sequence so that a reduction over it is
/// deterministic.
#[derive(Debug, Clone)]
pub struct ItemSaleHistory {
    pub items: Vec<(u64, ItemMapping)>,
}

/// A sale history tied to the world it was fetched from.
#[derive(Debug, Clone)]
pub struct WorldSaleBatch {
    pub world_id: u64,
    pub history: ItemSaleHistory,
}

/// An exact average sale price: total gil paid over total quantity sold.
/// The value it denotes is the rational `total_gil / quantity`.
#[derive(Debug, Clone, Copy, PartialEq, Eq, Structural)]
pub struct AvgPrice {
    pub total_gil: u64,
    pub quantity: u64,
}

impl AvgPrice {
    /// An average exists only where at least one unit was sold.
    pub open spec fn wf(self) -> bool {
        self.quantity >= 1
    }

    /// Value comparison by cross multiplication: self < other as rationals.
    pub open spec fn lt(self, other: AvgPrice) -> bool {
        self.total_gil * other.quantity < other.total_gil * self.quantity
    }

    /// Value comparison by cross multiplication: self <= other as rationals.
    pub open spec fn le(self, other: AvgPrice) -> bool {
        self.total_gil * other.quantity <= other.total_gil * self.quantity
    }

    /// Value equality by cross multiplication.
    pub open spec fn eq_val(self, other: AvgPrice) -> bool {
        self.total_gil * other.quantity == other.total_gil * self.quantity
    }

    /// The denoted value is zero.
    pub open spec fn is_zero(self) -> bool {
        self.total_gil == 0
    }

    /// Exact value comparison of two averages.
    pub fn is_lower_than(&self, other: &AvgPrice) -> (r: bool)
        ensures
            r == self.lt(*other),
    {
        proof {
            lemma_u64_cross_products_fit(*self, *other);
        }
        (self.total_gil as u128) * (other.quantity as u128)
            < (other.total_gil as u128) * (self.quantity as u128)
    }
}

/// Both cross products of two averages fit below `u128::MAX`.
proof fn lemma_u64_cross_products_fit(a: AvgPrice, b: AvgPrice)
    ensures
        a.total_gil * b.quantity <= u128::MAX,
        b.total_gil * a.quantity <= u128::MAX,
{
    assert(a.total_gil * b.quantity <= u128::MAX) by (nonlinear_arith)
        requires
            a.total_gil <= u64::MAX,
            b.quantity <= u64::MAX,
    ;
    assert(b.total_gil * a.quantity <= u128::MAX) by (nonlinear_arith)
        requires
            b.total_gil <= u64::MAX,
            a.quantity <= u64::MAX,
    ;
}

/// The nq/hq sale velocities of one item on one world, in fixed-point
/// velocity units (the caller picks the scale; the comparison with zero and
/// the selection below do not depend on it).
#[derive(Debug, Clone, Copy, PartialEq, Eq, Structural)]
pub struct ItemVelocity {
    pub nq_velocity: u64,
    pub hq_velocity: u64,
}

impl ItemVelocity {
    /// The effective velocity: high-quality sales are preferred whenever any
    /// were seen.
    pub open spec fn better_velocity(self) -> u64 {
        if self.hq_velocity > 0 {
            self.hq_velocity
        } else {
            self.nq_velocity
        }
    }

    /// Returns the hq velocity whenever it is positive, else the nq velocity.
    pub fn get_better_velocity(&self) -> (r: u64)
        ensures
            r == self.better_velocity(),
    {
        if self.hq_velocity > 0 {
            return self.hq_velocity;
        }
        self.nq_velocity
    }
}

/// The ratio of two average prices, kept exact.  The value it denotes is
/// `numerator / denominator`.
#[derive(Debug, Clone, Copy, PartialEq, Eq, Structural)]
pub struct PriceRatio {
    pub numerator: u128,
    pub denominator: u128,
}

impl PriceRatio {
    pub open spec fn wf(self) -> bool {
        self.denominator >= 1
    }

    /// The denoted value is exactly one.
    pub open spec fn is_unit(self) -> bool {
        self.numerator == self.denominator
    }
}

/// One item's reduction state: the cheapest world seen so far, its average
/// price, and the home world's own average where the home world reported one.
#[derive(Debug, Clone, Copy)]
pub struct LowestPriceRecord {
    pub item_id: u64,
    pub cheapest_world_id: u64,
    pub cheapest_avg_price: AvgPrice,
    pub home_world_avg_price: Option<AvgPrice>,
}

impl LowestPriceRecord {
    /// Well-formedness relative to the nominated home world: the cheapest
    /// average never exceeds the home average, and it equals the home average
    /// exactly when the home world is the stored winner.
    pub open spec fn wf(self, home_world_id: u64) -> bool {
        &&& self.cheapest_avg_price.wf()
        &&& match self.home_world_avg_price {
            Some(h) => {
                &&& h.wf()
                &&& self.cheapest_avg_price.le(h)
                &&& (self.cheapest_avg_price.eq_val(h) <==> self.cheapest_world_id
                    == home_world_id)
            },
            None => self.cheapest_world_id != home_world_id,
        }
    }
}

/// One output row: the cross-world price comparison of one item, anchored at
/// the home world.
#[derive(Debug, Clone, Copy, PartialEq, Eq, Structural)]
pub struct ItemTradeVolume {
    pub item_id: u64,
    pub world_id: u64,
    pub cheapest_world_id: u64,
    pub sale_score: u64,
    pub price_diff_score: PriceRatio,
    pub home_world_avg_price: AvgPrice,
}

} // verus!
