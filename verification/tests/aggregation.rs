use marketboard_aggregator::average::batch_average;
use marketboard_aggregator::domain::{
    AvgPrice, ItemMapping, ItemSaleHistory, ItemSaleHistoryUnit, ItemVelocity, WorldSaleBatch,
};
use marketboard_aggregator::errors::ImportError;
use marketboard_aggregator::reduce::reduce_sale_histories;
use marketboard_aggregator::score::build_trade_volume;

fn sale(quantity: u64, price_per_unit: u64) -> ItemSaleHistoryUnit {
    ItemSaleHistoryUnit { quantity, price_per_unit }
}

fn batch(world_id: u64, items: Vec<(u64, Vec<ItemSaleHistoryUnit>)>) -> WorldSaleBatch {
    WorldSaleBatch {
        world_id,
        history: ItemSaleHistory {
            items: items
                .into_iter()
                .map(|(id, entries)| (id, ItemMapping { entries }))
                .collect(),
        },
    }
}

const HOME: u64 = 1;
const WORLD_B: u64 = 2;
const WORLD_C: u64 = 3;

#[test]
fn batch_average_is_exact_ratio_of_sums() {
    // 2 units at 30 and 1 unit at 10: 70 gil over 3 units
    let entries = vec![sale(2, 30), sale(1, 10)];
    let avg = batch_average(&entries).unwrap().unwrap();
    assert_eq!(avg.total_gil, 70);
    assert_eq!(avg.quantity, 3);
}

#[test]
fn batch_average_zero_quantity_yields_no_data_point() {
    let entries = vec![sale(0, 100), sale(0, 7)];
    assert!(batch_average(&entries).unwrap().is_none());
}

#[test]
fn batch_average_empty_yields_no_data_point() {
    let entries: Vec<ItemSaleHistoryUnit> = vec![];
    assert!(batch_average(&entries).unwrap().is_none());
}

#[test]
fn batch_average_rejects_sums_past_the_machine_word() {
    let entries = vec![sale(u64::MAX, u64::MAX)];
    assert_eq!(batch_average(&entries), Err(ImportError::ArithmeticError));
}

#[test]
fn cheaper_world_becomes_the_winner() {
    // home world A sells item 42 at 100, world B at 50
    let batches = vec![
        batch(HOME, vec![(42, vec![sale(1, 100)])]),
        batch(WORLD_B, vec![(42, vec![sale(1, 50)])]),
    ];
    let map = reduce_sale_histories(HOME, &batches).unwrap();
    let rec = map.get(&42).unwrap();
    assert_eq!(rec.cheapest_world_id, WORLD_B);
    assert_eq!(rec.cheapest_avg_price, AvgPrice { total_gil: 50, quantity: 1 });
    assert_eq!(rec.home_world_avg_price, Some(AvgPrice { total_gil: 100, quantity: 1 }));

    let velocity = ItemVelocity { nq_velocity: 7, hq_velocity: 0 };
    let row = build_trade_volume(42, HOME, rec, &velocity).unwrap();
    // price-diff score is exactly 100 / 50 = 2
    assert_eq!(row.price_diff_score.numerator, 2 * row.price_diff_score.denominator);
    assert_eq!(row.home_world_avg_price, AvgPrice { total_gil: 100, quantity: 1 });
    assert_eq!(row.cheapest_world_id, WORLD_B);
    assert_eq!(row.world_id, HOME);
    assert_eq!(row.sale_score, 7);
}

#[test]
fn home_only_item_scores_the_unit_ratio() {
    // item 7 sells only on the home world: 2 at 30 and 1 at 10, so the
    // average is 70 over 3 and the home world is its own cheapest world
    let batches = vec![batch(HOME, vec![(7, vec![sale(2, 30), sale(1, 10)])])];
    let map = reduce_sale_histories(HOME, &batches).unwrap();
    let rec = map.get(&7).unwrap();
    assert_eq!(rec.cheapest_world_id, HOME);
    assert_eq!(rec.cheapest_avg_price, AvgPrice { total_gil: 70, quantity: 3 });

    let velocity = ItemVelocity { nq_velocity: 1, hq_velocity: 0 };
    let row = build_trade_volume(7, HOME, rec, &velocity).unwrap();
    assert_eq!(row.price_diff_score.numerator, row.price_diff_score.denominator);
}

#[test]
fn equal_price_never_replaces_the_stored_winner() {
    // worlds B and C both sell item 5 at an average of 50; B is seen first
    // and keeps the win whatever C reports later
    let batches = vec![
        batch(WORLD_B, vec![(5, vec![sale(1, 50)])]),
        batch(WORLD_C, vec![(5, vec![sale(2, 50)])]),
    ];
    let map = reduce_sale_histories(HOME, &batches).unwrap();
    let rec = map.get(&5).unwrap();
    assert_eq!(rec.cheapest_world_id, WORLD_B);
    assert_eq!(rec.home_world_avg_price, None);
}

#[test]
fn equal_price_elsewhere_never_displaces_the_home_world() {
    // the home world is folded first even when its batch comes last, so a
    // matching average on another world cannot take the win
    let batches = vec![
        batch(WORLD_B, vec![(9, vec![sale(1, 100)])]),
        batch(HOME, vec![(9, vec![sale(1, 100)])]),
    ];
    let map = reduce_sale_histories(HOME, &batches).unwrap();
    let rec = map.get(&9).unwrap();
    assert_eq!(rec.cheapest_world_id, HOME);

    let velocity = ItemVelocity { nq_velocity: 3, hq_velocity: 0 };
    let row = build_trade_volume(9, HOME, rec, &velocity).unwrap();
    assert_eq!(row.price_diff_score.numerator, row.price_diff_score.denominator);
}

#[test]
fn strictly_lower_home_price_keeps_unit_ratio_off_other_worlds() {
    // another world undercuts the home world: the ratio is above one and
    // the winner is not the home world
    let batches = vec![
        batch(HOME, vec![(11, vec![sale(1, 90)])]),
        batch(WORLD_B, vec![(11, vec![sale(3, 60)])]),
    ];
    let map = reduce_sale_histories(HOME, &batches).unwrap();
    let rec = map.get(&11).unwrap();
    assert_eq!(rec.cheapest_world_id, WORLD_B);

    let velocity = ItemVelocity { nq_velocity: 3, hq_velocity: 0 };
    let row = build_trade_volume(11, HOME, rec, &velocity).unwrap();
    assert_ne!(row.price_diff_score.numerator, row.price_diff_score.denominator);
    // home 90 gil over 1 unit against 180 gil over 3 units: 90*3 over 1*180
    assert_eq!(row.price_diff_score.numerator, 270);
    assert_eq!(row.price_diff_score.denominator, 180);
}

#[test]
fn zero_quantity_batches_leave_no_record() {
    // item 13 is listed by both worlds but with no unit ever sold
    let batches = vec![
        batch(HOME, vec![(13, vec![sale(0, 100)])]),
        batch(WORLD_B, vec![(13, vec![])]),
    ];
    let map = reduce_sale_histories(HOME, &batches).unwrap();
    assert!(map.get(&13).is_none());
    assert_eq!(map.len(), 0);
}

#[test]
fn item_absent_from_home_world_scores_zero_ratio() {
    // item 21 sells only on world B: the home average is taken as zero
    let batches = vec![batch(WORLD_B, vec![(21, vec![sale(1, 40)])])];
    let map = reduce_sale_histories(HOME, &batches).unwrap();
    let rec = map.get(&21).unwrap();
    assert_eq!(rec.cheapest_world_id, WORLD_B);
    assert_eq!(rec.home_world_avg_price, None);

    let velocity = ItemVelocity { nq_velocity: 3, hq_velocity: 0 };
    let row = build_trade_volume(21, HOME, rec, &velocity).unwrap();
    assert_eq!(row.price_diff_score.numerator, 0);
    assert!(row.price_diff_score.denominator > 0);
    assert_eq!(row.home_world_avg_price, AvgPrice { total_gil: 0, quantity: 1 });
}

#[test]
fn zero_cheapest_average_is_an_arithmetic_error() {
    // the item was given away on the home world: the ratio is undefined
    let batches = vec![batch(HOME, vec![(17, vec![sale(2, 0)])])];
    let map = reduce_sale_histories(HOME, &batches).unwrap();
    let rec = map.get(&17).unwrap();
    let velocity = ItemVelocity { nq_velocity: 3, hq_velocity: 0 };
    assert_eq!(
        build_trade_volume(17, HOME, rec, &velocity),
        Err(ImportError::ArithmeticError)
    );
}

#[test]
fn reduction_overflow_surfaces_as_arithmetic_error() {
    let batches = vec![batch(HOME, vec![(3, vec![sale(u64::MAX, 2)])])];
    assert!(matches!(
        reduce_sale_histories(HOME, &batches),
        Err(ImportError::ArithmeticError)
    ));
}
