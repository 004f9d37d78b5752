use marketboard_aggregator::catalog::{contains_id, filter_marketable, filter_worlds_by_data_center, items_ids_for_delete};
use marketboard_aggregator::request::{comma_join_ids, decimal_string};
use marketboard_aggregator::chunk::{chunk_values, item_ids, BIND_LIMIT, TRADE_VOLUME_FIELDS};
use marketboard_aggregator::domain::{
    AvgPrice, DBItem, DataCenter, Item, ItemMapping, ItemSaleHistory, ItemTradeVolume,
    ItemVelocity, PriceRatio, World, WorldSaleBatch,
};
use marketboard_aggregator::errors::ImportError;
use marketboard_aggregator::pipeline::{build_trade_volumes, surviving_item_ids};
use marketboard_aggregator::reduce::reduce_sale_histories;
use marketboard_aggregator::retry::RetryPolicy;
use marketboard_aggregator::store::TradeVolumeStore;

fn sale(quantity: u64, price_per_unit: u64) -> marketboard_aggregator::domain::ItemSaleHistoryUnit {
    marketboard_aggregator::domain::ItemSaleHistoryUnit { quantity, price_per_unit }
}

fn batch(
    world_id: u64,
    items: Vec<(u64, Vec<marketboard_aggregator::domain::ItemSaleHistoryUnit>)>,
) -> WorldSaleBatch {
    WorldSaleBatch {
        world_id,
        history: ItemSaleHistory {
            items: items
                .into_iter()
                .map(|(id, entries)| (id, ItemMapping { entries }))
                .collect(),
        },
    }
}

fn db_item(item_id: u64, name: &str) -> DBItem {
    DBItem { item_id, name: name.to_string() }
}

fn row(item_id: u64, world_id: u64, sale_score: u64) -> ItemTradeVolume {
    ItemTradeVolume {
        item_id,
        world_id,
        cheapest_world_id: world_id,
        sale_score,
        price_diff_score: PriceRatio { numerator: 1, denominator: 1 },
        home_world_avg_price: AvgPrice { total_gil: 1, quantity: 1 },
    }
}

const HOME: u64 = 1;
const WORLD_B: u64 = 2;

#[test]
fn items_without_sales_produce_no_output_row() {
    let catalog = vec![db_item(42, "sword"), db_item(99, "unsold trinket")];
    let batches = vec![
        batch(HOME, vec![(42, vec![sale(1, 100)])]),
        batch(WORLD_B, vec![(42, vec![sale(1, 50)])]),
    ];
    let map = reduce_sale_histories(HOME, &batches).unwrap();
    let ids = surviving_item_ids(&catalog, &map);
    assert_eq!(ids, vec![42]);

    let velocities = vec![(42u64, ItemVelocity { nq_velocity: 7, hq_velocity: 0 })];
    let rows = build_trade_volumes(HOME, &velocities, &map).unwrap();
    assert_eq!(rows.len(), 1);
    assert_eq!(rows[0].item_id, 42);
    assert!(rows.iter().all(|r| r.item_id != 99));
}

#[test]
fn surviving_ids_keep_catalog_order() {
    let catalog = vec![db_item(5, "a"), db_item(3, "b"), db_item(8, "c")];
    let batches = vec![batch(HOME, vec![(8, vec![sale(1, 10)]), (5, vec![sale(1, 10)])])];
    let map = reduce_sale_histories(HOME, &batches).unwrap();
    assert_eq!(surviving_item_ids(&catalog, &map), vec![5, 8]);
}

#[test]
fn missing_record_is_a_lookup_error() {
    let batches = vec![batch(HOME, vec![(1, vec![sale(1, 10)])])];
    let map = reduce_sale_histories(HOME, &batches).unwrap();
    let velocities = vec![(2u64, ItemVelocity { nq_velocity: 1, hq_velocity: 0 })];
    assert!(matches!(
        build_trade_volumes(HOME, &velocities, &map),
        Err(ImportError::HashMapAccessError)
    ));
}

#[test]
fn effective_velocity_prefers_hq_sales() {
    // velocities in tenths: hq 0 and nq 4.2 score 4.2; hq 1.5 and nq 9.0
    // score 1.5
    let v = ItemVelocity { nq_velocity: 42, hq_velocity: 0 };
    assert_eq!(v.get_better_velocity(), 42);
    let v = ItemVelocity { nq_velocity: 90, hq_velocity: 15 };
    assert_eq!(v.get_better_velocity(), 15);
}

#[test]
fn sale_score_is_the_effective_velocity() {
    let batches = vec![batch(HOME, vec![(1, vec![sale(1, 10)]), (2, vec![sale(1, 20)])])];
    let map = reduce_sale_histories(HOME, &batches).unwrap();
    let velocities = vec![
        (1u64, ItemVelocity { nq_velocity: 42, hq_velocity: 0 }),
        (2u64, ItemVelocity { nq_velocity: 90, hq_velocity: 15 }),
    ];
    let rows = build_trade_volumes(HOME, &velocities, &map).unwrap();
    assert_eq!(rows[0].sale_score, 42);
    assert_eq!(rows[1].sale_score, 15);
}

#[test]
fn chunks_partition_the_catalog_in_order() {
    let items: Vec<DBItem> = (1..=200).map(|i| db_item(i, "x")).collect();
    let ids = item_ids(&items);
    let chunks = chunk_values(&ids, 90);
    assert_eq!(chunks.len(), 3);
    assert_eq!(chunks[0].len(), 90);
    assert_eq!(chunks[1].len(), 90);
    assert_eq!(chunks[2].len(), 20);
    let rejoined: Vec<u64> = chunks.concat();
    assert_eq!(rejoined, ids);
}

#[test]
fn exact_multiple_makes_only_full_chunks() {
    let ids: Vec<u64> = (1..=180).collect();
    let chunks = chunk_values(&ids, 90);
    assert_eq!(chunks.len(), 2);
    assert!(chunks.iter().all(|c| c.len() == 90));
}

#[test]
fn statement_chunks_respect_the_bind_limit() {
    let rows: Vec<ItemTradeVolume> = (0..25_000u64).map(|i| row(i, HOME, 1)).collect();
    let chunk_size = BIND_LIMIT / TRADE_VOLUME_FIELDS;
    let chunks = chunk_values(&rows, chunk_size);
    assert!(chunks.iter().all(|c| c.len() * TRADE_VOLUME_FIELDS <= BIND_LIMIT));
    assert_eq!(chunks.iter().map(|c| c.len()).sum::<usize>(), 25_000);
    assert_eq!(chunks.len(), 3);
}

#[test]
fn rerun_of_the_same_write_changes_nothing() {
    let rows = vec![row(1, HOME, 10), row(2, HOME, 20)];
    let mut store = TradeVolumeStore::new();
    store.save_item_trade_volumes(&rows);
    assert_eq!(store.rows.len(), 2);
    store.save_item_trade_volumes(&rows);
    assert_eq!(store.rows.len(), 2);
    assert_eq!(store.rows[0], rows[0]);
    assert_eq!(store.rows[1], rows[1]);
}

#[test]
fn rewrite_with_fresh_values_does_not_update_stale_rows() {
    let mut store = TradeVolumeStore::new();
    store.save_item_trade_volumes(&vec![row(1, HOME, 10)]);
    // the same (item, world) key with a new score is ignored, not applied
    store.save_item_trade_volumes(&vec![row(1, HOME, 99)]);
    assert_eq!(store.rows.len(), 1);
    assert_eq!(store.rows[0].sale_score, 10);
}

#[test]
fn distinct_keys_are_all_written() {
    let mut store = TradeVolumeStore::new();
    store.save_item_trade_volumes(&vec![row(1, HOME, 10), row(1, WORLD_B, 11), row(2, HOME, 12)]);
    assert_eq!(store.rows.len(), 3);
    assert!(store.contains(1, HOME));
    assert!(store.contains(1, WORLD_B));
    assert!(store.contains(2, HOME));
    assert!(!store.contains(2, WORLD_B));
}

#[test]
fn backoff_grows_exponentially_and_gives_up() {
    let policy = RetryPolicy::new(100, 2, 10_000, 10);
    assert_eq!(policy.backoff_delay_ms(0), Some(100));
    assert_eq!(policy.backoff_delay_ms(1), Some(200));
    assert_eq!(policy.backoff_delay_ms(3), Some(800));
    assert_eq!(policy.backoff_delay_ms(9), Some(10_000));
    assert_eq!(policy.backoff_delay_ms(10), None);
    assert!(policy.should_retry(9));
    assert!(!policy.should_retry(10));
}

#[test]
fn backoff_is_capped_at_the_maximum_delay() {
    let policy = RetryPolicy::new(300, 3, 1_000, 5);
    assert_eq!(policy.backoff_delay_ms(0), Some(300));
    assert_eq!(policy.backoff_delay_ms(1), Some(900));
    assert_eq!(policy.backoff_delay_ms(2), Some(1_000));
    assert_eq!(policy.backoff_delay_ms(4), Some(1_000));
}

#[test]
fn marketable_filter_keeps_only_named_ids() {
    let items = vec![
        Item { id: 1, name: "kept".to_string() },
        Item { id: 2, name: "dropped".to_string() },
        Item { id: 3, name: "kept too".to_string() },
    ];
    let marketable = vec![3, 1];
    let kept = filter_marketable(&items, &marketable);
    assert_eq!(kept.len(), 2);
    assert_eq!(kept[0].id, 1);
    assert_eq!(kept[1].id, 3);
    assert_eq!(kept[1].name, "kept too");
}

#[test]
fn worlds_are_filtered_to_the_data_center() {
    let worlds = vec![
        World { id: 10, name: "alpha".to_string() },
        World { id: 11, name: "beta".to_string() },
        World { id: 12, name: "gamma".to_string() },
    ];
    let dc = DataCenter {
        name: "centre".to_string(),
        region: "west".to_string(),
        worlds: vec![12, 10],
    };
    let members = filter_worlds_by_data_center(&worlds, &dc);
    assert_eq!(members.len(), 2);
    assert_eq!(members[0].id, 10);
    assert_eq!(members[1].id, 12);
}

#[test]
fn contains_id_finds_only_present_ids() {
    let ids = vec![4, 7, 9];
    assert!(contains_id(&ids, 7));
    assert!(!contains_id(&ids, 5));
}

#[test]
fn decimal_rendering_is_exact() {
    assert_eq!(decimal_string(0), "0");
    assert_eq!(decimal_string(7), "7");
    assert_eq!(decimal_string(907), "907");
    assert_eq!(decimal_string(u64::MAX), "18446744073709551615");
}

#[test]
fn request_ids_join_with_single_commas() {
    assert_eq!(comma_join_ids(&vec![5, 40, 7]), "5,40,7");
    assert_eq!(comma_join_ids(&vec![12]), "12");
    assert_eq!(comma_join_ids(&vec![]), "");
}

#[test]
fn stale_stored_ids_are_selected_for_deletion() {
    let stored = vec![1, 2, 3, 4];
    let actual = vec![2, 4, 5];
    assert_eq!(items_ids_for_delete(&stored, &actual), vec![1, 3]);
}
