use fragrance_vending::central::{CentralDb, DeliveredIds};
use fragrance_vending::inventory::MachineDb;
use fragrance_vending::sync::{complete_sync, is_success, plan_sync, SyncFailure};

fn delivered(sales: Vec<i64>, events: Vec<i64>) -> DeliveredIds {
    DeliveredIds { machine_id: 1, sales, events, purchases: vec![], transfers: vec![], metrics: vec![3] }
}

#[test]
fn repeated_delivery_stores_nothing() {
    let mut central = CentralDb::new();
    let first = central.store_sync(&delivered(vec![1, 2], vec![1]));
    assert_eq!(first.stored, 4);
    assert_eq!(first.new_sales, vec![true, true]);
    let second = central.store_sync(&delivered(vec![1, 2], vec![1]));
    assert_eq!(second.stored, 0);
    assert_eq!(second.new_sales, vec![false, false]);
    assert_eq!(second.new_metrics, vec![false]);
}

#[test]
fn duplicates_within_a_delivery_count_once() {
    let mut central = CentralDb::new();
    let r = central.store_sync(&delivered(vec![5, 5, 6], vec![]));
    assert_eq!(r.new_sales, vec![true, false, true]);
    assert_eq!(r.stored, 3);
}

#[test]
fn keys_are_per_machine() {
    let mut central = CentralDb::from_keys(vec![(2, 1)], vec![], vec![], vec![], vec![]);
    let r = central.store_sync(&delivered(vec![1], vec![]));
    assert_eq!(r.new_sales, vec![true]);
}

#[test]
fn nothing_to_sync_plans_nothing() {
    let db = MachineDb::new();
    assert!(plan_sync(&db, 1, vec![]).is_none());
    assert!(plan_sync(&db, 1, vec![7]).is_some());
}

#[test]
fn records_are_marked_only_after_the_server_accepts() {
    let mut db = MachineDb::new();
    db.record_sale(1, 1, "SUCCESS", "SIMULATED", "t").unwrap();
    db.log_event(1, "PAYMENT_SUCCESS", "x", "t").unwrap();
    db.add_purchase(1, 100, None, "", "t").unwrap();
    let batch = plan_sync(&db, 1, vec![10, 11]).unwrap();
    assert_eq!(batch.total, 5);
    assert_eq!(batch.sale_ids, vec![1]);
    assert_eq!(batch.payload.events[0].event, "PAYMENT_SUCCESS");
    assert_eq!(batch.payload.purchases[0].quantity_mg, 100);
    assert_eq!(complete_sync(&mut db, &batch, 503, "t2"), Err(SyncFailure::ServerStatus(503)));
    assert!(db.sale_rows()[0].synced_at.is_none());
    assert_eq!(plan_sync(&db, 1, vec![]).unwrap().total, 3);
    assert_eq!(complete_sync(&mut db, &batch, 200, "t2"), Ok(5));
    assert_eq!(db.sale_rows()[0].synced_at.as_deref(), Some("t2"));
    assert!(plan_sync(&db, 1, vec![]).is_none());
}

#[test]
fn success_statuses() {
    assert!(is_success(200) && is_success(299));
    assert!(!is_success(199) && !is_success(300) && !is_success(500));
}

#[test]
fn refused_sync_is_retried_with_the_same_records() {
    let mut db = MachineDb::new();
    db.record_sale(1, 1, "SUCCESS", "SIMULATED", "t").unwrap();
    db.record_sale(2, 1, "SUCCESS", "MERCADOPAGO", "t").unwrap();
    let refused = plan_sync(&db, 1, vec![]).unwrap();
    assert_eq!(complete_sync(&mut db, &refused, 500, "t2"), Err(SyncFailure::ServerStatus(500)));
    let next = plan_sync(&db, 1, vec![]).unwrap();
    assert_eq!(next.sale_ids, refused.sale_ids);
    assert_eq!(next.sale_ids, vec![1, 2]);
    assert_eq!(next.total, refused.total);
}
