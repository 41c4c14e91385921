use fragrance_vending::inventory::{
    Change, IdSequences, LogRow, MachineDb, MachineStockRow, ProductRow, SaleRow, StoreError, WarehouseRow,
};

fn no_seqs() -> IdSequences {
    IdSequences { products: 0, sales: 0, purchases: 0, transfers: 0, logs: 0 }
}

fn seeded() -> MachineDb {
    let mut db = MachineDb::new();
    db.seed_if_empty().unwrap();
    db
}

#[test]
fn seed_installs_the_starter_catalog() {
    let db = seeded();
    let products = db.get_products(1);
    let names: Vec<&str> = products.iter().map(|p| p.name.as_str()).collect();
    assert_eq!(
        names,
        vec!["Jean Paul Gaultier", "Dior Sauvage", "Versace Eros", "Acqua di Gio", "YSL Black Opium"]
    );
    let prices: Vec<i64> = products.iter().map(|p| p.price_cents).collect();
    assert_eq!(prices, vec![500, 450, 375, 400, 425]);
    for (i, p) in products.iter().enumerate() {
        assert_eq!(p.id, i as i64 + 1);
        assert_eq!(p.mg_per_dispense, 1500);
        assert_eq!(p.stock_mg, 50000);
    }
    let inventory = db.get_inventory(1);
    assert!(inventory.iter().all(|item| item.warehouse_mg == 200000 && item.machine_mg == 50000));
}

#[test]
fn seed_is_skipped_when_the_catalog_is_not_empty() {
    let mut db = seeded();
    let _ = db.take_changes();
    db.seed_if_empty().unwrap();
    assert_eq!(db.get_products(1).len(), 5);
    assert!(db.take_changes().is_empty());
}

#[test]
fn seed_records_the_rows_it_writes() {
    let mut db = seeded();
    let changes = db.take_changes();
    assert_eq!(changes.len(), 16);
    assert_eq!(changes[0], Change::SeedMachine);
    assert_eq!(changes[1], Change::Product(1));
    assert_eq!(changes[6], Change::Warehouse(1));
    assert_eq!(changes[15], Change::MachineStock(1, 5));
}

#[test]
fn seed_refuses_to_overwrite_stock_rows() {
    let mut db = MachineDb::from_rows(
        vec![],
        vec![WarehouseRow { product_id: 3, quantity_mg: 7 }],
        vec![],
        vec![],
        vec![],
        vec![],
        vec![],
        no_seqs(),
    )
    .unwrap();
    assert_eq!(db.seed_if_empty(), Err(StoreError::SeedConflict));
    assert_eq!(db.get_products(1).len(), 0);
}

#[test]
fn other_machines_see_no_stock() {
    let db = seeded();
    assert!(db.get_products(2).iter().all(|p| p.stock_mg == 0));
    assert!(db.get_inventory(2).iter().all(|i| i.machine_mg == 0 && i.warehouse_mg == 200000));
}

#[test]
fn get_product_finds_by_id() {
    let db = seeded();
    let p = db.get_product(2, 1).unwrap();
    assert_eq!(p.name, "Dior Sauvage");
    assert_eq!(p.price_cents, 450);
    assert!(db.get_product(9, 1).is_none());
}

#[test]
fn transfer_moves_stock_from_warehouse_to_machine() {
    let mut db = seeded();
    let before = db.warehouse_stock(1) + db.machine_stock_of(1, 1);
    db.transfer_stock(1, 1, 10000, "refill", "2024-01-01 10:00:00").unwrap();
    assert_eq!(db.warehouse_stock(1), 190000);
    assert_eq!(db.machine_stock_of(1, 1), 60000);
    assert_eq!(db.warehouse_stock(1) + db.machine_stock_of(1, 1), before);
    let t = &db.transfer_rows()[0];
    assert_eq!((t.id, t.product_id, t.machine_id, t.quantity_mg), (1, 1, 1, 10000));
    assert_eq!(t.notes, "refill");
    assert!(t.synced_at.is_none());
}

#[test]
fn transfer_refused_when_warehouse_holds_too_little() {
    let mut db = seeded();
    let r = db.transfer_stock(1, 1, 200001, "", "2024-01-01 10:00:00");
    assert_eq!(r, Err(StoreError::InsufficientStock { available_mg: 200000, requested_mg: 200001 }));
    assert_eq!(db.warehouse_stock(1), 200000);
    assert_eq!(db.machine_stock_of(1, 1), 50000);
    assert!(db.transfer_rows().is_empty());
}

#[test]
fn transfer_of_everything_is_allowed() {
    let mut db = seeded();
    db.transfer_stock(2, 1, 200000, "", "t").unwrap();
    assert_eq!(db.warehouse_stock(2), 0);
    assert_eq!(db.machine_stock_of(1, 2), 250000);
}

#[test]
fn transfer_refused_without_warehouse_row() {
    let mut db = seeded();
    assert_eq!(db.transfer_stock(42, 1, 1, "", "t"), Err(StoreError::NoWarehouseStock));
}

#[test]
fn transfer_to_machine_without_stock_row_creates_it() {
    let mut db = seeded();
    let _ = db.take_changes();
    db.transfer_stock(1, 7, 1000, "", "t").unwrap();
    assert_eq!(db.warehouse_stock(1), 199000);
    assert_eq!(db.machine_stock_of(7, 1), 1000);
    assert_eq!(db.machine_stock_of(1, 1), 50000);
    assert_eq!(
        db.take_changes(),
        vec![Change::Transfer(1), Change::Warehouse(1), Change::MachineStock(7, 1)]
    );
}

#[test]
fn purchase_adds_to_warehouse() {
    let mut db = seeded();
    db.add_purchase(3, 5000, Some(1999), "supplier", "2024-01-01 09:00:00").unwrap();
    assert_eq!(db.warehouse_stock(3), 205000);
    let p = &db.purchase_rows()[0];
    assert_eq!((p.id, p.product_id, p.quantity_mg, p.cost_cents), (1, 3, 5000, Some(1999)));
    assert_eq!(p.notes, "supplier");
}

#[test]
fn purchase_of_product_without_warehouse_row_creates_it() {
    let mut db = seeded();
    let _ = db.take_changes();
    db.add_purchase(99, 5000, None, "", "t").unwrap();
    assert_eq!(db.warehouse_stock(99), 5000);
    assert_eq!(db.purchase_rows().len(), 1);
    assert_eq!(db.take_changes(), vec![Change::Purchase(1), Change::Warehouse(99)]);
}

#[test]
fn purchase_refused_when_stock_would_overflow() {
    let mut db = seeded();
    assert_eq!(db.add_purchase(1, i64::MAX, None, "", "t"), Err(StoreError::StorageFull));
    assert!(db.purchase_rows().is_empty());
}

#[test]
fn sales_get_increasing_ids() {
    let mut db = seeded();
    assert_eq!(db.record_sale(1, 1, "SUCCESS", "SIMULATED", "t1"), Ok(1));
    assert_eq!(db.record_sale(2, 1, "SUCCESS", "MERCADO_PAGO", "t2"), Ok(2));
    let s = &db.sale_rows()[1];
    assert_eq!((s.product_id, s.machine_id), (2, 1));
    assert_eq!(s.payment_method, "MERCADO_PAGO");
    assert_eq!(s.timestamp, "t2");
}

#[test]
fn sale_ids_continue_after_the_largest_present() {
    let sale = SaleRow {
        id: 41,
        product_id: 1,
        machine_id: 1,
        timestamp: "t".to_string(),
        status: "SUCCESS".to_string(),
        payment_method: "SIMULATED".to_string(),
        synced_at: None,
    };
    let mut db = MachineDb::from_rows(vec![], vec![], vec![], vec![sale], vec![], vec![], vec![], no_seqs()).unwrap();
    assert_eq!(db.record_sale(1, 1, "SUCCESS", "SIMULATED", "t"), Ok(42));
}

#[test]
fn sale_refused_when_ids_are_exhausted() {
    let sale = SaleRow {
        id: i64::MAX - 2,
        product_id: 1,
        machine_id: 1,
        timestamp: "t".to_string(),
        status: "SUCCESS".to_string(),
        payment_method: "SIMULATED".to_string(),
        synced_at: None,
    };
    let mut db = MachineDb::from_rows(vec![], vec![], vec![], vec![sale], vec![], vec![], vec![], no_seqs()).unwrap();
    assert_eq!(db.record_sale(1, 1, "SUCCESS", "SIMULATED", "t"), Ok(i64::MAX - 1));
    assert_eq!(db.record_sale(1, 1, "SUCCESS", "SIMULATED", "t"), Err(StoreError::StorageFull));
}

#[test]
fn decrement_takes_one_dose() {
    let mut db = seeded();
    db.decrement_stock(1, 1).unwrap();
    assert_eq!(db.machine_stock_of(1, 1), 48500);
}

#[test]
fn decrement_can_go_below_zero_from_a_small_positive_stock() {
    let mut db = MachineDb::from_rows(
        vec![ProductRow { id: 1, name: "X".to_string(), price_cents: 100, mg_per_dispense: 1500 }],
        vec![],
        vec![MachineStockRow { machine_id: 1, product_id: 1, quantity_mg: 1000 }],
        vec![],
        vec![],
        vec![],
        vec![],
        no_seqs(),
    )
    .unwrap();
    db.decrement_stock(1, 1).unwrap();
    assert_eq!(db.machine_stock_of(1, 1), -500);
    db.decrement_stock(1, 1).unwrap();
    assert_eq!(db.machine_stock_of(1, 1), -500);
}

#[test]
fn decrement_without_stock_row_changes_nothing() {
    let mut db = seeded();
    let _ = db.take_changes();
    db.decrement_stock(1, 3).unwrap();
    assert!(db.take_changes().is_empty());
}

#[test]
fn decrement_of_unknown_product_is_refused() {
    let mut db = MachineDb::from_rows(
        vec![],
        vec![],
        vec![MachineStockRow { machine_id: 1, product_id: 8, quantity_mg: 1000 }],
        vec![],
        vec![],
        vec![],
        vec![],
        no_seqs(),
    )
    .unwrap();
    assert_eq!(db.decrement_stock(8, 1), Err(StoreError::UnknownProduct));
    assert_eq!(db.machine_stock_of(1, 8), 1000);
}

#[test]
fn log_event_appends() {
    let mut db = MachineDb::new();
    db.log_event(1, "PURCHASE", "product_id=1", "t").unwrap();
    let l = &db.log_rows()[0];
    assert_eq!((l.id, l.machine_id), (1, 1));
    assert_eq!(l.event, "PURCHASE");
    assert_eq!(l.details, "product_id=1");
    assert_eq!(db.take_changes(), vec![Change::Log(1)]);
}

#[test]
fn fetch_unsynced_takes_the_oldest_hundred() {
    let mut db = seeded();
    for _ in 0..150 {
        db.record_sale(1, 1, "SUCCESS", "SIMULATED", "t").unwrap();
    }
    let batch = db.fetch_unsynced_sales();
    assert_eq!(batch.len(), 100);
    assert_eq!(batch[0].local_id, 1);
    assert_eq!(batch[99].local_id, 100);
    let ids: Vec<i64> = batch.iter().map(|r| r.local_id).collect();
    db.mark_sales_synced(&ids, "now");
    let next = db.fetch_unsynced_sales();
    assert_eq!(next.len(), 50);
    assert_eq!(next[0].local_id, 101);
    assert_eq!(db.sale_rows()[0].synced_at.as_deref(), Some("now"));
    assert!(db.sale_rows()[120].synced_at.is_none());
}

#[test]
fn marking_unknown_ids_changes_no_row() {
    let mut db = seeded();
    db.log_event(1, "A", "", "t").unwrap();
    db.mark_logs_synced(&vec![5], "now");
    assert!(db.log_rows()[0].synced_at.is_none());
    assert_eq!(db.fetch_unsynced_logs().len(), 1);
}

#[test]
fn from_rows_rejects_unordered_ids() {
    let row = |id: i64| LogRow {
        id,
        machine_id: 1,
        timestamp: "t".to_string(),
        event: "E".to_string(),
        details: String::new(),
        synced_at: None,
    };
    assert!(MachineDb::from_rows(vec![], vec![], vec![], vec![], vec![], vec![], vec![row(2), row(1)], no_seqs()).is_none());
    assert!(MachineDb::from_rows(vec![], vec![], vec![], vec![], vec![], vec![], vec![row(1), row(2)], no_seqs()).is_some());
}

#[test]
fn from_rows_rejects_duplicate_stock_keys() {
    let w = |p: i64| WarehouseRow { product_id: p, quantity_mg: 1 };
    assert!(MachineDb::from_rows(vec![], vec![w(1), w(1)], vec![], vec![], vec![], vec![], vec![], no_seqs()).is_none());
}

#[test]
fn ids_are_never_reused_after_rows_are_gone() {
    // Sales 1 to 41 were handed out, and only sale 7 is still present.
    let sale = SaleRow {
        id: 7,
        product_id: 1,
        machine_id: 1,
        timestamp: "t".to_string(),
        status: "SUCCESS".to_string(),
        payment_method: "SIMULATED".to_string(),
        synced_at: None,
    };
    let seqs = IdSequences { products: 5, sales: 41, purchases: 0, transfers: 0, logs: 0 };
    let mut db = MachineDb::from_rows(vec![], vec![], vec![], vec![sale], vec![], vec![], vec![], seqs).unwrap();
    assert_eq!(db.record_sale(1, 1, "SUCCESS", "SIMULATED", "t"), Ok(42));
    // An emptied catalog is seeded after the ids it already used.
    db.seed_if_empty().unwrap();
    let ids: Vec<i64> = db.product_rows().iter().map(|p| p.id).collect();
    assert_eq!(ids, vec![6, 7, 8, 9, 10]);
}

#[test]
fn a_store_reloads_from_its_rows_and_sequences() {
    let mut db = seeded();
    db.record_sale(1, 1, "SUCCESS", "SIMULATED", "t").unwrap();
    db.log_event(1, "E", "d", "t").unwrap();
    let q = db.id_sequences();
    assert_eq!((q.products, q.sales, q.purchases, q.transfers, q.logs), (5, 1, 0, 0, 1));
    let products = db
        .product_rows()
        .iter()
        .map(|r| ProductRow { id: r.id, name: r.name.clone(), price_cents: r.price_cents, mg_per_dispense: r.mg_per_dispense })
        .collect();
    let warehouse =
        db.warehouse_rows().iter().map(|r| WarehouseRow { product_id: r.product_id, quantity_mg: r.quantity_mg }).collect();
    let stock = db
        .machine_stock_rows()
        .iter()
        .map(|r| MachineStockRow { machine_id: r.machine_id, product_id: r.product_id, quantity_mg: r.quantity_mg })
        .collect();
    let sales = db
        .sale_rows()
        .iter()
        .map(|r| SaleRow {
            id: r.id,
            product_id: r.product_id,
            machine_id: r.machine_id,
            timestamp: r.timestamp.clone(),
            status: r.status.clone(),
            payment_method: r.payment_method.clone(),
            synced_at: r.synced_at.clone(),
        })
        .collect();
    let logs = db
        .log_rows()
        .iter()
        .map(|r| LogRow {
            id: r.id,
            machine_id: r.machine_id,
            timestamp: r.timestamp.clone(),
            event: r.event.clone(),
            details: r.details.clone(),
            synced_at: r.synced_at.clone(),
        })
        .collect();
    let mut back = MachineDb::from_rows(products, warehouse, stock, sales, vec![], vec![], logs, q).unwrap();
    assert_eq!(back.get_products(1).len(), 5);
    assert_eq!(back.machine_stock_of(1, 1), db.machine_stock_of(1, 1));
    assert_eq!(back.record_sale(1, 1, "SUCCESS", "SIMULATED", "t"), Ok(2));
    assert_eq!(back.log_event(1, "E", "d", "t"), Ok(()));
    assert_eq!(back.log_rows()[1].id, 2);
}

#[test]
fn lookup_agrees_with_the_listing() {
    let mut db = seeded();
    db.transfer_stock(2, 3, 1000, "", "t").unwrap();
    for m in [1, 2, 3] {
        let listing = db.get_products(m);
        for pid in -1..8 {
            let found = db.get_product(pid, m);
            let listed = listing.iter().find(|p| p.id == pid);
            match (found, listed) {
                (None, None) => {}
                (Some(a), Some(b)) => {
                    assert_eq!((a.id, &a.name, a.price_cents, a.mg_per_dispense, a.stock_mg),
                        (b.id, &b.name, b.price_cents, b.mg_per_dispense, b.stock_mg));
                }
                _ => panic!("lookup and listing disagree on product {pid}"),
            }
        }
    }
}
