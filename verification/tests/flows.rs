use fragrance_vending::handlers::{
    begin_payment, dispense_outcome, dispense_request, finish_order, mode_label, payment_status_reply, purchase_request,
    store_error_text, transfer_request, HttpStatus, OperatorReply, OrderRequest, PayStep, StatusReply,
};
use fragrance_vending::hardware::UartHandle;
use fragrance_vending::inventory::{MachineDb, StoreError};
use std::sync::atomic::{AtomicBool, AtomicI64};
use std::sync::{mpsc, Arc};

fn seeded() -> MachineDb {
    let mut db = MachineDb::new();
    db.seed_if_empty().unwrap();
    db
}

fn events(db: &MachineDb) -> Vec<(String, String)> {
    db.log_rows().iter().map(|l| (l.event.clone(), l.details.clone())).collect()
}

#[test]
fn simulated_payment_records_sale_and_takes_a_dose() {
    let mut db = seeded();
    let step = begin_payment(&mut db, 1, 1, true, false, "2024-05-01 12:00:00");
    let r = match step {
        PayStep::Reply(r) => r,
        PayStep::CreateOrder(_) => panic!("no terminal order in simulation mode"),
    };
    assert_eq!(r.status, HttpStatus::Success);
    assert!(r.success && !r.pending);
    assert_eq!(r.message, "Payment of $5.00 simulated successfully");
    assert_eq!(r.sale_id, Some(1));
    assert_eq!(r.product_name.as_deref(), Some("Jean Paul Gaultier"));
    assert_eq!(r.amount_cents, Some(500));
    assert_eq!(db.machine_stock_of(1, 1), 48500);
    let sale = &db.sale_rows()[0];
    assert_eq!(sale.status, "SUCCESS");
    assert_eq!(sale.payment_method, "SIMULATED");
    assert_eq!(
        events(&db),
        vec![
            ("PAYMENT_ATTEMPT".to_string(), "product_id=1 amount=5.00".to_string()),
            ("PAYMENT_SUCCESS".to_string(), "sale_id=1 product='Jean Paul Gaultier' amount=5.00".to_string()),
        ]
    );
}

#[test]
fn payment_for_unknown_product_is_not_found() {
    let mut db = seeded();
    match begin_payment(&mut db, 1, 77, true, false, "t") {
        PayStep::Reply(r) => {
            assert_eq!(r.status, HttpStatus::NotFound);
            assert_eq!(r.message, "Product 77 not found");
            assert!(r.product_name.is_none() && r.amount_cents.is_none());
        },
        PayStep::CreateOrder(_) => panic!(),
    }
    assert!(db.log_rows().is_empty());
}

#[test]
fn payment_for_product_out_of_stock_is_refused() {
    let mut db = seeded();
    match begin_payment(&mut db, 2, 3, true, false, "t") {
        PayStep::Reply(r) => {
            assert_eq!(r.status, HttpStatus::BadRequest);
            assert_eq!(r.message, "Versace Eros is out of stock");
            assert_eq!(r.amount_cents, Some(375));
        },
        PayStep::CreateOrder(_) => panic!(),
    }
    assert!(db.sale_rows().is_empty());
}

#[test]
fn production_without_terminal_is_unavailable() {
    let mut db = seeded();
    match begin_payment(&mut db, 1, 2, false, false, "t") {
        PayStep::Reply(r) => {
            assert_eq!(r.status, HttpStatus::ServiceUnavailable);
            assert_eq!(r.message, "Terminal de pago no configurada (falta MP_ACCESS_TOKEN / MP_TERMINAL_ID)");
        },
        PayStep::CreateOrder(_) => panic!(),
    }
    assert_eq!(events(&db), vec![("PAYMENT_ATTEMPT".to_string(), "product_id=2 amount=4.50".to_string())]);
    assert!(db.sale_rows().is_empty());
}

#[test]
fn production_with_terminal_requests_an_order() {
    let mut db = seeded();
    let order = match begin_payment(&mut db, 1, 2, false, true, "t") {
        PayStep::CreateOrder(o) => o,
        PayStep::Reply(_) => panic!(),
    };
    assert_eq!(order.product_id, 2);
    assert_eq!(order.amount_cents, 450);
    assert_eq!(order.description, "Dior Sauvage");
    assert!(order.external_ref.starts_with("m1-p2-"));
    assert_eq!(order.external_ref.len(), "m1-p2-".len() + 36);
    assert!(db.sale_rows().is_empty());
}

fn order() -> OrderRequest {
    OrderRequest {
        product_id: 2,
        amount_cents: 450,
        description: "Dior Sauvage".to_string(),
        external_ref: "m1-p2-x".to_string(),
    }
}

#[test]
fn created_order_waits_for_the_terminal() {
    let mut db = seeded();
    let r = finish_order(&mut db, 1, order(), Ok("ORD1".to_string()), "t");
    assert_eq!(r.status, HttpStatus::Success);
    assert!(r.pending && !r.success);
    assert_eq!(r.message, "Paga en la terminal");
    assert_eq!(r.order_id.as_deref(), Some("ORD1"));
    assert_eq!(events(&db), vec![("MP_ORDER_CREATED".to_string(), "order_id=ORD1 product_id=2".to_string())]);
}

#[test]
fn failed_order_is_reported() {
    let mut db = seeded();
    let r = finish_order(&mut db, 1, order(), Err("MP request failed: timeout".to_string()), "t");
    assert_eq!(r.status, HttpStatus::InternalServerError);
    assert_eq!(r.message, "Error al conectar con la terminal de pago");
    assert_eq!(
        events(&db),
        vec![("MP_ORDER_ERROR".to_string(), "product_id=2 error=MP request failed: timeout".to_string())]
    );
}

#[test]
fn processed_order_records_the_sale() {
    let mut db = seeded();
    match payment_status_reply(&mut db, 1, 4, "ORD9", Some(Ok("processed".to_string())), "t") {
        StatusReply::Order { status, processed, sale_id } => {
            assert_eq!(status, "processed");
            assert!(processed);
            assert_eq!(sale_id, Some(1));
        },
        _ => panic!(),
    }
    assert_eq!(db.sale_rows()[0].payment_method, "MERCADO_PAGO");
    assert_eq!(db.machine_stock_of(1, 4), 48500);
    assert_eq!(
        events(&db),
        vec![(
            "PAYMENT_SUCCESS".to_string(),
            "sale_id=1 order_id=ORD9 product_id=4 method=MERCADO_PAGO".to_string()
        )]
    );
}

#[test]
fn pending_order_records_nothing() {
    let mut db = seeded();
    match payment_status_reply(&mut db, 1, 4, "ORD9", Some(Ok("at_terminal".to_string())), "t") {
        StatusReply::Order { processed, sale_id, .. } => assert!(!processed && sale_id.is_none()),
        _ => panic!(),
    }
    assert!(db.sale_rows().is_empty() && db.log_rows().is_empty());
    assert!(matches!(payment_status_reply(&mut db, 1, 4, "O", None, "t"), StatusReply::NotConfigured));
    match payment_status_reply(&mut db, 1, 4, "O", Some(Err("boom".to_string())), "t") {
        StatusReply::Failed(e) => assert_eq!(e, "boom"),
        _ => panic!(),
    }
}

#[test]
fn dispense_without_link_follows_the_mode() {
    let mut db = seeded();
    let ok = dispense_request(&mut db, 1, 3, true, None, "t");
    assert!(ok.success);
    assert_eq!(ok.status, HttpStatus::Success);
    assert_eq!(ok.message, "Product 3 dispensed successfully");
    assert_eq!(ok.link, None);
    let failed = dispense_request(&mut db, 1, 3, false, None, "t");
    assert!(!failed.success);
    assert_eq!(failed.status, HttpStatus::InternalServerError);
    assert_eq!(failed.message, "Dispense failed");
    let ev: Vec<String> = db.log_rows().iter().map(|l| l.event.clone()).collect();
    assert_eq!(ev, vec!["DISPENSE_REQUEST", "DISPENSE_SUCCESS", "DISPENSE_REQUEST", "DISPENSE_FAILURE"]);
    assert!(db.log_rows().iter().all(|l| l.details == "product_id=3"));
}

#[test]
fn dispense_goes_through_an_online_link() {
    let mut db = seeded();
    let (tx, rx) = mpsc::sync_channel(1);
    let link = UartHandle::new(tx, Arc::new(AtomicBool::new(true)), Arc::new(AtomicI64::new(0)));
    let first = dispense_request(&mut db, 1, 1, false, Some(&link), "t");
    assert!(first.success);
    assert_eq!(first.link, Some((true, true)));
    assert!(rx.try_recv().is_ok());
    let _ = link.send_dispense();
    let full = dispense_request(&mut db, 1, 1, true, Some(&link), "t");
    assert!(!full.success);
    assert_eq!(full.link, Some((true, false)));
}

#[test]
fn dispense_falls_back_when_link_is_offline() {
    let mut db = seeded();
    let (tx, rx) = mpsc::sync_channel(1);
    let link = UartHandle::new(tx, Arc::new(AtomicBool::new(false)), Arc::new(AtomicI64::new(0)));
    let r = dispense_request(&mut db, 1, 1, true, Some(&link), "t");
    assert!(r.success);
    assert_eq!(r.link, Some((false, false)));
    assert!(rx.try_recv().is_err());
    assert!(!dispense_request(&mut db, 1, 1, false, Some(&link), "t").success);
}

#[test]
fn purchase_request_validates_and_logs() {
    let mut db = seeded();
    match purchase_request(&mut db, 1, 2, 0, None, None, "t") {
        OperatorReply::Refused { status, error } => {
            assert_eq!(status, HttpStatus::BadRequest);
            assert_eq!(error, "quantity_g must be greater than 0");
        },
        _ => panic!(),
    }
    match purchase_request(&mut db, 1, 2, 12500, Some(3000), Some("box".to_string()), "t") {
        OperatorReply::Done { message } => assert_eq!(message, "12.5g added to warehouse"),
        _ => panic!(),
    }
    assert_eq!(db.warehouse_stock(2), 212500);
    assert_eq!(events(&db), vec![("PURCHASE".to_string(), "product_id=2 qty=12.5g".to_string())]);
    assert_eq!(db.purchase_rows()[0].notes, "box");
}

#[test]
fn transfer_request_reports_insufficient_stock() {
    let mut db = seeded();
    match transfer_request(&mut db, 1, 1, 500000, None, "t") {
        OperatorReply::Refused { status, error } => {
            assert_eq!(status, HttpStatus::BadRequest);
            assert_eq!(error, "Insufficient warehouse stock: 200.0g available, 500.0g requested");
        },
        _ => panic!(),
    }
    match transfer_request(&mut db, 1, 1, 10000, None, "t") {
        OperatorReply::Done { message } => assert_eq!(message, "10.0g transferred to machine 1"),
        _ => panic!(),
    }
    assert_eq!(
        events(&db),
        vec![("STOCK_TRANSFER".to_string(), "product_id=1 qty=10.0g warehouse->machine=1".to_string())]
    );
    assert_eq!(db.transfer_rows()[0].notes, "");
}

#[test]
fn transfer_request_without_warehouse_row() {
    let mut db = seeded();
    match transfer_request(&mut db, 1, 9, 100, None, "t") {
        OperatorReply::Refused { error, .. } => assert_eq!(error, "Query returned no rows"),
        _ => panic!(),
    }
}

#[test]
fn store_errors_have_texts() {
    assert_eq!(store_error_text(StoreError::StorageFull), "storage full");
    assert_eq!(store_error_text(StoreError::UnknownProduct), "unknown product");
    assert_eq!(store_error_text(StoreError::SeedConflict), "stock rows already present");
}

#[test]
fn status_mode_labels() {
    assert_eq!(mode_label(true), "SIMULATION");
    assert_eq!(mode_label(false), "PRODUCTION");
}

#[test]
fn dispense_outcome_by_link_reading() {
    assert!(dispense_outcome(false, 1, Some((true, true))));
    assert!(!dispense_outcome(true, 1, Some((true, false))));
    assert!(dispense_outcome(true, 1, Some((false, false))));
    assert!(!dispense_outcome(false, 1, Some((false, false))));
    assert!(dispense_outcome(true, 1, None));
    assert!(!dispense_outcome(false, 1, None));
}
