//! Records exchanged between a machine and the central server.
//! `local_id` is the row id on the machine that produced the record.

use vstd::prelude::*;

verus! {

pub struct SaleSyncRecord {
    pub local_id: i64,
    pub product_id: i64,
    pub timestamp: String,
    pub status: String,
    pub payment_method: String,
}

pub struct EventSyncRecord {
    pub local_id: i64,
    pub timestamp: String,
    pub event: String,
    pub details: String,
}

pub struct PurchaseSyncRecord {
    pub local_id: i64,
    pub product_id: i64,
    pub quantity_mg: i64,
    pub cost_cents: Option<i64>,
    pub timestamp: String,
    pub notes: String,
}

pub struct TransferSyncRecord {
    pub local_id: i64,
    pub product_id: i64,
    pub quantity_mg: i64,
    pub timestamp: String,
    pub notes: String,
}

} // verus!
