//! Records handed out by the store: what a customer sees of a product, what
//! an operator sees of the inventory, and a recorded sale.
//! Weights are whole milligrams and prices whole cents.

use vstd::prelude::*;

verus! {

/// A product as offered by one machine, with that machine's stock.
pub struct Product {
    pub id: i64,
    pub name: String,
    pub price_cents: i64,
    pub mg_per_dispense: i64,
    pub stock_mg: i64,
}

/// A product with its warehouse stock and one machine's stock.
pub struct InventoryItem {
    pub id: i64,
    pub name: String,
    pub price_cents: i64,
    pub warehouse_mg: i64,
    pub machine_mg: i64,
}

/// A recorded sale.
pub struct Sale {
    pub id: i64,
    pub product_id: i64,
    pub timestamp: String,
    pub status: String,
    pub payment_method: String,
}

} // verus!
