//! The machine's local store: the product catalog, warehouse and machine
//! stock, and the journals of sales, purchases, stock transfers and events
//! that are later pushed to the central server.
//!
//! Every change is also recorded in a list of `Change`s so that the rows it
//! touched can be written to durable storage.

use vstd::prelude::*;
use crate::models::{InventoryItem, Product};
use crate::records::{EventSyncRecord, PurchaseSyncRecord, SaleSyncRecord, TransferSyncRecord};
use crate::seqs::{first_n, lemma_somes_at, lemma_somes_first_n, lemma_somes_member, lemma_somes_take_succ, somes};

verus! {

/// A row of the product catalog.
pub struct ProductRow {
    pub id: i64,
    pub name: String,
    pub price_cents: i64,
    pub mg_per_dispense: i64,
}

/// Warehouse stock of one product.
pub struct WarehouseRow {
    pub product_id: i64,
    pub quantity_mg: i64,
}

/// Stock of one product inside one machine.
pub struct MachineStockRow {
    pub machine_id: i64,
    pub product_id: i64,
    pub quantity_mg: i64,
}

/// A recorded sale; `synced_at` is set once the central server confirmed it.
pub struct SaleRow {
    pub id: i64,
    pub product_id: i64,
    pub machine_id: i64,
    pub timestamp: String,
    pub status: String,
    pub payment_method: String,
    pub synced_at: Option<String>,
}

/// A purchase that added stock to the warehouse.
pub struct PurchaseRow {
    pub id: i64,
    pub product_id: i64,
    pub quantity_mg: i64,
    pub cost_cents: Option<i64>,
    pub timestamp: String,
    pub notes: String,
    pub synced_at: Option<String>,
}

/// A move of stock from the warehouse into a machine.
pub struct TransferRow {
    pub id: i64,
    pub product_id: i64,
    pub machine_id: i64,
    pub quantity_mg: i64,
    pub timestamp: String,
    pub notes: String,
    pub synced_at: Option<String>,
}

/// An entry of the event log.
pub struct LogRow {
    pub id: i64,
    pub machine_id: i64,
    pub timestamp: String,
    pub event: String,
    pub details: String,
    pub synced_at: Option<String>,
}

/// A row that an operation inserted or modified.
#[derive(Clone, Copy, PartialEq, Eq, Structural, Debug)]
pub enum Change {
    /// The default machine (id 1) was registered.
    SeedMachine,
    /// The product with this id was inserted.
    Product(i64),
    /// The warehouse stock of this product was written.
    Warehouse(i64),
    /// The stock of (machine, product) was written.
    MachineStock(i64, i64),
    Sale(i64),
    Purchase(i64),
    Transfer(i64),
    Log(i64),
    SaleSynced(i64),
    PurchaseSynced(i64),
    TransferSynced(i64),
    LogSynced(i64),
}

/// Why an operation on the store was refused.
#[derive(Clone, Copy, PartialEq, Eq, Structural, Debug)]
pub enum StoreError {
    /// An id counter or a stock quantity would leave the range of `i64`.
    StorageFull,
    /// The product has no warehouse stock row.
    NoWarehouseStock,
    /// The warehouse holds less than was requested.
    InsufficientStock { available_mg: i64, requested_mg: i64 },
    /// The product is not in the catalog.
    UnknownProduct,
    /// Seeding would overwrite existing stock rows.
    SeedConflict,
}

// ---------------------------------------------------------------------------
// Keyed stock tables viewed as maps.

pub open spec fn warehouse_keys_unique(rows: Seq<WarehouseRow>) -> bool {
    forall|i: int, j: int|
        0 <= i < rows.len() && 0 <= j < rows.len() && i != j ==> #[trigger] rows[i].product_id
            != #[trigger] rows[j].product_id
}

pub open spec fn warehouse_has(rows: Seq<WarehouseRow>, p: i64) -> bool {
    exists|i: int| 0 <= i < rows.len() && #[trigger] rows[i].product_id == p
}

pub open spec fn warehouse_map(rows: Seq<WarehouseRow>) -> Map<i64, int> {
    Map::new(
        |p: i64| warehouse_has(rows, p),
        |p: i64| rows[choose|i: int| 0 <= i < rows.len() && #[trigger] rows[i].product_id == p].quantity_mg as int,
    )
}

pub open spec fn stock_keys_unique(rows: Seq<MachineStockRow>) -> bool {
    forall|i: int, j: int|
        0 <= i < rows.len() && 0 <= j < rows.len() && i != j ==> (#[trigger] rows[i].machine_id,
        rows[i].product_id) != (#[trigger] rows[j].machine_id, rows[j].product_id)
}

pub open spec fn stock_has(rows: Seq<MachineStockRow>, k: (i64, i64)) -> bool {
    exists|i: int| 0 <= i < rows.len() && (#[trigger] rows[i].machine_id, rows[i].product_id) == k
}

pub open spec fn stock_map(rows: Seq<MachineStockRow>) -> Map<(i64, i64), int> {
    Map::new(
        |k: (i64, i64)| stock_has(rows, k),
        |k: (i64, i64)|
            rows[choose|i: int|
                0 <= i < rows.len() && (#[trigger] rows[i].machine_id, rows[i].product_id)
                    == k].quantity_mg as int,
    )
}

proof fn lemma_warehouse_at(rows: Seq<WarehouseRow>, i: int)
    requires
        warehouse_keys_unique(rows),
        0 <= i < rows.len(),
    ensures
        warehouse_map(rows).contains_key(rows[i].product_id),
        warehouse_map(rows)[rows[i].product_id] == rows[i].quantity_mg,
{
    let p = rows[i].product_id;
    assert(warehouse_has(rows, p));
    let j = choose|j: int| 0 <= j < rows.len() && #[trigger] rows[j].product_id == p;
    assert(j == i);
}

proof fn lemma_warehouse_update(rows: Seq<WarehouseRow>, i: int, q: i64)
    requires
        warehouse_keys_unique(rows),
        0 <= i < rows.len(),
    ensures
        warehouse_keys_unique(
            rows.update(i, WarehouseRow { product_id: rows[i].product_id, quantity_mg: q }),
        ),
        warehouse_map(rows.update(i, WarehouseRow { product_id: rows[i].product_id, quantity_mg: q }))
            == warehouse_map(rows).insert(rows[i].product_id, q as int),
{
    let p = rows[i].product_id;
    let new = rows.update(i, WarehouseRow { product_id: p, quantity_mg: q });
    assert(warehouse_keys_unique(new));
    lemma_warehouse_at(new, i);
    assert forall|k: i64| #[trigger] warehouse_map(new).contains_key(k) == warehouse_map(rows).insert(p, q as int).contains_key(k) by {
        if warehouse_has(rows, k) {
            let j = choose|j: int| 0 <= j < rows.len() && #[trigger] rows[j].product_id == k;
            assert(new[j].product_id == k);
        }
        if warehouse_has(new, k) {
            let j = choose|j: int| 0 <= j < new.len() && #[trigger] new[j].product_id == k;
            assert(rows[j].product_id == k);
        }
    }
    assert forall|k: i64| #[trigger] warehouse_map(new).contains_key(k) implies warehouse_map(new)[k] == warehouse_map(rows).insert(p, q as int)[k] by {
        if k != p {
            let j = choose|j: int| 0 <= j < new.len() && #[trigger] new[j].product_id == k;
            assert(j != i);
            lemma_warehouse_at(new, j);
            lemma_warehouse_at(rows, j);
        }
    }
    assert(warehouse_map(new) =~= warehouse_map(rows).insert(p, q as int));
}

proof fn lemma_warehouse_push(rows: Seq<WarehouseRow>, r: WarehouseRow)
    requires
        warehouse_keys_unique(rows),
        !warehouse_map(rows).contains_key(r.product_id),
    ensures
        warehouse_keys_unique(rows.push(r)),
        warehouse_map(rows.push(r)) == warehouse_map(rows).insert(r.product_id, r.quantity_mg as int),
{
    let new = rows.push(r);
    assert forall|i: int| 0 <= i < rows.len() implies #[trigger] rows[i].product_id != r.product_id by {
        assert(warehouse_has(rows, rows[i].product_id));
    }
    assert(warehouse_keys_unique(new));
    lemma_warehouse_at(new, rows.len() as int);
    assert forall|k: i64| #[trigger] warehouse_map(new).contains_key(k) == warehouse_map(rows).insert(r.product_id, r.quantity_mg as int).contains_key(k) by {
        if warehouse_has(rows, k) {
            let j = choose|j: int| 0 <= j < rows.len() && #[trigger] rows[j].product_id == k;
            assert(new[j].product_id == k);
        }
        if warehouse_has(new, k) && k != r.product_id {
            let j = choose|j: int| 0 <= j < new.len() && #[trigger] new[j].product_id == k;
            assert(rows[j].product_id == k);
        }
    }
    assert forall|k: i64| #[trigger] warehouse_map(new).contains_key(k) implies warehouse_map(new)[k] == warehouse_map(rows).insert(r.product_id, r.quantity_mg as int)[k] by {
        if k != r.product_id {
            let j = choose|j: int| 0 <= j < new.len() && #[trigger] new[j].product_id == k;
            assert(j < rows.len());
            lemma_warehouse_at(new, j);
            lemma_warehouse_at(rows, j);
        }
    }
    assert(warehouse_map(new) =~= warehouse_map(rows).insert(r.product_id, r.quantity_mg as int));
}

proof fn lemma_stock_at(rows: Seq<MachineStockRow>, i: int)
    requires
        stock_keys_unique(rows),
        0 <= i < rows.len(),
    ensures
        stock_map(rows).contains_key((rows[i].machine_id, rows[i].product_id)),
        stock_map(rows)[(rows[i].machine_id, rows[i].product_id)] == rows[i].quantity_mg,
{
    let k = (rows[i].machine_id, rows[i].product_id);
    assert(stock_has(rows, k));
    let j = choose|j: int| 0 <= j < rows.len() && (#[trigger] rows[j].machine_id, rows[j].product_id) == k;
    assert(j == i);
}

proof fn lemma_stock_update(rows: Seq<MachineStockRow>, i: int, q: i64)
    requires
        stock_keys_unique(rows),
        0 <= i < rows.len(),
    ensures
        stock_keys_unique(
            rows.update(i, MachineStockRow { machine_id: rows[i].machine_id, product_id: rows[i].product_id, quantity_mg: q }),
        ),
        stock_map(rows.update(i, MachineStockRow { machine_id: rows[i].machine_id, product_id: rows[i].product_id, quantity_mg: q }))
            == stock_map(rows).insert((rows[i].machine_id, rows[i].product_id), q as int),
{
    let key = (rows[i].machine_id, rows[i].product_id);
    let new = rows.update(i, MachineStockRow { machine_id: rows[i].machine_id, product_id: rows[i].product_id, quantity_mg: q });
    assert(stock_keys_unique(new));
    lemma_stock_at(new, i);
    assert forall|k: (i64, i64)| #[trigger] stock_map(new).contains_key(k) == stock_map(rows).insert(key, q as int).contains_key(k) by {
        if stock_has(rows, k) {
            let j = choose|j: int| 0 <= j < rows.len() && (#[trigger] rows[j].machine_id, rows[j].product_id) == k;
            assert((new[j].machine_id, new[j].product_id) == k);
        }
        if stock_has(new, k) {
            let j = choose|j: int| 0 <= j < new.len() && (#[trigger] new[j].machine_id, new[j].product_id) == k;
            assert((rows[j].machine_id, rows[j].product_id) == k);
        }
    }
    assert forall|k: (i64, i64)| #[trigger] stock_map(new).contains_key(k) implies stock_map(new)[k] == stock_map(rows).insert(key, q as int)[k] by {
        if k != key {
            let j = choose|j: int| 0 <= j < new.len() && (#[trigger] new[j].machine_id, new[j].product_id) == k;
            assert(j != i);
            lemma_stock_at(new, j);
            lemma_stock_at(rows, j);
        }
    }
    assert(stock_map(new) =~= stock_map(rows).insert(key, q as int));
}

proof fn lemma_stock_push(rows: Seq<MachineStockRow>, r: MachineStockRow)
    requires
        stock_keys_unique(rows),
        !stock_map(rows).contains_key((r.machine_id, r.product_id)),
    ensures
        stock_keys_unique(rows.push(r)),
        stock_map(rows.push(r)) == stock_map(rows).insert((r.machine_id, r.product_id), r.quantity_mg as int),
{
    let key = (r.machine_id, r.product_id);
    let new = rows.push(r);
    assert forall|i: int| 0 <= i < rows.len() implies (#[trigger] rows[i].machine_id, rows[i].product_id) != key by {
        assert(stock_has(rows, (rows[i].machine_id, rows[i].product_id)));
    }
    assert(stock_keys_unique(new));
    lemma_stock_at(new, rows.len() as int);
    assert forall|k: (i64, i64)| #[trigger] stock_map(new).contains_key(k) == stock_map(rows).insert(key, r.quantity_mg as int).contains_key(k) by {
        if stock_has(rows, k) {
            let j = choose|j: int| 0 <= j < rows.len() && (#[trigger] rows[j].machine_id, rows[j].product_id) == k;
            assert((new[j].machine_id, new[j].product_id) == k);
        }
        if stock_has(new, k) && k != key {
            let j = choose|j: int| 0 <= j < new.len() && (#[trigger] new[j].machine_id, new[j].product_id) == k;
            assert((rows[j].machine_id, rows[j].product_id) == k);
        }
    }
    assert forall|k: (i64, i64)| #[trigger] stock_map(new).contains_key(k) implies stock_map(new)[k] == stock_map(rows).insert(key, r.quantity_mg as int)[k] by {
        if k != key {
            let j = choose|j: int| 0 <= j < new.len() && (#[trigger] new[j].machine_id, new[j].product_id) == k;
            assert(j < rows.len());
            lemma_stock_at(new, j);
            lemma_stock_at(rows, j);
        }
    }
    assert(stock_map(new) =~= stock_map(rows).insert(key, r.quantity_mg as int));
}

pub open spec fn in_i64(x: int) -> bool {
    i64::MIN <= x <= i64::MAX
}

pub open spec fn sale_row_is(
    r: SaleRow,
    id: i64,
    product_id: i64,
    machine_id: i64,
    status: Seq<char>,
    payment_method: Seq<char>,
    timestamp: Seq<char>,
) -> bool {
    &&& r.id == id
    &&& r.product_id == product_id
    &&& r.machine_id == machine_id
    &&& r.status@ == status
    &&& r.payment_method@ == payment_method
    &&& r.timestamp@ == timestamp
    &&& r.synced_at is None
}

pub open spec fn log_row_is(
    r: LogRow,
    id: i64,
    machine_id: i64,
    event: Seq<char>,
    details: Seq<char>,
    timestamp: Seq<char>,
) -> bool {
    &&& r.id == id
    &&& r.machine_id == machine_id
    &&& r.event@ == event
    &&& r.details@ == details
    &&& r.timestamp@ == timestamp
    &&& r.synced_at is None
}

pub open spec fn purchase_row_is(
    r: PurchaseRow,
    id: i64,
    product_id: i64,
    quantity_mg: i64,
    cost_cents: Option<i64>,
    notes: Seq<char>,
    timestamp: Seq<char>,
) -> bool {
    &&& r.id == id
    &&& r.product_id == product_id
    &&& r.quantity_mg == quantity_mg
    &&& r.cost_cents == cost_cents
    &&& r.notes@ == notes
    &&& r.timestamp@ == timestamp
    &&& r.synced_at is None
}

pub open spec fn transfer_row_is(
    r: TransferRow,
    id: i64,
    product_id: i64,
    machine_id: i64,
    quantity_mg: i64,
    notes: Seq<char>,
    timestamp: Seq<char>,
) -> bool {
    &&& r.id == id
    &&& r.product_id == product_id
    &&& r.machine_id == machine_id
    &&& r.quantity_mg == quantity_mg
    &&& r.notes@ == notes
    &&& r.timestamp@ == timestamp
    &&& r.synced_at is None
}


/// The record pushed to the central server for a sale row not yet synced.
pub open spec fn sale_record_of(r: SaleRow) -> Option<SaleSyncRecord> {
    if r.synced_at is None {
        Some(SaleSyncRecord { local_id: r.id, product_id: r.product_id, timestamp: r.timestamp, status: r.status, payment_method: r.payment_method })
    } else {
        None
    }
}

pub open spec fn sale_candidates(rows: Seq<SaleRow>) -> Seq<Option<SaleSyncRecord>> {
    rows.map_values(|r: SaleRow| sale_record_of(r))
}

/// `n` is `o` marked as synced at `ts`.
pub open spec fn sale_marked(n: SaleRow, o: SaleRow, ts: Seq<char>) -> bool {
    &&& n.id == o.id &&& n.product_id == o.product_id &&& n.machine_id == o.machine_id &&& n.timestamp == o.timestamp &&& n.status == o.status &&& n.payment_method == o.payment_method
    &&& n.synced_at matches Some(t) && t@ == ts
}

pub open spec fn sale_synced_changes(ids: Seq<i64>) -> Seq<Change> {
    ids.map_values(|id: i64| Change::SaleSynced(id))
}

/// The record pushed to the central server for a event row not yet synced.
pub open spec fn event_record_of(r: LogRow) -> Option<EventSyncRecord> {
    if r.synced_at is None {
        Some(EventSyncRecord { local_id: r.id, timestamp: r.timestamp, event: r.event, details: r.details })
    } else {
        None
    }
}

pub open spec fn event_candidates(rows: Seq<LogRow>) -> Seq<Option<EventSyncRecord>> {
    rows.map_values(|r: LogRow| event_record_of(r))
}

/// `n` is `o` marked as synced at `ts`.
pub open spec fn event_marked(n: LogRow, o: LogRow, ts: Seq<char>) -> bool {
    &&& n.id == o.id &&& n.machine_id == o.machine_id &&& n.timestamp == o.timestamp &&& n.event == o.event &&& n.details == o.details
    &&& n.synced_at matches Some(t) && t@ == ts
}

pub open spec fn event_synced_changes(ids: Seq<i64>) -> Seq<Change> {
    ids.map_values(|id: i64| Change::LogSynced(id))
}

/// The record pushed to the central server for a purchase row not yet synced.
pub open spec fn purchase_record_of(r: PurchaseRow) -> Option<PurchaseSyncRecord> {
    if r.synced_at is None {
        Some(PurchaseSyncRecord { local_id: r.id, product_id: r.product_id, quantity_mg: r.quantity_mg, cost_cents: r.cost_cents, timestamp: r.timestamp, notes: r.notes })
    } else {
        None
    }
}

pub open spec fn purchase_candidates(rows: Seq<PurchaseRow>) -> Seq<Option<PurchaseSyncRecord>> {
    rows.map_values(|r: PurchaseRow| purchase_record_of(r))
}

/// `n` is `o` marked as synced at `ts`.
pub open spec fn purchase_marked(n: PurchaseRow, o: PurchaseRow, ts: Seq<char>) -> bool {
    &&& n.id == o.id &&& n.product_id == o.product_id &&& n.quantity_mg == o.quantity_mg &&& n.cost_cents == o.cost_cents &&& n.timestamp == o.timestamp &&& n.notes == o.notes
    &&& n.synced_at matches Some(t) && t@ == ts
}

pub open spec fn purchase_synced_changes(ids: Seq<i64>) -> Seq<Change> {
    ids.map_values(|id: i64| Change::PurchaseSynced(id))
}

/// The record pushed to the central server for a transfer row not yet synced.
pub open spec fn transfer_record_of(r: TransferRow) -> Option<TransferSyncRecord> {
    if r.synced_at is None {
        Some(TransferSyncRecord { local_id: r.id, product_id: r.product_id, quantity_mg: r.quantity_mg, timestamp: r.timestamp, notes: r.notes })
    } else {
        None
    }
}

pub open spec fn transfer_candidates(rows: Seq<TransferRow>) -> Seq<Option<TransferSyncRecord>> {
    rows.map_values(|r: TransferRow| transfer_record_of(r))
}

/// `n` is `o` marked as synced at `ts`.
pub open spec fn transfer_marked(n: TransferRow, o: TransferRow, ts: Seq<char>) -> bool {
    &&& n.id == o.id &&& n.product_id == o.product_id &&& n.machine_id == o.machine_id &&& n.quantity_mg == o.quantity_mg &&& n.timestamp == o.timestamp &&& n.notes == o.notes
    &&& n.synced_at matches Some(t) && t@ == ts
}

pub open spec fn transfer_synced_changes(ids: Seq<i64>) -> Seq<Change> {
    ids.map_values(|id: i64| Change::TransferSynced(id))
}

/// How many unsynced rows of each kind one sync pushes at most.
pub const SYNC_BATCH: usize = 100;

/// `rec` carries the id and the product, time, status and payment method of `row`.
pub open spec fn sale_record_matches(rec: SaleSyncRecord, row: SaleRow) -> bool {
    &&& rec.local_id == row.id
    &&& rec.product_id == row.product_id
    &&& rec.timestamp == row.timestamp
    &&& rec.status == row.status
    &&& rec.payment_method == row.payment_method
}

/// `rec` is the record of an unsynced row of `rows`.
pub open spec fn sale_comes_from(rows: Seq<SaleRow>, rec: SaleSyncRecord) -> bool {
    exists|j: int| 0 <= j < rows.len() && (#[trigger] rows[j]).synced_at is None && sale_record_matches(rec, rows[j])
}

/// The sales a sync pushes are the oldest unsynced sale rows: each
/// pushed record carries the id and the product, time, status and payment method of an unsynced row; and each
/// unsynced row is pushed, at its place among the unsynced rows, when fewer
/// than `SYNC_BATCH` unsynced rows come before it.
pub proof fn lemma_pushed_sales(rows: Seq<SaleRow>)
    ensures
        forall|k: int| 0 <= k < first_n(somes(sale_candidates(rows)), SYNC_BATCH as nat).len() ==> sale_comes_from(rows, #[trigger] first_n(somes(sale_candidates(rows)), SYNC_BATCH as nat)[k]),
        forall|j: int| #![trigger rows[j]] 0 <= j < rows.len() && rows[j].synced_at is None
            && somes(sale_candidates(rows).take(j)).len() < SYNC_BATCH ==> {
                &&& somes(sale_candidates(rows).take(j)).len() < first_n(somes(sale_candidates(rows)), SYNC_BATCH as nat).len()
                &&& sale_record_matches(first_n(somes(sale_candidates(rows)), SYNC_BATCH as nat)[somes(sale_candidates(rows).take(j)).len() as int], rows[j])
            },
{
    let cands = sale_candidates(rows);
    let all = somes(cands);
    assert forall|k: int| 0 <= k < first_n(somes(sale_candidates(rows)), SYNC_BATCH as nat).len() implies sale_comes_from(rows, #[trigger] first_n(somes(sale_candidates(rows)), SYNC_BATCH as nat)[k]) by {
        assert(first_n(somes(sale_candidates(rows)), SYNC_BATCH as nat)[k] == all[k]);
        lemma_somes_member(cands, k);
        let j = choose|j: int| 0 <= j < cands.len() && #[trigger] cands[j] == Some(all[k]);
        assert(cands[j] == sale_record_of(rows[j]));
    }
    assert forall|j: int| #![trigger rows[j]] 0 <= j < rows.len() && rows[j].synced_at is None
            && somes(cands.take(j)).len() < SYNC_BATCH implies {
                &&& somes(cands.take(j)).len() < first_n(somes(sale_candidates(rows)), SYNC_BATCH as nat).len()
                &&& sale_record_matches(first_n(somes(sale_candidates(rows)), SYNC_BATCH as nat)[somes(cands.take(j)).len() as int], rows[j])
            } by {
        assert(cands[j] == sale_record_of(rows[j]));
        lemma_somes_at(cands, j);
        let k = somes(cands.take(j)).len() as int;
        assert(first_n(somes(sale_candidates(rows)), SYNC_BATCH as nat)[k] == all[k]);
    }
}

/// `rec` carries the id and the time, event and details of `row`.
pub open spec fn event_record_matches(rec: EventSyncRecord, row: LogRow) -> bool {
    &&& rec.local_id == row.id
    &&& rec.timestamp == row.timestamp
    &&& rec.event == row.event
    &&& rec.details == row.details
}

/// `rec` is the record of an unsynced row of `rows`.
pub open spec fn event_comes_from(rows: Seq<LogRow>, rec: EventSyncRecord) -> bool {
    exists|j: int| 0 <= j < rows.len() && (#[trigger] rows[j]).synced_at is None && event_record_matches(rec, rows[j])
}

/// The events a sync pushes are the oldest unsynced event log rows: each
/// pushed record carries the id and the time, event and details of an unsynced row; and each
/// unsynced row is pushed, at its place among the unsynced rows, when fewer
/// than `SYNC_BATCH` unsynced rows come before it.
pub proof fn lemma_pushed_events(rows: Seq<LogRow>)
    ensures
        forall|k: int| 0 <= k < first_n(somes(event_candidates(rows)), SYNC_BATCH as nat).len() ==> event_comes_from(rows, #[trigger] first_n(somes(event_candidates(rows)), SYNC_BATCH as nat)[k]),
        forall|j: int| #![trigger rows[j]] 0 <= j < rows.len() && rows[j].synced_at is None
            && somes(event_candidates(rows).take(j)).len() < SYNC_BATCH ==> {
                &&& somes(event_candidates(rows).take(j)).len() < first_n(somes(event_candidates(rows)), SYNC_BATCH as nat).len()
                &&& event_record_matches(first_n(somes(event_candidates(rows)), SYNC_BATCH as nat)[somes(event_candidates(rows).take(j)).len() as int], rows[j])
            },
{
    let cands = event_candidates(rows);
    let all = somes(cands);
    assert forall|k: int| 0 <= k < first_n(somes(event_candidates(rows)), SYNC_BATCH as nat).len() implies event_comes_from(rows, #[trigger] first_n(somes(event_candidates(rows)), SYNC_BATCH as nat)[k]) by {
        assert(first_n(somes(event_candidates(rows)), SYNC_BATCH as nat)[k] == all[k]);
        lemma_somes_member(cands, k);
        let j = choose|j: int| 0 <= j < cands.len() && #[trigger] cands[j] == Some(all[k]);
        assert(cands[j] == event_record_of(rows[j]));
    }
    assert forall|j: int| #![trigger rows[j]] 0 <= j < rows.len() && rows[j].synced_at is None
            && somes(cands.take(j)).len() < SYNC_BATCH implies {
                &&& somes(cands.take(j)).len() < first_n(somes(event_candidates(rows)), SYNC_BATCH as nat).len()
                &&& event_record_matches(first_n(somes(event_candidates(rows)), SYNC_BATCH as nat)[somes(cands.take(j)).len() as int], rows[j])
            } by {
        assert(cands[j] == event_record_of(rows[j]));
        lemma_somes_at(cands, j);
        let k = somes(cands.take(j)).len() as int;
        assert(first_n(somes(event_candidates(rows)), SYNC_BATCH as nat)[k] == all[k]);
    }
}

/// `rec` carries the id and the product, quantity, cost, time and notes of `row`.
pub open spec fn purchase_record_matches(rec: PurchaseSyncRecord, row: PurchaseRow) -> bool {
    &&& rec.local_id == row.id
    &&& rec.product_id == row.product_id
    &&& rec.quantity_mg == row.quantity_mg
    &&& rec.cost_cents == row.cost_cents
    &&& rec.timestamp == row.timestamp
    &&& rec.notes == row.notes
}

/// `rec` is the record of an unsynced row of `rows`.
pub open spec fn purchase_comes_from(rows: Seq<PurchaseRow>, rec: PurchaseSyncRecord) -> bool {
    exists|j: int| 0 <= j < rows.len() && (#[trigger] rows[j]).synced_at is None && purchase_record_matches(rec, rows[j])
}

/// The purchases a sync pushes are the oldest unsynced purchase rows: each
/// pushed record carries the id and the product, quantity, cost, time and notes of an unsynced row; and each
/// unsynced row is pushed, at its place among the unsynced rows, when fewer
/// than `SYNC_BATCH` unsynced rows come before it.
pub proof fn lemma_pushed_purchases(rows: Seq<PurchaseRow>)
    ensures
        forall|k: int| 0 <= k < first_n(somes(purchase_candidates(rows)), SYNC_BATCH as nat).len() ==> purchase_comes_from(rows, #[trigger] first_n(somes(purchase_candidates(rows)), SYNC_BATCH as nat)[k]),
        forall|j: int| #![trigger rows[j]] 0 <= j < rows.len() && rows[j].synced_at is None
            && somes(purchase_candidates(rows).take(j)).len() < SYNC_BATCH ==> {
                &&& somes(purchase_candidates(rows).take(j)).len() < first_n(somes(purchase_candidates(rows)), SYNC_BATCH as nat).len()
                &&& purchase_record_matches(first_n(somes(purchase_candidates(rows)), SYNC_BATCH as nat)[somes(purchase_candidates(rows).take(j)).len() as int], rows[j])
            },
{
    let cands = purchase_candidates(rows);
    let all = somes(cands);
    assert forall|k: int| 0 <= k < first_n(somes(purchase_candidates(rows)), SYNC_BATCH as nat).len() implies purchase_comes_from(rows, #[trigger] first_n(somes(purchase_candidates(rows)), SYNC_BATCH as nat)[k]) by {
        assert(first_n(somes(purchase_candidates(rows)), SYNC_BATCH as nat)[k] == all[k]);
        lemma_somes_member(cands, k);
        let j = choose|j: int| 0 <= j < cands.len() && #[trigger] cands[j] == Some(all[k]);
        assert(cands[j] == purchase_record_of(rows[j]));
    }
    assert forall|j: int| #![trigger rows[j]] 0 <= j < rows.len() && rows[j].synced_at is None
            && somes(cands.take(j)).len() < SYNC_BATCH implies {
                &&& somes(cands.take(j)).len() < first_n(somes(purchase_candidates(rows)), SYNC_BATCH as nat).len()
                &&& purchase_record_matches(first_n(somes(purchase_candidates(rows)), SYNC_BATCH as nat)[somes(cands.take(j)).len() as int], rows[j])
            } by {
        assert(cands[j] == purchase_record_of(rows[j]));
        lemma_somes_at(cands, j);
        let k = somes(cands.take(j)).len() as int;
        assert(first_n(somes(purchase_candidates(rows)), SYNC_BATCH as nat)[k] == all[k]);
    }
}

/// `rec` carries the id and the product, quantity, time and notes of `row`.
pub open spec fn transfer_record_matches(rec: TransferSyncRecord, row: TransferRow) -> bool {
    &&& rec.local_id == row.id
    &&& rec.product_id == row.product_id
    &&& rec.quantity_mg == row.quantity_mg
    &&& rec.timestamp == row.timestamp
    &&& rec.notes == row.notes
}

/// `rec` is the record of an unsynced row of `rows`.
pub open spec fn transfer_comes_from(rows: Seq<TransferRow>, rec: TransferSyncRecord) -> bool {
    exists|j: int| 0 <= j < rows.len() && (#[trigger] rows[j]).synced_at is None && transfer_record_matches(rec, rows[j])
}

/// The transfers a sync pushes are the oldest unsynced transfer rows: each
/// pushed record carries the id and the product, quantity, time and notes of an unsynced row; and each
/// unsynced row is pushed, at its place among the unsynced rows, when fewer
/// than `SYNC_BATCH` unsynced rows come before it.
pub proof fn lemma_pushed_transfers(rows: Seq<TransferRow>)
    ensures
        forall|k: int| 0 <= k < first_n(somes(transfer_candidates(rows)), SYNC_BATCH as nat).len() ==> transfer_comes_from(rows, #[trigger] first_n(somes(transfer_candidates(rows)), SYNC_BATCH as nat)[k]),
        forall|j: int| #![trigger rows[j]] 0 <= j < rows.len() && rows[j].synced_at is None
            && somes(transfer_candidates(rows).take(j)).len() < SYNC_BATCH ==> {
                &&& somes(transfer_candidates(rows).take(j)).len() < first_n(somes(transfer_candidates(rows)), SYNC_BATCH as nat).len()
                &&& transfer_record_matches(first_n(somes(transfer_candidates(rows)), SYNC_BATCH as nat)[somes(transfer_candidates(rows).take(j)).len() as int], rows[j])
            },
{
    let cands = transfer_candidates(rows);
    let all = somes(cands);
    assert forall|k: int| 0 <= k < first_n(somes(transfer_candidates(rows)), SYNC_BATCH as nat).len() implies transfer_comes_from(rows, #[trigger] first_n(somes(transfer_candidates(rows)), SYNC_BATCH as nat)[k]) by {
        assert(first_n(somes(transfer_candidates(rows)), SYNC_BATCH as nat)[k] == all[k]);
        lemma_somes_member(cands, k);
        let j = choose|j: int| 0 <= j < cands.len() && #[trigger] cands[j] == Some(all[k]);
        assert(cands[j] == transfer_record_of(rows[j]));
    }
    assert forall|j: int| #![trigger rows[j]] 0 <= j < rows.len() && rows[j].synced_at is None
            && somes(cands.take(j)).len() < SYNC_BATCH implies {
                &&& somes(cands.take(j)).len() < first_n(somes(transfer_candidates(rows)), SYNC_BATCH as nat).len()
                &&& transfer_record_matches(first_n(somes(transfer_candidates(rows)), SYNC_BATCH as nat)[somes(cands.take(j)).len() as int], rows[j])
            } by {
        assert(cands[j] == transfer_record_of(rows[j]));
        lemma_somes_at(cands, j);
        let k = somes(cands.take(j)).len() as int;
        assert(first_n(somes(transfer_candidates(rows)), SYNC_BATCH as nat)[k] == all[k]);
    }
}

fn contains_id(ids: &Vec<i64>, x: i64) -> (b: bool)
    ensures
        b == ids@.contains(x),
{
    let mut i: usize = 0;
    while i < ids.len()
        invariant
            i <= ids@.len(),
            forall|k: int| 0 <= k < i ==> ids@[k] != x,
        decreases ids@.len() - i,
    {
        if ids[i] == x {
            assert(ids@[i as int] == x);
            return true;
        }
        i += 1;
    }
    false
}

fn push_sale_synced(changes: &mut Vec<Change>, ids: &Vec<i64>)
    ensures
        final(changes)@ == old(changes)@ + sale_synced_changes(ids@),
{
    let mut j: usize = 0;
    while j < ids.len()
        invariant
            j <= ids@.len(),
            changes@ == old(changes)@ + sale_synced_changes(ids@.take(j as int)),
        decreases ids@.len() - j,
    {
        changes.push(Change::SaleSynced(ids[j]));
        assert(sale_synced_changes(ids@.take(j + 1)) =~= sale_synced_changes(ids@.take(j as int)).push(Change::SaleSynced(ids@[j as int])));
        j += 1;
    }
    assert(ids@.take(ids@.len() as int) =~= ids@);
}

fn push_event_synced(changes: &mut Vec<Change>, ids: &Vec<i64>)
    ensures
        final(changes)@ == old(changes)@ + event_synced_changes(ids@),
{
    let mut j: usize = 0;
    while j < ids.len()
        invariant
            j <= ids@.len(),
            changes@ == old(changes)@ + event_synced_changes(ids@.take(j as int)),
        decreases ids@.len() - j,
    {
        changes.push(Change::LogSynced(ids[j]));
        assert(event_synced_changes(ids@.take(j + 1)) =~= event_synced_changes(ids@.take(j as int)).push(Change::LogSynced(ids@[j as int])));
        j += 1;
    }
    assert(ids@.take(ids@.len() as int) =~= ids@);
}

fn push_purchase_synced(changes: &mut Vec<Change>, ids: &Vec<i64>)
    ensures
        final(changes)@ == old(changes)@ + purchase_synced_changes(ids@),
{
    let mut j: usize = 0;
    while j < ids.len()
        invariant
            j <= ids@.len(),
            changes@ == old(changes)@ + purchase_synced_changes(ids@.take(j as int)),
        decreases ids@.len() - j,
    {
        changes.push(Change::PurchaseSynced(ids[j]));
        assert(purchase_synced_changes(ids@.take(j + 1)) =~= purchase_synced_changes(ids@.take(j as int)).push(Change::PurchaseSynced(ids@[j as int])));
        j += 1;
    }
    assert(ids@.take(ids@.len() as int) =~= ids@);
}

fn push_transfer_synced(changes: &mut Vec<Change>, ids: &Vec<i64>)
    ensures
        final(changes)@ == old(changes)@ + transfer_synced_changes(ids@),
{
    let mut j: usize = 0;
    while j < ids.len()
        invariant
            j <= ids@.len(),
            changes@ == old(changes)@ + transfer_synced_changes(ids@.take(j as int)),
        decreases ids@.len() - j,
    {
        changes.push(Change::TransferSynced(ids[j]));
        assert(transfer_synced_changes(ids@.take(j + 1)) =~= transfer_synced_changes(ids@.take(j as int)).push(Change::TransferSynced(ids@[j as int])));
        j += 1;
    }
    assert(ids@.take(ids@.len() as int) =~= ids@);
}

/// Name of the k-th product of the starter catalog.
pub open spec fn seed_name(k: int) -> Seq<char> {
    if k == 0 { "Jean Paul Gaultier"@ }
    else if k == 1 { "Dior Sauvage"@ }
    else if k == 2 { "Versace Eros"@ }
    else if k == 3 { "Acqua di Gio"@ }
    else { "YSL Black Opium"@ }
}

/// Price in cents of the k-th product of the starter catalog.
pub open spec fn seed_price(k: int) -> i64 {
    if k == 0 { 500 }
    else if k == 1 { 450 }
    else if k == 2 { 375 }
    else if k == 3 { 400 }
    else { 425 }
}

/// Dose of every product of the starter catalog (1.5 g).
pub const SEED_DOSE_MG: i64 = 1500;
/// Starting warehouse stock of each seeded product (200 g).
pub const SEED_WAREHOUSE_MG: i64 = 200000;
/// Starting stock of each seeded product in machine 1 (50 g).
pub const SEED_MACHINE_MG: i64 = 50000;

/// `r` is the k-th product of the starter catalog, inserted with id `id`.
pub open spec fn seed_row_is(r: ProductRow, k: int, id: int) -> bool {
    &&& r.id == id
    &&& r.name@ == seed_name(k)
    &&& r.price_cents == seed_price(k)
    &&& r.mg_per_dispense == SEED_DOSE_MG
}

/// Warehouse stock after seeding: products 1 to 5 hold 200 g.
pub open spec fn seeded_warehouse(m: Map<i64, int>) -> Map<i64, int> {
    m.insert(1, SEED_WAREHOUSE_MG as int).insert(2, SEED_WAREHOUSE_MG as int).insert(3, SEED_WAREHOUSE_MG as int)
        .insert(4, SEED_WAREHOUSE_MG as int).insert(5, SEED_WAREHOUSE_MG as int)
}

/// Machine stock after seeding: machine 1 holds 50 g of products 1 to 5.
pub open spec fn seeded_machine(m: Map<(i64, i64), int>) -> Map<(i64, i64), int> {
    m.insert((1, 1), SEED_MACHINE_MG as int).insert((1, 2), SEED_MACHINE_MG as int).insert((1, 3), SEED_MACHINE_MG as int)
        .insert((1, 4), SEED_MACHINE_MG as int).insert((1, 5), SEED_MACHINE_MG as int)
}

/// The rows written by seeding, the first product getting id `first`.
pub open spec fn seed_changes(first: i64) -> Seq<Change> {
    seq![
        Change::SeedMachine,
        Change::Product(first), Change::Product((first + 1) as i64), Change::Product((first + 2) as i64),
        Change::Product((first + 3) as i64), Change::Product((first + 4) as i64),
        Change::Warehouse(1), Change::Warehouse(2), Change::Warehouse(3), Change::Warehouse(4), Change::Warehouse(5),
        Change::MachineStock(1, 1), Change::MachineStock(1, 2), Change::MachineStock(1, 3),
        Change::MachineStock(1, 4), Change::MachineStock(1, 5),
    ]
}

/// The largest id present, or `seq` (the largest id the table ever handed
/// out, as AUTOINCREMENT records it) when that is larger.
pub open spec fn largest_id(ids: Seq<i64>, seq: i64) -> i64 {
    if ids.len() > 0 && ids.last() > seq { ids.last() } else { seq }
}

/// Strictly increasing ids, with room for one more id after the largest one
/// present or ever handed out.
pub open spec fn ids_loadable(ids: Seq<i64>, seq: i64) -> bool {
    &&& forall|i: int, j: int| 0 <= i < j < ids.len() ==> #[trigger] ids[i] < #[trigger] ids[j]
    &&& largest_id(ids, seq) < i64::MAX
}

/// The id that AUTOINCREMENT hands out next: one more than the largest id
/// present or ever handed out, so that no id is used twice.
pub open spec fn next_id(ids: Seq<i64>, seq: i64) -> i64 {
    (largest_id(ids, seq) + 1) as i64
}

fn check_ids(ids: &Vec<i64>, seq: i64) -> (r: Option<i64>)
    ensures
        r is Some <==> ids_loadable(ids@, seq),
        r matches Some(n) ==> n == next_id(ids@, seq),
{
    let mut i: usize = 1;
    while i < ids.len()
        invariant
            1 <= i,
            i <= ids@.len() || ids@.len() == 0,
            forall|a: int, b: int| 0 <= a < b < i && b < ids@.len() ==> #[trigger] ids@[a] < #[trigger] ids@[b],
        decreases ids@.len() - i,
    {
        if ids[i - 1] >= ids[i] {
            return None;
        }
        proof {
            assert forall|a: int, b: int| 0 <= a < b < i + 1 && b < ids@.len() implies #[trigger] ids@[a] < #[trigger] ids@[b] by {
                if b == i && a < i - 1 {
                    assert(ids@[a] < ids@[i - 1]);
                }
            }
        }
        i += 1;
    }
    let hi = if ids.len() > 0 && ids[ids.len() - 1] > seq { ids[ids.len() - 1] } else { seq };
    if hi == i64::MAX {
        None
    } else {
        Some(hi + 1)
    }
}

proof fn lemma_loadable_ordered(ids: Seq<i64>, seq: i64)
    requires
        ids_loadable(ids, seq),
    ensures
        ids_ordered_below(ids, next_id(ids, seq)),
        next_id(ids, seq) > i64::MIN,
{
    assert forall|i: int| 0 <= i < ids.len() implies #[trigger] ids[i] < next_id(ids, seq) by {
        if i < ids.len() - 1 {
            assert(ids[i] < ids[ids.len() - 1]);
        }
    }
}

fn warehouse_unique(rows: &Vec<WarehouseRow>) -> (r: bool)
    ensures
        r == warehouse_keys_unique(rows@),
{
    let mut i: usize = 0;
    while i < rows.len()
        invariant
            i <= rows@.len(),
            forall|a: int, b: int| 0 <= a < i && 0 <= b < rows@.len() && a != b ==> #[trigger] rows@[a].product_id
                != #[trigger] rows@[b].product_id,
        decreases rows@.len() - i,
    {
        let mut j: usize = 0;
        while j < rows.len()
            invariant
                i < rows@.len(),
                j <= rows@.len(),
                forall|a: int, b: int| 0 <= a < i && 0 <= b < rows@.len() && a != b ==> #[trigger] rows@[a].product_id
                    != #[trigger] rows@[b].product_id,
                forall|b: int| 0 <= b < j && b != i ==> rows@[i as int].product_id != #[trigger] rows@[b].product_id,
            decreases rows@.len() - j,
        {
            if j != i && rows[i].product_id == rows[j].product_id {
                return false;
            }
            j += 1;
        }
        i += 1;
    }
    true
}

fn stock_unique(rows: &Vec<MachineStockRow>) -> (r: bool)
    ensures
        r == stock_keys_unique(rows@),
{
    let mut i: usize = 0;
    while i < rows.len()
        invariant
            i <= rows@.len(),
            forall|a: int, b: int| 0 <= a < i && 0 <= b < rows@.len() && a != b ==> (#[trigger] rows@[a].machine_id,
                rows@[a].product_id) != (#[trigger] rows@[b].machine_id, rows@[b].product_id),
        decreases rows@.len() - i,
    {
        let mut j: usize = 0;
        while j < rows.len()
            invariant
                i < rows@.len(),
                j <= rows@.len(),
                forall|a: int, b: int| 0 <= a < i && 0 <= b < rows@.len() && a != b ==> (#[trigger] rows@[a].machine_id,
                    rows@[a].product_id) != (#[trigger] rows@[b].machine_id, rows@[b].product_id),
                forall|b: int| 0 <= b < j && b != i ==> (rows@[i as int].machine_id, rows@[i as int].product_id)
                    != (#[trigger] rows@[b].machine_id, rows@[b].product_id),
            decreases rows@.len() - j,
        {
            if j != i && rows[i].machine_id == rows[j].machine_id && rows[i].product_id == rows[j].product_id {
                return false;
            }
            j += 1;
        }
        i += 1;
    }
    true
}

fn product_id_list(rows: &Vec<ProductRow>) -> (r: Vec<i64>)
    ensures
        r@ == product_ids(rows@),
{
    let mut r: Vec<i64> = Vec::new();
    let mut i: usize = 0;
    while i < rows.len()
        invariant
            i <= rows@.len(),
            r@ == product_ids(rows@.take(i as int)),
        decreases rows@.len() - i,
    {
        r.push(rows[i].id);
        assert(product_ids(rows@.take(i + 1)) =~= product_ids(rows@.take(i as int)).push(rows@[i as int].id));
        i += 1;
    }
    assert(rows@.take(rows@.len() as int) =~= rows@);
    r
}

fn sale_id_list(rows: &Vec<SaleRow>) -> (r: Vec<i64>)
    ensures
        r@ == sale_ids(rows@),
{
    let mut r: Vec<i64> = Vec::new();
    let mut i: usize = 0;
    while i < rows.len()
        invariant
            i <= rows@.len(),
            r@ == sale_ids(rows@.take(i as int)),
        decreases rows@.len() - i,
    {
        r.push(rows[i].id);
        assert(sale_ids(rows@.take(i + 1)) =~= sale_ids(rows@.take(i as int)).push(rows@[i as int].id));
        i += 1;
    }
    assert(rows@.take(rows@.len() as int) =~= rows@);
    r
}

fn purchase_id_list(rows: &Vec<PurchaseRow>) -> (r: Vec<i64>)
    ensures
        r@ == purchase_ids(rows@),
{
    let mut r: Vec<i64> = Vec::new();
    let mut i: usize = 0;
    while i < rows.len()
        invariant
            i <= rows@.len(),
            r@ == purchase_ids(rows@.take(i as int)),
        decreases rows@.len() - i,
    {
        r.push(rows[i].id);
        assert(purchase_ids(rows@.take(i + 1)) =~= purchase_ids(rows@.take(i as int)).push(rows@[i as int].id));
        i += 1;
    }
    assert(rows@.take(rows@.len() as int) =~= rows@);
    r
}

fn transfer_id_list(rows: &Vec<TransferRow>) -> (r: Vec<i64>)
    ensures
        r@ == transfer_ids(rows@),
{
    let mut r: Vec<i64> = Vec::new();
    let mut i: usize = 0;
    while i < rows.len()
        invariant
            i <= rows@.len(),
            r@ == transfer_ids(rows@.take(i as int)),
        decreases rows@.len() - i,
    {
        r.push(rows[i].id);
        assert(transfer_ids(rows@.take(i + 1)) =~= transfer_ids(rows@.take(i as int)).push(rows@[i as int].id));
        i += 1;
    }
    assert(rows@.take(rows@.len() as int) =~= rows@);
    r
}

fn log_id_list(rows: &Vec<LogRow>) -> (r: Vec<i64>)
    ensures
        r@ == log_ids(rows@),
{
    let mut r: Vec<i64> = Vec::new();
    let mut i: usize = 0;
    while i < rows.len()
        invariant
            i <= rows@.len(),
            r@ == log_ids(rows@.take(i as int)),
        decreases rows@.len() - i,
    {
        r.push(rows[i].id);
        assert(log_ids(rows@.take(i + 1)) =~= log_ids(rows@.take(i as int)).push(rows@[i as int].id));
        i += 1;
    }
    assert(rows@.take(rows@.len() as int) =~= rows@);
    r
}

// ---------------------------------------------------------------------------
// The store.

/// Ids strictly increasing and each below `next` (how an AUTOINCREMENT
/// column hands out ids).
pub open spec fn ids_ordered_below(ids: Seq<i64>, next: i64) -> bool {
    &&& forall|i: int, j: int| 0 <= i < j < ids.len() ==> #[trigger] ids[i] < #[trigger] ids[j]
    &&& forall|i: int| 0 <= i < ids.len() ==> #[trigger] ids[i] < next
}

pub open spec fn product_ids(rows: Seq<ProductRow>) -> Seq<i64> {
    rows.map_values(|r: ProductRow| r.id)
}

pub open spec fn sale_ids(rows: Seq<SaleRow>) -> Seq<i64> {
    rows.map_values(|r: SaleRow| r.id)
}

pub open spec fn purchase_ids(rows: Seq<PurchaseRow>) -> Seq<i64> {
    rows.map_values(|r: PurchaseRow| r.id)
}

pub open spec fn transfer_ids(rows: Seq<TransferRow>) -> Seq<i64> {
    rows.map_values(|r: TransferRow| r.id)
}

pub open spec fn log_ids(rows: Seq<LogRow>) -> Seq<i64> {
    rows.map_values(|r: LogRow| r.id)
}

proof fn lemma_ids_push(ids: Seq<i64>, next: i64)
    requires
        ids_ordered_below(ids, next),
        next < i64::MAX,
    ensures
        ids_ordered_below(ids.push(next), (next + 1) as i64),
{
}

/// The machine's local store.
pub struct MachineDb {
    products: Vec<ProductRow>,
    warehouse: Vec<WarehouseRow>,
    stock: Vec<MachineStockRow>,
    sales: Vec<SaleRow>,
    purchases: Vec<PurchaseRow>,
    transfers: Vec<TransferRow>,
    logs: Vec<LogRow>,
    next_product_id: i64,
    next_sale_id: i64,
    next_purchase_id: i64,
    next_transfer_id: i64,
    next_log_id: i64,
    changes: Vec<Change>,
}


/// `b` is `a` with a sale appended under the next sale id.
pub open spec fn sale_step(
    a: MachineDb,
    b: MachineDb,
    product_id: i64,
    machine_id: i64,
    status: Seq<char>,
    payment_method: Seq<char>,
    timestamp: Seq<char>,
) -> bool {
    &&& b.sales().len() == a.sales().len() + 1
    &&& b.sales().drop_last() == a.sales()
    &&& sale_row_is(b.sales().last(), a.next_sale_id(), product_id, machine_id, status, payment_method, timestamp)
    &&& b.next_sale_id() == a.next_sale_id() + 1
    &&& b.same_stock(a)
    &&& b.purchases() == a.purchases()
    &&& b.transfers() == a.transfers()
    &&& b.logs() == a.logs()
    &&& b.next_purchase_id() == a.next_purchase_id()
    &&& b.next_transfer_id() == a.next_transfer_id()
    &&& b.next_log_id() == a.next_log_id()
    &&& b.changes() == a.changes().push(Change::Sale(a.next_sale_id()))
}

/// `b` is `a` with an event appended under the next log id, or `a` itself
/// when the log ids are exhausted.
pub open spec fn log_step(
    a: MachineDb,
    b: MachineDb,
    machine_id: i64,
    event: Seq<char>,
    details: Seq<char>,
    timestamp: Seq<char>,
) -> bool {
    if a.next_log_id() == i64::MAX {
        b == a
    } else {
        &&& b.logs().len() == a.logs().len() + 1
        &&& b.logs().drop_last() == a.logs()
        &&& log_row_is(b.logs().last(), a.next_log_id(), machine_id, event, details, timestamp)
        &&& b.next_log_id() == a.next_log_id() + 1
        &&& b.same_stock(a)
        &&& b.sales() == a.sales()
        &&& b.purchases() == a.purchases()
        &&& b.transfers() == a.transfers()
        &&& b.next_sale_id() == a.next_sale_id()
        &&& b.next_purchase_id() == a.next_purchase_id()
        &&& b.next_transfer_id() == a.next_transfer_id()
        &&& b.changes() == a.changes().push(Change::Log(a.next_log_id()))
    }
}

/// Whether the machine holds a positive amount of the product.
pub open spec fn has_positive_stock(a: MachineDb, product_id: i64, machine_id: i64) -> bool {
    a.machine_stock().contains_key((machine_id, product_id)) && a.machine_stock()[(machine_id, product_id)] > 0
}

/// Whether lowering the stock by one dose is refused: the product is
/// unknown, or the result leaves the range of `i64`.
pub open spec fn decrement_fails(a: MachineDb, product_id: i64, machine_id: i64) -> bool {
    &&& has_positive_stock(a, product_id, machine_id)
    &&& match a.product_row(product_id) {
        None => true,
        Some(row) => !in_i64(a.machine_stock()[(machine_id, product_id)] - row.mg_per_dispense),
    }
}

/// `b` is `a` with the stock of the product in the machine lowered by one
/// dose when it was positive; `a` itself otherwise or when that is refused.
pub open spec fn decrement_step(a: MachineDb, b: MachineDb, product_id: i64, machine_id: i64) -> bool {
    if !has_positive_stock(a, product_id, machine_id) || decrement_fails(a, product_id, machine_id) {
        b == a
    } else {
        &&& b.machine_stock() == a.machine_stock().insert((machine_id, product_id),
            a.machine_stock()[(machine_id, product_id)] - a.product_row(product_id).unwrap().mg_per_dispense)
        &&& b.warehouse() == a.warehouse()
        &&& b.products() == a.products()
        &&& b.next_product_id() == a.next_product_id()
        &&& b.same_journals(a)
        &&& b.changes() == a.changes().push(Change::MachineStock(machine_id, product_id))
    }
}

/// A dispense takes exactly one dose of the product, the dose the catalog
/// gives for it, from a positive machine stock (when the result stays in
/// range); no other stock changes.
pub proof fn lemma_decrement_takes_the_catalog_dose(a: MachineDb, b: MachineDb, product_id: i64, machine_id: i64)
    requires
        decrement_step(a, b, product_id, machine_id),
        a.machine_stock().contains_key((machine_id, product_id)),
        a.machine_stock()[(machine_id, product_id)] > 0,
        a.product_row(product_id) is Some,
        in_i64(a.machine_stock()[(machine_id, product_id)] - a.product_row(product_id)->0.mg_per_dispense),
    ensures
        b.machine_stock()[(machine_id, product_id)] == a.machine_stock()[(machine_id, product_id)]
            - a.product_row(product_id)->0.mg_per_dispense,
        forall|k: (i64, i64)| k != (machine_id, product_id) ==> #[trigger] b.machine_stock().contains_key(k)
            == a.machine_stock().contains_key(k) && b.machine_stock()[k] == a.machine_stock()[k],
        b.warehouse() == a.warehouse(),
        b.products() == a.products(),
{
}

/// A dispense from a stock that is not positive (or a machine without a row
/// for the product) leaves the store as it was.
pub proof fn lemma_decrement_keeps_empty_stock(a: MachineDb, b: MachineDb, product_id: i64, machine_id: i64)
    requires
        decrement_step(a, b, product_id, machine_id),
        !a.machine_stock().contains_key((machine_id, product_id)) || a.machine_stock()[(machine_id, product_id)] <= 0,
    ensures
        b == a,
{
}

/// The effect of `add_purchase` on store `a`, giving store `b` and result `r`.
pub open spec fn purchase_effect(
    a: MachineDb,
    b: MachineDb,
    r: Result<(), StoreError>,
    product_id: i64,
    quantity_mg: i64,
    cost_cents: Option<i64>,
    notes: Seq<char>,
    timestamp: Seq<char>,
) -> bool {
    &&& (r is Ok <==> a.next_purchase_id() < i64::MAX && in_i64(a.warehouse_or_zero(product_id) + quantity_mg))
    &&& (r is Err ==> r == Err::<(), StoreError>(StoreError::StorageFull) && b == a)
    &&& (r is Ok ==> {
                &&& b.purchases().len() == a.purchases().len() + 1
                &&& b.purchases().drop_last() == a.purchases()
                &&& purchase_row_is(b.purchases().last(), a.next_purchase_id(),
                    product_id, quantity_mg, cost_cents, notes, timestamp)
                &&& b.next_purchase_id() == a.next_purchase_id() + 1
                &&& b.warehouse() == a.warehouse().insert(product_id, a.warehouse_or_zero(product_id) + quantity_mg)
                &&& b.machine_stock() == a.machine_stock()
                &&& b.products() == a.products()
                &&& b.next_product_id() == a.next_product_id()
                &&& b.sales() == a.sales()
                &&& b.transfers() == a.transfers()
                &&& b.logs() == a.logs()
                &&& b.next_sale_id() == a.next_sale_id()
                &&& b.next_transfer_id() == a.next_transfer_id()
                &&& b.next_log_id() == a.next_log_id()
                &&& b.changes() == a.changes().push(Change::Purchase(a.next_purchase_id())).push(
                    Change::Warehouse(product_id))
            })
}

/// The effect of `transfer_stock` on store `a`, giving store `b` and result `r`.
pub open spec fn transfer_effect(
    a: MachineDb,
    b: MachineDb,
    r: Result<(), StoreError>,
    product_id: i64,
    machine_id: i64,
    quantity_mg: i64,
    notes: Seq<char>,
    timestamp: Seq<char>,
) -> bool {
    &&& (r is Err ==> b == a)
    &&& (!a.warehouse().contains_key(product_id) ==> r == Err::<(), StoreError>(StoreError::NoWarehouseStock))
    &&& (a.warehouse().contains_key(product_id) && a.warehouse()[product_id] < quantity_mg
                ==> r == Err::<(), StoreError>(StoreError::InsufficientStock {
                    available_mg: a.warehouse()[product_id] as i64,
                    requested_mg: quantity_mg,
                }))
    &&& (a.warehouse().contains_key(product_id) && a.warehouse()[product_id] >= quantity_mg ==> (r is Ok
                <==> a.transfer_fits(product_id, machine_id, quantity_mg)))
    &&& (r is Err && a.warehouse().contains_key(product_id) && a.warehouse()[product_id] >= quantity_mg
                ==> r == Err::<(), StoreError>(StoreError::StorageFull))
    &&& (r is Ok ==> {
                &&& b.transfers().len() == a.transfers().len() + 1
                &&& b.transfers().drop_last() == a.transfers()
                &&& transfer_row_is(b.transfers().last(), a.next_transfer_id(),
                    product_id, machine_id, quantity_mg, notes, timestamp)
                &&& b.next_transfer_id() == a.next_transfer_id() + 1
                &&& b.warehouse() == a.warehouse().insert(product_id,
                    a.warehouse()[product_id] - quantity_mg)
                &&& b.machine_stock() == a.machine_stock().insert((machine_id, product_id),
                    a.stock_or_zero(machine_id, product_id) + quantity_mg)
                &&& b.products() == a.products()
                &&& b.next_product_id() == a.next_product_id()
                &&& b.sales() == a.sales()
                &&& b.purchases() == a.purchases()
                &&& b.logs() == a.logs()
                &&& b.next_sale_id() == a.next_sale_id()
                &&& b.next_purchase_id() == a.next_purchase_id()
                &&& b.next_log_id() == a.next_log_id()
                &&& b.changes() == a.changes().push(Change::Transfer(a.next_transfer_id()))
                    .push(Change::Warehouse(product_id)).push(Change::MachineStock(machine_id, product_id))
            })
}

/// `p` shows catalog row `row` with `stock_mg` in stock.
pub open spec fn product_is(p: Product, row: ProductRow, stock_mg: int) -> bool {
    &&& p.id == row.id
    &&& p.name == row.name
    &&& p.price_cents == row.price_cents
    &&& p.mg_per_dispense == row.mg_per_dispense
    &&& p.stock_mg == stock_mg
}

/// `item` shows catalog row `row` with these warehouse and machine stocks.
pub open spec fn inventory_item_is(item: InventoryItem, row: ProductRow, warehouse_mg: int, machine_mg: int) -> bool {
    &&& item.id == row.id
    &&& item.name == row.name
    &&& item.price_cents == row.price_cents
    &&& item.warehouse_mg == warehouse_mg
    &&& item.machine_mg == machine_mg
}

/// The entry of a product listing with this id, if any.
pub open spec fn find_by_id(listing: Seq<Product>, product_id: i64) -> Option<Product> {
    if exists|i: int| 0 <= i < listing.len() && #[trigger] listing[i].id == product_id {
        Some(listing[choose|i: int| 0 <= i < listing.len() && #[trigger] listing[i].id == product_id])
    } else {
        None
    }
}

/// Looking a product up alone gives what the full listing of the same
/// machine holds for that id: the same product, or nothing when the catalog
/// has no such id. `listing` and `found` are what `get_products` and
/// `get_product` state of their results.
pub proof fn lemma_lookup_agrees_with_listing(
    db: MachineDb,
    machine_id: i64,
    product_id: i64,
    listing: Seq<Product>,
    found: Option<Product>,
)
    requires
        db.wf(),
        listing.len() == db.products().len(),
        forall|i: int| 0 <= i < listing.len() ==> product_is(#[trigger] listing[i], db.products()[i],
            db.stock_or_zero(machine_id, db.products()[i].id)),
        match db.product_row(product_id) {
            Some(row) => found matches Some(p) && product_is(p, row, db.stock_or_zero(machine_id, product_id)),
            None => found is None,
        },
    ensures
        found == find_by_id(listing, product_id),
{
    let rows = db.products();
    assert forall|i: int| 0 <= i < rows.len() implies #[trigger] product_ids(rows)[i] == rows[i].id by {}
    if exists|i: int| 0 <= i < rows.len() && #[trigger] rows[i].id == product_id {
        let i1 = choose|i: int| 0 <= i < rows.len() && #[trigger] rows[i].id == product_id;
        assert(listing[i1].id == product_id);
        let i2 = choose|i: int| 0 <= i < listing.len() && #[trigger] listing[i].id == product_id;
        assert(rows[i2].id == product_id);
        if i1 < i2 {
            assert(product_ids(rows)[i1] < product_ids(rows)[i2]);
        } else if i2 < i1 {
            assert(product_ids(rows)[i2] < product_ids(rows)[i1]);
        }
        assert(i1 == i2);
        let p = found->0;
        assert(p == listing[i2]);
    } else {
        assert forall|i: int| 0 <= i < listing.len() implies #[trigger] listing[i].id != product_id by {
            assert(rows[i].id == listing[i].id);
        }
    }
}

/// The largest id each table has ever handed out, as AUTOINCREMENT records
/// it (0 for a table that never handed one out).
pub struct IdSequences {
    pub products: i64,
    pub sales: i64,
    pub purchases: i64,
    pub transfers: i64,
    pub logs: i64,
}

/// A store's own rows, with the largest ids it handed out (one less than
/// its id counters), are accepted by `from_rows`, and the id counters are
/// those that `from_rows` derives from them: reloading a store from what it
/// persisted gives back the same store.
pub proof fn lemma_rows_reload(db: MachineDb)
    requires
        db.wf(),
    ensures
        ids_loadable(product_ids(db.products()), (db.next_product_id() - 1) as i64),
        ids_loadable(sale_ids(db.sales()), (db.next_sale_id() - 1) as i64),
        ids_loadable(purchase_ids(db.purchases()), (db.next_purchase_id() - 1) as i64),
        ids_loadable(transfer_ids(db.transfers()), (db.next_transfer_id() - 1) as i64),
        ids_loadable(log_ids(db.logs()), (db.next_log_id() - 1) as i64),
        db.next_product_id() == next_id(product_ids(db.products()), (db.next_product_id() - 1) as i64),
        db.next_sale_id() == next_id(sale_ids(db.sales()), (db.next_sale_id() - 1) as i64),
        db.next_purchase_id() == next_id(purchase_ids(db.purchases()), (db.next_purchase_id() - 1) as i64),
        db.next_transfer_id() == next_id(transfer_ids(db.transfers()), (db.next_transfer_id() - 1) as i64),
        db.next_log_id() == next_id(log_ids(db.logs()), (db.next_log_id() - 1) as i64),
{
    lemma_ordered_loadable(product_ids(db.products()), db.next_product_id());
    lemma_ordered_loadable(sale_ids(db.sales()), db.next_sale_id());
    lemma_ordered_loadable(purchase_ids(db.purchases()), db.next_purchase_id());
    lemma_ordered_loadable(transfer_ids(db.transfers()), db.next_transfer_id());
    lemma_ordered_loadable(log_ids(db.logs()), db.next_log_id());
}

proof fn lemma_ordered_loadable(ids: Seq<i64>, next: i64)
    requires
        ids_ordered_below(ids, next),
        next > i64::MIN,
    ensures
        ids_loadable(ids, (next - 1) as i64),
        next_id(ids, (next - 1) as i64) == next,
{
    if ids.len() > 0 {
        assert(ids.last() < next);
    }
}

impl MachineDb {
    /// The catalog, in increasing id order.
    pub closed spec fn products(self) -> Seq<ProductRow> {
        self.products@
    }

    /// Warehouse stock by product id.
    pub closed spec fn warehouse(self) -> Map<i64, int> {
        warehouse_map(self.warehouse@)
    }

    /// Machine stock by (machine id, product id).
    pub closed spec fn machine_stock(self) -> Map<(i64, i64), int> {
        stock_map(self.stock@)
    }

    pub closed spec fn sales(self) -> Seq<SaleRow> {
        self.sales@
    }

    pub closed spec fn purchases(self) -> Seq<PurchaseRow> {
        self.purchases@
    }

    pub closed spec fn transfers(self) -> Seq<TransferRow> {
        self.transfers@
    }

    pub closed spec fn logs(self) -> Seq<LogRow> {
        self.logs@
    }

    pub closed spec fn next_product_id(self) -> i64 {
        self.next_product_id
    }

    pub closed spec fn next_sale_id(self) -> i64 {
        self.next_sale_id
    }

    pub closed spec fn next_purchase_id(self) -> i64 {
        self.next_purchase_id
    }

    pub closed spec fn next_transfer_id(self) -> i64 {
        self.next_transfer_id
    }

    pub closed spec fn next_log_id(self) -> i64 {
        self.next_log_id
    }

    /// Rows written since the last `take_changes`, oldest first.
    pub closed spec fn changes(self) -> Seq<Change> {
        self.changes@
    }

    /// Keys are unique and ids are handed out in increasing order.
    pub closed spec fn wf(self) -> bool {
        &&& ids_ordered_below(product_ids(self.products@), self.next_product_id)
        &&& warehouse_keys_unique(self.warehouse@)
        &&& stock_keys_unique(self.stock@)
        &&& ids_ordered_below(sale_ids(self.sales@), self.next_sale_id)
        &&& ids_ordered_below(purchase_ids(self.purchases@), self.next_purchase_id)
        &&& ids_ordered_below(transfer_ids(self.transfers@), self.next_transfer_id)
        &&& ids_ordered_below(log_ids(self.logs@), self.next_log_id)
        &&& self.next_product_id > i64::MIN
        &&& self.next_sale_id > i64::MIN
        &&& self.next_purchase_id > i64::MIN
        &&& self.next_transfer_id > i64::MIN
        &&& self.next_log_id > i64::MIN
    }

    /// The catalog row with this id, if any.
    pub open spec fn product_row(self, id: i64) -> Option<ProductRow> {
        if exists|i: int| 0 <= i < self.products().len() && #[trigger] self.products()[i].id == id {
            Some(self.products()[choose|i: int| 0 <= i < self.products().len() && #[trigger] self.products()[i].id == id])
        } else {
            None
        }
    }

    /// Stock of a product in a machine, 0 where the machine has no row for it.
    pub open spec fn stock_or_zero(self, machine_id: i64, product_id: i64) -> int {
        if self.machine_stock().contains_key((machine_id, product_id)) {
            self.machine_stock()[(machine_id, product_id)]
        } else {
            0
        }
    }

    /// Warehouse stock of a product, 0 where it has no row.
    pub open spec fn warehouse_or_zero(self, product_id: i64) -> int {
        if self.warehouse().contains_key(product_id) {
            self.warehouse()[product_id]
        } else {
            0
        }
    }

    /// Warehouse stock plus the stock of one machine for a product.
    pub open spec fn total_stock(self, machine_id: i64, product_id: i64) -> int {
        self.warehouse_or_zero(product_id) + self.stock_or_zero(machine_id, product_id)
    }

    /// The tables other than the catalog and the stock are unchanged.
    pub open spec fn same_journals(self, other: MachineDb) -> bool {
        &&& self.sales() == other.sales()
        &&& self.purchases() == other.purchases()
        &&& self.transfers() == other.transfers()
        &&& self.logs() == other.logs()
        &&& self.next_sale_id() == other.next_sale_id()
        &&& self.next_purchase_id() == other.next_purchase_id()
        &&& self.next_transfer_id() == other.next_transfer_id()
        &&& self.next_log_id() == other.next_log_id()
    }

    /// The catalog and the stock are unchanged.
    pub open spec fn same_stock(self, other: MachineDb) -> bool {
        &&& self.products() == other.products()
        &&& self.next_product_id() == other.next_product_id()
        &&& self.warehouse() == other.warehouse()
        &&& self.machine_stock() == other.machine_stock()
    }

    /// An empty store.
    pub fn new() -> (db: MachineDb)
        ensures
            db.wf(),
            db.products().len() == 0,
            db.warehouse().is_empty(),
            db.machine_stock().is_empty(),
            db.sales().len() == 0,
            db.purchases().len() == 0,
            db.transfers().len() == 0,
            db.logs().len() == 0,
            db.changes().len() == 0,
            db.next_product_id() == 1,
            db.next_sale_id() == 1,
            db.next_purchase_id() == 1,
            db.next_transfer_id() == 1,
            db.next_log_id() == 1,
    {
        let db = MachineDb {
            products: Vec::new(),
            warehouse: Vec::new(),
            stock: Vec::new(),
            sales: Vec::new(),
            purchases: Vec::new(),
            transfers: Vec::new(),
            logs: Vec::new(),
            next_product_id: 1,
            next_sale_id: 1,
            next_purchase_id: 1,
            next_transfer_id: 1,
            next_log_id: 1,
            changes: Vec::new(),
        };
        assert(db.warehouse() =~= Map::empty());
        assert(db.machine_stock() =~= Map::empty());
        db
    }

    /// Index of the catalog row with this id.
    fn find_product(&self, id: i64) -> (r: Option<usize>)
        requires
            self.wf(),
        ensures
            match r {
                Some(i) => i < self.products().len() && self.products()[i as int].id == id
                    && self.product_row(id) == Some(self.products()[i as int]),
                None => self.product_row(id) is None,
            },
    {
        let mut i: usize = 0;
        while i < self.products.len()
            invariant
                i <= self.products@.len(),
                self.wf(),
                forall|j: int| 0 <= j < i ==> #[trigger] self.products@[j].id != id,
            decreases self.products@.len() - i,
        {
            if self.products[i].id == id {
                proof {
                    let ids = product_ids(self.products@);
                    assert(ids[i as int] == id);
                    let k = choose|k: int| 0 <= k < self.products().len() && #[trigger] self.products()[k].id == id;
                    assert(ids[k] == id);
                    if k < i { assert(ids[k] < ids[i as int]); }
                    if k > i { assert(ids[i as int] < ids[k]); }
                }
                return Some(i);
            }
            i += 1;
        }
        None
    }

    /// Index of the warehouse row of a product.
    fn find_warehouse(&self, product_id: i64) -> (r: Option<usize>)
        requires
            self.wf(),
        ensures
            match r {
                Some(i) => i < self.warehouse@.len() && self.warehouse@[i as int].product_id == product_id
                    && self.warehouse().contains_key(product_id)
                    && self.warehouse()[product_id] == self.warehouse@[i as int].quantity_mg,
                None => !self.warehouse().contains_key(product_id),
            },
    {
        let mut i: usize = 0;
        while i < self.warehouse.len()
            invariant
                i <= self.warehouse@.len(),
                self.wf(),
                forall|j: int| 0 <= j < i ==> #[trigger] self.warehouse@[j].product_id != product_id,
            decreases self.warehouse@.len() - i,
        {
            if self.warehouse[i].product_id == product_id {
                proof { lemma_warehouse_at(self.warehouse@, i as int); }
                return Some(i);
            }
            i += 1;
        }
        None
    }

    /// Index of the stock row of (machine, product).
    fn find_stock(&self, machine_id: i64, product_id: i64) -> (r: Option<usize>)
        requires
            self.wf(),
        ensures
            match r {
                Some(i) => i < self.stock@.len() && self.stock@[i as int].machine_id == machine_id
                    && self.stock@[i as int].product_id == product_id
                    && self.machine_stock().contains_key((machine_id, product_id))
                    && self.machine_stock()[(machine_id, product_id)] == self.stock@[i as int].quantity_mg,
                None => !self.machine_stock().contains_key((machine_id, product_id)),
            },
    {
        let mut i: usize = 0;
        while i < self.stock.len()
            invariant
                i <= self.stock@.len(),
                self.wf(),
                forall|j: int| 0 <= j < i ==> (#[trigger] self.stock@[j].machine_id, self.stock@[j].product_id) != (machine_id, product_id),
            decreases self.stock@.len() - i,
        {
            if self.stock[i].machine_id == machine_id && self.stock[i].product_id == product_id {
                proof { lemma_stock_at(self.stock@, i as int); }
                return Some(i);
            }
            i += 1;
        }
        None
    }

    fn stock_value(&self, machine_id: i64, product_id: i64) -> (v: i64)
        requires
            self.wf(),
        ensures
            v == self.stock_or_zero(machine_id, product_id),
    {
        match self.find_stock(machine_id, product_id) {
            Some(i) => self.stock[i].quantity_mg,
            None => 0,
        }
    }

    fn warehouse_value(&self, product_id: i64) -> (v: i64)
        requires
            self.wf(),
        ensures
            v == self.warehouse_or_zero(product_id),
    {
        match self.find_warehouse(product_id) {
            Some(i) => self.warehouse[i].quantity_mg,
            None => 0,
        }
    }

    /// Every product of the catalog, in id order, with the stock of one
    /// machine (0 where the machine has no stock row for it).
    pub fn get_products(&self, machine_id: i64) -> (r: Vec<Product>)
        requires
            self.wf(),
        ensures
            r@.len() == self.products().len(),
            forall|i: int| 0 <= i < r@.len() ==> product_is(#[trigger] r@[i], self.products()[i],
                self.stock_or_zero(machine_id, self.products()[i].id)),
            forall|i: int, j: int| 0 <= i < j < r@.len() ==> #[trigger] r@[i].id < #[trigger] r@[j].id,
    {
        let mut r: Vec<Product> = Vec::new();
        let mut i: usize = 0;
        while i < self.products.len()
            invariant
                self.wf(),
                i <= self.products@.len(),
                r@.len() == i,
                forall|j: int| 0 <= j < i ==> product_is(#[trigger] r@[j], self.products()[j],
                    self.stock_or_zero(machine_id, self.products()[j].id)),
            decreases self.products@.len() - i,
        {
            let row = &self.products[i];
            let stock_mg = self.stock_value(machine_id, row.id);
            r.push(Product {
                id: row.id,
                name: row.name.clone(),
                price_cents: row.price_cents,
                mg_per_dispense: row.mg_per_dispense,
                stock_mg,
            });
            i += 1;
        }
        proof {
            assert forall|a: int, b: int| 0 <= a < b < r@.len() implies #[trigger] r@[a].id < #[trigger] r@[b].id by {
                assert(product_ids(self.products@)[a] == self.products@[a].id);
                assert(product_ids(self.products@)[b] == self.products@[b].id);
            }
        }
        r
    }

    /// The product with this id and the stock of one machine, if it exists.
    pub fn get_product(&self, product_id: i64, machine_id: i64) -> (r: Option<Product>)
        requires
            self.wf(),
        ensures
            match self.product_row(product_id) {
                Some(row) => r matches Some(p) && product_is(p, row, self.stock_or_zero(machine_id, product_id)),
                None => r is None,
            },
    {
        match self.find_product(product_id) {
            Some(i) => {
                let row = &self.products[i];
                let stock_mg = self.stock_value(machine_id, product_id);
                Some(Product {
                    id: row.id,
                    name: row.name.clone(),
                    price_cents: row.price_cents,
                    mg_per_dispense: row.mg_per_dispense,
                    stock_mg,
                })
            },
            None => None,
        }
    }

    /// Every product of the catalog, in id order, with its warehouse stock and
    /// the stock of one machine (0 where a row is missing).
    pub fn get_inventory(&self, machine_id: i64) -> (r: Vec<InventoryItem>)
        requires
            self.wf(),
        ensures
            r@.len() == self.products().len(),
            forall|i: int| 0 <= i < r@.len() ==> inventory_item_is(#[trigger] r@[i], self.products()[i],
                self.warehouse_or_zero(self.products()[i].id), self.stock_or_zero(machine_id, self.products()[i].id)),
            forall|i: int, j: int| 0 <= i < j < r@.len() ==> #[trigger] r@[i].id < #[trigger] r@[j].id,
    {
        let mut r: Vec<InventoryItem> = Vec::new();
        let mut i: usize = 0;
        while i < self.products.len()
            invariant
                self.wf(),
                i <= self.products@.len(),
                r@.len() == i,
                forall|j: int| 0 <= j < i ==> inventory_item_is(#[trigger] r@[j], self.products()[j],
                    self.warehouse_or_zero(self.products()[j].id), self.stock_or_zero(machine_id, self.products()[j].id)),
            decreases self.products@.len() - i,
        {
            let row = &self.products[i];
            let warehouse_mg = self.warehouse_value(row.id);
            let machine_mg = self.stock_value(machine_id, row.id);
            r.push(InventoryItem {
                id: row.id,
                name: row.name.clone(),
                price_cents: row.price_cents,
                warehouse_mg,
                machine_mg,
            });
            i += 1;
        }
        proof {
            assert forall|a: int, b: int| 0 <= a < b < r@.len() implies #[trigger] r@[a].id < #[trigger] r@[b].id by {
                assert(product_ids(self.products@)[a] == self.products@[a].id);
                assert(product_ids(self.products@)[b] == self.products@[b].id);
            }
        }
        r
    }

    /// Hands out the rows written since the last call and forgets them.
    pub fn take_changes(&mut self) -> (r: Vec<Change>)
        requires
            old(self).wf(),
        ensures
            final(self).wf(),
            r@ == old(self).changes(),
            final(self).changes().len() == 0,
            final(self).same_stock(*old(self)),
            final(self).same_journals(*old(self)),
    {
        let mut r: Vec<Change> = Vec::new();
        std::mem::swap(&mut r, &mut self.changes);
        r
    }

    /// Records a sale under the next sale id and returns that id.
    pub fn record_sale(
        &mut self,
        product_id: i64,
        machine_id: i64,
        status: &str,
        payment_method: &str,
        timestamp: &str,
    ) -> (r: Result<i64, StoreError>)
        requires
            old(self).wf(),
        ensures
            final(self).wf(),
            old(self).next_sale_id() == i64::MAX ==> r == Err::<i64, StoreError>(StoreError::StorageFull)
                && *final(self) == *old(self),
            old(self).next_sale_id() < i64::MAX ==> r == Ok::<i64, StoreError>(old(self).next_sale_id())
                && sale_step(*old(self), *final(self), product_id, machine_id, status@, payment_method@, timestamp@),
    {
        if self.next_sale_id == i64::MAX {
            return Err(StoreError::StorageFull);
        }
        let id = self.next_sale_id;
        let row = SaleRow {
            id,
            product_id,
            machine_id,
            timestamp: timestamp.to_owned(),
            status: status.to_owned(),
            payment_method: payment_method.to_owned(),
            synced_at: None,
        };
        proof { lemma_ids_push(sale_ids(self.sales@), id); }
        self.sales.push(row);
        self.next_sale_id = id + 1;
        self.changes.push(Change::Sale(id));
        assert(sale_ids(self.sales@) =~= sale_ids(old(self).sales@).push(id));
        assert(self.sales@.drop_last() =~= old(self).sales@);
        Ok(id)
    }

    /// Appends an entry to the event log.
    pub fn log_event(&mut self, machine_id: i64, event: &str, details: &str, timestamp: &str) -> (r: Result<
        (),
        StoreError,
    >)
        requires
            old(self).wf(),
        ensures
            final(self).wf(),
            old(self).next_log_id() == i64::MAX ==> r == Err::<(), StoreError>(StoreError::StorageFull)
                && *final(self) == *old(self),
            old(self).next_log_id() < i64::MAX ==> r is Ok,
            log_step(*old(self), *final(self), machine_id, event@, details@, timestamp@),
    {
        if self.next_log_id == i64::MAX {
            return Err(StoreError::StorageFull);
        }
        let id = self.next_log_id;
        let row = LogRow {
            id,
            machine_id,
            timestamp: timestamp.to_owned(),
            event: event.to_owned(),
            details: details.to_owned(),
            synced_at: None,
        };
        proof { lemma_ids_push(log_ids(self.logs@), id); }
        self.logs.push(row);
        self.next_log_id = id + 1;
        self.changes.push(Change::Log(id));
        assert(log_ids(self.logs@) =~= log_ids(old(self).logs@).push(id));
        assert(self.logs@.drop_last() =~= old(self).logs@);
        Ok(())
    }

    /// Lowers the stock of a product in a machine by one dose, provided the
    /// machine holds a positive amount of it; otherwise nothing changes.
    pub fn decrement_stock(&mut self, product_id: i64, machine_id: i64) -> (r: Result<(), StoreError>)
        requires
            old(self).wf(),
        ensures
            final(self).wf(),
            decrement_step(*old(self), *final(self), product_id, machine_id),
            r is Err <==> decrement_fails(*old(self), product_id, machine_id),
            // A successful dispense from a positive stock takes the catalog's dose.
            r is Ok && old(self).machine_stock().contains_key((machine_id, product_id))
                && old(self).machine_stock()[(machine_id, product_id)] > 0 ==> {
                &&& old(self).product_row(product_id) is Some
                &&& final(self).machine_stock()[(machine_id, product_id)] == old(self).machine_stock()[(
                    machine_id,
                    product_id,
                )] - old(self).product_row(product_id)->0.mg_per_dispense
            },
            r is Err ==> r == Err::<(), StoreError>(if old(self).product_row(product_id) is None {
                StoreError::UnknownProduct
            } else {
                StoreError::StorageFull
            }),
    {
        let j = match self.find_stock(machine_id, product_id) {
            Some(j) => j,
            None => return Ok(()),
        };
        let current = self.stock[j].quantity_mg;
        if current <= 0 {
            return Ok(());
        }
        let per = match self.find_product(product_id) {
            Some(i) => self.products[i].mg_per_dispense,
            None => return Err(StoreError::UnknownProduct),
        };
        if per < 0 && current > i64::MAX + per {
            return Err(StoreError::StorageFull);
        }
        let left = current - per;
        proof { lemma_stock_update(self.stock@, j as int, left); }
        self.stock.set(j, MachineStockRow { machine_id, product_id, quantity_mg: left });
        self.changes.push(Change::MachineStock(machine_id, product_id));
        Ok(())
    }

    /// Records a purchase and adds its quantity to the warehouse stock of the
    /// product (a product without a warehouse row gets one holding the
    /// quantity).
    pub fn add_purchase(
        &mut self,
        product_id: i64,
        quantity_mg: i64,
        cost_cents: Option<i64>,
        notes: &str,
        timestamp: &str,
    ) -> (r: Result<(), StoreError>)
        requires
            old(self).wf(),
        ensures
            final(self).wf(),
            purchase_effect(*old(self), *final(self), r, product_id, quantity_mg, cost_cents, notes@, timestamp@),
            // The purchased quantity is added to the warehouse.
            r is Ok ==> final(self).warehouse_or_zero(product_id) == old(self).warehouse_or_zero(product_id)
                + quantity_mg,
    {
        if self.next_purchase_id == i64::MAX {
            return Err(StoreError::StorageFull);
        }
        let w = self.find_warehouse(product_id);
        let mut new_w: i64 = quantity_mg;
        if let Some(i) = w {
            let current = self.warehouse[i].quantity_mg;
            if (quantity_mg > 0 && current > i64::MAX - quantity_mg) || (quantity_mg < 0 && current < i64::MIN - quantity_mg) {
                return Err(StoreError::StorageFull);
            }
            new_w = current + quantity_mg;
        }
        let id = self.next_purchase_id;
        let row = PurchaseRow {
            id,
            product_id,
            quantity_mg,
            cost_cents,
            timestamp: timestamp.to_owned(),
            notes: notes.to_owned(),
            synced_at: None,
        };
        proof { lemma_ids_push(purchase_ids(self.purchases@), id); }
        self.purchases.push(row);
        self.next_purchase_id = id + 1;
        self.changes.push(Change::Purchase(id));
        assert(purchase_ids(self.purchases@) =~= purchase_ids(old(self).purchases@).push(id));
        assert(self.purchases@.drop_last() =~= old(self).purchases@);
        match w {
            Some(i) => {
                proof { lemma_warehouse_update(self.warehouse@, i as int, new_w); }
                self.warehouse.set(i, WarehouseRow { product_id, quantity_mg: new_w });
            },
            None => {
                proof { lemma_warehouse_push(self.warehouse@, WarehouseRow { product_id, quantity_mg: new_w }); }
                self.warehouse.push(WarehouseRow { product_id, quantity_mg: new_w });
            },
        }
        self.changes.push(Change::Warehouse(product_id));
        Ok(())
    }

    /// Moves stock of a product from the warehouse into a machine (a machine
    /// without a row for the product gets one holding the quantity). Refused,
    /// with nothing changed, when the warehouse has no row for the product or
    /// holds less than requested.
    pub fn transfer_stock(
        &mut self,
        product_id: i64,
        machine_id: i64,
        quantity_mg: i64,
        notes: &str,
        timestamp: &str,
    ) -> (r: Result<(), StoreError>)
        requires
            old(self).wf(),
        ensures
            final(self).wf(),
            transfer_effect(*old(self), *final(self), r, product_id, machine_id, quantity_mg, notes@, timestamp@),
            // What leaves the warehouse arrives in the machine.
            r is Ok ==> final(self).warehouse_or_zero(product_id) == old(self).warehouse_or_zero(product_id)
                - quantity_mg,
            r is Ok ==> final(self).stock_or_zero(machine_id, product_id) == old(self).stock_or_zero(machine_id,
                product_id) + quantity_mg,
            r is Ok ==> final(self).total_stock(machine_id, product_id) == old(self).total_stock(machine_id, product_id),
    {
        let i = match self.find_warehouse(product_id) {
            Some(i) => i,
            None => return Err(StoreError::NoWarehouseStock),
        };
        let available = self.warehouse[i].quantity_mg;
        if available < quantity_mg {
            return Err(StoreError::InsufficientStock { available_mg: available, requested_mg: quantity_mg });
        }
        if quantity_mg < 0 && available > i64::MAX + quantity_mg {
            return Err(StoreError::StorageFull);
        }
        let new_w = available - quantity_mg;
        let s = self.find_stock(machine_id, product_id);
        let mut new_s: i64 = quantity_mg;
        if let Some(j) = s {
            let current = self.stock[j].quantity_mg;
            if (quantity_mg > 0 && current > i64::MAX - quantity_mg) || (quantity_mg < 0 && current < i64::MIN - quantity_mg) {
                return Err(StoreError::StorageFull);
            }
            new_s = current + quantity_mg;
        }
        if self.next_transfer_id == i64::MAX {
            return Err(StoreError::StorageFull);
        }
        let id = self.next_transfer_id;
        let row = TransferRow {
            id,
            product_id,
            machine_id,
            quantity_mg,
            timestamp: timestamp.to_owned(),
            notes: notes.to_owned(),
            synced_at: None,
        };
        proof { lemma_ids_push(transfer_ids(self.transfers@), id); }
        self.transfers.push(row);
        self.next_transfer_id = id + 1;
        self.changes.push(Change::Transfer(id));
        assert(transfer_ids(self.transfers@) =~= transfer_ids(old(self).transfers@).push(id));
        assert(self.transfers@.drop_last() =~= old(self).transfers@);
        proof { lemma_warehouse_update(self.warehouse@, i as int, new_w); }
        self.warehouse.set(i, WarehouseRow { product_id, quantity_mg: new_w });
        self.changes.push(Change::Warehouse(product_id));
        match s {
            Some(j) => {
                proof { lemma_stock_update(self.stock@, j as int, new_s); }
                self.stock.set(j, MachineStockRow { machine_id, product_id, quantity_mg: new_s });
            },
            None => {
                proof {
                    lemma_stock_push(self.stock@, MachineStockRow { machine_id, product_id, quantity_mg: new_s });
                }
                self.stock.push(MachineStockRow { machine_id, product_id, quantity_mg: new_s });
            },
        }
        self.changes.push(Change::MachineStock(machine_id, product_id));
        Ok(())
    }

    /// Whether the quantities and the id counter stay in range for a transfer
    /// that the warehouse can serve.
    pub open spec fn transfer_fits(self, product_id: i64, machine_id: i64, quantity_mg: i64) -> bool {
        &&& in_i64(self.warehouse()[product_id] - quantity_mg)
        &&& in_i64(self.stock_or_zero(machine_id, product_id) + quantity_mg)
        &&& self.next_transfer_id() < i64::MAX
    }

    /// The oldest sale rows not yet synced (at most `SYNC_BATCH`), in id order.
    pub fn fetch_unsynced_sales(&self) -> (res: Vec<SaleSyncRecord>)
        requires
            self.wf(),
        ensures
            res@ == first_n(somes(sale_candidates(self.sales())), SYNC_BATCH as nat),
            forall|k: int| 0 <= k < res@.len() ==> sale_comes_from(self.sales(), #[trigger] res@[k]),
            forall|j: int| #![trigger self.sales()[j]] 0 <= j < self.sales().len() && self.sales()[j].synced_at is None
                && somes(sale_candidates(self.sales()).take(j)).len() < SYNC_BATCH ==> {
                    &&& somes(sale_candidates(self.sales()).take(j)).len() < res@.len()
                    &&& sale_record_matches(res@[somes(sale_candidates(self.sales()).take(j)).len() as int],
                        self.sales()[j])
                },
    {
        proof { lemma_pushed_sales(self.sales()); }
        let mut res: Vec<SaleSyncRecord> = Vec::new();
        let mut i: usize = 0;
        let ghost cands = sale_candidates(self.sales@);
        while i < self.sales.len() && res.len() < SYNC_BATCH
            invariant
                cands == sale_candidates(self.sales@),
                i <= self.sales@.len(),
                res@.len() <= SYNC_BATCH,
                res@ == somes(cands.take(i as int)),
            decreases self.sales@.len() - i,
        {
            let row = &self.sales[i];
            proof { lemma_somes_take_succ(cands, i as int); }
            if row.synced_at.is_none() {
                res.push(SaleSyncRecord { local_id: row.id, product_id: row.product_id, timestamp: row.timestamp.clone(), status: row.status.clone(), payment_method: row.payment_method.clone() });
            }
            i += 1;
        }
        proof { lemma_somes_first_n(cands, i as int, SYNC_BATCH as nat); }
        res
    }

    /// Marks as synced at `timestamp` every sale row whose id is in `ids`.
    pub fn mark_sales_synced(&mut self, ids: &Vec<i64>, timestamp: &str)
        requires
            old(self).wf(),
        ensures
            final(self).wf(),
            final(self).sales().len() == old(self).sales().len(),
            forall|i: int| 0 <= i < old(self).sales().len() ==> if ids@.contains(old(self).sales()[i].id) {
                sale_marked(#[trigger] final(self).sales()[i], old(self).sales()[i], timestamp@)
            } else {
                final(self).sales()[i] == old(self).sales()[i]
            },
            final(self).same_stock(*old(self)),
            final(self).purchases() == old(self).purchases(),
            final(self).transfers() == old(self).transfers(),
            final(self).logs() == old(self).logs(),
            final(self).next_sale_id() == old(self).next_sale_id(),
            final(self).next_purchase_id() == old(self).next_purchase_id(),
            final(self).next_transfer_id() == old(self).next_transfer_id(),
            final(self).next_log_id() == old(self).next_log_id(),
            final(self).changes() == old(self).changes() + sale_synced_changes(ids@),
    {
        let mut i: usize = 0;
        while i < self.sales.len()
            invariant
                self.wf(),
                i <= self.sales@.len(),
                self.sales@.len() == old(self).sales@.len(),
                sale_ids(self.sales@) == sale_ids(old(self).sales@),
                forall|k: int| 0 <= k < i ==> if ids@.contains(old(self).sales@[k].id) {
                    sale_marked(#[trigger] self.sales@[k], old(self).sales@[k], timestamp@)
                } else {
                    self.sales@[k] == old(self).sales@[k]
                },
                forall|k: int| i <= k < self.sales@.len() ==> #[trigger] self.sales@[k] == old(self).sales@[k],
                self.same_stock(*old(self)),
                self.purchases() == old(self).purchases(),
                self.transfers() == old(self).transfers(),
                self.logs() == old(self).logs(),
                self.next_sale_id == old(self).next_sale_id,
                self.next_purchase_id == old(self).next_purchase_id,
                self.next_transfer_id == old(self).next_transfer_id,
                self.next_log_id == old(self).next_log_id,
                self.changes@ == old(self).changes@,
            decreases self.sales@.len() - i,
        {
            if contains_id(ids, self.sales[i].id) {
                let r = &self.sales[i];
                let new_row = SaleRow { id: r.id, product_id: r.product_id, machine_id: r.machine_id, timestamp: r.timestamp.clone(), status: r.status.clone(), payment_method: r.payment_method.clone(), synced_at: Some(timestamp.to_owned()) };
                let ghost before = self.sales@;
                self.sales.set(i, new_row);
                assert(sale_ids(self.sales@) =~= sale_ids(before));
            }
            i += 1;
        }
        push_sale_synced(&mut self.changes, ids);
    }

    /// The oldest event rows not yet synced (at most `SYNC_BATCH`), in id order.
    pub fn fetch_unsynced_logs(&self) -> (res: Vec<EventSyncRecord>)
        requires
            self.wf(),
        ensures
            res@ == first_n(somes(event_candidates(self.logs())), SYNC_BATCH as nat),
            forall|k: int| 0 <= k < res@.len() ==> event_comes_from(self.logs(), #[trigger] res@[k]),
            forall|j: int| #![trigger self.logs()[j]] 0 <= j < self.logs().len() && self.logs()[j].synced_at is None
                && somes(event_candidates(self.logs()).take(j)).len() < SYNC_BATCH ==> {
                    &&& somes(event_candidates(self.logs()).take(j)).len() < res@.len()
                    &&& event_record_matches(res@[somes(event_candidates(self.logs()).take(j)).len() as int],
                        self.logs()[j])
                },
    {
        proof { lemma_pushed_events(self.logs()); }
        let mut res: Vec<EventSyncRecord> = Vec::new();
        let mut i: usize = 0;
        let ghost cands = event_candidates(self.logs@);
        while i < self.logs.len() && res.len() < SYNC_BATCH
            invariant
                cands == event_candidates(self.logs@),
                i <= self.logs@.len(),
                res@.len() <= SYNC_BATCH,
                res@ == somes(cands.take(i as int)),
            decreases self.logs@.len() - i,
        {
            let row = &self.logs[i];
            proof { lemma_somes_take_succ(cands, i as int); }
            if row.synced_at.is_none() {
                res.push(EventSyncRecord { local_id: row.id, timestamp: row.timestamp.clone(), event: row.event.clone(), details: row.details.clone() });
            }
            i += 1;
        }
        proof { lemma_somes_first_n(cands, i as int, SYNC_BATCH as nat); }
        res
    }

    /// Marks as synced at `timestamp` every event row whose id is in `ids`.
    pub fn mark_logs_synced(&mut self, ids: &Vec<i64>, timestamp: &str)
        requires
            old(self).wf(),
        ensures
            final(self).wf(),
            final(self).logs().len() == old(self).logs().len(),
            forall|i: int| 0 <= i < old(self).logs().len() ==> if ids@.contains(old(self).logs()[i].id) {
                event_marked(#[trigger] final(self).logs()[i], old(self).logs()[i], timestamp@)
            } else {
                final(self).logs()[i] == old(self).logs()[i]
            },
            final(self).same_stock(*old(self)),
            final(self).sales() == old(self).sales(),
            final(self).purchases() == old(self).purchases(),
            final(self).transfers() == old(self).transfers(),
            final(self).next_sale_id() == old(self).next_sale_id(),
            final(self).next_purchase_id() == old(self).next_purchase_id(),
            final(self).next_transfer_id() == old(self).next_transfer_id(),
            final(self).next_log_id() == old(self).next_log_id(),
            final(self).changes() == old(self).changes() + event_synced_changes(ids@),
    {
        let mut i: usize = 0;
        while i < self.logs.len()
            invariant
                self.wf(),
                i <= self.logs@.len(),
                self.logs@.len() == old(self).logs@.len(),
                log_ids(self.logs@) == log_ids(old(self).logs@),
                forall|k: int| 0 <= k < i ==> if ids@.contains(old(self).logs@[k].id) {
                    event_marked(#[trigger] self.logs@[k], old(self).logs@[k], timestamp@)
                } else {
                    self.logs@[k] == old(self).logs@[k]
                },
                forall|k: int| i <= k < self.logs@.len() ==> #[trigger] self.logs@[k] == old(self).logs@[k],
                self.same_stock(*old(self)),
                self.sales() == old(self).sales(),
                self.purchases() == old(self).purchases(),
                self.transfers() == old(self).transfers(),
                self.next_sale_id == old(self).next_sale_id,
                self.next_purchase_id == old(self).next_purchase_id,
                self.next_transfer_id == old(self).next_transfer_id,
                self.next_log_id == old(self).next_log_id,
                self.changes@ == old(self).changes@,
            decreases self.logs@.len() - i,
        {
            if contains_id(ids, self.logs[i].id) {
                let r = &self.logs[i];
                let new_row = LogRow { id: r.id, machine_id: r.machine_id, timestamp: r.timestamp.clone(), event: r.event.clone(), details: r.details.clone(), synced_at: Some(timestamp.to_owned()) };
                let ghost before = self.logs@;
                self.logs.set(i, new_row);
                assert(log_ids(self.logs@) =~= log_ids(before));
            }
            i += 1;
        }
        push_event_synced(&mut self.changes, ids);
    }

    /// The oldest purchase rows not yet synced (at most `SYNC_BATCH`), in id order.
    pub fn fetch_unsynced_purchases(&self) -> (res: Vec<PurchaseSyncRecord>)
        requires
            self.wf(),
        ensures
            res@ == first_n(somes(purchase_candidates(self.purchases())), SYNC_BATCH as nat),
            forall|k: int| 0 <= k < res@.len() ==> purchase_comes_from(self.purchases(), #[trigger] res@[k]),
            forall|j: int| #![trigger self.purchases()[j]] 0 <= j < self.purchases().len() && self.purchases()[j].synced_at is None
                && somes(purchase_candidates(self.purchases()).take(j)).len() < SYNC_BATCH ==> {
                    &&& somes(purchase_candidates(self.purchases()).take(j)).len() < res@.len()
                    &&& purchase_record_matches(res@[somes(purchase_candidates(self.purchases()).take(j)).len() as int],
                        self.purchases()[j])
                },
    {
        proof { lemma_pushed_purchases(self.purchases()); }
        let mut res: Vec<PurchaseSyncRecord> = Vec::new();
        let mut i: usize = 0;
        let ghost cands = purchase_candidates(self.purchases@);
        while i < self.purchases.len() && res.len() < SYNC_BATCH
            invariant
                cands == purchase_candidates(self.purchases@),
                i <= self.purchases@.len(),
                res@.len() <= SYNC_BATCH,
                res@ == somes(cands.take(i as int)),
            decreases self.purchases@.len() - i,
        {
            let row = &self.purchases[i];
            proof { lemma_somes_take_succ(cands, i as int); }
            if row.synced_at.is_none() {
                res.push(PurchaseSyncRecord { local_id: row.id, product_id: row.product_id, quantity_mg: row.quantity_mg, cost_cents: row.cost_cents, timestamp: row.timestamp.clone(), notes: row.notes.clone() });
            }
            i += 1;
        }
        proof { lemma_somes_first_n(cands, i as int, SYNC_BATCH as nat); }
        res
    }

    /// Marks as synced at `timestamp` every purchase row whose id is in `ids`.
    pub fn mark_purchases_synced(&mut self, ids: &Vec<i64>, timestamp: &str)
        requires
            old(self).wf(),
        ensures
            final(self).wf(),
            final(self).purchases().len() == old(self).purchases().len(),
            forall|i: int| 0 <= i < old(self).purchases().len() ==> if ids@.contains(old(self).purchases()[i].id) {
                purchase_marked(#[trigger] final(self).purchases()[i], old(self).purchases()[i], timestamp@)
            } else {
                final(self).purchases()[i] == old(self).purchases()[i]
            },
            final(self).same_stock(*old(self)),
            final(self).sales() == old(self).sales(),
            final(self).transfers() == old(self).transfers(),
            final(self).logs() == old(self).logs(),
            final(self).next_sale_id() == old(self).next_sale_id(),
            final(self).next_purchase_id() == old(self).next_purchase_id(),
            final(self).next_transfer_id() == old(self).next_transfer_id(),
            final(self).next_log_id() == old(self).next_log_id(),
            final(self).changes() == old(self).changes() + purchase_synced_changes(ids@),
    {
        let mut i: usize = 0;
        while i < self.purchases.len()
            invariant
                self.wf(),
                i <= self.purchases@.len(),
                self.purchases@.len() == old(self).purchases@.len(),
                purchase_ids(self.purchases@) == purchase_ids(old(self).purchases@),
                forall|k: int| 0 <= k < i ==> if ids@.contains(old(self).purchases@[k].id) {
                    purchase_marked(#[trigger] self.purchases@[k], old(self).purchases@[k], timestamp@)
                } else {
                    self.purchases@[k] == old(self).purchases@[k]
                },
                forall|k: int| i <= k < self.purchases@.len() ==> #[trigger] self.purchases@[k] == old(self).purchases@[k],
                self.same_stock(*old(self)),
                self.sales() == old(self).sales(),
                self.transfers() == old(self).transfers(),
                self.logs() == old(self).logs(),
                self.next_sale_id == old(self).next_sale_id,
                self.next_purchase_id == old(self).next_purchase_id,
                self.next_transfer_id == old(self).next_transfer_id,
                self.next_log_id == old(self).next_log_id,
                self.changes@ == old(self).changes@,
            decreases self.purchases@.len() - i,
        {
            if contains_id(ids, self.purchases[i].id) {
                let r = &self.purchases[i];
                let new_row = PurchaseRow { id: r.id, product_id: r.product_id, quantity_mg: r.quantity_mg, cost_cents: r.cost_cents, timestamp: r.timestamp.clone(), notes: r.notes.clone(), synced_at: Some(timestamp.to_owned()) };
                let ghost before = self.purchases@;
                self.purchases.set(i, new_row);
                assert(purchase_ids(self.purchases@) =~= purchase_ids(before));
            }
            i += 1;
        }
        push_purchase_synced(&mut self.changes, ids);
    }

    /// The oldest transfer rows not yet synced (at most `SYNC_BATCH`), in id order.
    pub fn fetch_unsynced_transfers(&self) -> (res: Vec<TransferSyncRecord>)
        requires
            self.wf(),
        ensures
            res@ == first_n(somes(transfer_candidates(self.transfers())), SYNC_BATCH as nat),
            forall|k: int| 0 <= k < res@.len() ==> transfer_comes_from(self.transfers(), #[trigger] res@[k]),
            forall|j: int| #![trigger self.transfers()[j]] 0 <= j < self.transfers().len() && self.transfers()[j].synced_at is None
                && somes(transfer_candidates(self.transfers()).take(j)).len() < SYNC_BATCH ==> {
                    &&& somes(transfer_candidates(self.transfers()).take(j)).len() < res@.len()
                    &&& transfer_record_matches(res@[somes(transfer_candidates(self.transfers()).take(j)).len() as int],
                        self.transfers()[j])
                },
    {
        proof { lemma_pushed_transfers(self.transfers()); }
        let mut res: Vec<TransferSyncRecord> = Vec::new();
        let mut i: usize = 0;
        let ghost cands = transfer_candidates(self.transfers@);
        while i < self.transfers.len() && res.len() < SYNC_BATCH
            invariant
                cands == transfer_candidates(self.transfers@),
                i <= self.transfers@.len(),
                res@.len() <= SYNC_BATCH,
                res@ == somes(cands.take(i as int)),
            decreases self.transfers@.len() - i,
        {
            let row = &self.transfers[i];
            proof { lemma_somes_take_succ(cands, i as int); }
            if row.synced_at.is_none() {
                res.push(TransferSyncRecord { local_id: row.id, product_id: row.product_id, quantity_mg: row.quantity_mg, timestamp: row.timestamp.clone(), notes: row.notes.clone() });
            }
            i += 1;
        }
        proof { lemma_somes_first_n(cands, i as int, SYNC_BATCH as nat); }
        res
    }

    /// Marks as synced at `timestamp` every transfer row whose id is in `ids`.
    pub fn mark_transfers_synced(&mut self, ids: &Vec<i64>, timestamp: &str)
        requires
            old(self).wf(),
        ensures
            final(self).wf(),
            final(self).transfers().len() == old(self).transfers().len(),
            forall|i: int| 0 <= i < old(self).transfers().len() ==> if ids@.contains(old(self).transfers()[i].id) {
                transfer_marked(#[trigger] final(self).transfers()[i], old(self).transfers()[i], timestamp@)
            } else {
                final(self).transfers()[i] == old(self).transfers()[i]
            },
            final(self).same_stock(*old(self)),
            final(self).sales() == old(self).sales(),
            final(self).purchases() == old(self).purchases(),
            final(self).logs() == old(self).logs(),
            final(self).next_sale_id() == old(self).next_sale_id(),
            final(self).next_purchase_id() == old(self).next_purchase_id(),
            final(self).next_transfer_id() == old(self).next_transfer_id(),
            final(self).next_log_id() == old(self).next_log_id(),
            final(self).changes() == old(self).changes() + transfer_synced_changes(ids@),
    {
        let mut i: usize = 0;
        while i < self.transfers.len()
            invariant
                self.wf(),
                i <= self.transfers@.len(),
                self.transfers@.len() == old(self).transfers@.len(),
                transfer_ids(self.transfers@) == transfer_ids(old(self).transfers@),
                forall|k: int| 0 <= k < i ==> if ids@.contains(old(self).transfers@[k].id) {
                    transfer_marked(#[trigger] self.transfers@[k], old(self).transfers@[k], timestamp@)
                } else {
                    self.transfers@[k] == old(self).transfers@[k]
                },
                forall|k: int| i <= k < self.transfers@.len() ==> #[trigger] self.transfers@[k] == old(self).transfers@[k],
                self.same_stock(*old(self)),
                self.sales() == old(self).sales(),
                self.purchases() == old(self).purchases(),
                self.logs() == old(self).logs(),
                self.next_sale_id == old(self).next_sale_id,
                self.next_purchase_id == old(self).next_purchase_id,
                self.next_transfer_id == old(self).next_transfer_id,
                self.next_log_id == old(self).next_log_id,
                self.changes@ == old(self).changes@,
            decreases self.transfers@.len() - i,
        {
            if contains_id(ids, self.transfers[i].id) {
                let r = &self.transfers[i];
                let new_row = TransferRow { id: r.id, product_id: r.product_id, machine_id: r.machine_id, quantity_mg: r.quantity_mg, timestamp: r.timestamp.clone(), notes: r.notes.clone(), synced_at: Some(timestamp.to_owned()) };
                let ghost before = self.transfers@;
                self.transfers.set(i, new_row);
                assert(transfer_ids(self.transfers@) =~= transfer_ids(before));
            }
            i += 1;
        }
        push_transfer_synced(&mut self.changes, ids);
    }

    fn seed_product(&mut self, name: &str, price_cents: i64)
        requires
            old(self).wf(),
            old(self).next_product_id() < i64::MAX,
        ensures
            final(self).wf(),
            final(self).products().len() == old(self).products().len() + 1,
            final(self).products().drop_last() == old(self).products(),
            final(self).products().last().id == old(self).next_product_id(),
            final(self).products().last().name@ == name@,
            final(self).products().last().price_cents == price_cents,
            final(self).products().last().mg_per_dispense == SEED_DOSE_MG,
            final(self).next_product_id() == old(self).next_product_id() + 1,
            final(self).warehouse() == old(self).warehouse(),
            final(self).machine_stock() == old(self).machine_stock(),
            final(self).same_journals(*old(self)),
            final(self).changes() == old(self).changes().push(Change::Product(old(self).next_product_id())),
    {
        let id = self.next_product_id;
        proof { lemma_ids_push(product_ids(self.products@), id); }
        self.products.push(ProductRow { id, name: name.to_owned(), price_cents, mg_per_dispense: SEED_DOSE_MG });
        self.next_product_id = id + 1;
        self.changes.push(Change::Product(id));
        assert(product_ids(self.products@) =~= product_ids(old(self).products@).push(id));
        assert(self.products@.drop_last() =~= old(self).products@);
    }

    fn seed_warehouse_row(&mut self, product_id: i64)
        requires
            old(self).wf(),
            !old(self).warehouse().contains_key(product_id),
        ensures
            final(self).wf(),
            final(self).warehouse() == old(self).warehouse().insert(product_id, SEED_WAREHOUSE_MG as int),
            final(self).products() == old(self).products(),
            final(self).next_product_id() == old(self).next_product_id(),
            final(self).machine_stock() == old(self).machine_stock(),
            final(self).same_journals(*old(self)),
            final(self).changes() == old(self).changes().push(Change::Warehouse(product_id)),
    {
        let row = WarehouseRow { product_id, quantity_mg: SEED_WAREHOUSE_MG };
        proof { lemma_warehouse_push(self.warehouse@, row); }
        self.warehouse.push(row);
        self.changes.push(Change::Warehouse(product_id));
    }

    fn seed_machine_row(&mut self, product_id: i64)
        requires
            old(self).wf(),
            !old(self).machine_stock().contains_key((1, product_id)),
        ensures
            final(self).wf(),
            final(self).machine_stock() == old(self).machine_stock().insert((1, product_id), SEED_MACHINE_MG as int),
            final(self).products() == old(self).products(),
            final(self).next_product_id() == old(self).next_product_id(),
            final(self).warehouse() == old(self).warehouse(),
            final(self).same_journals(*old(self)),
            final(self).changes() == old(self).changes().push(Change::MachineStock(1, product_id)),
    {
        let row = MachineStockRow { machine_id: 1, product_id, quantity_mg: SEED_MACHINE_MG };
        proof { lemma_stock_push(self.stock@, row); }
        self.stock.push(row);
        self.changes.push(Change::MachineStock(1, product_id));
    }

    /// Whether seeding would hit an existing stock row of products 1 to 5.
    pub open spec fn seed_conflicts(self) -> bool {
        exists|k: i64| 1 <= k <= 5 && (#[trigger] self.warehouse().contains_key(k)
            || self.machine_stock().contains_key((1, k)))
    }

    /// Installs the starter catalog when the catalog is empty: machine 1,
    /// five products with a 1.5 g dose, 200 g of each in the warehouse
    /// (products 1 to 5) and 50 g of each in machine 1.
    pub fn seed_if_empty(&mut self) -> (r: Result<(), StoreError>)
        requires
            old(self).wf(),
        ensures
            final(self).wf(),
            r is Err ==> *final(self) == *old(self),
            old(self).products().len() > 0 ==> r is Ok && *final(self) == *old(self),
            old(self).products().len() == 0 && old(self).seed_conflicts()
                ==> r == Err::<(), StoreError>(StoreError::SeedConflict),
            old(self).products().len() == 0 && !old(self).seed_conflicts() ==> (r is Ok
                <==> old(self).next_product_id() <= i64::MAX - 5),
            old(self).products().len() == 0 && !old(self).seed_conflicts() && r is Err
                ==> r == Err::<(), StoreError>(StoreError::StorageFull),
            old(self).products().len() == 0 && r is Ok ==> {
                &&& final(self).products().len() == 5
                &&& forall|k: int| 0 <= k < 5 ==> seed_row_is(#[trigger] final(self).products()[k], k,
                    old(self).next_product_id() + k)
                &&& final(self).next_product_id() == old(self).next_product_id() + 5
                &&& final(self).warehouse() == seeded_warehouse(old(self).warehouse())
                &&& final(self).machine_stock() == seeded_machine(old(self).machine_stock())
                &&& final(self).same_journals(*old(self))
                &&& final(self).changes() == old(self).changes() + seed_changes(old(self).next_product_id())
            },
    {
        if self.products.len() > 0 {
            return Ok(());
        }
        let mut k: i64 = 1;
        while k <= 5
            invariant
                self.wf(),
                *self == *old(self),
                self.products@.len() == 0,
                1 <= k <= 6,
                forall|j: i64| 1 <= j < k ==> !(#[trigger] self.warehouse().contains_key(j)
                    || self.machine_stock().contains_key((1, j))),
            decreases 6 - k,
        {
            let w = self.find_warehouse(k);
            let m = self.find_stock(1, k);
            if w.is_some() || m.is_some() {
                return Err(StoreError::SeedConflict);
            }
            assert(!self.warehouse().contains_key(k) && !self.machine_stock().contains_key((1, k)));
            assert forall|j: i64| 1 <= j < k + 1 implies !(#[trigger] self.warehouse().contains_key(j)
                || self.machine_stock().contains_key((1, j))) by {
                if j < k {
                    assert(!(self.warehouse().contains_key(j) || self.machine_stock().contains_key((1, j))));
                }
            }
            k += 1;
        }
        if self.next_product_id > i64::MAX - 5 {
            return Err(StoreError::StorageFull);
        }
        let first = self.next_product_id;
        assert(!self.warehouse().contains_key(1) && !self.machine_stock().contains_key((1, 1)));
        assert(!self.warehouse().contains_key(2) && !self.machine_stock().contains_key((1, 2)));
        assert(!self.warehouse().contains_key(3) && !self.machine_stock().contains_key((1, 3)));
        assert(!self.warehouse().contains_key(4) && !self.machine_stock().contains_key((1, 4)));
        assert(!self.warehouse().contains_key(5) && !self.machine_stock().contains_key((1, 5)));
        self.changes.push(Change::SeedMachine);
        self.seed_product("Jean Paul Gaultier", 500);
        self.seed_product("Dior Sauvage", 450);
        self.seed_product("Versace Eros", 375);
        self.seed_product("Acqua di Gio", 400);
        self.seed_product("YSL Black Opium", 425);
        assert(self.products@.len() == 5);
        assert(seed_row_is(self.products@[0], 0, first as int));
        assert(seed_row_is(self.products@[1], 1, first + 1));
        assert(seed_row_is(self.products@[2], 2, first + 2));
        assert(seed_row_is(self.products@[3], 3, first + 3));
        assert(seed_row_is(self.products@[4], 4, first + 4));
        self.seed_warehouse_row(1);
        self.seed_warehouse_row(2);
        self.seed_warehouse_row(3);
        self.seed_warehouse_row(4);
        self.seed_warehouse_row(5);
        self.seed_machine_row(1);
        self.seed_machine_row(2);
        self.seed_machine_row(3);
        self.seed_machine_row(4);
        self.seed_machine_row(5);
        assert(self.changes@ =~= old(self).changes@ + seed_changes(first));
        Ok(())
    }

    /// Rebuilds the store from rows read back from durable storage and the
    /// largest id each table ever handed out; each table's next id is one
    /// more than the largest id present or handed out. Refused when ids are
    /// not strictly increasing within a table, when a table has no id left
    /// to hand out, or when a stock key occurs twice.
    pub fn from_rows(
        products: Vec<ProductRow>,
        warehouse: Vec<WarehouseRow>,
        stock: Vec<MachineStockRow>,
        sales: Vec<SaleRow>,
        purchases: Vec<PurchaseRow>,
        transfers: Vec<TransferRow>,
        logs: Vec<LogRow>,
        seqs: IdSequences,
    ) -> (r: Option<MachineDb>)
        ensures
            r is Some <==> {
                &&& ids_loadable(product_ids(products@), seqs.products)
                &&& warehouse_keys_unique(warehouse@)
                &&& stock_keys_unique(stock@)
                &&& ids_loadable(sale_ids(sales@), seqs.sales)
                &&& ids_loadable(purchase_ids(purchases@), seqs.purchases)
                &&& ids_loadable(transfer_ids(transfers@), seqs.transfers)
                &&& ids_loadable(log_ids(logs@), seqs.logs)
            },
            r matches Some(db) ==> {
                &&& db.wf()
                &&& db.products() == products@
                &&& db.warehouse() == warehouse_map(warehouse@)
                &&& db.machine_stock() == stock_map(stock@)
                &&& db.sales() == sales@
                &&& db.purchases() == purchases@
                &&& db.transfers() == transfers@
                &&& db.logs() == logs@
                &&& db.next_product_id() == next_id(product_ids(products@), seqs.products)
                &&& db.next_sale_id() == next_id(sale_ids(sales@), seqs.sales)
                &&& db.next_purchase_id() == next_id(purchase_ids(purchases@), seqs.purchases)
                &&& db.next_transfer_id() == next_id(transfer_ids(transfers@), seqs.transfers)
                &&& db.next_log_id() == next_id(log_ids(logs@), seqs.logs)
                &&& db.changes().len() == 0
            },
    {
        let next_product_id = match check_ids(&product_id_list(&products), seqs.products) { Some(n) => n, None => return None };
        if !warehouse_unique(&warehouse) || !stock_unique(&stock) {
            return None;
        }
        let next_sale_id = match check_ids(&sale_id_list(&sales), seqs.sales) { Some(n) => n, None => return None };
        let next_purchase_id = match check_ids(&purchase_id_list(&purchases), seqs.purchases) { Some(n) => n, None => return None };
        let next_transfer_id = match check_ids(&transfer_id_list(&transfers), seqs.transfers) { Some(n) => n, None => return None };
        let next_log_id = match check_ids(&log_id_list(&logs), seqs.logs) { Some(n) => n, None => return None };
        proof {
            lemma_loadable_ordered(product_ids(products@), seqs.products);
            lemma_loadable_ordered(sale_ids(sales@), seqs.sales);
            lemma_loadable_ordered(purchase_ids(purchases@), seqs.purchases);
            lemma_loadable_ordered(transfer_ids(transfers@), seqs.transfers);
            lemma_loadable_ordered(log_ids(logs@), seqs.logs);
        }
        Some(MachineDb {
            products,
            warehouse,
            stock,
            sales,
            purchases,
            transfers,
            logs,
            next_product_id,
            next_sale_id,
            next_purchase_id,
            next_transfer_id,
            next_log_id,
            changes: Vec::new(),
        })
    }

    /// The largest id each table has handed out so far (one less than its id
    /// counter), as the durable store's AUTOINCREMENT sequences record it.
    pub fn id_sequences(&self) -> (q: IdSequences)
        requires
            self.wf(),
        ensures
            q.products == self.next_product_id() - 1,
            q.sales == self.next_sale_id() - 1,
            q.purchases == self.next_purchase_id() - 1,
            q.transfers == self.next_transfer_id() - 1,
            q.logs == self.next_log_id() - 1,
    {
        IdSequences {
            products: self.next_product_id - 1,
            sales: self.next_sale_id - 1,
            purchases: self.next_purchase_id - 1,
            transfers: self.next_transfer_id - 1,
            logs: self.next_log_id - 1,
        }
    }

    /// The catalog rows, in id order.
    pub fn product_rows(&self) -> (r: &Vec<ProductRow>)
        ensures
            r@ == self.products(),
    {
        &self.products
    }

    pub fn warehouse_rows(&self) -> (r: &Vec<WarehouseRow>)
        ensures
            warehouse_map(r@) == self.warehouse(),
            self.wf() ==> warehouse_keys_unique(r@),
    {
        &self.warehouse
    }

    pub fn machine_stock_rows(&self) -> (r: &Vec<MachineStockRow>)
        ensures
            stock_map(r@) == self.machine_stock(),
            self.wf() ==> stock_keys_unique(r@),
    {
        &self.stock
    }

    pub fn sale_rows(&self) -> (r: &Vec<SaleRow>)
        ensures
            r@ == self.sales(),
    {
        &self.sales
    }

    pub fn purchase_rows(&self) -> (r: &Vec<PurchaseRow>)
        ensures
            r@ == self.purchases(),
    {
        &self.purchases
    }

    pub fn transfer_rows(&self) -> (r: &Vec<TransferRow>)
        ensures
            r@ == self.transfers(),
    {
        &self.transfers
    }

    pub fn log_rows(&self) -> (r: &Vec<LogRow>)
        ensures
            r@ == self.logs(),
    {
        &self.logs
    }

    /// Warehouse stock of a product, 0 where it has no row.
    pub fn warehouse_stock(&self, product_id: i64) -> (v: i64)
        requires
            self.wf(),
        ensures
            v == self.warehouse_or_zero(product_id),
    {
        self.warehouse_value(product_id)
    }

    /// Stock of a product in a machine, 0 where the machine has no row for it.
    pub fn machine_stock_of(&self, machine_id: i64, product_id: i64) -> (v: i64)
        requires
            self.wf(),
        ensures
            v == self.stock_or_zero(machine_id, product_id),
    {
        self.stock_value(machine_id, product_id)
    }
}

} // verus!
