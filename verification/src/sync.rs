//! The machine's side of the sync protocol: collect the records not yet
//! confirmed by the central server, and mark them synced only once the
//! server has accepted the delivery. The machine keeps working whether or
//! not the server can be reached.

use vstd::prelude::*;
use crate::inventory::{
    event_candidates, event_comes_from, event_marked, purchase_comes_from, sale_comes_from, transfer_comes_from, purchase_candidates, purchase_marked, sale_candidates, sale_marked,
    transfer_candidates, transfer_marked, LogRow, MachineDb, PurchaseRow, SaleRow, TransferRow, SYNC_BATCH, event_synced_changes,
    purchase_synced_changes, sale_synced_changes, transfer_synced_changes,
};
use crate::records::{EventSyncRecord, PurchaseSyncRecord, SaleSyncRecord, TransferSyncRecord};
use crate::seqs::{first_n, lemma_somes_member, somes};

verus! {

/// How many unsynced metric readings one sync pushes at most.
pub const METRIC_BATCH: usize = 200;

/// What one sync pushes: the records of each kind and the local ids that
/// will be marked once the server accepts them.
pub struct SyncPayload {
    pub machine_id: i64,
    pub sales: Vec<SaleSyncRecord>,
    pub events: Vec<EventSyncRecord>,
    pub purchases: Vec<PurchaseSyncRecord>,
    pub transfers: Vec<TransferSyncRecord>,
}

/// A planned sync: the payload, the ids it covers per table (metric
/// readings included), and how many records it holds in all.
pub struct SyncBatch {
    pub payload: SyncPayload,
    pub sale_ids: Vec<i64>,
    pub event_ids: Vec<i64>,
    pub purchase_ids: Vec<i64>,
    pub transfer_ids: Vec<i64>,
    pub metric_ids: Vec<i64>,
    pub total: usize,
}

/// Why a sync did not complete.
#[derive(Clone, Copy, PartialEq, Eq, Structural, Debug)]
pub enum SyncFailure {
    /// The server answered with this non-success HTTP status.
    ServerStatus(u16),
}

/// Whether an HTTP status code reports success (200 to 299).
pub open spec fn status_is_success(code: u16) -> bool {
    200 <= code < 300
}

/// Whether an HTTP status code reports success (200 to 299).
pub fn is_success(code: u16) -> (b: bool)
    ensures
        b == status_is_success(code),
{
    200 <= code && code < 300
}

pub open spec fn sale_record_ids(s: Seq<SaleSyncRecord>) -> Seq<i64> {
    s.map_values(|r: SaleSyncRecord| r.local_id)
}

pub open spec fn event_record_ids(s: Seq<EventSyncRecord>) -> Seq<i64> {
    s.map_values(|r: EventSyncRecord| r.local_id)
}

pub open spec fn purchase_record_ids(s: Seq<PurchaseSyncRecord>) -> Seq<i64> {
    s.map_values(|r: PurchaseSyncRecord| r.local_id)
}

pub open spec fn transfer_record_ids(s: Seq<TransferSyncRecord>) -> Seq<i64> {
    s.map_values(|r: TransferSyncRecord| r.local_id)
}

fn sale_id_vec(s: &Vec<SaleSyncRecord>) -> (r: Vec<i64>)
    ensures
        r@ == sale_record_ids(s@),
{
    let mut r: Vec<i64> = Vec::new();
    let mut i: usize = 0;
    while i < s.len()
        invariant
            i <= s@.len(),
            r@ == sale_record_ids(s@.take(i as int)),
        decreases s@.len() - i,
    {
        r.push(s[i].local_id);
        assert(sale_record_ids(s@.take(i + 1)) =~= sale_record_ids(s@.take(i as int)).push(s@[i as int].local_id));
        i += 1;
    }
    assert(s@.take(s@.len() as int) =~= s@);
    r
}

fn event_id_vec(s: &Vec<EventSyncRecord>) -> (r: Vec<i64>)
    ensures
        r@ == event_record_ids(s@),
{
    let mut r: Vec<i64> = Vec::new();
    let mut i: usize = 0;
    while i < s.len()
        invariant
            i <= s@.len(),
            r@ == event_record_ids(s@.take(i as int)),
        decreases s@.len() - i,
    {
        r.push(s[i].local_id);
        assert(event_record_ids(s@.take(i + 1)) =~= event_record_ids(s@.take(i as int)).push(s@[i as int].local_id));
        i += 1;
    }
    assert(s@.take(s@.len() as int) =~= s@);
    r
}

fn purchase_id_vec(s: &Vec<PurchaseSyncRecord>) -> (r: Vec<i64>)
    ensures
        r@ == purchase_record_ids(s@),
{
    let mut r: Vec<i64> = Vec::new();
    let mut i: usize = 0;
    while i < s.len()
        invariant
            i <= s@.len(),
            r@ == purchase_record_ids(s@.take(i as int)),
        decreases s@.len() - i,
    {
        r.push(s[i].local_id);
        assert(purchase_record_ids(s@.take(i + 1)) =~= purchase_record_ids(s@.take(i as int)).push(s@[i as int].local_id));
        i += 1;
    }
    assert(s@.take(s@.len() as int) =~= s@);
    r
}

fn transfer_id_vec(s: &Vec<TransferSyncRecord>) -> (r: Vec<i64>)
    ensures
        r@ == transfer_record_ids(s@),
{
    let mut r: Vec<i64> = Vec::new();
    let mut i: usize = 0;
    while i < s.len()
        invariant
            i <= s@.len(),
            r@ == transfer_record_ids(s@.take(i as int)),
        decreases s@.len() - i,
    {
        r.push(s[i].local_id);
        assert(transfer_record_ids(s@.take(i + 1)) =~= transfer_record_ids(s@.take(i as int)).push(s@[i as int].local_id));
        i += 1;
    }
    assert(s@.take(s@.len() as int) =~= s@);
    r
}

impl SyncBatch {
    /// The batch covers these records, fetched from `db`, and these metric readings.
    pub open spec fn planned_from(self, db: MachineDb, machine_id: i64, metric_ids: Seq<i64>) -> bool {
        &&& self.payload.machine_id == machine_id
        &&& self.payload.sales@ == first_n(somes(sale_candidates(db.sales())), SYNC_BATCH as nat)
        &&& self.payload.events@ == first_n(somes(event_candidates(db.logs())), SYNC_BATCH as nat)
        &&& self.payload.purchases@ == first_n(somes(purchase_candidates(db.purchases())), SYNC_BATCH as nat)
        &&& self.payload.transfers@ == first_n(somes(transfer_candidates(db.transfers())), SYNC_BATCH as nat)
        &&& self.sale_ids@ == sale_record_ids(self.payload.sales@)
        &&& self.event_ids@ == event_record_ids(self.payload.events@)
        &&& self.purchase_ids@ == purchase_record_ids(self.payload.purchases@)
        &&& self.transfer_ids@ == transfer_record_ids(self.payload.transfers@)
        &&& self.metric_ids@ == metric_ids
        &&& self.total == self.payload.sales@.len() + self.payload.events@.len() + self.payload.purchases@.len()
            + self.payload.transfers@.len() + metric_ids.len()
    }
}

/// Collects what a sync pushes: up to `SYNC_BATCH` of the oldest unsynced
/// sales, events, purchases and transfers, plus the metric readings whose
/// ids are given. `None` when there is nothing to push.
pub fn plan_sync(db: &MachineDb, machine_id: i64, metric_ids: Vec<i64>) -> (r: Option<SyncBatch>)
    requires
        db.wf(),
        metric_ids@.len() <= usize::MAX - 4 * SYNC_BATCH,
    ensures
        match r {
            None => {
                &&& first_n(somes(sale_candidates(db.sales())), SYNC_BATCH as nat).len() == 0
                &&& first_n(somes(event_candidates(db.logs())), SYNC_BATCH as nat).len() == 0
                &&& first_n(somes(purchase_candidates(db.purchases())), SYNC_BATCH as nat).len() == 0
                &&& first_n(somes(transfer_candidates(db.transfers())), SYNC_BATCH as nat).len() == 0
                &&& metric_ids@.len() == 0
            },
            Some(batch) => batch.planned_from(*db, machine_id, metric_ids@) && batch.total > 0,
        },
        // Every pushed record carries the data of an unsynced row of its table.
        r matches Some(batch) ==> forall|k: int| 0 <= k < batch.payload.sales@.len() ==> sale_comes_from(db.sales(),
            #[trigger] batch.payload.sales@[k]),
        r matches Some(batch) ==> forall|k: int| 0 <= k < batch.payload.events@.len() ==> event_comes_from(db.logs(),
            #[trigger] batch.payload.events@[k]),
        r matches Some(batch) ==> forall|k: int| 0 <= k < batch.payload.purchases@.len() ==> purchase_comes_from(
            db.purchases(), #[trigger] batch.payload.purchases@[k]),
        r matches Some(batch) ==> forall|k: int| 0 <= k < batch.payload.transfers@.len() ==> transfer_comes_from(
            db.transfers(), #[trigger] batch.payload.transfers@[k]),
{
    let sales = db.fetch_unsynced_sales();
    let events = db.fetch_unsynced_logs();
    let purchases = db.fetch_unsynced_purchases();
    let transfers = db.fetch_unsynced_transfers();
    if sales.len() == 0 && events.len() == 0 && purchases.len() == 0 && transfers.len() == 0 && metric_ids.len() == 0 {
        return None;
    }
    let sale_ids = sale_id_vec(&sales);
    let event_ids = event_id_vec(&events);
    let purchase_ids = purchase_id_vec(&purchases);
    let transfer_ids = transfer_id_vec(&transfers);
    let total = sales.len() + events.len() + purchases.len() + transfers.len() + metric_ids.len();
    Some(SyncBatch {
        payload: SyncPayload { machine_id, sales, events, purchases, transfers },
        sale_ids,
        event_ids,
        purchase_ids,
        transfer_ids,
        metric_ids,
        total,
    })
}

/// Finishes a sync once the server has answered with `status`. On success
/// every record of the batch is marked synced at `timestamp` and the number
/// of records pushed is returned; otherwise nothing is marked.
pub fn complete_sync(db: &mut MachineDb, batch: &SyncBatch, status: u16, timestamp: &str) -> (r: Result<
    usize,
    SyncFailure,
>)
    requires
        old(db).wf(),
    ensures
        final(db).wf(),
        !status_is_success(status) ==> r == Err::<usize, SyncFailure>(SyncFailure::ServerStatus(status))
            && *final(db) == *old(db),
        status_is_success(status) ==> {
            &&& r == Ok::<usize, SyncFailure>(batch.total)
            &&& final(db).same_stock(*old(db))
            &&& final(db).next_sale_id() == old(db).next_sale_id()
            &&& final(db).next_log_id() == old(db).next_log_id()
            &&& final(db).next_purchase_id() == old(db).next_purchase_id()
            &&& final(db).next_transfer_id() == old(db).next_transfer_id()
            &&& final(db).sales().len() == old(db).sales().len()
            &&& final(db).logs().len() == old(db).logs().len()
            &&& final(db).purchases().len() == old(db).purchases().len()
            &&& final(db).transfers().len() == old(db).transfers().len()
            &&& forall|i: int| 0 <= i < old(db).sales().len() ==> if batch.sale_ids@.contains(old(db).sales()[i].id) {
                sale_marked(#[trigger] final(db).sales()[i], old(db).sales()[i], timestamp@)
            } else {
                final(db).sales()[i] == old(db).sales()[i]
            }
            &&& forall|i: int| 0 <= i < old(db).logs().len() ==> if batch.event_ids@.contains(old(db).logs()[i].id) {
                event_marked(#[trigger] final(db).logs()[i], old(db).logs()[i], timestamp@)
            } else {
                final(db).logs()[i] == old(db).logs()[i]
            }
            &&& forall|i: int| 0 <= i < old(db).purchases().len() ==> if batch.purchase_ids@.contains(old(db).purchases()[i].id) {
                purchase_marked(#[trigger] final(db).purchases()[i], old(db).purchases()[i], timestamp@)
            } else {
                final(db).purchases()[i] == old(db).purchases()[i]
            }
            &&& forall|i: int| 0 <= i < old(db).transfers().len() ==> if batch.transfer_ids@.contains(old(db).transfers()[i].id) {
                transfer_marked(#[trigger] final(db).transfers()[i], old(db).transfers()[i], timestamp@)
            } else {
                final(db).transfers()[i] == old(db).transfers()[i]
            }
            &&& final(db).changes() == old(db).changes() + sale_synced_changes(batch.sale_ids@)
                + event_synced_changes(batch.event_ids@) + purchase_synced_changes(batch.purchase_ids@)
                + transfer_synced_changes(batch.transfer_ids@)
        },
{
    if !is_success(status) {
        return Err(SyncFailure::ServerStatus(status));
    }
    db.mark_sales_synced(&batch.sale_ids, timestamp);
    db.mark_logs_synced(&batch.event_ids, timestamp);
    db.mark_purchases_synced(&batch.purchase_ids, timestamp);
    db.mark_transfers_synced(&batch.transfer_ids, timestamp);
    assert(db.changes() =~= old(db).changes() + sale_synced_changes(batch.sale_ids@)
        + event_synced_changes(batch.event_ids@) + purchase_synced_changes(batch.purchase_ids@)
        + transfer_synced_changes(batch.transfer_ids@));
    Ok(batch.total)
}

/// A sync the server refused is retried: since `complete_sync` leaves the
/// store as it was when the status is not a success, the next plan collects
/// exactly the records of the refused batch again.
pub proof fn lemma_refused_sync_is_retried(
    before: MachineDb,
    after: MachineDb,
    status: u16,
    machine_id: i64,
    metric_ids: Seq<i64>,
    refused: SyncBatch,
    next: SyncBatch,
)
    requires
        !status_is_success(status),
        after == before,
        refused.planned_from(before, machine_id, metric_ids),
        next.planned_from(after, machine_id, metric_ids),
    ensures
        next.payload.sales@ == refused.payload.sales@,
        next.payload.events@ == refused.payload.events@,
        next.payload.purchases@ == refused.payload.purchases@,
        next.payload.transfers@ == refused.payload.transfers@,
        next.sale_ids@ == refused.sale_ids@,
        next.event_ids@ == refused.event_ids@,
        next.purchase_ids@ == refused.purchase_ids@,
        next.transfer_ids@ == refused.transfer_ids@,
        next.total == refused.total,
{
}

/// Once the server has confirmed them, the sales of a batch are never pushed
/// again: no record a later sync collects carries one of their ids.
pub proof fn lemma_confirmed_sales_not_pushed_again(rows: Seq<SaleRow>, ids: Seq<i64>)
    requires
        forall|i: int| 0 <= i < rows.len() && ids.contains(rows[i].id) ==> (#[trigger] rows[i]).synced_at is Some,
    ensures
        forall|k: int| 0 <= k < somes(sale_candidates(rows)).len() ==> !ids.contains(
            (#[trigger] somes(sale_candidates(rows))[k]).local_id,
        ),
{
    assert forall|k: int| 0 <= k < somes(sale_candidates(rows)).len() implies !ids.contains(
        (#[trigger] somes(sale_candidates(rows))[k]).local_id,
    ) by {
        lemma_somes_member(sale_candidates(rows), k);
        let j = choose|j: int| 0 <= j < sale_candidates(rows).len() && #[trigger] sale_candidates(rows)[j] == Some(
            somes(sale_candidates(rows))[k],
        );
        assert(rows[j].synced_at is None);
    }
}

/// Once the server has confirmed them, the logs of a batch are never pushed
/// again: no record a later sync collects carries one of their ids.
pub proof fn lemma_confirmed_logs_not_pushed_again(rows: Seq<LogRow>, ids: Seq<i64>)
    requires
        forall|i: int| 0 <= i < rows.len() && ids.contains(rows[i].id) ==> (#[trigger] rows[i]).synced_at is Some,
    ensures
        forall|k: int| 0 <= k < somes(event_candidates(rows)).len() ==> !ids.contains(
            (#[trigger] somes(event_candidates(rows))[k]).local_id,
        ),
{
    assert forall|k: int| 0 <= k < somes(event_candidates(rows)).len() implies !ids.contains(
        (#[trigger] somes(event_candidates(rows))[k]).local_id,
    ) by {
        lemma_somes_member(event_candidates(rows), k);
        let j = choose|j: int| 0 <= j < event_candidates(rows).len() && #[trigger] event_candidates(rows)[j] == Some(
            somes(event_candidates(rows))[k],
        );
        assert(rows[j].synced_at is None);
    }
}

/// Once the server has confirmed them, the purchases of a batch are never pushed
/// again: no record a later sync collects carries one of their ids.
pub proof fn lemma_confirmed_purchases_not_pushed_again(rows: Seq<PurchaseRow>, ids: Seq<i64>)
    requires
        forall|i: int| 0 <= i < rows.len() && ids.contains(rows[i].id) ==> (#[trigger] rows[i]).synced_at is Some,
    ensures
        forall|k: int| 0 <= k < somes(purchase_candidates(rows)).len() ==> !ids.contains(
            (#[trigger] somes(purchase_candidates(rows))[k]).local_id,
        ),
{
    assert forall|k: int| 0 <= k < somes(purchase_candidates(rows)).len() implies !ids.contains(
        (#[trigger] somes(purchase_candidates(rows))[k]).local_id,
    ) by {
        lemma_somes_member(purchase_candidates(rows), k);
        let j = choose|j: int| 0 <= j < purchase_candidates(rows).len() && #[trigger] purchase_candidates(rows)[j] == Some(
            somes(purchase_candidates(rows))[k],
        );
        assert(rows[j].synced_at is None);
    }
}

/// Once the server has confirmed them, the transfers of a batch are never pushed
/// again: no record a later sync collects carries one of their ids.
pub proof fn lemma_confirmed_transfers_not_pushed_again(rows: Seq<TransferRow>, ids: Seq<i64>)
    requires
        forall|i: int| 0 <= i < rows.len() && ids.contains(rows[i].id) ==> (#[trigger] rows[i]).synced_at is Some,
    ensures
        forall|k: int| 0 <= k < somes(transfer_candidates(rows)).len() ==> !ids.contains(
            (#[trigger] somes(transfer_candidates(rows))[k]).local_id,
        ),
{
    assert forall|k: int| 0 <= k < somes(transfer_candidates(rows)).len() implies !ids.contains(
        (#[trigger] somes(transfer_candidates(rows))[k]).local_id,
    ) by {
        lemma_somes_member(transfer_candidates(rows), k);
        let j = choose|j: int| 0 <= j < transfer_candidates(rows).len() && #[trigger] transfer_candidates(rows)[j] == Some(
            somes(transfer_candidates(rows))[k],
        );
        assert(rows[j].synced_at is None);
    }
}

} // verus!
