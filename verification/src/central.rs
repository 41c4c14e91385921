//! The central server's record of what machines have pushed. Each table
//! keeps the (machine id, local id) keys it holds; a delivered record whose
//! key is already present is ignored, so that a repeated delivery (a retry
//! after a lost answer) stores nothing twice.

use vstd::prelude::*;

verus! {

/// The tables that receive synced records.
#[derive(Clone, Copy, PartialEq, Eq, Structural, Debug)]
pub enum SyncTable {
    Sales,
    Events,
    Purchases,
    Transfers,
    Metrics,
}

/// Keys of a table after inserting, in order, the records of machine `m`
/// with local ids `ids`.
pub open spec fn stored_keys(keys: Set<(i64, i64)>, m: i64, ids: Seq<i64>) -> Set<(i64, i64)> {
    keys.union(Set::new(|k: (i64, i64)| k.0 == m && ids.contains(k.1)))
}

/// Which of the records with local ids `ids` of machine `m` are new: their
/// key is neither in the table nor earlier in the same delivery.
pub open spec fn insert_flags(keys: Set<(i64, i64)>, m: i64, ids: Seq<i64>) -> Seq<bool> {
    Seq::new(ids.len(), |i: int| !keys.contains((m, ids[i])) && !ids.take(i).contains(ids[i]))
}

/// Number of `true` entries.
pub open spec fn count_true(s: Seq<bool>) -> nat
    decreases s.len(),
{
    if s.len() == 0 {
        0
    } else {
        count_true(s.drop_last()) + if s.last() { 1nat } else { 0nat }
    }
}

proof fn lemma_count_true_push(s: Seq<bool>, b: bool)
    ensures
        count_true(s.push(b)) == count_true(s) + if b { 1nat } else { 0nat },
{
    assert(s.push(b).drop_last() =~= s);
}

proof fn lemma_count_true_none(s: Seq<bool>)
    requires
        forall|i: int| 0 <= i < s.len() ==> !#[trigger] s[i],
    ensures
        count_true(s) == 0,
    decreases s.len(),
{
    if s.len() > 0 {
        lemma_count_true_none(s.drop_last());
    }
}

proof fn lemma_stored_push(keys: Set<(i64, i64)>, m: i64, before: Seq<i64>, x: i64)
    ensures
        stored_keys(keys, m, before.push(x)) == stored_keys(keys, m, before).insert((m, x)),
{
    assert forall|y: i64| #[trigger] before.push(x).contains(y) == (before.contains(y) || y == x) by {
        if before.push(x).contains(y) {
            let k = choose|k: int| 0 <= k < before.push(x).len() && before.push(x)[k] == y;
            if k < before.len() {
                assert(before[k] == y);
            }
        }
        if before.contains(y) {
            let k = choose|k: int| 0 <= k < before.len() && before[k] == y;
            assert(before.push(x)[k] == y);
        }
        if y == x {
            assert(before.push(x)[before.len() as int] == y);
        }
    }
    assert(stored_keys(keys, m, before.push(x)) =~= stored_keys(keys, m, before).insert((m, x)));
}

proof fn lemma_to_set_push<A>(s: Seq<A>, x: A)
    ensures
        s.push(x).to_set() == s.to_set().insert(x),
{
    assert forall|y: A| #[trigger] s.push(x).to_set().contains(y) == s.to_set().insert(x).contains(y) by {
        if s.push(x).contains(y) {
            let k = choose|k: int| 0 <= k < s.push(x).len() && s.push(x)[k] == y;
            if k < s.len() {
                assert(s[k] == y);
            }
        }
        if s.contains(y) {
            let k = choose|k: int| 0 <= k < s.len() && s[k] == y;
            assert(s.push(x)[k] == y);
        }
        if y == x {
            assert(s.push(x)[s.len() as int] == y);
        }
    }
    assert(s.push(x).to_set() =~= s.to_set().insert(x));
}

fn count_trues(v: &Vec<bool>) -> (n: usize)
    ensures
        n == count_true(v@),
        n <= v@.len(),
{
    let mut n: usize = 0;
    let mut i: usize = 0;
    while i < v.len()
        invariant
            i <= v@.len(),
            n == count_true(v@.take(i as int)),
            n <= i,
        decreases v@.len() - i,
    {
        proof {
            lemma_count_true_push(v@.take(i as int), v@[i as int]);
            assert(v@.take(i + 1) =~= v@.take(i as int).push(v@[i as int]));
        }
        if v[i] {
            n += 1;
        }
        i += 1;
    }
    assert(v@.take(v@.len() as int) =~= v@);
    n
}

/// Delivering the same records a second time stores none of them and leaves
/// the table as the first delivery left it.
pub proof fn lemma_redelivery_stores_nothing(keys: Set<(i64, i64)>, m: i64, ids: Seq<i64>)
    ensures
        count_true(insert_flags(stored_keys(keys, m, ids), m, ids)) == 0,
        stored_keys(stored_keys(keys, m, ids), m, ids) == stored_keys(keys, m, ids),
{
    let after = stored_keys(keys, m, ids);
    let flags = insert_flags(after, m, ids);
    assert forall|i: int| 0 <= i < flags.len() implies !#[trigger] flags[i] by {
        assert(ids[i] == ids[i]);
        assert(ids.contains(ids[i]));
        assert(after.contains((m, ids[i])));
    }
    lemma_count_true_none(flags);
    assert(stored_keys(after, m, ids) =~= after);
}

/// A record is stored when its key is new, and every delivered key is held
/// afterwards.
pub proof fn lemma_delivered_keys_held(keys: Set<(i64, i64)>, m: i64, ids: Seq<i64>, i: int)
    requires
        0 <= i < ids.len(),
    ensures
        stored_keys(keys, m, ids).contains((m, ids[i])),
        !keys.contains((m, ids[i])) && !ids.take(i).contains(ids[i]) ==> insert_flags(keys, m, ids)[i],
        keys.contains((m, ids[i])) ==> !insert_flags(keys, m, ids)[i],
{
    assert(ids.contains(ids[i]));
}

/// The keys held by the central server.
pub struct CentralDb {
    sales: Vec<(i64, i64)>,
    events: Vec<(i64, i64)>,
    purchases: Vec<(i64, i64)>,
    transfers: Vec<(i64, i64)>,
    metrics: Vec<(i64, i64)>,
}

/// What one delivery stored: the number of new records and, per table,
/// which of the delivered records were new.
pub struct StoreReport {
    pub stored: usize,
    pub new_sales: Vec<bool>,
    pub new_events: Vec<bool>,
    pub new_purchases: Vec<bool>,
    pub new_transfers: Vec<bool>,
    pub new_metrics: Vec<bool>,
}

/// The local ids delivered by one machine, per table.
pub struct DeliveredIds {
    pub machine_id: i64,
    pub sales: Vec<i64>,
    pub events: Vec<i64>,
    pub purchases: Vec<i64>,
    pub transfers: Vec<i64>,
    pub metrics: Vec<i64>,
}

impl DeliveredIds {
    pub open spec fn ids(self, t: SyncTable) -> Seq<i64> {
        match t {
            SyncTable::Sales => self.sales@,
            SyncTable::Events => self.events@,
            SyncTable::Purchases => self.purchases@,
            SyncTable::Transfers => self.transfers@,
            SyncTable::Metrics => self.metrics@,
        }
    }

    pub open spec fn total(self) -> nat {
        self.sales@.len() + self.events@.len() + self.purchases@.len() + self.transfers@.len()
            + self.metrics@.len()
    }
}

impl CentralDb {
    /// The keys held in a table.
    pub closed spec fn keys(self, t: SyncTable) -> Set<(i64, i64)> {
        match t {
            SyncTable::Sales => self.sales@.to_set(),
            SyncTable::Events => self.events@.to_set(),
            SyncTable::Purchases => self.purchases@.to_set(),
            SyncTable::Transfers => self.transfers@.to_set(),
            SyncTable::Metrics => self.metrics@.to_set(),
        }
    }

    /// An empty central store.
    pub fn new() -> (db: CentralDb)
        ensures
            forall|t: SyncTable| #[trigger] db.keys(t) == Set::<(i64, i64)>::empty(),
    {
        let db = CentralDb {
            sales: Vec::new(),
            events: Vec::new(),
            purchases: Vec::new(),
            transfers: Vec::new(),
            metrics: Vec::new(),
        };
        assert forall|t: SyncTable| #[trigger] db.keys(t) == Set::<(i64, i64)>::empty() by {
            assert(Seq::<(i64, i64)>::empty().to_set() =~= Set::empty());
        }
        db
    }

    /// A central store holding these keys, as read back from durable storage.
    pub fn from_keys(
        sales: Vec<(i64, i64)>,
        events: Vec<(i64, i64)>,
        purchases: Vec<(i64, i64)>,
        transfers: Vec<(i64, i64)>,
        metrics: Vec<(i64, i64)>,
    ) -> (db: CentralDb)
        ensures
            db.keys(SyncTable::Sales) == sales@.to_set(),
            db.keys(SyncTable::Events) == events@.to_set(),
            db.keys(SyncTable::Purchases) == purchases@.to_set(),
            db.keys(SyncTable::Transfers) == transfers@.to_set(),
            db.keys(SyncTable::Metrics) == metrics@.to_set(),
    {
        CentralDb { sales, events, purchases, transfers, metrics }
    }

    fn table_mut(&mut self, t: SyncTable) -> (r: &mut Vec<(i64, i64)>)
        ensures
            r@.to_set() == old(self).keys(t),
            forall|u: SyncTable| u != t ==> #[trigger] final(self).keys(u) == old(self).keys(u),
            final(self).keys(t) == final(r)@.to_set(),
    {
        match t {
            SyncTable::Sales => &mut self.sales,
            SyncTable::Events => &mut self.events,
            SyncTable::Purchases => &mut self.purchases,
            SyncTable::Transfers => &mut self.transfers,
            SyncTable::Metrics => &mut self.metrics,
        }
    }

    /// Inserts, in order, the records of machine `machine_id` with these
    /// local ids into a table, ignoring each one whose key is already held.
    /// Returns, per record, whether it was new.
    pub fn insert_or_ignore(&mut self, t: SyncTable, machine_id: i64, ids: &Vec<i64>) -> (r: Vec<bool>)
        ensures
            r@ == insert_flags(old(self).keys(t), machine_id, ids@),
            final(self).keys(t) == stored_keys(old(self).keys(t), machine_id, ids@),
            forall|u: SyncTable| u != t ==> #[trigger] final(self).keys(u) == old(self).keys(u),
    {
        let ghost keys0 = old(self).keys(t);
        let table = self.table_mut(t);
        let mut r: Vec<bool> = Vec::new();
        let mut i: usize = 0;
        while i < ids.len()
            invariant
                i <= ids@.len(),
                r@.len() == i,
                forall|k: int| 0 <= k < i ==> #[trigger] r@[k] == insert_flags(keys0, machine_id, ids@)[k],
                table@.to_set() == stored_keys(keys0, machine_id, ids@.take(i as int)),
            decreases ids@.len() - i,
        {
            let key = (machine_id, ids[i]);
            let ghost old_table = table@;
            let mut found = false;
            let mut j: usize = 0;
            while j < table.len()
                invariant
                    j <= table@.len(),
                    found == exists|k: int| 0 <= k < j && #[trigger] table@[k] == key,
                decreases table@.len() - j,
            {
                if table[j].0 == key.0 && table[j].1 == key.1 {
                    found = true;
                }
                j += 1;
            }
            proof {
                let before = ids@.take(i as int);
                assert(found == table@.to_set().contains(key)) by {
                    if found {
                        let k = choose|k: int| 0 <= k < table@.len() && #[trigger] table@[k] == key;
                        assert(table@.contains(key));
                    }
                    if table@.to_set().contains(key) {
                        assert(table@.contains(key));
                        let k = choose|k: int| 0 <= k < table@.len() && table@[k] == key;
                        assert(table@[k] == key);
                    }
                }
                assert(found == (keys0.contains(key) || before.contains(ids@[i as int])));
                assert(ids@.take(i + 1) =~= before.push(ids@[i as int]));
            }
            if !found {
                table.push(key);
            }
            r.push(!found);
            proof {
                lemma_stored_push(keys0, machine_id, ids@.take(i as int), ids@[i as int]);
                if !found {
                    lemma_to_set_push(old_table, key);
                } else {
                    assert(old_table.to_set().insert(key) =~= old_table.to_set());
                }
            }
            i += 1;
        }
        assert(ids@.take(ids@.len() as int) =~= ids@);
        assert(r@ =~= insert_flags(keys0, machine_id, ids@));
        r
    }

    /// Stores one delivery from a machine: every table ignores the records
    /// whose key it already holds. Reports how many records were new.
    pub fn store_sync(&mut self, delivered: &DeliveredIds) -> (r: StoreReport)
        requires
            delivered.total() <= usize::MAX,
        ensures
            forall|t: SyncTable| #[trigger] final(self).keys(t) == stored_keys(old(self).keys(t),
                delivered.machine_id, delivered.ids(t)),
            r.new_sales@ == insert_flags(old(self).keys(SyncTable::Sales), delivered.machine_id, delivered.sales@),
            r.new_events@ == insert_flags(old(self).keys(SyncTable::Events), delivered.machine_id, delivered.events@),
            r.new_purchases@ == insert_flags(old(self).keys(SyncTable::Purchases), delivered.machine_id,
                delivered.purchases@),
            r.new_transfers@ == insert_flags(old(self).keys(SyncTable::Transfers), delivered.machine_id,
                delivered.transfers@),
            r.new_metrics@ == insert_flags(old(self).keys(SyncTable::Metrics), delivered.machine_id,
                delivered.metrics@),
            r.stored == count_true(r.new_sales@) + count_true(r.new_events@) + count_true(r.new_purchases@)
                + count_true(r.new_transfers@) + count_true(r.new_metrics@),
    {
        let m = delivered.machine_id;
        let new_sales = self.insert_or_ignore(SyncTable::Sales, m, &delivered.sales);
        let new_events = self.insert_or_ignore(SyncTable::Events, m, &delivered.events);
        let new_purchases = self.insert_or_ignore(SyncTable::Purchases, m, &delivered.purchases);
        let new_transfers = self.insert_or_ignore(SyncTable::Transfers, m, &delivered.transfers);
        let new_metrics = self.insert_or_ignore(SyncTable::Metrics, m, &delivered.metrics);
        let a = count_trues(&new_sales);
        let b = count_trues(&new_events);
        let c = count_trues(&new_purchases);
        let d = count_trues(&new_transfers);
        let e = count_trues(&new_metrics);
        let stored = a + b + c + d + e;
        assert forall|t: SyncTable| #[trigger] self.keys(t) == stored_keys(old(self).keys(t), m, delivered.ids(t)) by {
            match t {
                SyncTable::Sales => {},
                SyncTable::Events => {},
                SyncTable::Purchases => {},
                SyncTable::Transfers => {},
                SyncTable::Metrics => {},
            }
        }
        StoreReport { stored, new_sales, new_events, new_purchases, new_transfers, new_metrics }
    }
}

} // verus!
