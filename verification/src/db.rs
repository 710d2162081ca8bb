//! The persistence model: two tables, a uuid-keyed dedup lookup, and the
//! atomic write of one transaction together with its annotation. The
//! orchestrator's per-transaction discipline is proved against this model;
//! the relational engine executes the same operations.

use vstd::prelude::*;
use crate::models::Transaction;
use crate::text::str_eq;

verus! {

/// One row of the transactions table.
pub struct TransactionRow {
    pub id: i64,
    pub tx: Transaction,
}

/// One row of the annotations table, referencing its transaction row.
pub struct AnnotationRow {
    pub investec_transaction_id: i64,
    pub bucket: String,
    pub notes: Option<String>,
}

/// A transaction row, mathematically.
pub struct TxRowV {
    pub id: int,
    pub tx: Transaction,
}

/// An annotation row, mathematically.
pub struct AnnRowV {
    pub tx_id: int,
    pub bucket: Seq<char>,
    pub notes: Option<Seq<char>>,
}

/// The whole store, mathematically.
pub struct StoreV {
    pub transactions: Seq<TxRowV>,
    pub annotations: Seq<AnnRowV>,
    pub next_id: int,
}

/// The persistence state: both tables and the next fresh row id.
pub struct Store {
    pub transactions: Vec<TransactionRow>,
    pub annotations: Vec<AnnotationRow>,
    pub next_id: i64,
}

impl View for Store {
    type V = StoreV;

    open spec fn view(&self) -> StoreV {
        StoreV {
            transactions: self.transactions@.map_values(
                |r: TransactionRow| TxRowV { id: r.id as int, tx: r.tx },
            ),
            annotations: self.annotations@.map_values(
                |r: AnnotationRow|
                    AnnRowV {
                        tx_id: r.investec_transaction_id as int,
                        bucket: r.bucket@,
                        notes: match r.notes {
                            Some(n) => Some(n@),
                            None => None,
                        },
                    },
            ),
            next_id: self.next_id as int,
        }
    }
}

/// The dedup key a transaction carries, if any.
pub open spec fn tx_uuid(t: Transaction) -> Option<Seq<char>> {
    match t.uuid {
        Some(u) => Some(u@),
        None => None,
    }
}

/// This row carries the dedup key `u`.
pub open spec fn row_has_uuid(r: TxRowV, u: Seq<char>) -> bool {
    tx_uuid(r.tx) == Some(u)
}

/// Some row carries the dedup key `u`.
pub open spec fn has_uuid(rows: Seq<TxRowV>, u: Seq<char>) -> bool {
    exists|i: int| 0 <= i < rows.len() && row_has_uuid(#[trigger] rows[i], u)
}

/// How many rows carry the dedup key `u`.
pub open spec fn uuid_count(rows: Seq<TxRowV>, u: Seq<char>) -> nat
    decreases rows.len(),
{
    if rows.len() == 0 {
        0
    } else {
        uuid_count(rows.drop_last(), u) + (if row_has_uuid(rows.last(), u) {
            1nat
        } else {
            0nat
        })
    }
}

/// The store's invariants: one annotation per transaction row, in step and
/// referencing it; row ids unique and below the next fresh id; no two rows
/// sharing a dedup key.
pub open spec fn store_wf(v: StoreV) -> bool {
    &&& v.annotations.len() == v.transactions.len()
    &&& forall|i: int|
        0 <= i < v.transactions.len() ==> (#[trigger] v.annotations[i]).tx_id
            == v.transactions[i].id
    &&& forall|i: int, j: int|
        0 <= i < j < v.transactions.len() ==> (#[trigger] v.transactions[i]).id != (
        #[trigger] v.transactions[j]).id
    &&& forall|i: int| 0 <= i < v.transactions.len() ==> (#[trigger] v.transactions[i]).id < v.next_id
    &&& forall|i: int, j: int|
        0 <= i < j < v.transactions.len() && tx_uuid((#[trigger] v.transactions[i]).tx) is Some
            ==> tx_uuid(v.transactions[i].tx) != tx_uuid((#[trigger] v.transactions[j]).tx)
}

/// The store after the atomic write of one transaction and its annotation.
pub open spec fn spec_insert(
    v: StoreV,
    tx: Transaction,
    bucket: Seq<char>,
    notes: Option<Seq<char>>,
) -> StoreV {
    StoreV {
        transactions: v.transactions.push(TxRowV { id: v.next_id, tx }),
        annotations: v.annotations.push(AnnRowV { tx_id: v.next_id, bucket, notes }),
        next_id: v.next_id + 1,
    }
}

/// One orchestrator step on one transaction: a transaction whose dedup key is
/// already stored is skipped, one without a classification outcome is
/// skipped, and any other is written atomically. The second component counts
/// the write.
pub open spec fn spec_step(v: StoreV, tx: Transaction, out: Option<String>) -> (StoreV, nat) {
    if tx_uuid(tx) matches Some(u) && has_uuid(v.transactions, u) {
        (v, 0)
    } else {
        match out {
            Some(b) => (spec_insert(v, tx, b@, None), 1),
            None => (v, 0),
        }
    }
}

/// The orchestrator's pass over one batch of transactions, in bank order,
/// with the batch's classification outcomes; yields the final store and the
/// number of new rows.
pub open spec fn spec_process(v: StoreV, txs: Seq<Transaction>, outs: Seq<Option<String>>) -> (
    StoreV,
    nat,
)
    decreases txs.len(),
{
    if txs.len() == 0 {
        (v, 0)
    } else {
        let s = spec_step(v, txs.first(), outs.first());
        let rest = spec_process(s.0, txs.drop_first(), outs.drop_first());
        (rest.0, (s.1 + rest.1) as nat)
    }
}

impl Store {
    /// An empty store; row ids start at one, as the relational engine's do.
    pub fn new() -> (r: Store)
        ensures
            r@.transactions.len() == 0,
            r@.annotations.len() == 0,
            r@.next_id == 1,
            store_wf(r@),
    {
        Store { transactions: Vec::new(), annotations: Vec::new(), next_id: 1 }
    }
}

/// The dedup lookup: whether some row carries the key, and which.
pub fn find_transaction_id_by_uuid(store: &Store, uuid: &str) -> (r: Option<i64>)
    ensures
        r is Some <==> has_uuid(store@.transactions, uuid@),
        r matches Some(id) ==> exists|i: int|
            0 <= i < store@.transactions.len() && (#[trigger] store@.transactions[i]).id == id
                && row_has_uuid(store@.transactions[i], uuid@),
{
    let mut i: usize = 0;
    while i < store.transactions.len()
        invariant
            i <= store.transactions.len(),
            store@.transactions.len() == store.transactions@.len(),
            forall|k: int|
                0 <= k < i ==> !row_has_uuid(#[trigger] store@.transactions[k], uuid@),
        decreases store.transactions.len() - i,
    {
        proof {
            assert(store@.transactions[i as int].tx == store.transactions@[i as int].tx);
        }
        match &store.transactions[i].tx.uuid {
            Some(u) => {
                if str_eq(u.as_str(), uuid) {
                    return Some(store.transactions[i].id);
                }
            },
            None => {},
        }
        i = i + 1;
    }
    None
}

/// The atomic write: appends the transaction row and its annotation together
/// and hands back the fresh row id. The caller has already ruled the dedup
/// key out of the store; the relational engine enforces the same through its
/// uniqueness constraint.
pub fn insert_tx_and_annotation(
    store: &mut Store,
    tx: &Transaction,
    bucket: &str,
    notes: Option<&str>,
) -> (r: i64)
    requires
        store_wf(old(store)@),
        old(store).next_id < i64::MAX,
        tx_uuid(*tx) matches Some(u) ==> !has_uuid(old(store)@.transactions, u),
    ensures
        final(store)@ == spec_insert(
            old(store)@,
            *tx,
            bucket@,
            match notes {
                Some(n) => Some(n@),
                None => None,
            },
        ),
        r == old(store)@.next_id,
        store_wf(final(store)@),
{
    let ghost old_v = store@;
    let id = store.next_id;
    let row = TransactionRow { id, tx: tx.duplicate() };
    store.transactions.push(row);
    let ann = AnnotationRow {
        investec_transaction_id: id,
        bucket: String::from_str(bucket),
        notes: match notes {
            Some(n) => Some(String::from_str(n)),
            None => None,
        },
    };
    store.annotations.push(ann);
    store.next_id = store.next_id + 1;
    proof {
        let ghost new_v = spec_insert(
            old_v,
            *tx,
            bucket@,
            match notes {
                Some(n) => Some(n@),
                None => None,
            },
        );
        assert(store@.transactions =~= new_v.transactions);
        assert(store@.annotations =~= new_v.annotations);
        assert(store@ == new_v);
        lemma_insert_wf(
            old_v,
            *tx,
            bucket@,
            match notes {
                Some(n) => Some(n@),
                None => None,
            },
        );
    }
    id
}

/// The atomic write preserves the store's invariants whenever the written
/// transaction's dedup key is not already stored.
pub proof fn lemma_insert_wf(v: StoreV, tx: Transaction, bucket: Seq<char>, notes: Option<Seq<char>>)
    requires
        store_wf(v),
        tx_uuid(tx) matches Some(u) ==> !has_uuid(v.transactions, u),
    ensures
        store_wf(spec_insert(v, tx, bucket, notes)),
{
    let w = spec_insert(v, tx, bucket, notes);
    assert forall|i: int, j: int|
        0 <= i < j < w.transactions.len() && tx_uuid((#[trigger] w.transactions[i]).tx) is Some
            implies tx_uuid(w.transactions[i].tx) != tx_uuid((#[trigger] w.transactions[j]).tx) by {
        if j == w.transactions.len() - 1 {
            if tx_uuid(w.transactions[i].tx) == tx_uuid(tx) {
                assert(row_has_uuid(v.transactions[i], tx_uuid(tx)->0));
            }
        }
    }
}


/// The orchestrator's pass over one batch, against the model store: for each
/// transaction, in bank order, the dedup lookup, then - when the transaction
/// is new and its classification outcome present - the atomic write. Returns
/// how many rows were written; a skipped transaction never aborts the pass.
pub fn process_transactions(
    store: &mut Store,
    transactions: &Vec<Transaction>,
    classifications: &Vec<Option<String>>,
) -> (r: usize)
    requires
        store_wf(old(store)@),
        classifications@.len() == transactions@.len(),
        old(store).next_id + transactions@.len() <= i64::MAX,
    ensures
        final(store)@ == spec_process(old(store)@, transactions@, classifications@).0,
        r == spec_process(old(store)@, transactions@, classifications@).1,
        store_wf(final(store)@),
{
    let ghost v0 = store@;
    let ghost txs = transactions@;
    let ghost outs = classifications@;
    proof {
        assert(txs.skip(0) =~= txs);
        assert(outs.skip(0) =~= outs);
    }
    let mut count: usize = 0;
    let mut i: usize = 0;
    while i < transactions.len()
        invariant
            i <= transactions.len(),
            txs == transactions@,
            outs == classifications@,
            outs.len() == txs.len(),
            store_wf(store@),
            store@.next_id + (txs.len() - i) <= i64::MAX,
            count <= i,
            spec_process(v0, txs, outs).0 == spec_process(store@, txs.skip(i as int), outs.skip(i as int)).0,
            spec_process(v0, txs, outs).1 == count + spec_process(store@, txs.skip(i as int), outs.skip(i as int)).1,
        decreases transactions.len() - i,
    {
        proof {
            assert(txs.skip(i as int).first() == txs[i as int]);
            assert(outs.skip(i as int).first() == outs[i as int]);
            assert(txs.skip(i as int).drop_first() =~= txs.skip(i + 1));
            assert(outs.skip(i as int).drop_first() =~= outs.skip(i + 1));
        }
        let tx = &transactions[i];
        let mut skip_row: bool = false;
        match &tx.uuid {
            Some(u) => {
                match find_transaction_id_by_uuid(store, u.as_str()) {
                    Some(_) => {
                        skip_row = true;
                    },
                    None => {},
                }
            },
            None => {},
        }
        if !skip_row {
            match &classifications[i] {
                Some(bucket) => {
                    insert_tx_and_annotation(store, tx, bucket.as_str(), None);
                    count = count + 1;
                },
                None => {},
            }
        }
        i = i + 1;
    }
    proof {
        assert(txs.skip(txs.len() as int) =~= Seq::<Transaction>::empty());
        assert(outs.skip(outs.len() as int) =~= Seq::<Option<String>>::empty());
    }
    count
}

/// A key present in the store stays present through one step, and a step
/// never writes a second row for a present key; the step also preserves the
/// invariants.
proof fn lemma_step_preserves(v: StoreV, tx: Transaction, out: Option<String>, u: Seq<char>)
    requires
        store_wf(v),
    ensures
        store_wf(spec_step(v, tx, out).0),
        has_uuid(v.transactions, u) ==> (has_uuid(spec_step(v, tx, out).0.transactions, u)
            && uuid_count(spec_step(v, tx, out).0.transactions, u) == uuid_count(
            v.transactions,
            u,
        )),
{
    let w = spec_step(v, tx, out).0;
    if !(tx_uuid(tx) matches Some(x) && has_uuid(v.transactions, x)) && out is Some {
        lemma_insert_wf(v, tx, out->0@, None);
        if has_uuid(v.transactions, u) {
            let i = choose|i: int|
                0 <= i < v.transactions.len() && row_has_uuid(#[trigger] v.transactions[i], u);
            assert(row_has_uuid(w.transactions[i], u));
            assert(w.transactions.drop_last() =~= v.transactions);
            assert(!row_has_uuid(w.transactions.last(), u));
        }
    }
}

/// A key present in the store stays present through a whole pass, with its
/// row count unchanged; the pass also preserves the invariants.
proof fn lemma_process_preserves(v: StoreV, txs: Seq<Transaction>, outs: Seq<Option<String>>, u: Seq<char>)
    requires
        store_wf(v),
    ensures
        store_wf(spec_process(v, txs, outs).0),
        has_uuid(v.transactions, u) ==> (has_uuid(
            spec_process(v, txs, outs).0.transactions,
            u,
        ) && uuid_count(spec_process(v, txs, outs).0.transactions, u) == uuid_count(
            v.transactions,
            u,
        )),
    decreases txs.len(),
{
    if txs.len() > 0 {
        lemma_step_preserves(v, txs.first(), outs.first(), u);
        lemma_process_preserves(spec_step(v, txs.first(), outs.first()).0, txs.drop_first(), outs.drop_first(), u);
    }
}

/// After a pass, any batch transaction that carries a dedup key and a
/// classification outcome has its key in the store.
proof fn lemma_process_establishes(
    v: StoreV,
    txs: Seq<Transaction>,
    outs: Seq<Option<String>>,
    k: int,
)
    requires
        store_wf(v),
        outs.len() == txs.len(),
        0 <= k < txs.len(),
        tx_uuid(txs[k]) is Some,
        outs[k] is Some,
    ensures
        has_uuid(spec_process(v, txs, outs).0.transactions, tx_uuid(txs[k])->0),
    decreases txs.len(),
{
    let u = tx_uuid(txs[k])->0;
    let w = spec_step(v, txs.first(), outs.first()).0;
    if k == 0 {
        if has_uuid(v.transactions, u) {
            lemma_step_preserves(v, txs.first(), outs.first(), u);
            lemma_process_preserves(w, txs.drop_first(), outs.drop_first(), u);
        } else {
            assert(w == spec_insert(v, txs[0], outs[0]->0@, None));
            assert(row_has_uuid(w.transactions.last(), u));
            lemma_step_preserves(v, txs.first(), outs.first(), u);
            lemma_process_preserves(w, txs.drop_first(), outs.drop_first(), u);
        }
    } else {
        lemma_step_preserves(v, txs.first(), outs.first(), u);
        assert(txs.drop_first()[k - 1] == txs[k]);
        assert(outs.drop_first()[k - 1] == outs[k]);
        lemma_process_establishes(w, txs.drop_first(), outs.drop_first(), k - 1);
    }
}

/// A key is present exactly when its row count is positive.
proof fn lemma_has_uuid_count(rows: Seq<TxRowV>, u: Seq<char>)
    ensures
        has_uuid(rows, u) <==> uuid_count(rows, u) >= 1,
    decreases rows.len(),
{
    if rows.len() > 0 {
        lemma_has_uuid_count(rows.drop_last(), u);
        if has_uuid(rows, u) && !row_has_uuid(rows.last(), u) {
            let i = choose|i: int| 0 <= i < rows.len() && row_has_uuid(#[trigger] rows[i], u);
            assert(row_has_uuid(rows.drop_last()[i], u));
        }
        if has_uuid(rows.drop_last(), u) {
            let i = choose|i: int|
                0 <= i < rows.drop_last().len() && row_has_uuid(#[trigger] rows.drop_last()[i], u);
            assert(row_has_uuid(rows[i], u));
        }
    }
}

/// Under the store's invariants, no key has more than one row.
proof fn lemma_wf_uuid_count(rows: Seq<TxRowV>, u: Seq<char>)
    requires
        forall|i: int, j: int|
            0 <= i < j < rows.len() && tx_uuid((#[trigger] rows[i]).tx) is Some ==> tx_uuid(
                rows[i].tx,
            ) != tx_uuid((#[trigger] rows[j]).tx),
    ensures
        uuid_count(rows, u) <= 1,
    decreases rows.len(),
{
    if rows.len() > 0 {
        assert(forall|i: int, j: int|
            0 <= i < j < rows.drop_last().len() && tx_uuid(
                (#[trigger] rows.drop_last()[i]).tx,
            ) is Some ==> tx_uuid(rows.drop_last()[i].tx) != tx_uuid(
                (#[trigger] rows.drop_last()[j]).tx,
            ));
        lemma_wf_uuid_count(rows.drop_last(), u);
        if row_has_uuid(rows.last(), u) && uuid_count(rows.drop_last(), u) >= 1 {
            lemma_has_uuid_count(rows.drop_last(), u);
            let i = choose|i: int|
                0 <= i < rows.drop_last().len() && row_has_uuid(#[trigger] rows.drop_last()[i], u);
            assert(tx_uuid(rows[i].tx) == tx_uuid(rows[rows.len() - 1].tx));
            assert(false);
        }
    }
}

/// Dedup idempotence: a batch transaction that carries dedup key `u` and was
/// classified leaves exactly one row with key `u` after the pass, and a
/// second pass over the same batch still leaves exactly one, whatever either
/// pass's classification outcomes.
pub proof fn lemma_dedup_idempotent(
    v: StoreV,
    txs: Seq<Transaction>,
    outs1: Seq<Option<String>>,
    outs2: Seq<Option<String>>,
    k: int,
)
    requires
        store_wf(v),
        outs1.len() == txs.len(),
        outs2.len() == txs.len(),
        0 <= k < txs.len(),
        tx_uuid(txs[k]) is Some,
        outs1[k] is Some,
    ensures
        ({
            let u = tx_uuid(txs[k])->0;
            let v1 = spec_process(v, txs, outs1).0;
            let v2 = spec_process(v1, txs, outs2).0;
            uuid_count(v1.transactions, u) == 1 && uuid_count(v2.transactions, u) == 1
        }),
{
    let u = tx_uuid(txs[k])->0;
    let v1 = spec_process(v, txs, outs1).0;
    let v2 = spec_process(v1, txs, outs2).0;
    lemma_process_preserves(v, txs, outs1, u);
    lemma_process_establishes(v, txs, outs1, k);
    lemma_has_uuid_count(v1.transactions, u);
    lemma_wf_uuid_count(v1.transactions, u);
    lemma_process_preserves(v1, txs, outs2, u);
}

/// Atomic pair: under the store's invariants, each transaction row has
/// exactly one annotation row referencing it, and each annotation row
/// references exactly one transaction row - no orphans in either direction.
pub proof fn lemma_atomic_pair(v: StoreV)
    requires
        store_wf(v),
    ensures
        v.annotations.len() == v.transactions.len(),
        forall|i: int|
            0 <= i < v.transactions.len() ==> (#[trigger] v.annotations[i]).tx_id
                == v.transactions[i].id,
        forall|i: int, j: int|
            0 <= i < v.transactions.len() && 0 <= j < v.annotations.len() && (
            #[trigger] v.annotations[j]).tx_id == (#[trigger] v.transactions[i]).id ==> i == j,
{
    assert forall|i: int, j: int|
        0 <= i < v.transactions.len() && 0 <= j < v.annotations.len() && (
        #[trigger] v.annotations[j]).tx_id == (#[trigger] v.transactions[i]).id implies i == j by {
        assert(v.annotations[j].tx_id == v.transactions[j].id);
        if i < j {
            assert(v.transactions[i].id != v.transactions[j].id);
        } else if j < i {
            assert(v.transactions[j].id != v.transactions[i].id);
        }
    }
}


/// One sync pass's observability counts: how many transactions the bank
/// returned across accounts, and how many were newly written.
pub struct SyncReport {
    pub total_transactions: usize,
    pub new_transactions: usize,
}

impl SyncReport {
    /// An empty report, for the start of a pass.
    pub fn new() -> (r: SyncReport)
        ensures
            r.total_transactions == 0,
            r.new_transactions == 0,
    {
        SyncReport { total_transactions: 0, new_transactions: 0 }
    }

    /// Folds one account's batch into the counts, saturating at the machine
    /// limit.
    pub fn record_account(&mut self, fetched: usize, inserted: usize)
        ensures
            final(self).total_transactions == if old(self).total_transactions + fetched
                <= usize::MAX {
                old(self).total_transactions + fetched
            } else {
                usize::MAX as int
            },
            final(self).new_transactions == if old(self).new_transactions + inserted
                <= usize::MAX {
                old(self).new_transactions + inserted
            } else {
                usize::MAX as int
            },
    {
        self.total_transactions = if self.total_transactions <= usize::MAX - fetched {
            self.total_transactions + fetched
        } else {
            usize::MAX
        };
        self.new_transactions = if self.new_transactions <= usize::MAX - inserted {
            self.new_transactions + inserted
        } else {
            usize::MAX
        };
    }
}

} // verus!
