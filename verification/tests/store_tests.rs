use investec_buckets::db::{
    find_transaction_id_by_uuid, insert_tx_and_annotation, process_transactions, Store,
};
use investec_buckets::models::Transaction;

fn tx(description: &str, amount_cents: i64, uuid: Option<&str>) -> Transaction {
    Transaction {
        account_id: "acc-1".to_string(),
        type_: "DEBIT".to_string(),
        transaction_type: None,
        status: "POSTED".to_string(),
        description: description.to_string(),
        card_number: None,
        posted_order: None,
        posting_date: None,
        value_date: None,
        action_date: None,
        transaction_date: None,
        amount_cents,
        running_balance_cents: None,
        uuid: uuid.map(|u| u.to_string()),
    }
}

#[test]
fn insert_writes_transaction_and_annotation_together() {
    let mut store = Store::new();
    let t = tx("STARBUCKS COFFEE", -550, Some("a"));
    let id = insert_tx_and_annotation(&mut store, &t, "Food", None);
    assert_eq!(store.transactions.len(), 1);
    assert_eq!(store.annotations.len(), 1);
    assert_eq!(store.transactions[0].id, id);
    assert_eq!(store.annotations[0].investec_transaction_id, id);
    assert_eq!(store.annotations[0].bucket, "Food");
    assert_eq!(store.annotations[0].notes, None);
}

#[test]
fn find_by_uuid_hits_and_misses() {
    let mut store = Store::new();
    let t = tx("STARBUCKS COFFEE", -550, Some("a"));
    let id = insert_tx_and_annotation(&mut store, &t, "Food", None);
    assert_eq!(find_transaction_id_by_uuid(&store, "a"), Some(id));
    assert_eq!(find_transaction_id_by_uuid(&store, "b"), None);
}

#[test]
fn sync_persists_new_transaction_with_its_bucket() {
    // One bank transaction, classified as Food: one row in each table.
    let mut store = Store::new();
    let batch = vec![tx("STARBUCKS COFFEE", -550, Some("a"))];
    let outcomes = vec![Some("Food".to_string())];
    let new_count = process_transactions(&mut store, &batch, &outcomes);
    assert_eq!(new_count, 1);
    assert_eq!(store.transactions.len(), 1);
    assert_eq!(store.annotations.len(), 1);
    assert_eq!(store.annotations[0].bucket, "Food");
    assert_eq!(store.transactions[0].tx.uuid.as_deref(), Some("a"));
}

#[test]
fn sync_dedups_across_two_ticks() {
    // The same transaction on two successive ticks: one row per table after
    // the second tick.
    let mut store = Store::new();
    let batch = vec![tx("STARBUCKS COFFEE", -550, Some("a"))];
    let outcomes = vec![Some("Food".to_string())];
    let first = process_transactions(&mut store, &batch, &outcomes);
    let second = process_transactions(&mut store, &batch, &outcomes);
    assert_eq!(first, 1);
    assert_eq!(second, 0);
    assert_eq!(store.transactions.len(), 1);
    assert_eq!(store.annotations.len(), 1);
}

#[test]
fn sync_dedups_within_one_batch() {
    let mut store = Store::new();
    let batch = vec![
        tx("STARBUCKS COFFEE", -550, Some("a")),
        tx("STARBUCKS COFFEE", -550, Some("a")),
    ];
    let outcomes = vec![Some("Food".to_string()), Some("Food".to_string())];
    let count = process_transactions(&mut store, &batch, &outcomes);
    assert_eq!(count, 1);
    assert_eq!(store.transactions.len(), 1);
}

#[test]
fn sync_persists_terminal_bucket_row() {
    // Every strategy failed or said nothing useful: the row is still
    // persisted, annotated with the terminal bucket.
    let mut store = Store::new();
    let batch = vec![tx("MYSTERY XYZ", -100, Some("b"))];
    let outcomes = vec![Some("Other".to_string())];
    let count = process_transactions(&mut store, &batch, &outcomes);
    assert_eq!(count, 1);
    assert_eq!(store.annotations[0].bucket, "Other");
}

#[test]
fn sync_skips_transaction_without_classification() {
    let mut store = Store::new();
    let batch = vec![
        tx("MYSTERY XYZ", -100, Some("b")),
        tx("STARBUCKS COFFEE", -550, Some("a")),
    ];
    let outcomes = vec![None, Some("Food".to_string())];
    let count = process_transactions(&mut store, &batch, &outcomes);
    assert_eq!(count, 1);
    assert_eq!(store.transactions.len(), 1);
    assert_eq!(store.transactions[0].tx.uuid.as_deref(), Some("a"));
}

#[test]
fn sync_always_inserts_without_uuid() {
    let mut store = Store::new();
    let batch = vec![tx("CASH", -100, None), tx("CASH", -100, None)];
    let outcomes = vec![Some("Other".to_string()), Some("Other".to_string())];
    let count = process_transactions(&mut store, &batch, &outcomes);
    assert_eq!(count, 2);
    assert_eq!(store.transactions.len(), 2);
}

#[test]
fn row_ids_are_fresh_and_annotations_reference_them() {
    let mut store = Store::new();
    let batch = vec![
        tx("ONE", -100, Some("u1")),
        tx("TWO", -200, Some("u2")),
        tx("THREE", -300, Some("u3")),
    ];
    let outcomes = vec![
        Some("Food".to_string()),
        Some("Income".to_string()),
        Some("Other".to_string()),
    ];
    process_transactions(&mut store, &batch, &outcomes);
    assert_eq!(store.transactions.len(), 3);
    for i in 0..3 {
        assert_eq!(
            store.annotations[i].investec_transaction_id,
            store.transactions[i].id
        );
        for j in 0..3 {
            if i != j {
                assert_ne!(store.transactions[i].id, store.transactions[j].id);
            }
        }
    }
}

#[test]
fn sync_report_accumulates_counts() {
    let mut report = investec_buckets::db::SyncReport::new();
    report.record_account(3, 2);
    report.record_account(1, 0);
    assert_eq!(report.total_transactions, 4);
    assert_eq!(report.new_transactions, 2);
    let mut top = investec_buckets::db::SyncReport::new();
    top.record_account(usize::MAX, usize::MAX);
    top.record_account(1, 1);
    assert_eq!(top.total_transactions, usize::MAX);
    assert_eq!(top.new_transactions, usize::MAX);
}
