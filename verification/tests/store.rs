//! Ledger and sync-engine behaviour on concrete values.

use lexe_sdk::errors::StoreError;
use lexe_sdk::payment::{PaymentRecord, PaymentStatus, UpdatePaymentNote};
use lexe_sdk::payments_db::PaymentsDb;

fn rec(created: u64, updated: u64, status: PaymentStatus, junk: bool) -> PaymentRecord {
    PaymentRecord {
        created_index: created,
        updated_index: updated,
        status,
        is_junk: junk,
        note: None,
        amount_msat: Some(1_000 * created + 5),
        invoice: Some(format!("lnbc-test-{created}")),
    }
}

/// What a faithful remote returns for a fetch past the given cursor.
fn remote_delta(remote: &[PaymentRecord], cursor: Option<u64>) -> Vec<PaymentRecord> {
    let mut out: Vec<PaymentRecord> = remote
        .iter()
        .filter(|p| match cursor {
            None => true,
            Some(c) => p.updated_index > c,
        })
        .cloned()
        .collect();
    out.sort_by_key(|p| p.updated_index);
    out
}

#[test]
fn empty_store_sync_three_new() {
    let mut db = PaymentsDb::new();
    let batch = vec![
        rec(1, 1, PaymentStatus::Pending, false),
        rec(2, 2, PaymentStatus::Pending, false),
        rec(3, 3, PaymentStatus::Finalized, false),
    ];
    let summary = db.apply_sync_batch(&batch);
    assert_eq!(summary.num_new, 3);
    assert_eq!(summary.num_updated, 0);
    assert!(summary.any_changes());
    assert_eq!(db.num_payments(), 3);
    assert_eq!(db.num_pending(), 2);
    assert_eq!(db.num_finalized(), 1);
    assert_eq!(db.latest_updated_index(), Some(3));
}

#[test]
fn status_change_moves_counts() {
    let mut db = PaymentsDb::new();
    let batch = vec![
        rec(1, 1, PaymentStatus::Pending, false),
        rec(2, 2, PaymentStatus::Pending, false),
        rec(3, 3, PaymentStatus::Pending, false),
    ];
    db.apply_sync_batch(&batch);
    let pending_before = db.num_pending();
    let finalized_before = db.num_finalized();

    // The remote reports the second record finalized under a new update index.
    let second = vec![rec(2, 4, PaymentStatus::Finalized, false)];
    let summary = db.apply_sync_batch(&second);
    assert_eq!(summary.num_new, 0);
    assert_eq!(summary.num_updated, 1);
    assert_eq!(db.num_finalized(), finalized_before + 1);
    assert_eq!(db.num_pending(), pending_before - 1);
    assert_eq!(db.num_payments(), 3);
    assert_eq!(db.latest_updated_index(), Some(4));
}

#[test]
fn sync_twice_without_remote_change_is_idempotent() {
    let remote = vec![
        rec(1, 1, PaymentStatus::Pending, false),
        rec(2, 2, PaymentStatus::Finalized, false),
        rec(3, 3, PaymentStatus::Pending, true),
    ];
    let mut db = PaymentsDb::new();
    let first = remote_delta(&remote, db.latest_updated_index());
    let s1 = db.apply_sync_batch(&first);
    assert_eq!(s1.num_new, 3);

    // No remote change: the delta past the advanced cursor is empty.
    let second = remote_delta(&remote, db.latest_updated_index());
    assert!(second.is_empty());
    let s2 = db.apply_sync_batch(&second);
    assert_eq!(s2.num_new, 0);
    assert_eq!(s2.num_updated, 0);
    assert!(!s2.any_changes());
    assert_eq!(db.num_payments(), 3);
}

#[test]
fn count_consistency_holds() {
    let mut db = PaymentsDb::new();
    let batch = vec![
        rec(1, 1, PaymentStatus::Pending, false),
        rec(2, 2, PaymentStatus::Pending, true),
        rec(3, 3, PaymentStatus::Finalized, true),
        rec(4, 4, PaymentStatus::Finalized, false),
        rec(5, 5, PaymentStatus::Pending, false),
    ];
    db.apply_sync_batch(&batch);
    assert_eq!(db.num_pending() + db.num_finalized(), db.num_payments());
    assert!(db.num_pending_not_junk() <= db.num_pending());
    assert!(db.num_finalized_not_junk() <= db.num_finalized());
    assert_eq!(db.num_pending(), 3);
    assert_eq!(db.num_pending_not_junk(), 2);
    assert_eq!(db.num_finalized(), 2);
    assert_eq!(db.num_finalized_not_junk(), 1);
}

#[test]
fn scroll_lookup_is_stable_and_ordered() {
    let mut db = PaymentsDb::new();
    let batch = vec![
        rec(10, 1, PaymentStatus::Pending, false),
        rec(20, 2, PaymentStatus::Finalized, false),
        rec(30, 3, PaymentStatus::Pending, true),
    ];
    db.apply_sync_batch(&batch);

    // Store order is creation index ascending.
    let a1 = db.get_payment_by_scroll_idx(0).unwrap().created_index;
    let a2 = db.get_payment_by_scroll_idx(0).unwrap().created_index;
    assert_eq!(a1, 10);
    assert_eq!(a1, a2);
    assert_eq!(db.get_payment_by_scroll_idx(2).unwrap().created_index, 30);
    assert!(db.get_payment_by_scroll_idx(3).is_none());

    // Filtered views, same fixed order.
    assert_eq!(
        db.get_pending_payment_by_scroll_idx(0).unwrap().created_index,
        10
    );
    assert_eq!(
        db.get_pending_payment_by_scroll_idx(1).unwrap().created_index,
        30
    );
    assert_eq!(
        db.get_pending_not_junk_payment_by_scroll_idx(0)
            .unwrap()
            .created_index,
        10
    );
    assert!(db.get_pending_not_junk_payment_by_scroll_idx(1).is_none());
    assert_eq!(
        db.get_finalized_payment_by_scroll_idx(0).unwrap().created_index,
        20
    );
    assert!(db.get_finalized_not_junk_payment_by_scroll_idx(1).is_none());
}

#[test]
fn note_round_trip_and_reopen() {
    let mut db = PaymentsDb::new();
    let batch = vec![
        rec(1, 1, PaymentStatus::Pending, false),
        rec(2, 2, PaymentStatus::Finalized, false),
    ];
    db.apply_sync_batch(&batch);

    let req = UpdatePaymentNote {
        index: 2,
        note: Some(String::from("coffee with mati")),
    };
    db.update_payment_note(req).unwrap();

    let seen = db.get_payment_by_created_index(2).unwrap();
    assert_eq!(seen.note, Some(String::from("coffee with mati")));
    assert!(seen.updated_index > 2);

    // Close and reopen: the snapshot reloads to the same ledger.
    let snapshot = db.to_records();
    let reopened = PaymentsDb::from_records(snapshot).unwrap();
    let seen_again = reopened.get_payment_by_created_index(2).unwrap();
    assert_eq!(seen_again.note, Some(String::from("coffee with mati")));
    assert_eq!(reopened.num_payments(), db.num_payments());
    assert_eq!(reopened.latest_updated_index(), db.latest_updated_index());
}

#[test]
fn note_update_on_unknown_index_fails_untouched() {
    let mut db = PaymentsDb::new();
    db.apply_sync_batch(&vec![rec(1, 1, PaymentStatus::Pending, false)]);
    let r = db.update_payment_note(UpdatePaymentNote {
        index: 99,
        note: Some(String::from("nope")),
    });
    assert_eq!(r, Err(StoreError::PaymentNotFound));
    assert_eq!(db.num_payments(), 1);
    assert!(db.get_payment_by_created_index(1).unwrap().note.is_none());
}

#[test]
fn cursor_is_max_updated_index() {
    let mut db = PaymentsDb::new();
    assert_eq!(db.latest_updated_index(), None);
    db.apply_sync_batch(&vec![
        rec(5, 6, PaymentStatus::Pending, false),
        rec(1, 7, PaymentStatus::Pending, false),
    ]);
    assert_eq!(db.latest_updated_index(), Some(7));

    // A local note write bumps strictly past the cursor.
    db.update_payment_note(UpdatePaymentNote {
        index: 5,
        note: Some(String::from("n")),
    })
    .unwrap();
    assert_eq!(db.latest_updated_index(), Some(8));
    assert_eq!(db.get_payment_by_created_index(5).unwrap().updated_index, 8);
}

#[test]
fn corrupted_snapshot_is_refused() {
    // Out of order by creation index.
    let unsorted = vec![
        rec(2, 1, PaymentStatus::Pending, false),
        rec(1, 2, PaymentStatus::Pending, false),
    ];
    assert_eq!(
        PaymentsDb::from_records(unsorted).err(),
        Some(StoreError::Corrupted)
    );

    // A record whose update index fell behind its creation index.
    let bad_rec = vec![rec(3, 1, PaymentStatus::Pending, false)];
    assert_eq!(
        PaymentsDb::from_records(bad_rec).err(),
        Some(StoreError::Corrupted)
    );

    // Duplicate update indices.
    let dup = vec![
        rec(1, 5, PaymentStatus::Pending, false),
        rec(2, 5, PaymentStatus::Pending, false),
    ];
    assert_eq!(
        PaymentsDb::from_records(dup).err(),
        Some(StoreError::Corrupted)
    );

    // An empty snapshot is a valid, empty store.
    let empty = PaymentsDb::from_records(Vec::new()).unwrap();
    assert_eq!(empty.num_payments(), 0);
    assert_eq!(empty.latest_updated_index(), None);
}

#[test]
fn note_update_fails_when_index_space_exhausted() {
    let mut db = PaymentsDb::new();
    db.apply_sync_batch(&vec![rec(1, u64::MAX, PaymentStatus::Pending, false)]);
    let r = db.update_payment_note(UpdatePaymentNote {
        index: 1,
        note: Some(String::from("too late")),
    });
    assert_eq!(r, Err(StoreError::IndexSpaceExhausted));
    assert!(db.get_payment_by_created_index(1).unwrap().note.is_none());
}

#[test]
fn delete_clears_everything() {
    let mut db = PaymentsDb::new();
    db.apply_sync_batch(&vec![
        rec(1, 1, PaymentStatus::Pending, false),
        rec(2, 2, PaymentStatus::Finalized, false),
    ]);
    db.delete();
    assert_eq!(db.num_payments(), 0);
    assert_eq!(db.num_pending(), 0);
    assert_eq!(db.num_finalized(), 0);
    assert_eq!(db.latest_updated_index(), None);
    assert!(db.get_payment_by_scroll_idx(0).is_none());
}

#[test]
fn lookup_by_created_index() {
    let mut db = PaymentsDb::new();
    db.apply_sync_batch(&vec![
        rec(1, 1, PaymentStatus::Pending, false),
        rec(7, 2, PaymentStatus::Finalized, false),
    ]);
    assert_eq!(db.get_payment_by_created_index(7).unwrap().created_index, 7);
    assert!(db.get_payment_by_created_index(3).is_none());
}

#[test]
fn overwrite_is_full_replace() {
    let mut db = PaymentsDb::new();
    db.apply_sync_batch(&vec![rec(1, 1, PaymentStatus::Pending, false)]);
    let mut changed = rec(1, 9, PaymentStatus::Finalized, true);
    changed.amount_msat = Some(42);
    changed.note = Some(String::from("remote note"));
    let summary = db.apply_sync_batch(&vec![changed]);
    assert_eq!(summary.num_new, 0);
    assert_eq!(summary.num_updated, 1);
    let seen = db.get_payment_by_created_index(1).unwrap();
    assert_eq!(seen.amount_msat, Some(42));
    assert_eq!(seen.note, Some(String::from("remote note")));
    assert_eq!(seen.updated_index, 9);
    assert!(seen.is_junk);
    assert_eq!(db.num_pending(), 0);
    assert_eq!(db.num_finalized(), 1);
}
