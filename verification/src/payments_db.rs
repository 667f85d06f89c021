//! The local payment ledger: a persistent, indexed collection of
//! [`PaymentRecord`] values with categorized, position-addressed views and an
//! incremental synchronization engine against the remote source of truth.
//!
//! The canonical ordering of every view is by creation index ascending; that
//! ordering is a stable contract of the scroll-index lookups.
//!
//! Persistence is split from the logic: [`PaymentsDb::to_records`] snapshots
//! the ledger as plain records for the embedding program to write out, and
//! [`PaymentsDb::from_records`] rebuilds the store from what was read back,
//! refusing a corrupted snapshot rather than silently resetting.

use vstd::prelude::*;

use crate::errors::StoreError;
use crate::payment::{
    is_finalized, is_finalized_not_junk, is_pending, is_pending_not_junk, rec_wf,
    PaymentCreatedIndex, PaymentRecord, PaymentStatus, PaymentUpdatedIndex, UpdatePaymentNote,
};

verus! {

/// Selects one of the four categorized views of the store.
#[derive(Clone, Copy, PartialEq, Eq, Structural, Debug)]
pub enum ViewKind {
    /// Pending payments, junk included.
    Pending,
    /// Pending payments, junk excluded.
    PendingNotJunk,
    /// Finalized payments, junk included.
    Finalized,
    /// Finalized payments, junk excluded.
    FinalizedNotJunk,
}

/// Whether a record belongs to the given categorized view.
pub open spec fn matches_view(p: PaymentRecord, kind: ViewKind) -> bool {
    match kind {
        ViewKind::Pending => is_pending(p),
        ViewKind::PendingNotJunk => is_pending_not_junk(p),
        ViewKind::Finalized => is_finalized(p),
        ViewKind::FinalizedNotJunk => is_finalized_not_junk(p),
    }
}

/// The categorized view: the records of the given kind, in store order
/// (creation index ascending).
pub open spec fn filtered_view(s: Seq<PaymentRecord>, kind: ViewKind) -> Seq<PaymentRecord> {
    s.filter(|p: PaymentRecord| matches_view(p, kind))
}

/// Store order: strictly ascending creation indices (which also makes them
/// unique).
pub open spec fn sorted_by_created(s: Seq<PaymentRecord>) -> bool {
    forall|i: int, j: int|
        0 <= i < j < s.len() ==> s[i].created_index < s[j].created_index
}

/// Every record individually well formed.
pub open spec fn records_wf(s: Seq<PaymentRecord>) -> bool {
    forall|i: int| 0 <= i < s.len() ==> rec_wf(#[trigger] s[i])
}

/// Update indices are unique across the store, so they define a total,
/// gap-tolerant order usable as a resumable cursor.
pub open spec fn distinct_updated(s: Seq<PaymentRecord>) -> bool {
    forall|i: int, j: int|
        0 <= i < j < s.len() ==> s[i].updated_index != s[j].updated_index
}

/// What a persisted snapshot must satisfy to be accepted by
/// [`PaymentsDb::from_records`].
pub open spec fn records_valid(s: Seq<PaymentRecord>) -> bool {
    sorted_by_created(s) && records_wf(s) && distinct_updated(s)
}

/// The cursor is `None` exactly on the empty store, and otherwise the
/// maximum update index over all stored records.
pub open spec fn cursor_ok(s: Seq<PaymentRecord>, cursor: Option<PaymentUpdatedIndex>) -> bool {
    match cursor {
        None => s.len() == 0,
        Some(c) => {
            &&& exists|i: int| 0 <= i < s.len() && #[trigger] s[i].updated_index == c
            &&& forall|i: int| 0 <= i < s.len() ==> #[trigger] s[i].updated_index <= c
        },
    }
}

/// Every stored record's update index is strictly below `u`.
pub open spec fn updated_gt_all(s: Seq<PaymentRecord>, u: PaymentUpdatedIndex) -> bool {
    forall|i: int| 0 <= i < s.len() ==> #[trigger] s[i].updated_index < u
}

/// No stored record carries this creation index.
pub open spec fn is_new(s: Seq<PaymentRecord>, c: PaymentCreatedIndex) -> bool {
    forall|i: int| 0 <= i < s.len() ==> #[trigger] s[i].created_index != c
}

/// The summary returned by a synchronization run.
pub struct PaymentSyncSummary {
    /// Records whose creation index was previously unknown and were inserted.
    pub num_new: usize,
    /// Records that existed locally and were overwritten in place.
    pub num_updated: usize,
}

impl PaymentSyncSummary {
    /// Whether the run changed the store at all.
    pub fn any_changes(&self) -> (b: bool)
        ensures
            b == (self.num_new + self.num_updated > 0),
    {
        self.num_new > 0 || self.num_updated > 0
    }
}

/// The local payment ledger. Records are kept in creation-index order;
/// the per-category counters and the sync cursor are maintained
/// incrementally on every insert and overwrite, never by a full rescan.
pub struct PaymentsDb {
    records: Vec<PaymentRecord>,
    pending_count: usize,
    pending_not_junk_count: usize,
    finalized_count: usize,
    finalized_not_junk_count: usize,
    cursor: Option<PaymentUpdatedIndex>,
}

impl View for PaymentsDb {
    type V = Seq<PaymentRecord>;

    closed spec fn view(&self) -> Seq<PaymentRecord> {
        self.records@
    }
}

impl PaymentsDb {
    /// The store invariant: ordered unique primary keys, unique update
    /// indices, truthful counters, and a cursor equal to the maximum update
    /// index (absent only on the empty store).
    pub closed spec fn wf(&self) -> bool {
        &&& records_valid(self@)
        &&& self.pending_count == filtered_view(self@, ViewKind::Pending).len()
        &&& self.pending_not_junk_count == filtered_view(self@, ViewKind::PendingNotJunk).len()
        &&& self.finalized_count == filtered_view(self@, ViewKind::Finalized).len()
        &&& self.finalized_not_junk_count == filtered_view(self@, ViewKind::FinalizedNotJunk).len()
        &&& cursor_ok(self@, self.cursor)
    }

    /// The sync cursor: the highest update index observed so far.
    pub closed spec fn cursor_spec(&self) -> Option<PaymentUpdatedIndex> {
        self.cursor
    }

    /// A fresh, empty store with no cursor.
    pub fn new() -> (db: PaymentsDb)
        ensures
            db.wf(),
            db@.len() == 0,
            db.cursor_spec() is None,
    {
        proof {
            lemma_filter_empty(|p: PaymentRecord| matches_view(p, ViewKind::Pending));
            lemma_filter_empty(|p: PaymentRecord| matches_view(p, ViewKind::PendingNotJunk));
            lemma_filter_empty(|p: PaymentRecord| matches_view(p, ViewKind::Finalized));
            lemma_filter_empty(|p: PaymentRecord| matches_view(p, ViewKind::FinalizedNotJunk));
        }
        PaymentsDb {
            records: Vec::new(),
            pending_count: 0,
            pending_not_junk_count: 0,
            finalized_count: 0,
            finalized_not_junk_count: 0,
            cursor: None,
        }
    }

    /// Total number of stored payments.
    pub fn num_payments(&self) -> (n: usize)
        ensures
            n == self@.len(),
    {
        self.records.len()
    }

    /// Number of pending payments.
    pub fn num_pending(&self) -> (n: usize)
        requires
            self.wf(),
        ensures
            n == filtered_view(self@, ViewKind::Pending).len(),
    {
        self.pending_count
    }

    /// Number of pending payments not marked junk.
    pub fn num_pending_not_junk(&self) -> (n: usize)
        requires
            self.wf(),
        ensures
            n == filtered_view(self@, ViewKind::PendingNotJunk).len(),
    {
        self.pending_not_junk_count
    }

    /// Number of finalized payments.
    pub fn num_finalized(&self) -> (n: usize)
        requires
            self.wf(),
        ensures
            n == filtered_view(self@, ViewKind::Finalized).len(),
    {
        self.finalized_count
    }

    /// Number of finalized payments not marked junk.
    pub fn num_finalized_not_junk(&self) -> (n: usize)
        requires
            self.wf(),
        ensures
            n == filtered_view(self@, ViewKind::FinalizedNotJunk).len(),
    {
        self.finalized_not_junk_count
    }

    /// The current sync cursor, `None` on an empty store.
    pub fn latest_updated_index(&self) -> (r: Option<PaymentUpdatedIndex>)
        ensures
            r == self.cursor_spec(),
    {
        self.cursor
    }

    /// Exact lookup by primary key; `None` when the creation index is
    /// unknown, which is not an error.
    pub fn get_payment_by_created_index(&self, created_index: PaymentCreatedIndex) -> (r: Option<
        &PaymentRecord,
    >)
        ensures
            match r {
                Some(p) => exists|i: int|
                    0 <= i < self@.len() && #[trigger] self@[i] == *p && p.created_index
                        == created_index,
                None => is_new(self@, created_index),
            },
    {
        let mut j: usize = 0;
        while j < self.records.len()
            invariant
                j <= self.records@.len(),
                forall|k: int| 0 <= k < j ==> #[trigger] self.records@[k].created_index != created_index,
            decreases self.records@.len() - j,
        {
            if self.records[j].created_index == created_index {
                let r = &self.records[j];
                proof {
                    assert(self@[j as int] == *r);
                }
                return Some(r);
            }
            j = j + 1;
        }
        None
    }

    /// The record at position `scroll_idx` of the all-payments view (store
    /// order), `None` when out of range.
    pub fn get_payment_by_scroll_idx(&self, scroll_idx: usize) -> (r: Option<&PaymentRecord>)
        ensures
            match r {
                Some(p) => scroll_idx < self@.len() && *p == self@[scroll_idx as int],
                None => scroll_idx >= self@.len(),
            },
    {
        if scroll_idx < self.records.len() {
            Some(&self.records[scroll_idx])
        } else {
            None
        }
    }

    /// The record at position `scroll_idx` of the given categorized view,
    /// `None` when out of range. The result is a function of the store's
    /// contents alone, so two calls with no mutation between them observe
    /// the same record.
    pub fn get_view_payment_by_scroll_idx(&self, scroll_idx: usize, kind: ViewKind) -> (r: Option<
        &PaymentRecord,
    >)
        ensures
            match r {
                Some(p) => scroll_idx < filtered_view(self@, kind).len() && *p == filtered_view(
                    self@,
                    kind,
                )[scroll_idx as int],
                None => scroll_idx >= filtered_view(self@, kind).len(),
            },
    {
        let ghost pred = |p: PaymentRecord| matches_view(p, kind);
        let mut j: usize = 0;
        let mut count: usize = 0;
        while j < self.records.len()
            invariant
                j <= self.records@.len(),
                count == self.records@.take(j as int).filter(pred).len(),
                count <= j,
                count <= scroll_idx,
                pred == (|p: PaymentRecord| matches_view(p, kind)),
            decreases self.records@.len() - j,
        {
            let hit = matches_view_exec(&self.records[j], kind);
            proof {
                lemma_filter_take_succ(self.records@, pred, j as int);
            }
            if hit {
                if count == scroll_idx {
                    proof {
                        lemma_filter_found(self.records@, pred, j as int);
                    }
                    return Some(&self.records[j]);
                }
                count = count + 1;
            }
            j = j + 1;
        }
        proof {
            assert(self.records@.take(self.records@.len() as int) =~= self.records@);
        }
        None
    }

    /// Pending view, position lookup.
    pub fn get_pending_payment_by_scroll_idx(&self, scroll_idx: usize) -> (r: Option<
        &PaymentRecord,
    >)
        ensures
            match r {
                Some(p) => scroll_idx < filtered_view(self@, ViewKind::Pending).len() && *p
                    == filtered_view(self@, ViewKind::Pending)[scroll_idx as int],
                None => scroll_idx >= filtered_view(self@, ViewKind::Pending).len(),
            },
    {
        self.get_view_payment_by_scroll_idx(scroll_idx, ViewKind::Pending)
    }

    /// Pending-not-junk view, position lookup.
    pub fn get_pending_not_junk_payment_by_scroll_idx(&self, scroll_idx: usize) -> (r: Option<
        &PaymentRecord,
    >)
        ensures
            match r {
                Some(p) => scroll_idx < filtered_view(self@, ViewKind::PendingNotJunk).len() && *p
                    == filtered_view(self@, ViewKind::PendingNotJunk)[scroll_idx as int],
                None => scroll_idx >= filtered_view(self@, ViewKind::PendingNotJunk).len(),
            },
    {
        self.get_view_payment_by_scroll_idx(scroll_idx, ViewKind::PendingNotJunk)
    }

    /// Finalized view, position lookup.
    pub fn get_finalized_payment_by_scroll_idx(&self, scroll_idx: usize) -> (r: Option<
        &PaymentRecord,
    >)
        ensures
            match r {
                Some(p) => scroll_idx < filtered_view(self@, ViewKind::Finalized).len() && *p
                    == filtered_view(self@, ViewKind::Finalized)[scroll_idx as int],
                None => scroll_idx >= filtered_view(self@, ViewKind::Finalized).len(),
            },
    {
        self.get_view_payment_by_scroll_idx(scroll_idx, ViewKind::Finalized)
    }

    /// Finalized-not-junk view, position lookup.
    pub fn get_finalized_not_junk_payment_by_scroll_idx(&self, scroll_idx: usize) -> (r: Option<
        &PaymentRecord,
    >)
        ensures
            match r {
                Some(p) => scroll_idx < filtered_view(self@, ViewKind::FinalizedNotJunk).len()
                    && *p == filtered_view(self@, ViewKind::FinalizedNotJunk)[scroll_idx as int],
                None => scroll_idx >= filtered_view(self@, ViewKind::FinalizedNotJunk).len(),
            },
    {
        self.get_view_payment_by_scroll_idx(scroll_idx, ViewKind::FinalizedNotJunk)
    }

    /// Irreversibly clears this handle: all records and the cursor are gone
    /// and the handle behaves as a fresh, empty store. The embedding program
    /// must also remove whatever it persisted for this store.
    pub fn delete(&mut self)
        ensures
            final(self).wf(),
            final(self)@.len() == 0,
            final(self).cursor_spec() is None,
    {
        proof {
            lemma_filter_empty(|p: PaymentRecord| matches_view(p, ViewKind::Pending));
            lemma_filter_empty(|p: PaymentRecord| matches_view(p, ViewKind::PendingNotJunk));
            lemma_filter_empty(|p: PaymentRecord| matches_view(p, ViewKind::Finalized));
            lemma_filter_empty(|p: PaymentRecord| matches_view(p, ViewKind::FinalizedNotJunk));
        }
        self.records.clear();
        self.pending_count = 0;
        self.pending_not_junk_count = 0;
        self.finalized_count = 0;
        self.finalized_not_junk_count = 0;
        self.cursor = None;
    }
}

/// Runtime test for membership in a categorized view.
fn matches_view_exec(p: &PaymentRecord, kind: ViewKind) -> (b: bool)
    ensures
        b == matches_view(*p, kind),
{
    let status_hit = match kind {
        ViewKind::Pending | ViewKind::PendingNotJunk => matches!(p.status, PaymentStatus::Pending),
        ViewKind::Finalized | ViewKind::FinalizedNotJunk => matches!(
            p.status,
            PaymentStatus::Finalized
        ),
    };
    let junk_ok = match kind {
        ViewKind::Pending | ViewKind::Finalized => true,
        ViewKind::PendingNotJunk | ViewKind::FinalizedNotJunk => !p.is_junk,
    };
    status_hit && junk_ok
}

/// Filtering the empty sequence yields the empty sequence.
proof fn lemma_filter_empty(pred: spec_fn(PaymentRecord) -> bool)
    ensures
        Seq::<PaymentRecord>::empty().filter(pred) == Seq::<PaymentRecord>::empty(),
{
    reveal(Seq::filter);
}

/// Filtering a one-step-longer prefix extends the filtered prefix by the new
/// element exactly when it matches.
proof fn lemma_filter_take_succ(
    s: Seq<PaymentRecord>,
    pred: spec_fn(PaymentRecord) -> bool,
    j: int,
)
    requires
        0 <= j < s.len(),
    ensures
        s.take(j + 1).filter(pred) == if pred(s[j]) {
            s.take(j).filter(pred).push(s[j])
        } else {
            s.take(j).filter(pred)
        },
{
    reveal(Seq::filter);
    assert(s.take(j + 1).drop_last() =~= s.take(j));
    assert(s.take(j + 1).last() == s[j]);
}

// ---------------------------------------------------------------------------
// The synchronization engine's model
// ---------------------------------------------------------------------------

/// The position at which a record with creation index `c` lives or belongs:
/// the first index whose creation index is at least `c` (the length when all
/// are smaller).
pub open spec fn first_geq(s: Seq<PaymentRecord>, c: PaymentCreatedIndex) -> int
    decreases s.len(),
{
    if s.len() == 0 {
        0
    } else if s[0].created_index >= c {
        0
    } else {
        1 + first_geq(s.drop_first(), c)
    }
}

/// Applying one remote record: overwrite in place when its creation index is
/// known, insert at its ordered position when it is new. A full replace, not
/// a field merge: the remote backend is the source of truth for content.
pub open spec fn apply_one(s: Seq<PaymentRecord>, p: PaymentRecord) -> Seq<PaymentRecord> {
    let j = first_geq(s, p.created_index);
    if j < s.len() && s[j].created_index == p.created_index {
        s.update(j, p)
    } else {
        s.insert(j, p)
    }
}

/// Applying a whole batch, in order.
pub open spec fn apply_batch(s: Seq<PaymentRecord>, b: Seq<PaymentRecord>) -> Seq<PaymentRecord>
    decreases b.len(),
{
    if b.len() == 0 {
        s
    } else {
        apply_batch(apply_one(s, b[0]), b.drop_first())
    }
}

/// How many records of the batch were unknown when they were applied.
pub open spec fn count_new(s: Seq<PaymentRecord>, b: Seq<PaymentRecord>) -> nat
    decreases b.len(),
{
    if b.len() == 0 {
        0
    } else {
        (if is_new(s, b[0].created_index) {
            1nat
        } else {
            0nat
        }) + count_new(apply_one(s, b[0]), b.drop_first())
    }
}

/// Batch records arrive in strictly ascending update-index order.
pub open spec fn ascending_by_updated(b: Seq<PaymentRecord>) -> bool {
    forall|i: int, j: int|
        0 <= i < j < b.len() ==> b[i].updated_index < b[j].updated_index
}

/// What a fetched batch must satisfy to be applied: well-formed records in
/// strictly ascending update-index order, all strictly newer than everything
/// the store has seen.
pub open spec fn batch_ok(s: Seq<PaymentRecord>, b: Seq<PaymentRecord>) -> bool {
    &&& records_wf(b)
    &&& ascending_by_updated(b)
    &&& b.len() > 0 ==> updated_gt_all(s, b[0].updated_index)
}

/// Whether an update index is strictly beyond the cursor (what a faithful
/// remote fetch with this cursor returns).
pub open spec fn newer_than(cursor: Option<PaymentUpdatedIndex>, u: PaymentUpdatedIndex) -> bool {
    match cursor {
        None => true,
        Some(c) => u > c,
    }
}

/// The delta a faithful remote returns for a fetch with the given cursor:
/// its records with update index strictly beyond the cursor, in its order.
pub open spec fn fetch_since(
    remote: Seq<PaymentRecord>,
    cursor: Option<PaymentUpdatedIndex>,
) -> Seq<PaymentRecord> {
    remote.filter(|p: PaymentRecord| newer_than(cursor, p.updated_index))
}

impl PaymentsDb {
    /// Apply one strictly-newer record: overwrite when its creation index is
    /// known, insert in order when it is new; the cursor advances to its
    /// update index; the counters track the affected categories.
    #[verifier::rlimit(80)]
    fn apply_record(&mut self, p: PaymentRecord) -> (was_new: bool)
        requires
            old(self).wf(),
            rec_wf(p),
            updated_gt_all(old(self)@, p.updated_index),
        ensures
            final(self).wf(),
            final(self)@ == apply_one(old(self)@, p),
            was_new == is_new(old(self)@, p.created_index),
            final(self)@.len() == old(self)@.len() + (if was_new {
                1int
            } else {
                0int
            }),
            final(self).cursor_spec() == Some(p.updated_index),
    {
        let ghost s0 = self@;
        let c = p.created_index;
        let j = find_first_geq(&self.records, c);
        let replace = j < self.records.len() && self.records[j].created_index == c;
        let new_pe = matches_view_exec(&p, ViewKind::Pending);
        let new_pn = matches_view_exec(&p, ViewKind::PendingNotJunk);
        let new_fi = matches_view_exec(&p, ViewKind::Finalized);
        let new_fn_ = matches_view_exec(&p, ViewKind::FinalizedNotJunk);
        proof {
            if !replace {
                assert forall|k: int| 0 <= k < s0.len() implies #[trigger] s0[k].created_index
                    != c by {
                    if k < j {
                    } else if k == j {
                    } else {
                        assert(s0[j as int].created_index < s0[k].created_index);
                    }
                }
            }
        }
        if replace {
            let old_pe = matches_view_exec(&self.records[j], ViewKind::Pending);
            let old_pn = matches_view_exec(&self.records[j], ViewKind::PendingNotJunk);
            let old_fi = matches_view_exec(&self.records[j], ViewKind::Finalized);
            let old_fn_ = matches_view_exec(&self.records[j], ViewKind::FinalizedNotJunk);
            let pu = p.updated_index;
            self.records.set(j, p);
            self.cursor = Some(pu);
            proof {
                let t = s0.update(j as int, p);
                assert(self.records@ == t);
                lemma_view_update(s0, j as int, p, ViewKind::Pending);
                lemma_view_update(s0, j as int, p, ViewKind::PendingNotJunk);
                lemma_view_update(s0, j as int, p, ViewKind::Finalized);
                lemma_view_update(s0, j as int, p, ViewKind::FinalizedNotJunk);
                assert forall|a: int, b: int| 0 <= a < b < t.len() implies t[a].created_index
                    < t[b].created_index by {
                    assert(t[a].created_index == s0[a].created_index);
                    assert(t[b].created_index == s0[b].created_index);
                }
                assert forall|a: int, b: int| 0 <= a < b < t.len() implies t[a].updated_index
                    != t[b].updated_index by {
                    if a != j && b != j {
                        assert(t[a] == s0[a] && t[b] == s0[b]);
                    }
                }
            }
            self.pending_count = adjust_count(self.pending_count, old_pe, new_pe);
            self.pending_not_junk_count = adjust_count(self.pending_not_junk_count, old_pn, new_pn);
            self.finalized_count = adjust_count(self.finalized_count, old_fi, new_fi);
            self.finalized_not_junk_count = adjust_count(
                self.finalized_not_junk_count,
                old_fn_,
                new_fn_,
            );
            false
        } else {
            let pu = p.updated_index;
            self.records.insert(j, p);
            self.cursor = Some(pu);
            proof {
                let t = s0.insert(j as int, p);
                assert(self.records@ == t);
                s0.insert_ensures(j as int, p);
                lemma_view_insert(s0, j as int, p, ViewKind::Pending);
                lemma_view_insert(s0, j as int, p, ViewKind::PendingNotJunk);
                lemma_view_insert(s0, j as int, p, ViewKind::Finalized);
                lemma_view_insert(s0, j as int, p, ViewKind::FinalizedNotJunk);
                assert forall|k: int| j <= k < s0.len() implies c
                    < #[trigger] s0[k].created_index by {
                    assert(s0[j as int].created_index >= c && s0[j as int].created_index != c);
                    if k > j {
                        assert(s0[j as int].created_index < s0[k].created_index);
                    }
                }
                assert forall|a: int, b: int| 0 <= a < b < t.len() implies t[a].created_index
                    < t[b].created_index by {
                    if a < j {
                        assert(t[a] == s0[a]);
                    } else if a == j {
                        assert(t[a] == p);
                    } else {
                        assert(t[a] == s0[a - 1]);
                    }
                    if b < j {
                        assert(t[b] == s0[b]);
                    } else if b == j {
                        assert(t[b] == p);
                    } else {
                        assert(t[b] == s0[b - 1]);
                    }
                }
                assert forall|a: int, b: int| 0 <= a < b < t.len() implies t[a].updated_index
                    != t[b].updated_index by {
                    if a < j {
                        assert(t[a] == s0[a]);
                    } else if a == j {
                        assert(t[a] == p);
                    } else {
                        assert(t[a] == s0[a - 1]);
                    }
                    if b < j {
                        assert(t[b] == s0[b]);
                    } else if b == j {
                        assert(t[b] == p);
                    } else {
                        assert(t[b] == s0[b - 1]);
                    }
                }
                assert(t[j as int] == p);
                assert forall|k: int| 0 <= k < t.len() implies #[trigger] t[k].updated_index
                    <= p.updated_index by {
                    if k < j {
                        assert(t[k] == s0[k]);
                    } else if k == j {
                    } else {
                        assert(t[k] == s0[k - 1]);
                    }
                }
            }
            let n_after = self.records.len();
            proof {
                assert(n_after == s0.len() + 1);
            }
            self.pending_count = bump_count(self.pending_count, new_pe);
            self.pending_not_junk_count = bump_count(self.pending_not_junk_count, new_pn);
            self.finalized_count = bump_count(self.finalized_count, new_fi);
            self.finalized_not_junk_count = bump_count(self.finalized_not_junk_count, new_fn_);
            true
        }
    }

    /// Apply a fetched batch of strictly-newer records, in ascending
    /// update-index order, and report how many were inserted and how many
    /// overwritten. Every batch record lands (`num_new + num_updated` is the
    /// batch length), and the cursor advances to the last update index seen,
    /// so an unchanged remote has nothing left to hand to a second run.
    pub fn apply_sync_batch(&mut self, batch: &Vec<PaymentRecord>) -> (summary: PaymentSyncSummary)
        requires
            old(self).wf(),
            batch_ok(old(self)@, batch@),
        ensures
            final(self).wf(),
            final(self)@ == apply_batch(old(self)@, batch@),
            summary.num_new == count_new(old(self)@, batch@),
            summary.num_new + summary.num_updated == batch@.len(),
            final(self)@.len() == old(self)@.len() + summary.num_new,
            batch@.len() == 0 ==> *final(self) == *old(self),
            batch@.len() > 0 ==> final(self).cursor_spec() == Some(
                batch@[batch@.len() - 1].updated_index,
            ),
    {
        let ghost s0 = self@;
        let ghost b = batch@;
        let ghost db_init = *self;
        let mut k: usize = 0;
        let mut new_count: usize = 0;
        while k < batch.len()
            invariant
                self.wf(),
                k <= b.len(),
                b == batch@,
                batch_ok(s0, b),
                self@ == apply_batch(s0, b.take(k as int)),
                new_count == count_new(s0, b.take(k as int)),
                new_count <= k,
                self@.len() == s0.len() + new_count,
                k == 0 ==> *self == db_init,
                k == 0 ==> self@ == s0,
                k > 0 ==> self.cursor_spec() == Some(b[k - 1].updated_index),
            decreases b.len() - k,
        {
            let p = batch[k].clone();
            proof {
                assert(p == b[k as int]);
                assert(rec_wf(p));
                if k == 0 {
                    assert(updated_gt_all(self@, p.updated_index));
                } else {
                    assert forall|i: int| 0 <= i < self@.len() implies #[trigger] self@[i].updated_index
                        < p.updated_index by {
                        assert(self@[i].updated_index <= b[k - 1].updated_index);
                        assert(b[k - 1].updated_index < b[k as int].updated_index);
                    }
                }
            }
            let was_new = self.apply_record(p);
            if was_new {
                new_count = new_count + 1;
            }
            proof {
                lemma_apply_batch_push(s0, b.take(k as int), b[k as int]);
                assert(b.take(k as int + 1) =~= b.take(k as int).push(b[k as int]));
            }
            k = k + 1;
        }
        proof {
            assert(b.take(b.len() as int) =~= b);
        }
        PaymentSyncSummary { num_new: new_count, num_updated: batch.len() - new_count }
    }
}

/// The first index whose creation index is at least `c`, as executable
/// search over the ordered record vector.
fn find_first_geq(records: &Vec<PaymentRecord>, c: PaymentCreatedIndex) -> (j: usize)
    ensures
        j <= records@.len(),
        forall|k: int| 0 <= k < j ==> (#[trigger] records@[k]).created_index < c,
        j < records@.len() ==> records@[j as int].created_index >= c,
        j == first_geq(records@, c),
{
    let mut j: usize = 0;
    while j < records.len()
        invariant
            j <= records@.len(),
            forall|k: int| 0 <= k < j ==> (#[trigger] records@[k]).created_index < c,
        decreases records@.len() - j,
    {
        if records[j].created_index >= c {
            proof {
                lemma_first_geq(records@, c, j as int);
            }
            return j;
        }
        j = j + 1;
    }
    proof {
        lemma_first_geq(records@, c, j as int);
    }
    j
}

/// New counter value when a record of the old category set is replaced by
/// one of the new category set.
fn adjust_count(count: usize, old_in: bool, new_in: bool) -> (r: usize)
    requires
        old_in ==> count >= 1,
        (!old_in && new_in) ==> count < usize::MAX,
    ensures
        r == count - (if old_in {
            1int
        } else {
            0int
        }) + (if new_in {
            1int
        } else {
            0int
        }),
{
    if old_in && !new_in {
        count - 1
    } else if !old_in && new_in {
        count + 1
    } else {
        count
    }
}

/// New counter value when a record of the new category set is inserted.
fn bump_count(count: usize, new_in: bool) -> (r: usize)
    requires
        new_in ==> count < usize::MAX,
    ensures
        r == count + (if new_in {
            1int
        } else {
            0int
        }),
{
    if new_in {
        count + 1
    } else {
        count
    }
}

/// The record `p` with its note replaced and its update index bumped.
pub open spec fn with_note(
    p: PaymentRecord,
    note: Option<String>,
    u: PaymentUpdatedIndex,
) -> PaymentRecord {
    PaymentRecord {
        created_index: p.created_index,
        updated_index: u,
        status: p.status,
        is_junk: p.is_junk,
        note: note,
        amount_msat: p.amount_msat,
        invoice: p.invoice,
    }
}

impl PaymentsDb {
    /// Replace the note of the payment with the given creation index,
    /// bumping its update index to one past the cursor so the write is
    /// strictly later than everything stored. Fails with `PaymentNotFound`
    /// when the creation index is unknown, and with `IndexSpaceExhausted`
    /// when no larger update index exists; either failure leaves the store
    /// untouched.
    pub fn update_payment_note(&mut self, req: UpdatePaymentNote) -> (r: Result<(), StoreError>)
        requires
            old(self).wf(),
        ensures
            final(self).wf(),
            match r {
                Ok(_) => {
                    &&& !is_new(old(self)@, req.index)
                    &&& old(self).cursor_spec() matches Some(c0) && c0 < u64::MAX
                        && final(self).cursor_spec() == Some((c0 + 1) as u64) && (exists|j: int|
                        {
                            &&& 0 <= j < old(self)@.len()
                            &&& (#[trigger] old(self)@[j]).created_index == req.index
                            &&& final(self)@ == old(self)@.update(
                                j,
                                with_note(old(self)@[j], req.note, (c0 + 1) as u64),
                            )
                        })
                },
                Err(e) => {
                    &&& final(self)@ == old(self)@
                    &&& final(self).cursor_spec() == old(self).cursor_spec()
                    &&& (e == StoreError::PaymentNotFound <==> is_new(old(self)@, req.index))
                    &&& (e == StoreError::IndexSpaceExhausted <==> !is_new(old(self)@, req.index)
                        && old(self).cursor_spec() == Some(u64::MAX))
                    &&& (e == StoreError::PaymentNotFound || e == StoreError::IndexSpaceExhausted)
                },
            },
    {
        let UpdatePaymentNote { index, note } = req;
        let ghost s0 = self@;
        let found = find_created(&self.records, index);
        match found {
            None => {
                proof {
                    assert(self.wf());
                }
                Err(StoreError::PaymentNotFound)
            },
            Some(j) => {
                proof {
                    assert(!is_new(s0, index));
                }
                match self.cursor {
                    None => {
                        proof {
                            assert(false);
                        }
                        Err(StoreError::PaymentNotFound)
                    },
                    Some(c0) => {
                        if c0 == u64::MAX {
                            return Err(StoreError::IndexSpaceExhausted);
                        }
                        let newu = c0 + 1;
                        let mut rec = self.records[j].clone();
                        rec.note = note;
                        rec.updated_index = newu;
                        let ghost q = rec;
                        self.records.set(j, rec);
                        self.cursor = Some(newu);
                        proof {
                            let t = s0.update(j as int, q);
                            assert(self.records@ == t);
                            assert(q == with_note(s0[j as int], req.note, newu));
                            lemma_view_update(s0, j as int, q, ViewKind::Pending);
                            lemma_view_update(s0, j as int, q, ViewKind::PendingNotJunk);
                            lemma_view_update(s0, j as int, q, ViewKind::Finalized);
                            lemma_view_update(s0, j as int, q, ViewKind::FinalizedNotJunk);
                            assert forall|a: int, b: int|
                                0 <= a < b < t.len() implies t[a].created_index
                                < t[b].created_index by {
                                assert(t[a].created_index == s0[a].created_index);
                                assert(t[b].created_index == s0[b].created_index);
                            }
                            assert forall|a: int, b: int|
                                0 <= a < b < t.len() implies t[a].updated_index
                                != t[b].updated_index by {
                                if a != j && b != j {
                                    assert(t[a] == s0[a] && t[b] == s0[b]);
                                } else if a == j {
                                    assert(t[b] == s0[b]);
                                    assert(s0[b].updated_index <= c0);
                                } else {
                                    assert(t[a] == s0[a]);
                                    assert(s0[a].updated_index <= c0);
                                }
                            }
                            assert(t[j as int] == q);
                            assert(0 <= j < s0.len() && s0[j as int].created_index == req.index
                                && self@ == s0.update(
                                j as int,
                                with_note(s0[j as int], req.note, newu),
                            ));
                            assert(records_valid(self@));
                            assert(cursor_ok(self@, self.cursor));
                            assert(self.wf());
                            assert forall|k: int|
                                0 <= k < t.len() implies #[trigger] t[k].updated_index <= newu by {
                                if k != j {
                                    assert(t[k] == s0[k]);
                                }
                            }
                        }
                        Ok(())
                    },
                }
            },
        }
    }

    /// Snapshot of the ledger in store order, for the embedding program to
    /// persist.
    pub fn to_records(&self) -> (out: Vec<PaymentRecord>)
        ensures
            out@ == self@,
    {
        let mut out: Vec<PaymentRecord> = Vec::new();
        let mut i: usize = 0;
        while i < self.records.len()
            invariant
                i <= self.records@.len(),
                out@ == self.records@.take(i as int),
            decreases self.records@.len() - i,
        {
            let r = self.records[i].clone();
            out.push(r);
            proof {
                assert(self.records@.take(i as int + 1) =~= self.records@.take(i as int).push(
                    self.records@[i as int],
                ));
            }
            i = i + 1;
        }
        proof {
            assert(self.records@.take(self.records@.len() as int) =~= self.records@);
        }
        out
    }

    /// Rebuild a store from a persisted snapshot: reconstructs counters,
    /// ordering knowledge and the cursor from the records alone. A snapshot
    /// that violates the store invariants is refused as corrupted rather
    /// than silently reset.
    pub fn from_records(records: Vec<PaymentRecord>) -> (r: Result<PaymentsDb, StoreError>)
        ensures
            match r {
                Ok(db) => db.wf() && db@ == records@ && records_valid(records@),
                Err(e) => e == StoreError::Corrupted && !records_valid(records@),
            },
    {
        let n = records.len();
        let mut i: usize = 0;
        while i < n
            invariant
                n == records@.len(),
                i <= n,
                forall|k: int| 0 <= k < i ==> rec_wf(#[trigger] records@[k]),
                sorted_by_created(records@.take(i as int)),
            decreases n - i,
        {
            if records[i].created_index > records[i].updated_index {
                proof {
                    assert(!rec_wf(records@[i as int]));
                }
                return Err(StoreError::Corrupted);
            }
            if i > 0 && records[i - 1].created_index >= records[i].created_index {
                proof {
                    assert(!sorted_by_created(records@)) by {
                        assert(records@[i as int - 1].created_index
                            >= records@[i as int].created_index);
                    }
                }
                return Err(StoreError::Corrupted);
            }
            proof {
                let pre = records@.take(i as int);
                let t = records@.take(i as int + 1);
                assert forall|a: int, b: int|
                    0 <= a < b < t.len() implies t[a].created_index < t[b].created_index by {
                    assert(t[a] == records@[a] && t[b] == records@[b]);
                    if b < i {
                        assert(pre[a] == records@[a] && pre[b] == records@[b]);
                    } else {
                        if a < i - 1 {
                            assert(pre[a] == records@[a] && pre[i - 1] == records@[i - 1]);
                            assert(pre[a].created_index < pre[i - 1].created_index);
                        }
                        assert(records@[i as int - 1].created_index
                            < records@[i as int].created_index);
                    }
                }
            }
            i = i + 1;
        }
        proof {
            assert(records@.take(n as int) =~= records@);
        }
        let mut a: usize = 0;
        while a < n
            invariant
                n == records@.len(),
                a <= n,
                forall|x: int, y: int|
                    #![trigger records@[x].updated_index, records@[y].updated_index]
                    0 <= x < y < a ==> records@[x].updated_index != records@[y].updated_index,
            decreases n - a,
        {
            let mut b2: usize = 0;
            while b2 < a
                invariant
                    n == records@.len(),
                    a < n,
                    b2 <= a,
                    forall|x: int, y: int|
                        #![trigger records@[x].updated_index, records@[y].updated_index]
                        0 <= x < y < a ==> records@[x].updated_index != records@[y].updated_index,
                    forall|x: int|
                        0 <= x < b2 ==> (#[trigger] records@[x]).updated_index != records@[a as int].updated_index,
                decreases a - b2,
            {
                if records[b2].updated_index == records[a].updated_index {
                    proof {
                        assert(!distinct_updated(records@));
                    }
                    return Err(StoreError::Corrupted);
                }
                b2 = b2 + 1;
            }
            a = a + 1;
        }
        let mut pending: usize = 0;
        let mut pending_nj: usize = 0;
        let mut finalized: usize = 0;
        let mut finalized_nj: usize = 0;
        let mut cursor: Option<PaymentUpdatedIndex> = None;
        proof {
            lemma_filter_empty(|p: PaymentRecord| matches_view(p, ViewKind::Pending));
            lemma_filter_empty(|p: PaymentRecord| matches_view(p, ViewKind::PendingNotJunk));
            lemma_filter_empty(|p: PaymentRecord| matches_view(p, ViewKind::Finalized));
            lemma_filter_empty(|p: PaymentRecord| matches_view(p, ViewKind::FinalizedNotJunk));
            assert(records@.take(0) =~= Seq::<PaymentRecord>::empty());
        }
        let mut i2: usize = 0;
        while i2 < n
            invariant
                n == records@.len(),
                i2 <= n,
                pending == filtered_view(records@.take(i2 as int), ViewKind::Pending).len(),
                pending_nj == filtered_view(records@.take(i2 as int), ViewKind::PendingNotJunk).len(),
                finalized == filtered_view(records@.take(i2 as int), ViewKind::Finalized).len(),
                finalized_nj == filtered_view(
                    records@.take(i2 as int),
                    ViewKind::FinalizedNotJunk,
                ).len(),
                pending <= i2,
                pending_nj <= i2,
                finalized <= i2,
                finalized_nj <= i2,
                match cursor {
                    None => i2 == 0,
                    Some(c) => {
                        &&& exists|k: int|
                            0 <= k < i2 && (#[trigger] records@[k]).updated_index == c
                        &&& forall|k: int|
                            0 <= k < i2 ==> (#[trigger] records@[k]).updated_index <= c
                    },
                },
            decreases n - i2,
        {
            let hit_pe = matches_view_exec(&records[i2], ViewKind::Pending);
            let hit_pn = matches_view_exec(&records[i2], ViewKind::PendingNotJunk);
            let hit_fi = matches_view_exec(&records[i2], ViewKind::Finalized);
            let hit_fn = matches_view_exec(&records[i2], ViewKind::FinalizedNotJunk);
            proof {
                lemma_filter_take_succ(
                    records@,
                    |p: PaymentRecord| matches_view(p, ViewKind::Pending),
                    i2 as int,
                );
                lemma_filter_take_succ(
                    records@,
                    |p: PaymentRecord| matches_view(p, ViewKind::PendingNotJunk),
                    i2 as int,
                );
                lemma_filter_take_succ(
                    records@,
                    |p: PaymentRecord| matches_view(p, ViewKind::Finalized),
                    i2 as int,
                );
                lemma_filter_take_succ(
                    records@,
                    |p: PaymentRecord| matches_view(p, ViewKind::FinalizedNotJunk),
                    i2 as int,
                );
            }
            if hit_pe {
                pending = pending + 1;
            }
            if hit_pn {
                pending_nj = pending_nj + 1;
            }
            if hit_fi {
                finalized = finalized + 1;
            }
            if hit_fn {
                finalized_nj = finalized_nj + 1;
            }
            let u = records[i2].updated_index;
            cursor = match cursor {
                None => Some(u),
                Some(c) => if u > c {
                    Some(u)
                } else {
                    Some(c)
                },
            };
            i2 = i2 + 1;
        }
        proof {
            assert(records@.take(n as int) =~= records@);
        }
        let db = PaymentsDb {
            records,
            pending_count: pending,
            pending_not_junk_count: pending_nj,
            finalized_count: finalized,
            finalized_not_junk_count: finalized_nj,
            cursor,
        };
        Ok(db)
    }
}

/// Exact lookup of a creation index's position, `None` when unknown.
fn find_created(records: &Vec<PaymentRecord>, c: PaymentCreatedIndex) -> (r: Option<usize>)
    ensures
        match r {
            Some(i) => i < records@.len() && records@[i as int].created_index == c,
            None => is_new(records@, c),
        },
{
    let mut j: usize = 0;
    while j < records.len()
        invariant
            j <= records@.len(),
            forall|k: int| 0 <= k < j ==> (#[trigger] records@[k]).created_index != c,
        decreases records@.len() - j,
    {
        if records[j].created_index == c {
            return Some(j);
        }
        j = j + 1;
    }
    None
}

// ---------------------------------------------------------------------------
// Laws
// ---------------------------------------------------------------------------

/// Law: the store's cursor always equals the maximum update index across
/// all stored records, and is absent exactly on the empty store.
pub proof fn lemma_cursor_is_max(db: PaymentsDb)
    requires
        db.wf(),
    ensures
        cursor_ok(db@, db.cursor_spec()),
{
}

/// Law: a well-formed store's snapshot always satisfies `records_valid`,
/// so `from_records(to_records(db))` succeeds and rebuilds a store with the
/// same ledger: a close/reopen cycle loses nothing.
pub proof fn lemma_snapshot_valid(db: PaymentsDb)
    requires
        db.wf(),
    ensures
        records_valid(db@),
{
}

/// Law: in every store state, pending and finalized records partition the
/// store (`num_pending + num_finalized == num_payments`), and each not-junk
/// view is no larger than its junk-included counterpart.
pub proof fn lemma_count_consistency(s: Seq<PaymentRecord>)
    ensures
        filtered_view(s, ViewKind::Pending).len() + filtered_view(s, ViewKind::Finalized).len()
            == s.len(),
        filtered_view(s, ViewKind::PendingNotJunk).len() <= filtered_view(
            s,
            ViewKind::Pending,
        ).len(),
        filtered_view(s, ViewKind::FinalizedNotJunk).len() <= filtered_view(
            s,
            ViewKind::Finalized,
        ).len(),
    decreases s.len(),
{
    reveal(Seq::filter);
    if s.len() > 0 {
        lemma_count_consistency(s.drop_last());
    }
}

/// Law: a note written through `update_payment_note` is what any later
/// lookup by the same creation index observes: with unique creation
/// indices, the overwritten position is the only one carrying that key.
pub proof fn lemma_note_visible(s: Seq<PaymentRecord>, j: int, q: PaymentRecord, i: int)
    requires
        sorted_by_created(s),
        0 <= j < s.len(),
        q.created_index == s[j].created_index,
        0 <= i < s.len(),
        s.update(j, q)[i].created_index == q.created_index,
    ensures
        s.update(j, q)[i] == q,
{
    if i != j {
        assert(s.update(j, q)[i] == s[i]);
        if i < j {
            assert(s[i].created_index < s[j].created_index);
        } else {
            assert(s[j].created_index < s[i].created_index);
        }
    }
}

/// Law: synchronization is idempotent. A sync applies the remote's delta
/// past cursor `c0` and leaves the cursor at `c1` (exactly what
/// `apply_sync_batch` ensures); with no intervening remote change, the
/// delta past `c1` is empty, so the second run's batch is empty and its
/// summary reports `num_new == 0 && num_updated == 0`.
pub proof fn lemma_sync_idempotent(
    remote: Seq<PaymentRecord>,
    c0: Option<PaymentUpdatedIndex>,
    c1: Option<PaymentUpdatedIndex>,
)
    requires
        ascending_by_updated(remote),
        fetch_since(remote, c0).len() == 0 ==> c1 == c0,
        fetch_since(remote, c0).len() > 0 ==> c1 == Some(
            fetch_since(remote, c0)[fetch_since(remote, c0).len() - 1].updated_index,
        ),
    ensures
        fetch_since(remote, c1).len() == 0,
{
    let pred0 = |p: PaymentRecord| newer_than(c0, p.updated_index);
    let f0 = remote.filter(pred0);
    if f0.len() == 0 {
        assert(fetch_since(remote, c1) == f0);
    } else {
        let m = f0[f0.len() - 1].updated_index;
        lemma_filter_preserves_ascending(remote, pred0);
        remote.lemma_filter_pred(pred0, f0.len() - 1);
        let pred1 = |p: PaymentRecord| newer_than(c1, p.updated_index);
        assert forall|i: int| 0 <= i < remote.len() implies !pred1(remote[i]) by {
            if pred0(remote[i]) {
                remote.lemma_filter_contains(pred0, i);
                let k = choose|k: int| 0 <= k < f0.len() && f0[k] == remote[i];
                assert(remote[i].updated_index <= m);
            } else {
                assert(remote[i].updated_index <= m);
            }
        }
        assert(remote.all(|x: PaymentRecord| !pred1(x)));
        remote.lemma_all_neg_filter_empty(pred1);
    }
}

/// Law: a faithful remote's delta is always applicable. Fetched strictly
/// past the store's cursor and kept in the remote's ascending update order,
/// the batch satisfies everything `apply_sync_batch` requires.
pub proof fn lemma_fetch_applicable(
    remote: Seq<PaymentRecord>,
    s: Seq<PaymentRecord>,
    c: Option<PaymentUpdatedIndex>,
)
    requires
        ascending_by_updated(remote),
        records_wf(remote),
        cursor_ok(s, c),
    ensures
        batch_ok(s, fetch_since(remote, c)),
{
    let pred = |p: PaymentRecord| newer_than(c, p.updated_index);
    let f = remote.filter(pred);
    lemma_filter_preserves_ascending(remote, pred);
    assert forall|i: int| 0 <= i < f.len() implies rec_wf(#[trigger] f[i]) by {
        assert(f.contains(f[i]));
        remote.lemma_filter_contains_rev(pred, f[i]);
        let k = choose|k: int| 0 <= k < remote.len() && remote[k] == f[i];
        assert(rec_wf(remote[k]));
    }
    if f.len() > 0 {
        remote.lemma_filter_pred(pred, 0);
        assert(newer_than(c, f[0].updated_index));
        assert forall|i: int|
            0 <= i < s.len() implies #[trigger] s[i].updated_index < f[0].updated_index by {
            let cv = c->0;
            assert(s[i].updated_index <= cv);
        }
    }
}

/// Filtering preserves strictly ascending update-index order.
proof fn lemma_filter_preserves_ascending(
    s: Seq<PaymentRecord>,
    pred: spec_fn(PaymentRecord) -> bool,
)
    requires
        ascending_by_updated(s),
    ensures
        ascending_by_updated(s.filter(pred)),
    decreases s.len(),
{
    reveal(Seq::filter);
    if s.len() > 0 {
        let d = s.drop_last();
        assert(ascending_by_updated(d));
        lemma_filter_preserves_ascending(d, pred);
        if pred(s.last()) {
            let fd = d.filter(pred);
            assert forall|k: int|
                0 <= k < fd.len() implies fd[k].updated_index < s.last().updated_index by {
                assert(fd.contains(fd[k]));
                d.lemma_filter_contains_rev(pred, fd[k]);
                let i = choose|i: int| 0 <= i < d.len() && d[i] == fd[k];
                assert(s[i] == d[i]);
                assert(s[i].updated_index < s[s.len() - 1].updated_index);
            }
            assert(s.filter(pred) == fd.push(s.last()));
        } else {
            assert(s.filter(pred) == d.filter(pred));
        }
    }
}

/// The loop characterization of `first_geq`.
proof fn lemma_first_geq(s: Seq<PaymentRecord>, c: PaymentCreatedIndex, j: int)
    requires
        0 <= j <= s.len(),
        forall|k: int| 0 <= k < j ==> (#[trigger] s[k]).created_index < c,
        j < s.len() ==> s[j].created_index >= c,
    ensures
        first_geq(s, c) == j,
    decreases s.len(),
{
    if s.len() == 0 {
    } else if j == 0 {
    } else {
        assert(s[0].created_index < c);
        let d = s.drop_first();
        assert forall|k: int| 0 <= k < j - 1 implies (#[trigger] d[k]).created_index < c by {
            assert(d[k] == s[k + 1]);
        }
        assert(j - 1 < d.len() ==> d[j - 1].created_index >= c);
        lemma_first_geq(d, c, j - 1);
    }
}

/// Unrolling `apply_batch` and `count_new` at the end of the batch.
proof fn lemma_apply_batch_push(s: Seq<PaymentRecord>, b: Seq<PaymentRecord>, p: PaymentRecord)
    ensures
        apply_batch(s, b.push(p)) == apply_one(apply_batch(s, b), p),
        count_new(s, b.push(p)) == count_new(s, b) + (if is_new(
            apply_batch(s, b),
            p.created_index,
        ) {
            1nat
        } else {
            0nat
        }),
    decreases b.len(),
{
    if b.len() == 0 {
        assert(b.push(p)[0] == p);
        assert(b.push(p).drop_first() =~= b);
        assert(apply_batch(s, b.push(p)) == apply_batch(apply_one(s, p), b));
        assert(apply_batch(apply_one(s, p), b) == apply_one(s, p));
        assert(apply_batch(s, b) == s);
        assert(count_new(s, b.push(p)) == (if is_new(s, p.created_index) {
            1nat
        } else {
            0nat
        }) + count_new(apply_one(s, p), b));
        assert(count_new(apply_one(s, p), b) == 0);
        assert(count_new(s, b) == 0);
    } else {
        assert(b.push(p)[0] == b[0]);
        assert(b.push(p).drop_first() =~= b.drop_first().push(p));
        lemma_apply_batch_push(apply_one(s, b[0]), b.drop_first(), p);
        assert(apply_batch(s, b.push(p)) == apply_batch(
            apply_one(s, b[0]),
            b.drop_first().push(p),
        ));
        assert(apply_batch(s, b) == apply_batch(apply_one(s, b[0]), b.drop_first()));
        assert(count_new(s, b.push(p)) == (if is_new(s, b[0].created_index) {
            1nat
        } else {
            0nat
        }) + count_new(apply_one(s, b[0]), b.drop_first().push(p)));
        assert(count_new(s, b) == (if is_new(s, b[0].created_index) {
            1nat
        } else {
            0nat
        }) + count_new(apply_one(s, b[0]), b.drop_first()));
    }
}

/// The filtered length after overwriting position `j`: the old record's
/// category leaves the count, the new record's category enters it.
proof fn lemma_view_update(s: Seq<PaymentRecord>, j: int, p: PaymentRecord, kind: ViewKind)
    requires
        0 <= j < s.len(),
    ensures
        filtered_view(s.update(j, p), kind).len() == filtered_view(s, kind).len() - (if matches_view(
            s[j],
            kind,
        ) {
            1int
        } else {
            0int
        }) + (if matches_view(p, kind) {
            1int
        } else {
            0int
        }),
        filtered_view(s, kind).len() >= (if matches_view(s[j], kind) {
            1int
        } else {
            0int
        }),
        filtered_view(s.update(j, p), kind).len() <= s.len(),
{
    let pred = |q: PaymentRecord| matches_view(q, kind);
    let t = s.update(j, p);
    assert(s =~= (s.take(j) + seq![s[j]]) + s.skip(j + 1));
    assert(t =~= (s.take(j) + seq![p]) + s.skip(j + 1));
    Seq::filter_distributes_over_add(s.take(j) + seq![s[j]], s.skip(j + 1), pred);
    Seq::filter_distributes_over_add(s.take(j), seq![s[j]], pred);
    Seq::filter_distributes_over_add(s.take(j) + seq![p], s.skip(j + 1), pred);
    Seq::filter_distributes_over_add(s.take(j), seq![p], pred);
    lemma_filter_singleton(s[j], pred);
    lemma_filter_singleton(p, pred);
    s.take(j).lemma_filter_len(pred);
    s.skip(j + 1).lemma_filter_len(pred);
}

/// The filtered length after inserting at position `j`: the new record's
/// category enters the count.
proof fn lemma_view_insert(s: Seq<PaymentRecord>, j: int, p: PaymentRecord, kind: ViewKind)
    requires
        0 <= j <= s.len(),
    ensures
        filtered_view(s.insert(j, p), kind).len() == filtered_view(s, kind).len() + (
        if matches_view(p, kind) {
            1int
        } else {
            0int
        }),
        filtered_view(s.insert(j, p), kind).len() <= s.len() + 1,
        filtered_view(s, kind).len() <= s.len(),
{
    let pred = |q: PaymentRecord| matches_view(q, kind);
    assert(s =~= s.take(j) + s.skip(j));
    assert(s.insert(j, p) =~= (s.take(j) + seq![p]) + s.skip(j));
    Seq::filter_distributes_over_add(s.take(j), s.skip(j), pred);
    Seq::filter_distributes_over_add(s.take(j) + seq![p], s.skip(j), pred);
    Seq::filter_distributes_over_add(s.take(j), seq![p], pred);
    lemma_filter_singleton(p, pred);
    s.take(j).lemma_filter_len(pred);
    s.skip(j).lemma_filter_len(pred);
}

/// Filtering a singleton keeps or drops its one element.
proof fn lemma_filter_singleton(p: PaymentRecord, pred: spec_fn(PaymentRecord) -> bool)
    ensures
        seq![p].filter(pred) == if pred(p) {
            seq![p]
        } else {
            Seq::<PaymentRecord>::empty()
        },
{
    reveal(Seq::filter);
    lemma_filter_empty(pred);
    assert(seq![p].drop_last() =~= Seq::<PaymentRecord>::empty());
    assert(seq![p].last() == p);
    assert(Seq::<PaymentRecord>::empty().push(p) =~= seq![p]);
}

/// When the element at `j` matches, it stands in the filtered sequence at
/// the position given by how many earlier elements match.
proof fn lemma_filter_found(s: Seq<PaymentRecord>, pred: spec_fn(PaymentRecord) -> bool, j: int)
    requires
        0 <= j < s.len(),
        pred(s[j]),
    ensures
        s.take(j).filter(pred).len() < s.filter(pred).len(),
        s.filter(pred)[s.take(j).filter(pred).len() as int] == s[j],
{
    lemma_filter_take_succ(s, pred, j);
    assert(s =~= s.take(j + 1) + s.skip(j + 1));
    Seq::filter_distributes_over_add(s.take(j + 1), s.skip(j + 1), pred);
    assert(s.filter(pred) == s.take(j + 1).filter(pred) + s.skip(j + 1).filter(pred));
    let i = s.take(j).filter(pred).len() as int;
    assert(s.take(j + 1).filter(pred)[i] == s[j]);
}

} // verus!
