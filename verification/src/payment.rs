//! The canonical payment record and the well-formedness predicates shared by
//! the store and its synchronization engine.

use vstd::prelude::*;

verus! {

/// A payment's creation index: assigned once when the payment is first
/// observed, never reused; the store's primary key and its global creation
/// order.
pub type PaymentCreatedIndex = u64;

/// A payment's update index: bumped on every mutation of the record; doubles
/// as the incremental-sync cursor.
pub type PaymentUpdatedIndex = u64;

/// A payment's lifecycle status.
#[derive(Clone, Copy, PartialEq, Eq, Structural, Debug)]
pub enum PaymentStatus {
    /// Still in flight or awaiting settlement.
    Pending,
    /// Reached a terminal state (settled or failed).
    Finalized,
}

/// The canonical unit held by the store. The invoice reference and direction
/// are protocol payload carried through unchanged; the indices, status, junk
/// flag and note are what the store's logic reads.
pub struct PaymentRecord {
    /// Primary key; unique across the store.
    pub created_index: PaymentCreatedIndex,
    /// Strictly increases on every mutation of this record.
    pub updated_index: PaymentUpdatedIndex,
    /// Lifecycle status.
    pub status: PaymentStatus,
    /// Marks the record as excluded from the not-junk views; the record is
    /// retained either way.
    pub is_junk: bool,
    /// Optional human note.
    pub note: Option<String>,
    /// Amount in millisatoshis, if known.
    pub amount_msat: Option<u64>,
    /// Opaque invoice reference.
    pub invoice: Option<String>,
}

impl Clone for PaymentRecord {
    fn clone(&self) -> (r: Self)
        ensures
            r == *self,
    {
        PaymentRecord {
            created_index: self.created_index,
            updated_index: self.updated_index,
            status: self.status,
            is_junk: self.is_junk,
            note: self.note.clone(),
            amount_msat: self.amount_msat,
            invoice: self.invoice.clone(),
        }
    }
}

/// A request to replace the note of the payment with the given creation index.
pub struct UpdatePaymentNote {
    /// Creation index of the target payment.
    pub index: PaymentCreatedIndex,
    /// The new note; `None` clears it.
    pub note: Option<String>,
}

/// A single record is well formed when its update index has not fallen behind
/// the index it was created at.
pub open spec fn rec_wf(p: PaymentRecord) -> bool {
    p.created_index <= p.updated_index
}

/// True of a pending record.
pub open spec fn is_pending(p: PaymentRecord) -> bool {
    p.status is Pending
}

/// True of a finalized record.
pub open spec fn is_finalized(p: PaymentRecord) -> bool {
    p.status is Finalized
}

/// True of a pending record not marked junk.
pub open spec fn is_pending_not_junk(p: PaymentRecord) -> bool {
    p.status is Pending && !p.is_junk
}

/// True of a finalized record not marked junk.
pub open spec fn is_finalized_not_junk(p: PaymentRecord) -> bool {
    p.status is Finalized && !p.is_junk
}

} // verus!
