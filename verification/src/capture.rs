//! The capture record and the small value types that describe the outcome of
//! the service's operations.

use vstd::prelude::*;

verus! {

/// A single user-submitted text note.
///
/// `id` is assigned by the store at creation and is immutable afterwards.
/// `content` is supplied by the client and never updated. `created_at` is the
/// store's clock reading at insertion. `processed_at` is `None` while the
/// capture is pending and is set at most once, by the mark-processed
/// operation; it is never reset.
pub struct Capture {
    pub id: u32,
    pub content: String,
    pub created_at: u64,
    pub processed_at: Option<u64>,
}

impl Capture {
    /// A capture is pending exactly when it has not been marked processed.
    pub open spec fn is_pending(self) -> bool {
        self.processed_at is None
    }
}

impl Clone for Capture {
    fn clone(&self) -> (r: Self)
        ensures
            r == *self,
    {
        Capture {
            id: self.id,
            content: self.content.clone(),
            created_at: self.created_at,
            processed_at: self.processed_at,
        }
    }
}

/// How a mark-processed request ended.
///
/// Exactly one row is updated on `Marked`; the other two outcomes update
/// nothing and tell the caller apart whether the id was unknown or the
/// capture had already been processed.
#[derive(Clone, Copy, Debug, PartialEq, Eq, Structural)]
pub enum MarkOutcome {
    Marked,
    NotFound,
    AlreadyProcessed,
}

impl MarkOutcome {
    /// The number of rows the conditional update touched: one on success,
    /// zero otherwise.
    pub fn rows_affected(&self) -> (n: usize)
        ensures
            n == (if *self is Marked { 1int } else { 0int }),
    {
        match self {
            MarkOutcome::Marked => 1,
            MarkOutcome::NotFound => 0,
            MarkOutcome::AlreadyProcessed => 0,
        }
    }
}

/// The failure taxonomy of the service.
///
/// `BadRequest` is malformed client input (a create without content).
/// `StoreUnavailable` is a failure to reach the store at all;
/// `StoreError` is a failure while executing a statement. The store variants
/// are produced at the I/O boundary and are mapped to 5xx responses here.
#[derive(Clone, Copy, Debug, PartialEq, Eq, Structural)]
pub enum ErrorKind {
    BadRequest,
    StoreUnavailable,
    StoreError,
}

impl ErrorKind {
    /// The HTTP status class each failure is surfaced with: client errors as
    /// 400, an unreachable store as 503, a failing statement as 500.
    pub open spec fn status_spec(self) -> u16 {
        match self {
            ErrorKind::BadRequest => 400,
            ErrorKind::StoreUnavailable => 503,
            ErrorKind::StoreError => 500,
        }
    }

    /// The HTTP status code that reports this failure to the client.
    pub fn status_code(&self) -> (s: u16)
        ensures
            s == self.status_spec(),
    {
        match self {
            ErrorKind::BadRequest => 400,
            ErrorKind::StoreUnavailable => 503,
            ErrorKind::StoreError => 500,
        }
    }
}

} // verus!
