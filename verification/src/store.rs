//! The capture table and its three operations: create, list pending, and
//! mark processed.
//!
//! `CaptureStore` models the one relational table the service is bound to:
//! a sequence of rows in insertion order, plus the id the store will assign
//! next. Each operation is specified against that sequence exactly as the
//! corresponding single SQL statement behaves: create appends one fully
//! populated row, mark-processed is a conditional update guarded on the row
//! still being pending, and the pending list is the pending rows ordered by
//! creation time.

use vstd::prelude::*;

use crate::capture::Capture;
use crate::capture::ErrorKind;
use crate::capture::MarkOutcome;

verus! {

/// Rows are ordered by creation time, oldest first (nondecreasing, since
/// distinct rows may share a clock reading).
pub open spec fn sorted_by_created(s: Seq<Capture>) -> bool {
    forall|i: int, j: int| 0 <= i <= j < s.len() ==> s[i].created_at <= s[j].created_at
}

/// Ids are assigned in strictly increasing order, so no id is ever reused.
pub open spec fn ids_strictly_increasing(s: Seq<Capture>) -> bool {
    forall|i: int, j: int| 0 <= i < j < s.len() ==> s[i].id < s[j].id
}

/// Some row carries this id.
pub open spec fn has_id(s: Seq<Capture>, id: u32) -> bool {
    exists|i: int| 0 <= i < s.len() && s[i].id == id
}

/// Some pending row carries this id.
pub open spec fn has_pending_id(s: Seq<Capture>, id: u32) -> bool {
    exists|i: int| 0 <= i < s.len() && s[i].id == id && s[i].is_pending()
}

/// The pending rows of `s`, in the order they stand in `s`.
pub open spec fn pending_rows(s: Seq<Capture>) -> Seq<Capture>
    decreases s.len(),
{
    if s.len() == 0 {
        Seq::empty()
    } else if s.last().is_pending() {
        pending_rows(s.drop_last()).push(s.last())
    } else {
        pending_rows(s.drop_last())
    }
}

/// The row `c` after the mark-processed operation has stamped it.
pub open spec fn processed_version(c: Capture, now: u64) -> Capture {
    Capture { id: c.id, content: c.content, created_at: c.created_at, processed_at: Some(now) }
}

/// The effect of a successful create: one fully populated row is appended,
/// carrying the id the store had reserved, and the next id moves past it.
pub open spec fn creates_row(
    pre: CaptureStore,
    post: CaptureStore,
    content: String,
    now: u64,
) -> bool {
    &&& post.captures@ == pre.captures@.push(
        (Capture { id: pre.next_id, content: content, created_at: now, processed_at: None }),
    )
    &&& post.next_id == pre.next_id + 1
}

/// The effect of a successful mark-processed: some pending row carried the
/// id, every row carrying the id is stamped with `now`, and every other row
/// is untouched.
pub open spec fn marks_row(pre: Seq<Capture>, post: Seq<Capture>, id: u32, now: u64) -> bool {
    &&& has_pending_id(pre, id)
    &&& post.len() == pre.len()
    &&& forall|i: int| 0 <= i < pre.len() && pre[i].id != id ==> post[i] == pre[i]
    &&& forall|i: int|
        0 <= i < pre.len() && pre[i].id == id ==> post[i] == processed_version(pre[i], now)
}

/// The one table of the service: rows in insertion order, and the id the
/// store hands to the next created capture.
pub struct CaptureStore {
    pub captures: Vec<Capture>,
    pub next_id: u32,
}

impl CaptureStore {
    /// The store's standing invariant: ids grow strictly with insertion
    /// order, and every assigned id lies below the one reserved next.
    pub open spec fn wf(self) -> bool {
        &&& ids_strictly_increasing(self.captures@)
        &&& forall|i: int| 0 <= i < self.captures@.len() ==> self.captures@[i].id < self.next_id
    }

    /// An empty table; the first capture will receive id 1.
    pub fn new() -> (s: Self)
        ensures
            s.wf(),
            s.captures@ == Seq::<Capture>::empty(),
            s.next_id == 1,
    {
        CaptureStore { captures: Vec::new(), next_id: 1 }
    }

    /// Create a capture: insert one row holding the given content, stamped
    /// with the store's current time and still pending. Returns the id the
    /// store assigned.
    pub fn create(&mut self, content: String, now: u64) -> (id: u32)
        requires
            old(self).wf(),
            old(self).next_id < u32::MAX,
        ensures
            final(self).wf(),
            id == old(self).next_id,
            creates_row(*old(self), *final(self), content, now),
    {
        let id = self.next_id;
        self.next_id = self.next_id + 1;
        self.captures.push(Capture { id, content, created_at: now, processed_at: None });
        id
    }

    /// Mark the capture with this id processed, but only if it exists and is
    /// still pending: the conditional update that guards against
    /// double-processing. Exactly one row changes on `Marked`; the other two
    /// outcomes leave the table untouched and report why.
    pub fn mark_processed(&mut self, id: u32, now: u64) -> (r: MarkOutcome)
        requires
            old(self).wf(),
        ensures
            final(self).wf(),
            final(self).next_id == old(self).next_id,
            r is Marked ==> marks_row(old(self).captures@, final(self).captures@, id, now),
            r is AlreadyProcessed ==> final(self).captures@ == old(self).captures@
                && has_id(old(self).captures@, id)
                && !has_pending_id(old(self).captures@, id),
            r is NotFound ==> final(self).captures@ == old(self).captures@
                && !has_id(old(self).captures@, id),
            r is Marked <==> has_pending_id(old(self).captures@, id),
    {
        let n = self.captures.len();
        let mut i: usize = 0;
        while i < n
            invariant
                n == self.captures@.len(),
                i <= n,
                *self == *old(self),
                old(self).wf(),
                forall|j: int| 0 <= j < i ==> self.captures@[j].id != id,
            decreases n - i,
        {
            if self.captures[i].id == id {
                if self.captures[i].processed_at.is_none() {
                    let row = &self.captures[i];
                    let stamped = Capture {
                        id: row.id,
                        content: row.content.clone(),
                        created_at: row.created_at,
                        processed_at: Some(now),
                    };
                    self.captures[i] = stamped;
                    proof {
                        assert forall|j: int|
                            0 <= j < old(self).captures@.len() && old(self).captures@[j].id
                                == id implies j == i as int by {
                            if j != i as int {
                                if j < i as int {
                                    assert(old(self).captures@[j].id != id);
                                } else {
                                    assert(old(self).captures@[i as int].id
                                        < old(self).captures@[j].id);
                                }
                            }
                        }
                    }
                    return MarkOutcome::Marked;
                } else {
                    return MarkOutcome::AlreadyProcessed;
                }
            }
            i = i + 1;
        }
        MarkOutcome::NotFound
    }

    /// List the pending captures: every row still pending, and no other,
    /// ordered by creation time ascending — the FIFO queue of open work.
    /// Read-only; the table is untouched.
    pub fn pending(&self) -> (r: Vec<Capture>)
        requires
            self.wf(),
        ensures
            sorted_by_created(r@),
            r@.to_multiset() == pending_rows(self.captures@).to_multiset(),
            forall|k: int|
                0 <= k < r@.len() ==> (#[trigger] r@[k]).is_pending() && self.captures@.contains(
                    r@[k],
                ),
    {
        let n = self.captures.len();
        let mut picked: Vec<Capture> = Vec::new();
        let mut i: usize = 0;
        while i < n
            invariant
                n == self.captures@.len(),
                i <= n,
                picked@ == pending_rows(self.captures@.subrange(0, i as int)),
            decreases n - i,
        {
            proof {
                let pre = self.captures@.subrange(0, i as int);
                let cur = self.captures@.subrange(0, i as int + 1);
                assert(cur.drop_last() =~= pre);
                assert(cur.last() == self.captures@[i as int]);
            }
            if self.captures[i].processed_at.is_none() {
                picked.push(self.captures[i].clone());
            }
            i = i + 1;
        }
        proof {
            assert(self.captures@.subrange(0, n as int) =~= self.captures@);
        }
        let listed = sort_by_created(picked);
        proof {
            broadcast use vstd::seq_lib::group_to_multiset_ensures;
            broadcast use vstd::multiset::group_multiset_axioms;

            let rows = pending_rows(self.captures@);
            lemma_pending_rows_pending(self.captures@);
            assert forall|k: int|
                0 <= k < listed@.len() implies (#[trigger] listed@[k]).is_pending()
                && self.captures@.contains(listed@[k]) by {
                assert(listed@.contains(listed@[k]));
                assert(listed@.to_multiset().count(listed@[k]) > 0);
                assert(rows.to_multiset().count(listed@[k]) > 0);
                assert(rows.contains(listed@[k]));
                let w = choose|j: int| 0 <= j < rows.len() && rows[j] == listed@[k];
                assert(rows[w].is_pending() && self.captures@.contains(rows[w]));
            }
        }
        listed
    }

    /// The create operation at the request boundary: a request without a
    /// content field is a bad request and leaves the table untouched; one
    /// with content — empty text included — creates the capture.
    pub fn handle_create(&mut self, content: Option<String>, now: u64) -> (r: Result<
        u32,
        ErrorKind,
    >)
        requires
            old(self).wf(),
            old(self).next_id < u32::MAX,
        ensures
            final(self).wf(),
            (match content {
                Some(text) => r == Ok::<u32, ErrorKind>(old(self).next_id) && creates_row(
                    *old(self),
                    *final(self),
                    text,
                    now,
                ),
                None => r == Err::<u32, ErrorKind>(ErrorKind::BadRequest) && *final(self) == *old(
                    self,
                ),
            }),
    {
        match content {
            Some(text) => Ok(self.create(text, now)),
            None => Err(ErrorKind::BadRequest),
        }
    }
}

/// Every row of the pending list is pending and comes from the table.
pub proof fn lemma_pending_rows_pending(s: Seq<Capture>)
    ensures
        forall|k: int|
            0 <= k < pending_rows(s).len() ==> (#[trigger] pending_rows(s)[k]).is_pending()
                && s.contains(pending_rows(s)[k]),
    decreases s.len(),
{
    if s.len() > 0 {
        lemma_pending_rows_pending(s.drop_last());
        let q = pending_rows(s.drop_last());
        assert forall|k: int|
            0 <= k < pending_rows(s).len() implies (#[trigger] pending_rows(s)[k]).is_pending()
            && s.contains(pending_rows(s)[k]) by {
            let c = pending_rows(s)[k];
            if k < q.len() {
                assert(c == q[k]);
                let w = choose|i: int| 0 <= i < s.drop_last().len() && s.drop_last()[i] == c;
                assert(s[w] == c);
            } else {
                assert(c == s.last());
                assert(s[s.len() - 1] == c);
            }
        }
    }
}

/// Every pending row of the table appears in the pending list.
pub proof fn lemma_pending_rows_complete(s: Seq<Capture>, i: int)
    requires
        0 <= i < s.len(),
        s[i].is_pending(),
    ensures
        pending_rows(s).contains(s[i]),
    decreases s.len(),
{
    let p = pending_rows(s);
    if i == s.len() - 1 {
        assert(p[p.len() - 1] == s[i]);
    } else {
        lemma_pending_rows_complete(s.drop_last(), i);
        let q = pending_rows(s.drop_last());
        let w = choose|j: int| 0 <= j < q.len() && q[j] == s.drop_last()[i];
        assert(p[w] == s[i]);
    }
}

/// The service as it is assembled at launch: bound to an empty capture
/// table, ready to serve the three operations. Route wiring and the
/// connection pool stay at the process boundary; this is the state they
/// serve from.
pub fn rocket() -> (s: CaptureStore)
    ensures
        s.wf(),
        s.captures@ == Seq::<Capture>::empty(),
        s.next_id == 1,
{
    CaptureStore::new()
}

/// The index of a row with the least creation time.
fn index_of_min_created(v: &Vec<Capture>) -> (m: usize)
    requires
        v@.len() > 0,
    ensures
        m < v@.len(),
        forall|j: int| 0 <= j < v@.len() ==> v@[m as int].created_at <= v@[j].created_at,
{
    let mut m: usize = 0;
    let mut k: usize = 1;
    while k < v.len()
        invariant
            m < k,
            k <= v@.len(),
            forall|j: int| 0 <= j < k ==> v@[m as int].created_at <= v@[j].created_at,
        decreases v@.len() - k,
    {
        if v[k].created_at < v[m].created_at {
            m = k;
        }
        k = k + 1;
    }
    m
}

/// Selection sort on creation time: repeatedly move an earliest-created row
/// over. The result is the same collection of rows, ordered oldest first.
fn sort_by_created(input: Vec<Capture>) -> (r: Vec<Capture>)
    ensures
        sorted_by_created(r@),
        r@.to_multiset() == input@.to_multiset(),
{
    let mut rest = input;
    let mut out: Vec<Capture> = Vec::new();
    proof {
        broadcast use vstd::seq_lib::group_to_multiset_ensures;
        broadcast use vstd::multiset::group_multiset_axioms;

        assert forall|x: Capture| out@.to_multiset().count(x) == 0 by {
            assert(!out@.contains(x));
        }
        assert(out@.to_multiset().add(rest@.to_multiset()) =~= input@.to_multiset());
    }
    while rest.len() > 0
        invariant
            out@.to_multiset().add(rest@.to_multiset()) == input@.to_multiset(),
            sorted_by_created(out@),
            forall|i: int, j: int|
                0 <= i < out@.len() && 0 <= j < rest@.len() ==> out@[i].created_at
                    <= rest@[j].created_at,
        decreases rest@.len(),
    {
        let ghost rest_before = rest@;
        let ghost out_before = out@;
        let m = index_of_min_created(&rest);
        let c = rest.remove(m);
        out.push(c);
        proof {
            broadcast use vstd::seq_lib::group_to_multiset_ensures;
            broadcast use vstd::multiset::group_multiset_axioms;

            let picked = rest_before[m as int];
            assert(rest_before.contains(picked));
            assert(rest_before.to_multiset().count(picked) > 0);
            assert(out@ == out_before.push(picked));
            assert(out_before.push(picked).to_multiset() == out_before.to_multiset().insert(
                picked,
            ));
            assert(rest@ == rest_before.remove(m as int));
            assert(rest_before.remove(m as int).to_multiset() == rest_before.to_multiset().remove(
                picked,
            ));
            assert(out@.to_multiset().add(rest@.to_multiset()) =~= input@.to_multiset());
            assert forall|i: int, j: int|
                0 <= i < out@.len() && 0 <= j < rest@.len() implies out@[i].created_at
                <= rest@[j].created_at by {
                if j < m as int {
                    assert(rest@[j] == rest_before[j]);
                } else {
                    assert(rest@[j] == rest_before[j + 1]);
                }
            }
        }
    }
    out
}

} // verus!
