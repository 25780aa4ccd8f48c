//! The guarantees the capture lifecycle gives across operations: marking is
//! terminal, processed captures stay out of the pending list for good, and
//! ids are never reassigned.

use vstd::prelude::*;

use crate::capture::Capture;
use crate::store::CaptureStore;
use crate::store::creates_row;
use crate::store::has_id;
use crate::store::has_pending_id;
use crate::store::lemma_pending_rows_pending;
use crate::store::marks_row;
use crate::store::pending_rows;
use crate::store::processed_version;

verus! {

/// Marking is terminal: once a mark-processed has succeeded on an id, the
/// capture with that id is processed with the stamp of that call, and no
/// pending capture with that id is left — so a second call on the same id
/// can only find it already processed, affect zero rows, and leave its
/// `processed_at` as it is.
pub proof fn lemma_mark_is_terminal(pre: Seq<Capture>, post: Seq<Capture>, id: u32, now: u64)
    requires
        marks_row(pre, post, id, now),
    ensures
        has_id(post, id),
        !has_pending_id(post, id),
        forall|i: int|
            0 <= i < post.len() && (#[trigger] post[i]).id == id ==> post[i].processed_at == Some(
                now,
            ),
{
    let w = choose|i: int| 0 <= i < pre.len() && pre[i].id == id && pre[i].is_pending();
    assert(post[w] == processed_version(pre[w], now));
    assert forall|i: int| 0 <= i < post.len() && (#[trigger] post[i]).id == id implies post[i]
        .processed_at == Some(now) by {
        if pre[i].id == id {
            assert(post[i] == processed_version(pre[i], now));
        } else {
            assert(post[i] == pre[i]);
        }
    }
}

/// A capture that is not pending never shows in the pending list.
pub proof fn lemma_processed_not_pending(s: Seq<Capture>, id: u32)
    requires
        !has_pending_id(s, id),
    ensures
        forall|k: int| 0 <= k < pending_rows(s).len() ==> (#[trigger] pending_rows(s)[k]).id != id,
{
    lemma_pending_rows_pending(s);
    assert forall|k: int| 0 <= k < pending_rows(s).len() implies (#[trigger] pending_rows(
        s,
    )[k]).id != id by {
        let c = pending_rows(s)[k];
        if c.id == id {
            let w = choose|i: int| 0 <= i < s.len() && s[i] == c;
            assert(s[w].id == id && s[w].is_pending());
            assert(false);
        }
    }
}

/// A processed capture survives a create untouched: it is still there and
/// still processed, because the new row carries a fresh id of its own.
pub proof fn lemma_processed_survives_create(
    pre: CaptureStore,
    post: CaptureStore,
    content: String,
    now: u64,
    id: u32,
)
    requires
        pre.wf(),
        creates_row(pre, post, content, now),
        has_id(pre.captures@, id),
        !has_pending_id(pre.captures@, id),
    ensures
        has_id(post.captures@, id),
        !has_pending_id(post.captures@, id),
{
    let s = pre.captures@;
    let t = post.captures@;
    let w = choose|i: int| 0 <= i < s.len() && s[i].id == id;
    assert(t[w].id == id);
    assert forall|i: int|
        0 <= i < t.len() && (#[trigger] t[i]).id == id implies !t[i].is_pending() by {
        if i < s.len() {
            assert(t[i] == s[i]);
            assert(s[i].id == id && s[i].is_pending() ==> has_pending_id(s, id));
        } else {
            assert(t[i].id == pre.next_id);
            assert(s[w].id < pre.next_id);
        }
    }
}

/// A processed capture survives any later mark-processed untouched, whatever
/// id that call targets: no operation ever resets `processed_at`.
pub proof fn lemma_processed_survives_mark(
    pre: Seq<Capture>,
    post: Seq<Capture>,
    other: u32,
    now: u64,
    id: u32,
)
    requires
        marks_row(pre, post, other, now),
        !has_pending_id(pre, id),
    ensures
        !has_pending_id(post, id),
        has_id(pre, id) ==> has_id(post, id),
{
    assert forall|i: int|
        0 <= i < post.len() && (#[trigger] post[i]).id == id implies !post[i].is_pending() by {
        if pre[i].id == other {
            assert(post[i] == processed_version(pre[i], now));
        } else {
            assert(post[i] == pre[i]);
            assert(pre[i].id == id && pre[i].is_pending() ==> has_pending_id(pre, id));
        }
    }
    if has_id(pre, id) {
        let w = choose|i: int| 0 <= i < pre.len() && pre[i].id == id;
        assert(post[w].id == id);
    }
}

/// The id the store will assign next is fresh: no existing row carries it,
/// so a create never reuses an id.
pub proof fn lemma_created_id_fresh(s: CaptureStore)
    requires
        s.wf(),
    ensures
        !has_id(s.captures@, s.next_id),
{
    assert forall|i: int|
        0 <= i < s.captures@.len() implies (#[trigger] s.captures@[i]).id != s.next_id by {
        assert(s.captures@[i].id < s.next_id);
    }
}

/// A create touches no existing row: every already assigned id still names
/// the very capture it was assigned to.
pub proof fn lemma_ids_stable_under_create(
    pre: CaptureStore,
    post: CaptureStore,
    content: String,
    now: u64,
)
    requires
        creates_row(pre, post, content, now),
    ensures
        post.captures@.len() == pre.captures@.len() + 1,
        forall|i: int| 0 <= i < pre.captures@.len() ==> post.captures@[i] == pre.captures@[i],
{
}

/// A mark-processed changes no id: every row keeps the id it was created
/// with, and its content and creation time besides.
pub proof fn lemma_ids_stable_under_mark(pre: Seq<Capture>, post: Seq<Capture>, id: u32, now: u64)
    requires
        marks_row(pre, post, id, now),
    ensures
        forall|i: int|
            0 <= i < pre.len() ==> (#[trigger] post[i]).id == pre[i].id && post[i].content
                == pre[i].content && post[i].created_at == pre[i].created_at,
{
    assert forall|i: int|
        0 <= i < pre.len() implies (#[trigger] post[i]).id == pre[i].id && post[i].content
        == pre[i].content && post[i].created_at == pre[i].created_at by {
        if pre[i].id == id {
            assert(post[i] == processed_version(pre[i], now));
        } else {
            assert(post[i] == pre[i]);
        }
    }
}

} // verus!
