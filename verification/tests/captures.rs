use captures::capture::ErrorKind;
use captures::capture::MarkOutcome;
use captures::store::CaptureStore;

#[test]
fn single_capture_is_listed_pending() {
    let mut store = CaptureStore::new();
    store.create("buy milk".to_string(), 100);
    let pending = store.pending();
    assert_eq!(pending.len(), 1);
    assert_eq!(pending[0].content, "buy milk");
    assert_eq!(pending[0].processed_at, None);
    assert_eq!(pending[0].created_at, 100);
}

#[test]
fn two_captures_come_back_oldest_first() {
    let mut store = CaptureStore::new();
    store.create("a".to_string(), 10);
    store.create("b".to_string(), 20);
    let pending = store.pending();
    assert_eq!(pending.len(), 2);
    assert_eq!(pending[0].content, "a");
    assert_eq!(pending[1].content, "b");
}

#[test]
fn out_of_order_clock_readings_are_still_listed_in_time_order() {
    let mut store = CaptureStore::new();
    store.create("late".to_string(), 30);
    store.create("early".to_string(), 10);
    store.create("middle".to_string(), 20);
    let pending = store.pending();
    assert_eq!(pending.len(), 3);
    assert_eq!(pending[0].content, "early");
    assert_eq!(pending[1].content, "middle");
    assert_eq!(pending[2].content, "late");
    assert!(pending[0].created_at <= pending[1].created_at);
    assert!(pending[1].created_at <= pending[2].created_at);
}

#[test]
fn equal_clock_readings_keep_every_capture_listed() {
    let mut store = CaptureStore::new();
    store.create("one".to_string(), 50);
    store.create("two".to_string(), 50);
    let pending = store.pending();
    assert_eq!(pending.len(), 2);
    assert!(pending.iter().any(|c| c.content == "one"));
    assert!(pending.iter().any(|c| c.content == "two"));
}

#[test]
fn first_capture_gets_id_one_and_marking_it_empties_the_list() {
    let mut store = CaptureStore::new();
    let id = store.create("task".to_string(), 5);
    assert_eq!(id, 1);
    let outcome = store.mark_processed(1, 6);
    assert_eq!(outcome, MarkOutcome::Marked);
    assert_eq!(outcome.rows_affected(), 1);
    assert_eq!(store.pending().len(), 0);
}

#[test]
fn marking_a_nonexistent_id_affects_zero_rows() {
    let mut store = CaptureStore::new();
    store.create("task".to_string(), 5);
    let outcome = store.mark_processed(999, 6);
    assert_eq!(outcome, MarkOutcome::NotFound);
    assert_eq!(outcome.rows_affected(), 0);
    assert_eq!(store.pending().len(), 1);
}

#[test]
fn marking_twice_affects_zero_rows_the_second_time() {
    let mut store = CaptureStore::new();
    let id = store.create("task".to_string(), 5);
    let first = store.mark_processed(id, 6);
    assert_eq!(first, MarkOutcome::Marked);
    assert_eq!(first.rows_affected(), 1);
    let second = store.mark_processed(id, 99);
    assert_eq!(second, MarkOutcome::AlreadyProcessed);
    assert_eq!(second.rows_affected(), 0);
}

#[test]
fn a_second_mark_does_not_move_the_processed_stamp() {
    let mut store = CaptureStore::new();
    let id = store.create("task".to_string(), 5);
    store.mark_processed(id, 6);
    store.mark_processed(id, 99);
    assert_eq!(store.captures[0].processed_at, Some(6));
}

#[test]
fn a_processed_capture_never_reappears_in_the_pending_list() {
    let mut store = CaptureStore::new();
    let id = store.create("done".to_string(), 1);
    store.create("open".to_string(), 2);
    store.mark_processed(id, 3);
    store.create("later".to_string(), 4);
    store.mark_processed(999, 5);
    let pending = store.pending();
    assert_eq!(pending.len(), 2);
    assert!(pending.iter().all(|c| c.id != id));
    assert!(pending.iter().all(|c| c.processed_at.is_none()));
}

#[test]
fn ids_are_stable_and_never_reused() {
    let mut store = CaptureStore::new();
    let a = store.create("a".to_string(), 1);
    let b = store.create("b".to_string(), 2);
    store.mark_processed(a, 3);
    let c = store.create("c".to_string(), 4);
    assert_eq!((a, b, c), (1, 2, 3));
    assert_eq!(store.captures[0].id, a);
    assert_eq!(store.captures[0].content, "a");
    assert_eq!(store.captures[1].id, b);
    assert_eq!(store.captures[2].id, c);
}

#[test]
fn create_without_content_is_a_bad_request_and_writes_nothing() {
    let mut store = CaptureStore::new();
    let r = store.handle_create(None, 7);
    assert_eq!(r, Err(ErrorKind::BadRequest));
    assert_eq!(store.captures.len(), 0);
    assert_eq!(store.pending().len(), 0);
}

#[test]
fn create_with_empty_content_is_accepted() {
    let mut store = CaptureStore::new();
    let r = store.handle_create(Some(String::new()), 7);
    assert_eq!(r, Ok(1));
    let pending = store.pending();
    assert_eq!(pending.len(), 1);
    assert_eq!(pending[0].content, "");
}

#[test]
fn every_created_row_is_fully_populated() {
    let mut store = CaptureStore::new();
    let id = store.handle_create(Some("note".to_string()), 42).unwrap();
    let row = &store.captures[0];
    assert_eq!(row.id, id);
    assert_eq!(row.content, "note");
    assert_eq!(row.created_at, 42);
    assert_eq!(row.processed_at, None);
}

#[test]
fn each_failure_kind_maps_to_its_status_code() {
    assert_eq!(ErrorKind::BadRequest.status_code(), 400);
    assert_eq!(ErrorKind::StoreUnavailable.status_code(), 503);
    assert_eq!(ErrorKind::StoreError.status_code(), 500);
}

#[test]
fn the_launched_service_starts_with_an_empty_table() {
    let mut store = captures::store::rocket();
    assert_eq!(store.pending().len(), 0);
    let id = store.create("first".to_string(), 1);
    assert_eq!(id, 1);
}

#[test]
fn an_empty_store_lists_nothing() {
    let store = CaptureStore::new();
    assert_eq!(store.pending().len(), 0);
}

#[test]
fn listing_leaves_the_table_untouched() {
    let mut store = CaptureStore::new();
    store.create("a".to_string(), 9);
    let before = store.captures.len();
    let _ = store.pending();
    let _ = store.pending();
    assert_eq!(store.captures.len(), before);
    assert_eq!(store.captures[0].content, "a");
}
