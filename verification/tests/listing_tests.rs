use obstore::cursor::CursorPhase;
use obstore::error::ErrorKind;
use obstore::listing::{ListingCursor, ObjectRecord};

fn record(i: usize) -> ObjectRecord {
    ObjectRecord {
        path: format!("data/object-{i}"),
        size: (i as u64) * 10,
        last_modified_ms: 1_700_000_000_000 + i as i64,
        e_tag: Some(format!("etag-{i}")),
        version: None,
    }
}

#[test]
fn listing_130_records_pages_of_50() {
    let records: Vec<ObjectRecord> = (0..130).map(record).collect();
    let mut cursor = ListingCursor::new(records.clone());
    let page1 = cursor.pull_batch(50).unwrap();
    let page2 = cursor.pull_batch(50).unwrap();
    let page3 = cursor.pull_batch(50).unwrap();
    assert_eq!(page1.len(), 50);
    assert_eq!(page2.len(), 50);
    assert_eq!(page3.len(), 30);
    assert_eq!(cursor.pull_batch(50), Err(ErrorKind::StreamExhausted));
    let mut rejoined = page1;
    rejoined.extend(page2);
    rejoined.extend(page3);
    assert_eq!(rejoined, records);
}

#[test]
fn listing_exhaustion_is_stable() {
    let mut cursor = ListingCursor::new(vec![record(0)]);
    assert_eq!(cursor.pull_batch(10).unwrap().len(), 1);
    assert_eq!(cursor.current_phase(), CursorPhase::ExhaustedPending);
    assert_eq!(cursor.pull_batch(10), Err(ErrorKind::StreamExhausted));
    assert_eq!(cursor.current_phase(), CursorPhase::Exhausted);
    assert_eq!(cursor.pull_batch(10), Err(ErrorKind::StreamExhausted));
    assert_eq!(cursor.pull_one(), Err(ErrorKind::StreamExhausted));
}

#[test]
fn listing_pull_one_yields_records_in_order() {
    let mut cursor = ListingCursor::new(vec![record(1), record(2)]);
    assert_eq!(cursor.pull_one(), Ok(record(1)));
    assert_eq!(cursor.pull_one(), Ok(record(2)));
    assert_eq!(cursor.pull_one(), Err(ErrorKind::StreamExhausted));
}

#[test]
fn listing_materialize_all_never_fails() {
    let records: Vec<ObjectRecord> = (0..7).map(record).collect();
    let mut cursor = ListingCursor::new(records.clone());
    assert_eq!(cursor.materialize_all(), records);
    let mut empty = ListingCursor::new(Vec::new());
    assert_eq!(empty.materialize_all(), Vec::new());
}

#[test]
fn listing_full_page_leaves_cursor_active() {
    let mut cursor = ListingCursor::new(vec![record(0), record(1)]);
    assert_eq!(cursor.pull_batch(2).unwrap().len(), 2);
    assert_eq!(cursor.current_phase(), CursorPhase::Active);
    assert_eq!(cursor.pull_batch(2), Err(ErrorKind::StreamExhausted));
}
