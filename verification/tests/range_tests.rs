use obstore::error::ErrorKind;
use obstore::range::{range_from_parts, ranges_from_parts, resolve, resolve_many, ByteRange,
    RangeSpec};

#[test]
fn range_from_end() {
    let r = range_from_parts(5, Some(20), None).unwrap();
    assert_eq!(r, ByteRange { start: 5, end: 20 });
}

#[test]
fn range_from_length() {
    let r = range_from_parts(5, None, Some(10)).unwrap();
    assert_eq!(r, ByteRange { start: 5, end: 15 });
}

#[test]
fn range_both_given_is_error() {
    assert_eq!(range_from_parts(5, Some(20), Some(10)), Err(ErrorKind::InvalidInput));
}

#[test]
fn range_neither_given_is_error() {
    assert_eq!(range_from_parts(5, None, None), Err(ErrorKind::InvalidInput));
}

#[test]
fn ranges_from_ends_pairs_in_order() {
    let r = ranges_from_parts(vec![0, 10, 20], Some(vec![5, 15, 25]), None).unwrap();
    assert_eq!(
        r,
        vec![
            ByteRange { start: 0, end: 5 },
            ByteRange { start: 10, end: 15 },
            ByteRange { start: 20, end: 25 },
        ]
    );
}

#[test]
fn ranges_from_lengths() {
    let r = ranges_from_parts(vec![0, 100], None, Some(vec![7, 3])).unwrap();
    assert_eq!(r, vec![ByteRange { start: 0, end: 7 }, ByteRange { start: 100, end: 103 }]);
}

#[test]
fn ranges_both_or_neither_is_error() {
    assert_eq!(
        ranges_from_parts(vec![0], Some(vec![1]), Some(vec![1])),
        Err(ErrorKind::InvalidInput)
    );
    assert_eq!(ranges_from_parts(vec![0], None, None), Err(ErrorKind::InvalidInput));
}

#[test]
fn resolve_suffix_takes_last_bytes() {
    let r = resolve(RangeSpec::Suffix { suffix: 4 }, 100).unwrap();
    assert_eq!(r, ByteRange { start: 96, end: 100 });
}

#[test]
fn resolve_suffix_longer_than_object_is_whole_object() {
    let r = resolve(RangeSpec::Suffix { suffix: 200 }, 100).unwrap();
    assert_eq!(r, ByteRange { start: 0, end: 100 });
}

#[test]
fn resolve_offset_runs_to_end() {
    let r = resolve(RangeSpec::Offset { offset: 30 }, 100).unwrap();
    assert_eq!(r, ByteRange { start: 30, end: 100 });
}

#[test]
fn resolve_offset_past_end_is_error() {
    assert_eq!(resolve(RangeSpec::Offset { offset: 101 }, 100), Err(ErrorKind::InvalidInput));
}

#[test]
fn resolve_bounded_passes_through() {
    let r = resolve(RangeSpec::Bounded { start: 10, end: 40 }, 100).unwrap();
    assert_eq!(r, ByteRange { start: 10, end: 40 });
}

#[test]
fn resolve_bounded_reversed_is_error() {
    assert_eq!(
        resolve(RangeSpec::Bounded { start: 40, end: 10 }, 100),
        Err(ErrorKind::InvalidInput)
    );
}

#[test]
fn resolve_many_keeps_order_and_fails_fast() {
    let specs = vec![
        RangeSpec::Bounded { start: 0, end: 1 },
        RangeSpec::Suffix { suffix: 5 },
        RangeSpec::Offset { offset: 2 },
    ];
    let r = resolve_many(specs, 10).unwrap();
    assert_eq!(
        r,
        vec![
            ByteRange { start: 0, end: 1 },
            ByteRange { start: 5, end: 10 },
            ByteRange { start: 2, end: 10 },
        ]
    );
    let bad = vec![RangeSpec::Bounded { start: 0, end: 1 }, RangeSpec::Offset { offset: 99 }];
    assert_eq!(resolve_many(bad, 10), Err(ErrorKind::InvalidInput));
}
