use obstore::cursor::{concat_chunks, ByteStream, CursorPhase};
use obstore::error::ErrorKind;

fn unit_chunks(bytes: &[u8]) -> Vec<Vec<u8>> {
    bytes.iter().map(|b| vec![*b]).collect()
}

#[test]
fn pull_batches_reassemble_ten_bytes_with_threshold_three() {
    let data: Vec<u8> = (0u8..10).collect();
    let mut stream = ByteStream::new(unit_chunks(&data));
    let mut batches: Vec<Vec<u8>> = Vec::new();
    loop {
        match stream.pull_batch(3) {
            Ok(batch) => batches.push(batch),
            Err(e) => {
                assert_eq!(e, ErrorKind::StreamExhausted);
                break;
            },
        }
    }
    // ceil(10 / 3) batches, sizes 3, 3, 3, 1.
    assert_eq!(batches.len(), 4);
    assert_eq!(batches.iter().map(|b| b.len()).collect::<Vec<_>>(), vec![3, 3, 3, 1]);
    let rejoined: Vec<u8> = batches.concat();
    assert_eq!(rejoined, data);
}

#[test]
fn empty_source_fails_on_first_pull() {
    let mut stream = ByteStream::new(Vec::new());
    assert_eq!(stream.pull_batch(3), Err(ErrorKind::StreamExhausted));
}

#[test]
fn exhaustion_is_stable() {
    let mut stream = ByteStream::new(vec![vec![1, 2, 3]]);
    assert_eq!(stream.pull_batch(10), Ok(vec![1, 2, 3]));
    assert_eq!(stream.current_phase(), CursorPhase::ExhaustedPending);
    assert_eq!(stream.pull_batch(10), Err(ErrorKind::StreamExhausted));
    assert_eq!(stream.current_phase(), CursorPhase::Exhausted);
    assert_eq!(stream.pull_batch(10), Err(ErrorKind::StreamExhausted));
    assert_eq!(stream.pull_one(), Err(ErrorKind::StreamExhausted));
    assert_eq!(stream.current_phase(), CursorPhase::Exhausted);
}

#[test]
fn batch_aggregates_whole_chunks_past_threshold() {
    let mut stream = ByteStream::new(vec![vec![1, 2], vec![3, 4], vec![5]]);
    // Two chunks are needed to reach 3 accumulated bytes; the batch keeps
    // whole chunks, so it holds 4 bytes.
    assert_eq!(stream.pull_batch(3), Ok(vec![1, 2, 3, 4]));
    assert_eq!(stream.pull_batch(3), Ok(vec![5]));
    assert_eq!(stream.pull_batch(3), Err(ErrorKind::StreamExhausted));
}

#[test]
fn final_partial_batch_is_distinct_from_exhaustion() {
    let mut stream = ByteStream::new(vec![vec![9u8; 4]]);
    // The last real batch arrives as data; only the next pull reports the
    // end of the stream.
    assert_eq!(stream.pull_batch(100), Ok(vec![9u8; 4]));
    assert_eq!(stream.pull_batch(100), Err(ErrorKind::StreamExhausted));
}

#[test]
fn pull_one_returns_raw_chunks() {
    let mut stream = ByteStream::new(vec![vec![1, 2], vec![3]]);
    assert_eq!(stream.pull_one(), Ok(vec![1, 2]));
    assert_eq!(stream.pull_one(), Ok(vec![3]));
    assert_eq!(stream.pull_one(), Err(ErrorKind::StreamExhausted));
}

#[test]
fn materialize_all_drains_everything() {
    let mut stream = ByteStream::new(vec![vec![1, 2], vec![], vec![3, 4, 5]]);
    assert_eq!(stream.materialize_all(), vec![1, 2, 3, 4, 5]);
    // Materialization never fails, even over an empty source.
    let mut empty = ByteStream::new(Vec::new());
    assert_eq!(empty.materialize_all(), Vec::<u8>::new());
}

#[test]
fn concat_chunks_joins_in_order() {
    let parts = vec![vec![1u8, 2], vec![], vec![3u8]];
    assert_eq!(concat_chunks(&parts), vec![1, 2, 3]);
}

#[test]
fn zero_threshold_yields_single_chunks() {
    let mut stream = ByteStream::new(vec![vec![7, 8], vec![9]]);
    assert_eq!(stream.pull_batch(0), Ok(vec![7, 8]));
    assert_eq!(stream.pull_batch(0), Ok(vec![9]));
    assert_eq!(stream.pull_batch(0), Err(ErrorKind::StreamExhausted));
}

#[test]
fn coarse_chunks_can_lower_the_batch_count() {
    // A batch keeps whole chunks, so one oversized chunk fills a batch
    // that byte-at-a-time delivery would have split in two.
    let mut stream = ByteStream::new(vec![vec![1, 2, 3, 4, 5, 6]]);
    assert_eq!(stream.pull_batch(3), Ok(vec![1, 2, 3, 4, 5, 6]));
    assert_eq!(stream.pull_batch(3), Err(ErrorKind::StreamExhausted));
}
