use fscmp::ChunkableRange;

#[test]
fn test_range_chunks() {
    let range = 0..30;
    let mut chunks = range.chunks(8);

    assert_eq!(chunks.next().unwrap(), 0..8);
    assert_eq!(chunks.next().unwrap(), 8..16);
    assert_eq!(chunks.next().unwrap(), 16..24);
    assert_eq!(chunks.next().unwrap(), 24..30);
    assert_eq!(chunks.next(), None);
}

#[test]
fn test_range_chunks_leap() {
    let range = 0..30;
    let mut chunks = range.chunks_leap(8, 12);

    assert_eq!(chunks.next().unwrap(), 0..8);
    assert_eq!(chunks.next().unwrap(), 12..20);
    assert_eq!(chunks.next().unwrap(), 24..30);
    assert_eq!(chunks.next(), None);
}

#[test]
fn empty_range_has_no_chunks() {
    let mut chunks = (5..5).chunks(8);
    assert_eq!(chunks.next(), None);
    assert_eq!(chunks.next(), None);
}

#[test]
fn chunks_stop_at_the_largest_offset() {
    let mut chunks = (u64::MAX - 5..u64::MAX).chunks(4);
    assert_eq!(chunks.next().unwrap(), u64::MAX - 5..u64::MAX - 1);
    assert_eq!(chunks.next().unwrap(), u64::MAX - 1..u64::MAX);
    assert_eq!(chunks.next(), None);
}

#[test]
fn overlapping_chunks_with_short_leap() {
    let mut chunks = (0..5).chunks_leap(3, 2);
    assert_eq!(chunks.next().unwrap(), 0..3);
    assert_eq!(chunks.next().unwrap(), 2..5);
    assert_eq!(chunks.next().unwrap(), 4..5);
    assert_eq!(chunks.next(), None);
}
