use fscmp::{calc_chunk_count, calc_leap, chunk_diff, get_diff_index, subslice, ContentPlan, Diff, BLOCK_SIZE, BUF_SIZE_U64};

#[test]
fn cmp_test_calc_leap() {
    assert_eq!(calc_leap(100, 50, 2), 4);
    assert_eq!(calc_leap(50, 50, 2), 2);
    assert_eq!(calc_leap(150, 30, 2), 10);
    assert_eq!(calc_leap(25, 50, 2), 2);
}

#[test]
fn mod_test_calc_leap() {
    assert_eq!(calc_leap(100, 50, 2), 4);
    assert_eq!(calc_leap(50, 50, 2), 2);
    assert_eq!(calc_leap(150, 30, 2), 10);
    assert_eq!(calc_leap(25, 50, 2), 2);
    assert_eq!(calc_leap(25, 1, 2), 1);
    assert_eq!(calc_leap(2_000_000_000, 2_000_000_000, BUF_SIZE_U64), BUF_SIZE_U64);
}

#[test]
fn test_calc_chunk_count() {
    assert_eq!(calc_chunk_count(1, 2), 1);
    assert_eq!(calc_chunk_count(50, 2), 25);
    assert_eq!(calc_chunk_count(20, 2), 10);
}

#[test]
fn calc_leap_rounds_the_chunk_count_up() {
    // 7 bytes in chunks of 2 take 4 chunks: 30 / 4 == 7.
    assert_eq!(calc_leap(30, 7, 2), 7);
    assert_eq!(calc_leap(u64::MAX, u64::MAX, 1), 1);
    assert_eq!(calc_leap(10, 0, 2), 0);
}

#[test]
fn full_plan_reads_every_chunk() {
    let plan = ContentPlan::new(1024 * 1024, None);
    assert_eq!(plan.limit, 1024 * 1024);
    assert_eq!(plan.leap, BUF_SIZE_U64);
    assert_eq!(plan.count, 4);
    assert_eq!(plan.chunk(0), 0..262144);
    assert_eq!(plan.chunk(3), 786432..1048576);
}

#[test]
fn limited_plan_spreads_chunks() {
    let plan = ContentPlan::new(10 * 1024 * 1024, Some(1024 * 1024));
    assert_eq!(plan.limit, 1024 * 1024);
    assert_eq!(plan.leap, 2621440);
    assert_eq!(plan.count, 4);
    assert_eq!(plan.chunk(3), 7864320..8126464);
}

#[test]
fn limit_above_size_reads_everything() {
    let plan = ContentPlan::new(1000, Some(5000));
    assert_eq!(plan.limit, 1000);
    assert_eq!(plan.leap, 1000);
    assert_eq!(plan.count, 1);
    assert_eq!(plan.chunk(0), 0..1000);
}

#[test]
fn full_plan_leaves_the_tail_after_the_last_whole_chunk() {
    let plan = ContentPlan::new(BUF_SIZE_U64 + 1, None);
    assert_eq!(plan.count, 1);
    assert_eq!(plan.chunk(0), 0..BUF_SIZE_U64);
}

#[test]
fn diff_index_is_the_first_differing_byte() {
    assert_eq!(get_diff_index(&[1, 2, 3, 4], &[1, 2, 9, 8]), 2);
    assert_eq!(get_diff_index(&[7], &[8, 1]), 0);
}

#[test]
fn subslice_is_cut_at_the_end() {
    let data = [0u8, 1, 2, 3, 4];
    assert_eq!(subslice(&data, 1, 2), &[1, 2]);
    assert_eq!(subslice(&data, 3, 10), &[3, 4]);
    assert_eq!(subslice(&data, 5, usize::MAX), &[] as &[u8]);
}

#[test]
fn equal_chunks_report_nothing() {
    assert_eq!(chunk_diff(0, &[1, 2, 3], &[1, 2, 3]), None);
    assert_eq!(chunk_diff(0, &[], &[]), None);
}

#[test]
fn differing_chunk_reports_the_block() {
    let a = vec![0u8; 1500];
    let mut b = a.clone();
    b[1100] = 5;
    match chunk_diff(4096, &a, &b) {
        Some(Diff::Contents(lba, x, y)) => {
            assert_eq!(lba, (4096 + 1100) / 512);
            assert_eq!(x, vec![0u8; 476]);
            let mut expected = vec![0u8; 476];
            expected[1100 - 1024] = 5;
            assert_eq!(y, expected);
        }
        other => panic!("unexpected {:?}", other),
    }
}

#[test]
fn test_contents_located() {
    let size: u64 = 1024 * 1024;
    let first = vec![0u8; size as usize];
    let mut second = first.clone();
    let offset = 532 * 1024 + 13;
    second[offset] = b'a';
    let plan = ContentPlan::new(size, None);
    let mut found = Vec::new();
    for i in 0..plan.count {
        let chunk = plan.chunk(i);
        let (s, e) = (chunk.start as usize, chunk.end as usize);
        if let Some(Diff::Contents(lba, x, y)) = chunk_diff(chunk.start, &first[s..e], &second[s..e]) {
            assert_eq!(x.len(), BLOCK_SIZE);
            assert_eq!(y[13], b'a');
            found.push(lba);
        }
    }
    assert_eq!(found, vec![offset as u64 / 512]);
}
