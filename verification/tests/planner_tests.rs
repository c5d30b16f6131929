use oss_client::planner::plan;
use oss_client::transfer::{use_multipart, CHUNK_SIZE, MAX_CHUNKS, MB};
use oss_client::UploadError;

#[test]
fn plan_even_multiple_has_no_empty_trailing_part() {
    // 16 MiB at 8 MiB parts: two full parts, not three with an empty one.
    let p = plan(16 * MB, MAX_CHUNKS, CHUNK_SIZE).unwrap();
    assert_eq!(p.part_size, 8 * MB);
    assert_eq!(p.part_count, 2);
    assert_eq!(p.last_part_size, 8 * MB);
}

#[test]
fn plan_uneven_file_has_short_trailing_part() {
    let p = plan(20 * MB, MAX_CHUNKS, CHUNK_SIZE).unwrap();
    assert_eq!(p.part_size, 8 * MB);
    assert_eq!(p.part_count, 3);
    assert_eq!(p.last_part_size, 4 * MB);
    assert_eq!(p.part_size * (p.part_count - 1) + p.last_part_size, 20 * MB);
}

#[test]
fn plan_recomputes_part_size_at_the_chunk_limit() {
    // 100 MiB in at most 10 chunks: the naive count (13) overruns, so the
    // part size is rebuilt as 100 MiB / 10 + 1 and the count becomes 10.
    let p = plan(100 * MB, 10, 8 * MB).unwrap();
    assert_eq!(p.part_size, 10 * MB + 1);
    assert_eq!(p.part_count, 10);
    assert_eq!(p.last_part_size, 100 * MB - 9 * (10 * MB + 1));
    assert_eq!(p.part_size * (p.part_count - 1) + p.last_part_size, 100 * MB);
}

#[test]
fn plan_rejects_empty_file() {
    assert_eq!(plan(0, MAX_CHUNKS, CHUNK_SIZE).unwrap_err(), UploadError::EmptyFile);
}

#[test]
fn plan_single_byte_file() {
    let p = plan(1, MAX_CHUNKS, CHUNK_SIZE).unwrap();
    assert_eq!(p.part_count, 1);
    assert_eq!(p.last_part_size, 1);
    assert_eq!(p.part_size, CHUNK_SIZE);
}

#[test]
fn plan_partitions_exactly() {
    for file_size in [1u64, 7, 8 * 1024, 16 * MB - 1, 16 * MB, 16 * MB + 1, 300 * MB] {
        let p = plan(file_size, MAX_CHUNKS, CHUNK_SIZE).unwrap();
        assert!(p.part_count <= MAX_CHUNKS);
        assert!(p.last_part_size >= 1);
        assert!(p.last_part_size <= p.part_size);
        assert_eq!(p.part_size * (p.part_count - 1) + p.last_part_size, file_size);
    }
}

#[test]
fn plan_at_the_chunk_limit_keeps_the_default_part_size() {
    // Naive count exactly at the limit: no recompute.
    let p = plan(45, 5, 10).unwrap();
    assert_eq!(p.part_size, 10);
    assert_eq!(p.part_count, 5);
    assert_eq!(p.last_part_size, 5);
}

#[test]
fn plan_just_over_the_chunk_limit_rebuilds_the_part_size() {
    let p = plan(50, 5, 10).unwrap();
    assert_eq!(p.part_size, 11);
    assert_eq!(p.part_count, 5);
    assert_eq!(p.last_part_size, 6);
    assert_eq!(p.part_size * (p.part_count - 1) + p.last_part_size, 50);
}

#[test]
fn one_byte_file_takes_the_single_shot_path() {
    assert!(!use_multipart(1));
    assert!(!use_multipart(CHUNK_SIZE));
    assert!(use_multipart(CHUNK_SIZE + 1));
}
