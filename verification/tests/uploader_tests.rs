use oss_client::planner::plan;
use oss_client::session::PartRecord;
use oss_client::uploader::{
    contains_part, merge_parts, missing_parts, seed_bytes, ProgressCounter,
};

fn record(part_number: i32, size: u64) -> PartRecord {
    PartRecord { part_number, entity_tag: format!("tag-{}", part_number), size }
}

#[test]
fn missing_parts_issues_exactly_the_missing_uploads() {
    // 45 bytes in parts of 10: five parts, the last of 5 bytes. With
    // parts 2 and 4 already recorded, exactly 3 uploads remain.
    let p = plan(45, 100, 10).unwrap();
    assert_eq!(p.part_count, 5);
    let known = vec![record(2, 10), record(4, 10)];
    let tasks = missing_parts(&p, &known);
    assert_eq!(tasks.len(), 3);
    assert_eq!(tasks[0].part_number, 1);
    assert_eq!(tasks[0].offset, 0);
    assert_eq!(tasks[0].length, 10);
    assert_eq!(tasks[1].part_number, 3);
    assert_eq!(tasks[1].offset, 20);
    assert_eq!(tasks[1].length, 10);
    assert_eq!(tasks[2].part_number, 5);
    assert_eq!(tasks[2].offset, 40);
    assert_eq!(tasks[2].length, 5);
}

#[test]
fn missing_parts_covers_everything_when_nothing_is_known() {
    let p = plan(45, 100, 10).unwrap();
    let tasks = missing_parts(&p, &vec![]);
    assert_eq!(tasks.len(), 5);
    for (i, t) in tasks.iter().enumerate() {
        assert_eq!(t.part_number, i as i32 + 1);
        assert_eq!(t.offset, 10 * i as u64);
    }
}

#[test]
fn missing_parts_ranges_are_disjoint_and_cover_the_file() {
    let p = plan(45, 100, 10).unwrap();
    let known = vec![record(2, 10), record(4, 10)];
    let tasks = missing_parts(&p, &known);
    let seed = seed_bytes(&p, &known);
    let uploaded: u64 = tasks.iter().map(|t| t.length).sum();
    assert_eq!(seed, 20);
    assert_eq!(seed + uploaded, 45);
}

#[test]
fn contains_part_finds_recorded_numbers() {
    let known = vec![record(2, 10), record(4, 10)];
    assert!(contains_part(&known, 2));
    assert!(contains_part(&known, 4));
    assert!(!contains_part(&known, 1));
    assert!(!contains_part(&known, 5));
}

#[test]
fn merge_parts_keeps_both_sides_in_order() {
    let merged = merge_parts(vec![record(2, 10)], vec![record(1, 10), record(3, 10)]);
    assert_eq!(merged.len(), 3);
    assert_eq!(merged[0].part_number, 2);
    assert_eq!(merged[1].part_number, 1);
    assert_eq!(merged[2].part_number, 3);
}

#[test]
fn progress_counter_accumulates_without_loss() {
    let mut counter = ProgressCounter::new(45);
    counter.add(20);
    counter.add(10);
    counter.add(10);
    counter.add(5);
    assert_eq!(counter.done, 45);
    assert_eq!(counter.total, 45);
}

#[test]
fn progress_line_shows_done_over_total() {
    let mut counter = ProgressCounter::new(16 * 1024 * 1024);
    counter.add(4 * 1024 * 1024);
    assert_eq!(counter.line(), "\rCompleted 4.00 MB/16.00 MB".to_string());
}
