use oss_client::format::get_size_in_nice;
use oss_client::transfer::{GB, MB};

#[test]
fn sizes_below_a_gigabyte_read_in_megabytes() {
    assert_eq!(get_size_in_nice(0), "0.00 MB".to_string());
    assert_eq!(get_size_in_nice(100 * MB), "100.00 MB".to_string());
    assert_eq!(get_size_in_nice(8 * MB + 512 * 1024), "8.50 MB".to_string());
}

#[test]
fn sizes_above_a_gigabyte_read_in_gigabytes() {
    assert_eq!(get_size_in_nice(3 * GB + 123 * MB), "3.12 GB".to_string());
    assert_eq!(get_size_in_nice(2 * GB), "2.00 GB".to_string());
}

#[test]
fn a_gigabyte_exactly_still_reads_in_megabytes() {
    assert_eq!(get_size_in_nice(GB), "1024.00 MB".to_string());
}

#[test]
fn fractions_under_ten_keep_their_leading_zero() {
    assert_eq!(get_size_in_nice(MB + 70 * 1024), "1.06 MB".to_string());
}
