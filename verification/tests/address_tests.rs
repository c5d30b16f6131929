use oss_client::address::{parse_s3_url, path_deal};
use oss_client::UploadError;

#[test]
fn parse_s3_url_test() {
    let (bucket, key) = parse_s3_url("s3://bucket/prefix1/prefix2/aaa.txt").unwrap();
    assert_eq!(bucket, "bucket".to_string());
    assert_eq!(key, "prefix1/prefix2/aaa.txt".to_string());
}

#[test]
fn s3_parse_s3_url_test() {
    let (bucket, key) = parse_s3_url("s3://bucket/prefix1/prefix2/aaa.txt").unwrap();
    assert_eq!(bucket, "bucket".to_string());
    assert_eq!(key, "prefix1/prefix2/aaa.txt".to_string());
}

#[test]
fn parse_s3_url_rejects_missing_scheme() {
    assert_eq!(
        parse_s3_url("http://bucket/key").unwrap_err(),
        UploadError::InvalidRemoteUrl
    );
    assert_eq!(parse_s3_url("bucket/key").unwrap_err(), UploadError::InvalidRemoteUrl);
}

#[test]
fn parse_s3_url_rejects_empty_bucket() {
    assert_eq!(parse_s3_url("s3:///key").unwrap_err(), UploadError::InvalidRemoteUrl);
    assert_eq!(parse_s3_url("s3://").unwrap_err(), UploadError::InvalidRemoteUrl);
}

#[test]
fn parse_s3_url_bucket_without_key() {
    let (bucket, key) = parse_s3_url("s3://bucket").unwrap();
    assert_eq!(bucket, "bucket".to_string());
    assert_eq!(key, "".to_string());
}

#[test]
fn path_deal_appends_base_name_to_directory_key() {
    let (bucket, key) = path_deal("report.csv", "s3://bucket/dir/").unwrap();
    assert_eq!(bucket, "bucket".to_string());
    assert_eq!(key, "dir/report.csv".to_string());
}

#[test]
fn path_deal_appends_base_name_of_nested_source() {
    let (bucket, key) = path_deal("/tmp/data/report.csv", "s3://bucket/dir/").unwrap();
    assert_eq!(bucket, "bucket".to_string());
    assert_eq!(key, "dir/report.csv".to_string());
}

#[test]
fn path_deal_keeps_plain_key() {
    let (bucket, key) = path_deal("local/file.bin", "s3://bucket/exact/key.bin").unwrap();
    assert_eq!(bucket, "bucket".to_string());
    assert_eq!(key, "exact/key.bin".to_string());
}

#[test]
fn path_deal_appends_to_empty_key() {
    let (bucket, key) = path_deal("file.bin", "s3://bucket").unwrap();
    assert_eq!(bucket, "bucket".to_string());
    assert_eq!(key, "file.bin".to_string());
}

#[test]
fn path_deal_rejects_source_without_base_name() {
    assert_eq!(
        path_deal("dir/", "s3://bucket/dir/").unwrap_err(),
        UploadError::InvalidSource
    );
}

#[test]
fn path_deal_rejects_bad_url() {
    assert_eq!(
        path_deal("file.bin", "ftp://bucket/dir/").unwrap_err(),
        UploadError::InvalidRemoteUrl
    );
}
