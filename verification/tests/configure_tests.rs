use oss_client::configure::ConfigureValue;

#[test]
fn new_starts_with_everything_unset() {
    let value = ConfigureValue::new();
    assert_eq!(value.region, "None".to_string());
    assert_eq!(value.endpoint, "None".to_string());
    assert_eq!(value.access_key, "None".to_string());
    assert_eq!(value.secret_key, "None".to_string());
}

#[test]
fn parse_line_extracts_the_value() {
    let value = ConfigureValue::new();
    assert_eq!(
        value.parse_line("aws_access_key_id = key-one".to_string()),
        "key-one".to_string()
    );
}

#[test]
fn parse_line_stops_at_a_second_separator() {
    let value = ConfigureValue::new();
    assert_eq!(value.parse_line("k = a = b".to_string()), "a ".to_string());
}

#[test]
fn from_lines_reads_keys_and_skips_the_header() {
    let lines = vec![
        "[default]".to_string(),
        "aws_access_key_id = key-one".to_string(),
        "region = us-east-1".to_string(),
        "unrelated text".to_string(),
        "endpoint = http://oss.example.com".to_string(),
    ];
    let value = ConfigureValue::from_lines(&lines);
    assert_eq!(value.access_key, "key-one".to_string());
    assert_eq!(value.region, "us-east-1".to_string());
    assert_eq!(value.endpoint, "http://oss.example.com".to_string());
    assert_eq!(value.secret_key, "None".to_string());
}

#[test]
fn from_lines_ignores_the_first_line_even_when_it_carries_a_key() {
    let lines = vec!["aws_access_key_id = ignored".to_string()];
    let value = ConfigureValue::from_lines(&lines);
    assert_eq!(value.access_key, "None".to_string());
}

#[test]
fn to_text_round_trips_through_from_lines() {
    let written = ConfigureValue {
        region: "eu-central-1".to_string(),
        endpoint: "http://oss.example.com".to_string(),
        access_key: "key-one".to_string(),
        secret_key: "key-two".to_string(),
    };
    let text = written.to_text();
    let lines: Vec<String> = text.split('\n').map(|l| l.to_string()).collect();
    let read = ConfigureValue::from_lines(&lines);
    assert_eq!(read.region, written.region);
    assert_eq!(read.endpoint, written.endpoint);
    assert_eq!(read.access_key, written.access_key);
    assert_eq!(read.secret_key, written.secret_key);
}
