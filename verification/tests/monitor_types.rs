use rbm::types::MonitorType;

const ALL: [MonitorType; 5] = [
    MonitorType::Http,
    MonitorType::Https,
    MonitorType::Ssl,
    MonitorType::Ping,
    MonitorType::Dns,
];

#[test]
fn types_display_in_upper_case() {
    let labels: Vec<String> = ALL.iter().map(|t| t.to_string()).collect();
    assert_eq!(labels, vec!["HTTP", "HTTPS", "SSL", "PING", "DNS"]);
}

#[test]
fn types_are_stored_as_their_label() {
    for t in ALL {
        assert_eq!(t.to_sql(), t.to_string().into_bytes());
    }
    assert_eq!(MonitorType::Https.to_sql(), b"HTTPS".to_vec());
}

#[test]
fn stored_types_read_back() {
    for t in ALL {
        let bytes = t.to_sql();
        assert_eq!(MonitorType::from_sql(Some(&bytes)), Ok(t));
    }
    assert_eq!(MonitorType::from_sql(Some(b"PING")), Ok(MonitorType::Ping));
}

#[test]
fn unknown_text_is_refused() {
    let refused = Err(String::from("Unrecognized monitor type"));
    assert_eq!(MonitorType::from_sql(Some(b"http")), refused);
    assert_eq!(MonitorType::from_sql(Some(b"HTTPSS")), refused);
    assert_eq!(MonitorType::from_sql(Some(b"HTT")), refused);
    assert_eq!(MonitorType::from_sql(Some(b"")), refused);
    assert_eq!(MonitorType::from_sql(Some(b"ICMP")), refused);
}

#[test]
fn null_column_is_refused() {
    assert_eq!(
        MonitorType::from_sql(None),
        Err(String::from("Unexpected null for non-null column"))
    );
}
