use rbm::types::{MonitorType, NewMonitor};
use rbm::Error;

fn monitor(type_: MonitorType, endpoint: &str) -> NewMonitor {
    NewMonitor {
        type_,
        frequency_min: 5,
        endpoint: String::from(endpoint),
        max_latency_ms: None,
        expected_ip: None,
        minimum_expiration_time_d: None,
    }
}

fn reason(checked: Result<(), Error>) -> String {
    match checked {
        Err(Error::InvalidMonitoring(reason)) => reason,
        other => panic!("expected InvalidMonitoring, got {:?}", other),
    }
}

#[test]
fn http_and_https_need_nothing_more() {
    assert!(monitor(MonitorType::Http, "http://example.com").validate().is_ok());
    assert!(monitor(MonitorType::Https, "https://example.com").validate().is_ok());
    assert!(monitor(MonitorType::Http, "").validate().is_ok());
}

#[test]
fn ping_needs_a_latency() {
    let m = monitor(MonitorType::Ping, "127.0.0.1");
    assert_eq!(reason(m.validate()), "missing 'max_latency_ms'");
    let m = monitor(MonitorType::Ping, "not-an-ip");
    assert_eq!(reason(m.validate()), "missing 'max_latency_ms'");
}

#[test]
fn ping_needs_an_ip_literal() {
    let mut m = monitor(MonitorType::Ping, "not-an-ip");
    m.max_latency_ms = Some(100);
    assert_eq!(reason(m.validate()), "'endpoint' must be a valid IP");
    m.endpoint = String::from("example.com");
    assert_eq!(reason(m.validate()), "'endpoint' must be a valid IP");
    m.endpoint = String::from("10.0.0.256");
    assert_eq!(reason(m.validate()), "'endpoint' must be a valid IP");
}

#[test]
fn ping_with_latency_and_ip_is_accepted() {
    let mut m = monitor(MonitorType::Ping, "10.0.0.1");
    m.max_latency_ms = Some(100);
    assert!(m.validate().is_ok());
    m.endpoint = String::from("2001:db8::1");
    assert!(m.validate().is_ok());
    m.max_latency_ms = Some(0);
    assert!(m.validate().is_ok());
}

#[test]
fn ssl_needs_a_number_of_days() {
    let mut m = monitor(MonitorType::Ssl, "example.com");
    assert_eq!(reason(m.validate()), "missing 'minimum_expiration_time_d'");
    m.max_latency_ms = Some(1);
    m.expected_ip = Some(String::from("1.2.3.4"));
    assert_eq!(reason(m.validate()), "missing 'minimum_expiration_time_d'");
    m.minimum_expiration_time_d = Some(30);
    assert!(m.validate().is_ok());
}

#[test]
fn dns_needs_an_expected_address() {
    let mut m = monitor(MonitorType::Dns, "example.com");
    assert_eq!(reason(m.validate()), "missing 'expected_id'");
    m.minimum_expiration_time_d = Some(30);
    assert_eq!(reason(m.validate()), "missing 'expected_id'");
    m.expected_ip = Some(String::from("93.184.216.34"));
    assert!(m.validate().is_ok());
}

#[test]
fn a_refusal_is_a_bad_request() {
    let mut m = monitor(MonitorType::Ping, "not-an-ip");
    m.max_latency_ms = Some(100);
    let e = m.validate().unwrap_err();
    assert_eq!(e.status_code(), 400);
    assert_eq!(e.name(), "Bad request");
    assert_eq!(e.to_string(), "Invalid monitoring: 'endpoint' must be a valid IP");
}
