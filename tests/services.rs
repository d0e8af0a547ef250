use dashboard::decimal::decimal;
use dashboard::proxy::{percent, FetchError, LargeModelProxy, LargeModelProxyResourceStatus};
use dashboard::service::Service;

#[test]
fn decimal_writes_numbers() {
    assert_eq!(decimal(0), "0");
    assert_eq!(decimal(7), "7");
    assert_eq!(decimal(32400), "32400");
    assert_eq!(decimal(u64::MAX), "18446744073709551615");
}

#[test]
fn local_url_is_base_colon_port_slash() {
    let s = Service::Local { port: 32400 };
    assert_eq!(s.resolve_url("http://host"), "http://host:32400/");
    let zero = Service::Local { port: 0 };
    assert_eq!(zero.resolve_url(""), ":0/");
}

#[test]
fn remote_url_is_the_proxy_url() {
    let s = Service::RemoteProxy(LargeModelProxy::new("http://x".to_string()));
    assert_eq!(s.resolve_url("http://host"), "http://x");
}

#[test]
fn proxy_url_and_status_url() {
    let p = LargeModelProxy::new("http://x:7070".to_string());
    assert_eq!(p.get_url(), "http://x:7070");
    assert_eq!(p.status_url(), "http://x:7070/status");
}

#[test]
fn utilization_is_clamped_to_zero_without_capacity() {
    let r = LargeModelProxyResourceStatus { total_available: 0, total_in_use: 5 };
    assert_eq!(r.utilization_percent(), 0);
    assert_eq!(percent(0, 0), 0);
}

#[test]
fn utilization_percentages() {
    let r = LargeModelProxyResourceStatus { total_available: 4, total_in_use: 2 };
    assert_eq!(r.utilization_percent(), 50);
    assert_eq!(percent(3, 3), 100);
    assert_eq!(percent(1, 3), 33);
    assert_eq!(percent(u32::MAX, 1), u32::MAX as u64 * 100);
}

#[test]
fn fetch_failures_become_script_errors() {
    let n = FetchError::Network("connection refused".to_string());
    assert_eq!(n.sandbox_message(), "Failed to fetch JSON: connection refused");
    let d = FetchError::Decode("expected value".to_string());
    assert_eq!(d.sandbox_message(), "Failed to parse JSON: expected value");
}

