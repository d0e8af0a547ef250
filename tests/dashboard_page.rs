use dashboard::dashboard::{fetch_targets, render_dashboard};
use dashboard::proxy::{
    LargeModelProxy, LargeModelProxyResourceStatus, LargeModelProxyServiceStatus,
    LargeModelProxyStatus,
};
use dashboard::service::Service;

fn registry() -> Vec<(String, Service)> {
    vec![
        ("plex".to_string(), Service::Local { port: 32400 }),
        (
            "proxy".to_string(),
            Service::RemoteProxy(LargeModelProxy::new("http://x".to_string())),
        ),
    ]
}

fn gpu_status(running: bool) -> LargeModelProxyStatus {
    LargeModelProxyStatus {
        services: vec![LargeModelProxyServiceStatus {
            name: "llama".to_string(),
            listen_port: "8001".to_string(),
            is_running: running,
            active_connections: 1,
            last_used: None,
            service_url: "http://x:8001".to_string(),
            resource_requirements: vec![("gpu".to_string(), 1)],
        }],
        resources: vec![(
            "gpu".to_string(),
            LargeModelProxyResourceStatus { total_available: 4, total_in_use: 2 },
        )],
    }
}

fn count(hay: &str, needle: &str) -> usize {
    hay.matches(needle).count()
}

#[test]
fn failed_fetch_shows_local_tile_and_one_placeholder() {
    let page = render_dashboard(&registry(), "http://host", &vec![None, None]);
    assert!(page.starts_with("<!DOCTYPE html><html lang=\"en\"><head>"));
    assert_eq!(count(&page, "href=\"http://host:32400/\""), 1);
    assert_eq!(count(&page, "class=\"tile local\""), 1);
    assert_eq!(count(&page, "status unavailable"), 1);
    assert_eq!(count(&page, "class=\"tile "), 2);
    assert_eq!(count(&page, "tile summary"), 0);
    assert_eq!(count(&page, "tile running"), 0);
    assert_eq!(count(&page, "tile stopped"), 0);
}

#[test]
fn summary_shows_usage_and_bar_width() {
    let page = render_dashboard(&registry(), "http://host", &vec![None, Some(gpu_status(true))]);
    assert!(page.contains("<span class=\"usage-count\">2/4</span>"));
    assert!(page.contains("style=\"width: 50%\""));
    assert_eq!(count(&page, "status unavailable"), 0);
    assert_eq!(count(&page, "tile summary"), 1);
}

#[test]
fn running_service_lists_requirements_with_bar() {
    let page = render_dashboard(&registry(), "http://host", &vec![None, Some(gpu_status(true))]);
    assert_eq!(count(&page, "class=\"tile running\""), 1);
    assert!(page.contains("<span class=\"usage-count\">1/4</span>"));
    assert!(page.contains("style=\"width: 25%\""));
}

#[test]
fn stopped_service_has_no_bar() {
    let page = render_dashboard(&registry(), "http://host", &vec![None, Some(gpu_status(false))]);
    assert_eq!(count(&page, "class=\"tile stopped\""), 1);
    assert!(page.contains("<span class=\"usage-count\">1/4</span>"));
    assert_eq!(count(&page, "bar-fill"), 1);
}

#[test]
fn requirement_on_unreported_resource_counts_zero() {
    let mut st = gpu_status(true);
    st.services[0].resource_requirements = vec![("tpu".to_string(), 3)];
    let page = render_dashboard(&registry(), "http://host", &vec![None, Some(st)]);
    assert!(page.contains("<span class=\"usage-count\">3/0</span>"));
    assert!(page.contains("style=\"width: 0%\""));
}

#[test]
fn empty_registry_renders_shell() {
    let page = render_dashboard(&vec![], "http://host", &vec![]);
    assert_eq!(
        page,
        "<!DOCTYPE html><html lang=\"en\"><head><meta charset=\"utf-8\"><title>Dashboard</title><link rel=\"stylesheet\" href=\"/styles.css\"></head><body><header class=\"banner\"><h1 class=\"banner-title\">Dashboard</h1></header><main class=\"tiles\"></main></body></html>"
    );
}

#[test]
fn fetch_targets_name_remote_status_only() {
    let t = fetch_targets(&registry());
    assert_eq!(t, vec![None, Some("http://x/status".to_string())]);
}
