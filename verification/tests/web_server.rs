use webos::web::{
    counter_value, is_html_response, is_https, listen_port, normalize_url, static_cache_value, CounterError,
    CounterValue, MemoryMetrics, DEFAULT_PORT,
};

#[test]
fn memory_counters_count_and_wrap() {
    let mut m = MemoryMetrics::new();
    let s = m.incr_visitors();
    assert_eq!((s.visitors, s.run_cmds), (1, 0));
    let s = m.incr_run_cmds();
    assert_eq!((s.visitors, s.run_cmds), (1, 1));
    m.visitors = u64::MAX;
    assert_eq!(m.incr_visitors().visitors, 0);
    assert_eq!(m.snapshot().run_cmds, 1);
}

#[test]
fn port_from_configuration() {
    assert_eq!(listen_port(None), DEFAULT_PORT);
    assert_eq!(listen_port(Some("3000")), 3000);
    assert_eq!(listen_port(Some("not a port")), DEFAULT_PORT);
    assert_eq!(listen_port(Some("70000")), DEFAULT_PORT);
}

#[test]
fn cache_headers() {
    assert_eq!(static_cache_value(true), "no-cache, max-age=0, must-revalidate");
    assert_eq!(static_cache_value(false), "public, max-age=31536000, immutable");
    assert!(is_html_response(Some("text/html; charset=utf-8")));
    assert!(is_html_response(Some("text/html")));
    assert!(!is_html_response(Some("text/css")));
    assert!(!is_html_response(Some("text/htm")));
    assert!(!is_html_response(None));
}

#[test]
fn https_detection_ignores_case() {
    assert!(is_https(Some("https")));
    assert!(is_https(Some("HTTPS")));
    assert!(!is_https(Some("http")));
    assert!(!is_https(Some("https ")));
    assert!(!is_https(None));
}

#[test]
fn counter_service_url_loses_trailing_slashes() {
    assert_eq!(normalize_url("https://example.test/"), "https://example.test");
    assert_eq!(normalize_url("https://example.test///"), "https://example.test");
    assert_eq!(normalize_url("https://example.test"), "https://example.test");
    assert_eq!(normalize_url(""), "");
}

#[test]
fn counter_values_read_as_the_service_sends_them() {
    assert_eq!(counter_value(&CounterValue::Null), Ok(0));
    assert_eq!(counter_value(&CounterValue::Number(Some(42))), Ok(42));
    assert_eq!(counter_value(&CounterValue::Number(None)), Err(CounterError::InvalidNumber));
    assert_eq!(counter_value(&CounterValue::Text("17".to_string())), Ok(17));
    assert_eq!(counter_value(&CounterValue::Text("+17".to_string())), Ok(17));
    assert_eq!(counter_value(&CounterValue::Text("18446744073709551615".to_string())), Ok(u64::MAX));
    assert_eq!(counter_value(&CounterValue::Text("18446744073709551616".to_string())), Err(CounterError::InvalidNumber));
    assert_eq!(counter_value(&CounterValue::Text("-1".to_string())), Err(CounterError::InvalidNumber));
    assert_eq!(counter_value(&CounterValue::Text("".to_string())), Err(CounterError::InvalidNumber));
    assert_eq!(counter_value(&CounterValue::Text("1x".to_string())), Err(CounterError::InvalidNumber));
    assert_eq!(counter_value(&CounterValue::Other), Err(CounterError::Unexpected));
}
