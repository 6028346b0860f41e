use rust_lt::dashboard::{build_series_sql, build_vu_filter, build_window_sql, SeriesQuery, WindowQuery};
use rust_lt::dashboard::{
    build_request_filter,
    build_response,
    hex_val,
    parse_i64,
    parse_request,
    parse_request_text,
    route_of,
    url_decode,
    DashboardRoute,
};

fn chars(s: &str) -> Vec<char> {
    s.chars().collect()
}

#[test]
fn hex_digits() {
    assert_eq!(hex_val(b'0'), 0);
    assert_eq!(hex_val(b'9'), 9);
    assert_eq!(hex_val(b'a'), 10);
    assert_eq!(hex_val(b'F'), 15);
    assert_eq!(hex_val(b'g'), 0);
}

#[test]
fn query_values_are_decoded() {
    assert_eq!(url_decode("Get+User%20List"), "Get User List");
    assert_eq!(url_decode("caf%C3%A9"), "café");
    assert_eq!(url_decode("50%"), "50%");
    assert_eq!(url_decode("a%4"), "a%4");
    assert_eq!(url_decode("%zz"), "\u{0}");
    assert_eq!(url_decode("%ff"), "\u{FFFD}");
    assert_eq!(url_decode("plain-text"), "plain-text");
}

#[test]
fn request_filters_escape_quotes() {
    assert_eq!(build_request_filter(&None, &None), "record_type = 'request'");
    assert_eq!(
        build_request_filter(&Some("Main".to_string()), &None),
        "record_type = 'request' AND scenario = 'Main'"
    );
    assert_eq!(
        build_request_filter(&Some("it's".to_string()), &Some("a'b".to_string())),
        "record_type = 'request' AND scenario = 'it''s' AND request_name = 'a''b'"
    );
}

#[test]
fn responses_carry_length_in_bytes() {
    assert_eq!(
        build_response("HTTP/1.1 200 OK", "text/plain", "héllo"),
        "HTTP/1.1 200 OK\r\nContent-Type: text/plain\r\nContent-Length: 6\r\nAccess-Control-Allow-Origin: *\r\nCache-Control: no-cache\r\n\r\nhéllo"
    );
}

#[test]
fn integers_parse_like_std() {
    assert_eq!(parse_i64(&chars("42")), Some(42));
    assert_eq!(parse_i64(&chars("-7")), Some(-7));
    assert_eq!(parse_i64(&chars("+7")), Some(7));
    assert_eq!(parse_i64(&chars("9223372036854775807")), Some(i64::MAX));
    assert_eq!(parse_i64(&chars("-9223372036854775808")), Some(i64::MIN));
    assert_eq!(parse_i64(&chars("9223372036854775808")), None);
    assert_eq!(parse_i64(&chars("")), None);
    assert_eq!(parse_i64(&chars("-")), None);
    assert_eq!(parse_i64(&chars("1a")), None);
    assert_eq!(parse_i64(&chars(" 1")), None);
    for s in ["0", "-0", "123456", "-99", "+0", "x", "--1"] {
        assert_eq!(parse_i64(&chars(s)), s.parse::<i64>().ok());
    }
}

#[test]
fn routes_by_path() {
    assert_eq!(route_of("/"), DashboardRoute::Index);
    assert_eq!(route_of("/index.html"), DashboardRoute::Index);
    assert_eq!(route_of("/rps.json"), DashboardRoute::Rps);
    assert_eq!(route_of("/metrics.json"), DashboardRoute::Metrics);
    assert_eq!(route_of("/vus.json"), DashboardRoute::Vus);
    assert_eq!(route_of("/nope"), DashboardRoute::NotFound);
}

#[test]
fn requests_are_read_with_their_parameters() {
    let r = parse_request_text(
        "GET /rps.json?window_secs=60&request_name=Get+User&scenario=Main%20Flow HTTP/1.1\r\nHost: x\r\n\r\n",
    );
    assert_eq!(r.route, DashboardRoute::Rps);
    assert_eq!(r.window_secs, 60);
    assert_eq!(r.request_name, Some("Get User".to_string()));
    assert_eq!(r.scenario, Some("Main Flow".to_string()));
}

#[test]
fn request_defaults_and_odd_parameters() {
    let r = parse_request_text("GET /metrics.json HTTP/1.1\r\n");
    assert_eq!(r.route, DashboardRoute::Metrics);
    assert_eq!(r.window_secs, 180);
    assert_eq!(r.request_name, None);
    assert_eq!(r.scenario, None);

    let r = parse_request_text("GET /vus.json?window_secs=-5&scenario=&junk&request_name=a=b HTTP/1.1");
    assert_eq!(r.window_secs, 1);
    assert_eq!(r.scenario, None);
    assert_eq!(r.request_name, Some("a=b".to_string()));

    let r = parse_request_text("GET /x?window_secs=abc&window_secs=30");
    assert_eq!(r.window_secs, 30);
    assert_eq!(r.route, DashboardRoute::NotFound);

    let r = parse_request_text("");
    assert_eq!(r.route, DashboardRoute::Index);
    let r = parse_request_text("GET");
    assert_eq!(r.route, DashboardRoute::Index);
}

#[test]
fn raw_requests_are_read_as_text() {
    let r = parse_request(b"GET /bandwidth.json?request_name=x HTTP/1.1\r\n\r\n");
    assert_eq!(r.route, DashboardRoute::Bandwidth);
    assert_eq!(r.request_name, Some("x".to_string()));
}

#[test]
fn dashboard_sql_texts() {
    assert_eq!(
        build_series_sql(SeriesQuery::Rps, "out/run/segments", "record_type = 'request'"),
        "SELECT CAST((timestamp_ms / 1000) AS VARCHAR) AS ts, COUNT(*) AS rps FROM read_parquet('out/run/segments/*.parquet') WHERE record_type = 'request' GROUP BY (timestamp_ms / 1000) ORDER BY (timestamp_ms / 1000)"
    );
    assert_eq!(
        build_series_sql(SeriesQuery::ErrorsPerSec, "d", "f"),
        "SELECT CAST((timestamp_ms / 1000) AS VARCHAR) AS ts, COUNT(*) as errors FROM read_parquet('d/*.parquet') WHERE f AND status = 'error' GROUP BY (timestamp_ms / 1000) ORDER BY (timestamp_ms / 1000)"
    );
    assert_eq!(build_vu_filter(&None), "record_type = 'vu_state'");
    assert_eq!(
        build_vu_filter(&Some("it's".to_string())),
        "record_type = 'vu_state' AND scenario = 'it''s'"
    );
    assert_eq!(
        build_window_sql(WindowQuery::Latency, "d", "f", -5),
        "SELECT quantile_cont(response_time_ms, 0.50) FILTER (WHERE response_time_ms IS NOT NULL), quantile_cont(response_time_ms, 0.90) FILTER (WHERE response_time_ms IS NOT NULL), quantile_cont(response_time_ms, 0.95) FILTER (WHERE response_time_ms IS NOT NULL), quantile_cont(response_time_ms, 0.99) FILTER (WHERE response_time_ms IS NOT NULL) FROM read_parquet('d/*.parquet') WHERE f AND timestamp_ms >= -5"
    );
    let timing = build_window_sql(WindowQuery::Timing, "d", "f", 1700000000000);
    assert!(timing.starts_with("SELECT quantile_cont(ttfb_ms, 0.50) FILTER (WHERE ttfb_ms IS NOT NULL), "));
    assert!(timing.contains("quantile_cont(tls_handshake_ms, 0.99) FILTER (WHERE tls_handshake_ms IS NOT NULL) FROM"));
    assert!(timing.ends_with("WHERE f AND timestamp_ms >= 1700000000000"));
    assert_eq!(timing.matches("quantile_cont").count(), 12);
}
