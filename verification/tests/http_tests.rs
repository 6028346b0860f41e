use rust_lt::protocols::http::{
    resolve_url,
    ConnectionTimings,
    HttpClientConfig,
    HttpRequest,
    HttpResponse,
};
use rust_lt::string_map::StringMap;

#[test]
fn test_http_request_builder() {
    let req = HttpRequest::get("https://example.com")
        .with_header("Authorization".to_string(), "Bearer token".to_string())
        .with_query_param("page".to_string(), "1".to_string());

    assert_eq!(req.method, "GET");
    assert_eq!(req.url, "https://example.com");
    assert_eq!(req.headers.get("Authorization"), Some(&"Bearer token".to_string()));
    assert_eq!(req.query_params.get("page"), Some(&"1".to_string()));
}

#[test]
fn test_http_request_post() {
    let req = HttpRequest::post("https://api.example.com/users", r#"{"name":"test"}"#.to_string());

    assert_eq!(req.method, "POST");
    assert_eq!(req.url, "https://api.example.com/users");
    assert_eq!(req.body, Some(r#"{"name":"test"}"#.to_string()));
}

#[test]
fn test_http_response_status_checks() {
    let resp = HttpResponse {
        status_code: 200,
        status_text: "OK".to_string(),
        headers: StringMap::new(),
        body: "test".to_string(),
        response_time_ms: 100,
        bytes_sent: 0,
        bytes_received: 4,
        timings: ConnectionTimings::default(),
    };

    assert!(resp.is_success());
    assert!(!resp.is_client_error());
    assert!(!resp.is_server_error());

    let err_resp = HttpResponse {
        status_code: 404,
        status_text: "Not Found".to_string(),
        headers: StringMap::new(),
        body: "".to_string(),
        response_time_ms: 50,
        bytes_sent: 0,
        bytes_received: 0,
        timings: ConnectionTimings::default(),
    };

    assert!(!err_resp.is_success());
    assert!(err_resp.is_client_error());
    assert!(!err_resp.is_server_error());
}

#[test]
fn test_http_response_body_contains() {
    let resp = HttpResponse {
        status_code: 200,
        status_text: "OK".to_string(),
        headers: StringMap::new(),
        body: "Hello World".to_string(),
        response_time_ms: 100,
        bytes_sent: 0,
        bytes_received: 11,
        timings: ConnectionTimings::default(),
    };

    assert!(resp.body_contains("Hello"));
    assert!(resp.body_contains("World"));
    assert!(!resp.body_contains("Goodbye"));
}

#[test]
fn test_http_client_config() {
    let config = HttpClientConfig {
        timeout_secs: 60,
        max_idle_per_host: 20,
        follow_redirects: false,
        accept_invalid_certs: true,
        base_url: Some("https://api.example.com".to_string()),
        default_headers: StringMap::new(),
    };

    assert_eq!(config.timeout_secs, 60);
    assert_eq!(config.max_idle_per_host, 20);
    assert!(!config.follow_redirects);
    assert!(config.accept_invalid_certs);
}

fn response_with(body: &str, status: u16) -> HttpResponse {
    let mut headers = StringMap::new();
    headers.insert("content-type".to_string(), "application/json".to_string());
    HttpResponse {
        status_code: status,
        status_text: String::new(),
        headers,
        body: body.to_string(),
        response_time_ms: 0,
        bytes_sent: 0,
        bytes_received: body.len(),
        timings: ConnectionTimings::estimate(10),
    }
}

#[test]
fn status_class_boundaries() {
    assert!(response_with("", 299).is_success());
    assert!(!response_with("", 300).is_success());
    assert!(!response_with("", 199).is_success());
    assert!(response_with("", 499).is_client_error());
    assert!(response_with("", 500).is_server_error());
    assert!(!response_with("", 600).is_server_error());
}

#[test]
fn headers_are_found_by_lower_case_name() {
    let resp = response_with("", 200);
    assert_eq!(resp.get_header("Content-Type"), Some(&"application/json".to_string()));
    assert_eq!(resp.get_header("content-type"), Some(&"application/json".to_string()));
    assert_eq!(resp.get_header("X-Missing"), None);
}

#[test]
fn body_patterns() {
    let resp = response_with("id=42 name=bob", 200);
    assert_eq!(resp.body_matches("id=[0-9]+").unwrap(), true);
    assert_eq!(resp.body_matches("^name").unwrap(), false);
    assert!(resp.body_matches("(").is_err());
    assert_eq!(resp.extract_regex("id=([0-9]+)", 1).unwrap(), Some("42".to_string()));
    assert_eq!(resp.extract_regex("id=([0-9]+)", 0).unwrap(), Some("id=42".to_string()));
    assert_eq!(resp.extract_regex("id=([0-9]+)", 2).unwrap(), None);
    assert_eq!(resp.extract_regex("zzz", 0).unwrap(), None);
}

#[test]
fn timing_estimate_halves_total() {
    let t = ConnectionTimings::estimate(101);
    assert_eq!(t.time_to_first_byte_ms, Some(50));
    assert_eq!(t.content_download_ms, Some(50));
    assert_eq!(t.dns_lookup_ms, None);
}

#[test]
fn default_client_config() {
    let c = HttpClientConfig::default();
    assert_eq!(c.timeout_secs, 30);
    assert_eq!(c.max_idle_per_host, 10);
    assert!(c.follow_redirects);
    assert!(!c.accept_invalid_certs);
    assert!(c.base_url.is_none());
    assert!(c.default_headers.is_empty());
}

#[test]
fn urls_resolve_against_base() {
    let base = Some("https://api.example.com//".to_string());
    assert_eq!(resolve_url(&base, "/users"), "https://api.example.com/users");
    assert_eq!(resolve_url(&base, "http://other/x"), "http://other/x");
    assert_eq!(resolve_url(&base, "https://other/x"), "https://other/x");
    assert_eq!(resolve_url(&None, "/users"), "/users");
}

#[test]
fn request_builders_keep_other_parts() {
    let mut extra = StringMap::new();
    extra.insert("A".to_string(), "1".to_string());
    extra.insert("B".to_string(), "2".to_string());
    let req = HttpRequest::delete("http://x/1")
        .with_header("A".to_string(), "0".to_string())
        .with_headers(extra)
        .with_body("b".to_string());
    assert_eq!(req.method, "DELETE");
    assert_eq!(req.headers.get("A"), Some(&"1".to_string()));
    assert_eq!(req.headers.len(), 2);
    assert_eq!(req.body, Some("b".to_string()));
    assert_eq!(req.body_size(), 1);
    let put = HttpRequest::put("http://x", "ü".to_string());
    assert_eq!(put.method, "PUT");
    assert_eq!(put.body_size(), 2);
    assert!(HttpRequest::new("PATCH", "u").body.is_none());
}

#[test]
fn header_lookup_ignores_case_and_skips_capitalised_keys() {
    let mut resp = response_with("", 200);
    resp.headers.insert("X-Trace".to_string(), "stored with capitals".to_string());
    assert_eq!(resp.get_header("CONTENT-TYPE"), resp.get_header("Content-type"));
    // The lookup goes by the lower-case name, which never matches a key
    // holding a capital letter.
    assert_eq!(resp.get_header("X-Trace"), None);
    assert_eq!(resp.get_header("x-trace"), None);
}
