use rust_lt::live::{parse_usize, request_rows, vu_state_rows, LiveCounts};

const REQUEST_HEADER: &str = "timestamp,scenario,request_name,user_id,response_time_ms,status,pass_count,fail_count,error_message,bytes_sent,bytes_received,dns_lookup_ms,tcp_connect_ms,tls_handshake_ms,time_to_first_byte_ms,content_download_ms";

fn optional_ms(s: &str) -> Option<f64> {
    if s.is_empty() { None } else { s.parse().ok() }
}

#[test]
fn test_csv_parser_parse_requests() {
    let log = format!(
        "{}\n{}\n{}\n",
        REQUEST_HEADER,
        "2025-11-29 19:00:00.000,test_scenario,request1,1,100.5,success,1,0,,500,1000,10.0,20.0,30.0,40.0,50.0",
        "2025-11-29 19:00:01.000,test_scenario,request2,2,200.3,failure,0,1,timeout,300,500,,,,,"
    );
    let requests = request_rows(log.as_bytes()).unwrap();
    assert_eq!(requests.len(), 2);
    assert_eq!(requests[0].request_name, "request1");
    assert_eq!(requests[0].status, "success");
    assert_eq!(requests[0].response_time_ms.parse::<f64>().unwrap(), 100.5);
    assert_eq!(optional_ms(&requests[0].dns_lookup_ms), Some(10.0));
    assert_eq!(requests[1].status, "failure");
    assert_eq!(optional_ms(&requests[1].dns_lookup_ms), None);
}

#[test]
fn test_csv_parser_parse_vu_states() {
    let log = "timestamp,scenario,total_started,active,completed,failed,success_rate\n\
               2025-11-29 19:00:00.000,test_scenario,10,5,3,2,60.00\n\
               2025-11-29 19:00:02.000,test_scenario,10,3,5,2,71.43\n";
    let vu_states = vu_state_rows(log.as_bytes()).unwrap();
    assert_eq!(vu_states.len(), 2);
    assert_eq!(vu_states[0].total_started, 10);
    assert_eq!(vu_states[0].active, 5);
    assert_eq!(vu_states[1].completed, 5);
}

#[test]
fn request_counts_default_to_zero() {
    let log = format!("{}\nt,s,r,-4,x,ok,+2,7x,,99999999999999999999999,12,,,,,\n", REQUEST_HEADER);
    let rows = request_rows(log.as_bytes()).unwrap();
    assert_eq!(rows[0].user_id, 0);
    assert_eq!(rows[0].pass_count, 2);
    assert_eq!(rows[0].fail_count, 0);
    assert_eq!(rows[0].bytes_sent, 0);
    assert_eq!(rows[0].bytes_received, 12);
    assert_eq!(rows[0].response_time_ms, "x");
}

#[test]
fn unreadable_logs_are_errors() {
    // A record with more fields than the header.
    let log = "a,b\n1,2,3\n";
    assert!(request_rows(log.as_bytes()).is_err());
    assert!(vu_state_rows(log.as_bytes()).is_err());
    // Only a header: no rows.
    assert!(request_rows(REQUEST_HEADER.as_bytes()).unwrap().is_empty());
}

#[test]
fn counts_read_as_usize_parse_does() {
    assert_eq!(parse_usize("42"), Some(42));
    assert_eq!(parse_usize("+7"), Some(7));
    assert_eq!(parse_usize("007"), Some(7));
    assert_eq!(parse_usize(""), None);
    assert_eq!(parse_usize("+"), None);
    assert_eq!(parse_usize("-1"), None);
    assert_eq!(parse_usize("1.5"), None);
    assert_eq!(parse_usize("18446744073709551616"), None);
    assert_eq!(parse_usize("18446744073709551615"), Some(usize::MAX));
}

#[test]
fn live_counts_follow_the_records() {
    let mut c = LiveCounts::new();
    c.count_record("request", Some("success"), None);
    c.count_record("request", Some("failure"), None);
    c.count_record("request", None, None);
    c.count_record("vu_state", None, Some("started"));
    c.count_record("vu_state", None, Some("started"));
    c.count_record("vu_state", None, Some("completed"));
    c.count_record("vu_state", None, Some("failed"));
    c.count_record("vu_state", None, Some("failed"));
    c.count_record("vu_state", None, None);
    c.count_record("metric", Some("success"), Some("started"));
    assert_eq!(c.total, 3);
    assert_eq!(c.success, 1);
    assert_eq!(c.fail, 2);
    assert_eq!(c.vus_started, 2);
    assert_eq!(c.vus_completed, 3);
    assert_eq!(c.active_vus, 0);
}
