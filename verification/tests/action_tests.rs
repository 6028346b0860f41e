use rust_lt::action::{
    client_method,
    create_executor,
    extract_hostname,
    parse_method,
    request_method,
    ActionError,
    ActionResult,
    DuringExecutor,
    Executor,
    FeedExecutor,
    HttpMethod,
    HttpRequestExecutor,
    RepeatCursor,
    RepeatExecutor,
    WaitExecutor,
};
use rust_lt::scenario::{Check, Extraction, FlowStep, JmsMessageType};
use rust_lt::session::Session;
use rust_lt::string_map::StringMap;

#[test]
fn test_action_result_creation() {
    let success = ActionResult::success("test".to_string(), 100);
    assert!(success.success);
    assert_eq!(success.response_time_ms, 100);
    assert!(success.error.is_none());

    let failure = ActionResult::failure("test".to_string(), "error".to_string(), 50);
    assert!(!failure.success);
    assert_eq!(failure.error, Some("error".to_string()));
}

fn http_executor(checks: Vec<Check>, extractions: Vec<Extraction>) -> HttpRequestExecutor {
    let mut headers = StringMap::new();
    headers.insert("Authorization".to_string(), "Bearer {{token}}".to_string());
    HttpRequestExecutor {
        name: "Get User".to_string(),
        method: "get".to_string(),
        url: "https://api.example.com/users/{{user_id}}".to_string(),
        headers,
        body: Some("{\"id\":\"{{user_id}}\"}".to_string()),
        checks,
        extractions,
    }
}

fn session_with_user() -> Session {
    let mut session = Session::new(1, "s".to_string());
    session.set("user_id".to_string(), "42".to_string());
    session.set("token".to_string(), "abc".to_string());
    session
}

#[test]
fn prepare_resolves_templates_and_method() {
    let exec = http_executor(vec![], vec![]);
    let session = session_with_user();
    let p = exec.prepare(&session).unwrap();
    assert_eq!(p.method, HttpMethod::Get);
    assert_eq!(p.url, "https://api.example.com/users/42");
    assert_eq!(p.headers, vec![("Authorization".to_string(), "Bearer abc".to_string())]);
    assert_eq!(p.body, Some("{\"id\":\"42\"}".to_string()));
    assert_eq!(p.bytes_sent, 11);
}

#[test]
fn prepare_rejects_unknown_method() {
    let mut exec = http_executor(vec![], vec![]);
    exec.method = "FETCH".to_string();
    let err = exec.prepare(&session_with_user()).err().unwrap();
    assert_eq!(err.message(), "Unsupported HTTP method: FETCH");
    assert!(matches!(err, ActionError::UnsupportedMethod(ref m) if m == "FETCH"));
}

#[test]
fn methods_are_case_insensitive() {
    assert_eq!(request_method("post"), Some(HttpMethod::Post));
    assert_eq!(request_method("Delete"), Some(HttpMethod::Delete));
    assert_eq!(request_method("OPTIONS"), None);
    assert_eq!(client_method("options"), Some(HttpMethod::Options));
    assert_eq!(parse_method("HEAD"), Some(HttpMethod::Head));
    assert_eq!(parse_method("head"), None);
}

#[test]
fn status_check_failure_is_reported() {
    let exec = http_executor(vec![Check::Status { expected: 200 }], vec![]);
    let mut session = session_with_user();
    let r = exec
        .complete(&mut session, "https://api.example.com:8443/x?y=1", 404, "nope", 7, 12, 11)
        .unwrap();
    assert!(!r.success);
    assert_eq!(r.error, Some("Status check failed: expected 200, got 404".to_string()));
    assert_eq!(r.status_code, Some(404));
    assert_eq!(r.ttfb_ms, Some(7));
    assert_eq!(r.response_time_ms, 12);
    assert_eq!(r.bytes_sent, 11);
    assert_eq!(r.bytes_received, 4);
    assert_eq!(r.response_body, Some("nope".to_string()));
    assert_eq!(r.hostname, Some("api.example.com".to_string()));
    assert_eq!(r.name, "Get User");
}

#[test]
fn passing_checks_run_extractions() {
    let exec = http_executor(
        vec![Check::Status { expected: 200 }, Check::BodyContains { text: "user {{user_id}}".to_string() }],
        vec![
            Extraction::Body { save_as: "page".to_string() },
            Extraction::Regex {
                pattern: "token=([a-z0-9]+)".to_string(),
                group: 1,
                save_as: "tok".to_string(),
            },
            Extraction::Header { name: "X".to_string(), save_as: "h".to_string() },
        ],
    );
    let mut session = session_with_user();
    let body = "ok user 42 token=abc123 end";
    let r = exec.complete(&mut session, "http://localhost/", 200, body, 1, 2, 0).unwrap();
    assert!(r.success);
    assert_eq!(r.error, None);
    assert_eq!(session.get("page"), Some(body));
    assert_eq!(session.get("tok"), Some("abc123"));
    assert!(!session.has_variable("h"));
    assert_eq!(r.hostname, Some("localhost".to_string()));
}

#[test]
fn failed_check_skips_extractions() {
    let exec = http_executor(
        vec![Check::BodyContains { text: "missing".to_string() }],
        vec![Extraction::Body { save_as: "page".to_string() }],
    );
    let mut session = session_with_user();
    let r = exec.complete(&mut session, "x", 200, "body", 0, 0, 0).unwrap();
    assert_eq!(r.error, Some("Body does not contain: missing".to_string()));
    assert!(!session.has_variable("page"));
    assert_eq!(r.hostname, None);
}

#[test]
fn checks_stop_at_first_failure() {
    let exec = http_executor(
        vec![
            Check::ResponseTime { max_ms: 1000 },
            Check::HeaderEquals { name: "X".to_string(), value: "Y".to_string() },
            Check::JsonPath { path: "$.a".to_string(), expected: "1".to_string() },
        ],
        vec![],
    );
    let mut session = session_with_user();
    let slow = exec.complete(&mut session, "x", 200, "", 0, 1500, 0).unwrap();
    assert_eq!(slow.error, Some("Response time 1500ms exceeds max 1000ms".to_string()));
    let fast = exec.complete(&mut session, "x", 200, "", 0, 1000, 0).unwrap();
    assert_eq!(fast.error, Some("Header check not implemented: X = Y".to_string()));

    let json = http_executor(
        vec![Check::JsonPath { path: "$.a".to_string(), expected: "1".to_string() }],
        vec![],
    );
    let r = json.complete(&mut session, "x", 200, "", 0, 0, 0).unwrap();
    assert_eq!(r.error, Some("JSONPath check not implemented: $.a = 1".to_string()));
}

#[test]
fn pattern_checks_match_body() {
    let exec = http_executor(vec![Check::BodyMatches { pattern: "^ok [0-9]+$".to_string() }], vec![]);
    let mut session = session_with_user();
    assert!(exec.complete(&mut session, "x", 200, "ok 17", 0, 0, 0).unwrap().success);
    let r = exec.complete(&mut session, "x", 200, "ok x", 0, 0, 0).unwrap();
    assert_eq!(r.error, Some("Body does not match pattern: ^ok [0-9]+$".to_string()));
}

#[test]
fn invalid_pattern_is_an_error() {
    let exec = http_executor(vec![Check::BodyMatches { pattern: "(".to_string() }], vec![]);
    let mut session = session_with_user();
    let r = exec.complete(&mut session, "x", 200, "body", 0, 0, 0);
    assert!(matches!(r, Err(ActionError::InvalidPattern(_))));

    let ex = http_executor(
        vec![],
        vec![
            Extraction::Body { save_as: "first".to_string() },
            Extraction::Regex { pattern: "[".to_string(), group: 0, save_as: "x".to_string() },
            Extraction::Body { save_as: "after".to_string() },
        ],
    );
    let mut s2 = session_with_user();
    let r2 = ex.complete(&mut s2, "x", 200, "body", 0, 0, 0);
    assert!(matches!(r2, Err(ActionError::InvalidPattern(_))));
    assert_eq!(s2.get("first"), Some("body"));
    assert!(!s2.has_variable("after"));
}

#[test]
fn long_bodies_are_cut_at_a_thousand_bytes() {
    let exec = http_executor(vec![], vec![]);
    let mut session = session_with_user();
    let body = "a".repeat(1500);
    let r = exec.complete(&mut session, "x", 200, &body, 0, 0, 0).unwrap();
    assert_eq!(r.response_body.as_ref().unwrap().len(), 1000);
    assert_eq!(r.bytes_received, 1500);

    let wide = "é".repeat(600);
    let r2 = exec.complete(&mut session, "x", 200, &wide, 0, 0, 0).unwrap();
    assert_eq!(r2.response_body, Some("é".repeat(500)));
    assert_eq!(r2.bytes_received, 1200);
}

#[test]
fn hostnames_are_taken_from_urls() {
    assert_eq!(extract_hostname("https://example.com"), Some("example.com".to_string()));
    assert_eq!(extract_hostname("http://host:8080/path"), Some("host".to_string()));
    assert_eq!(extract_hostname("ftp://a?b"), Some("a".to_string()));
    assert_eq!(extract_hostname("https://h#frag"), Some("h".to_string()));
    assert_eq!(extract_hostname("no-scheme"), None);
    assert_eq!(extract_hostname("http:///path"), None);
    assert_eq!(extract_hostname("http://:80"), None);
}

#[test]
fn executors_for_each_step_kind() {
    let wait = create_executor(&FlowStep::Wait { duration: 100 }).ok().unwrap();
    match wait {
        Executor::Wait(w) => {
            assert_eq!(w.duration_ms, 100);
            let r = w.outcome();
            assert!(r.success);
            assert_eq!(r.name, "wait");
            assert_eq!(r.response_time_ms, 100);
        }
        _ => panic!("expected a wait executor"),
    }

    let repeat = create_executor(&FlowStep::Repeat {
        times: 3,
        steps: vec![FlowStep::Wait { duration: 10 }],
    })
    .ok()
    .unwrap();
    match repeat {
        Executor::Repeat(x) => {
            assert_eq!(x.times, 3);
            assert_eq!(x.steps.len(), 1);
        }
        _ => panic!("expected a repeat executor"),
    }

    let during = create_executor(&FlowStep::During { duration: 1, steps: vec![] }).ok().unwrap();
    assert!(matches!(during, Executor::During(ref d) if d.duration_sec == 1));

    let feed = create_executor(&FlowStep::Feed { feeder: "users".to_string() }).ok().unwrap();
    assert!(matches!(feed, Executor::Feed(ref f) if f.feeder_name == "users"));

    let http = create_executor(&FlowStep::Request {
        protocol: "http_request".to_string(),
        name: "n".to_string(),
        method: "GET".to_string(),
        url: "http://x".to_string(),
        headers: StringMap::new(),
        body: None,
        checks: vec![],
        extractions: vec![],
    })
    .ok()
    .unwrap();
    assert!(matches!(http, Executor::Http(ref h) if h.url == "http://x"));
}

#[test]
fn unsupported_steps_are_errors() {
    let grpc = create_executor(&FlowStep::Request {
        protocol: "grpc".to_string(),
        name: "n".to_string(),
        method: "GET".to_string(),
        url: "http://x".to_string(),
        headers: StringMap::new(),
        body: None,
        checks: vec![],
        extractions: vec![],
    });
    let err = grpc.err().unwrap();
    assert_eq!(err.message(), "Unsupported request protocol: grpc");

    let jms = create_executor(&FlowStep::JmsMessage {
        name: "m".to_string(),
        destination: "q".to_string(),
        message: "hello".to_string(),
        message_type: JmsMessageType::default(),
    });
    let err = jms.err().unwrap();
    assert_eq!(err.message(), "Executor not implemented for step type: JmsMessage");
}

#[test]
fn repeat_walks_every_step_of_every_round() {
    let exec = RepeatExecutor {
        times: 2,
        steps: vec![FlowStep::Wait { duration: 1 }, FlowStep::Wait { duration: 2 }, FlowStep::Wait { duration: 3 }],
    };
    let mut seen = Vec::new();
    let mut cursor = exec.start();
    while let Some(c) = cursor {
        seen.push((c.round, c.index));
        cursor = exec.advance(c);
    }
    assert_eq!(seen, vec![(0, 0), (0, 1), (0, 2), (1, 0), (1, 1), (1, 2)]);

    let empty = RepeatExecutor { times: 0, steps: vec![FlowStep::Wait { duration: 1 }] };
    assert!(empty.start().is_none());
}

#[test]
fn repeat_stops_on_a_failed_step() {
    let exec = RepeatExecutor { times: 3, steps: vec![FlowStep::Wait { duration: 1 }] };
    let c = RepeatCursor { round: 1, index: 0 };
    assert!(exec.on_result(c, &ActionResult::success("s".to_string(), 1), 5).is_none());
    let f = exec
        .on_result(c, &ActionResult::failure("s".to_string(), "boom".to_string(), 1), 5)
        .unwrap();
    assert_eq!(f.name, "repeat (iteration 2)");
    assert_eq!(f.error, Some("boom".to_string()));
    assert_eq!(f.response_time_ms, 5);

    let mut no_error = ActionResult::success("s".to_string(), 1);
    no_error.success = false;
    let g = exec.on_result(c, &no_error, 6).unwrap();
    assert_eq!(g.error, Some("Unknown error".to_string()));

    let done = exec.finish(30);
    assert!(done.success);
    assert_eq!(done.name, "repeat");
}

#[test]
fn during_runs_until_time_is_up() {
    let exec = DuringExecutor { duration_sec: 1, steps: vec![] };
    assert!(exec.time_left(0));
    assert!(exec.time_left(999));
    assert!(!exec.time_left(1000));
    let f = exec
        .on_result(&ActionResult::failure("x".to_string(), "bad".to_string(), 0), 10)
        .unwrap();
    assert_eq!(f.name, "during");
    assert_eq!(f.error, Some("bad".to_string()));
    assert_eq!(exec.finish(1001).name, "during");
}

#[test]
fn feed_and_wait_outcomes() {
    let feed = FeedExecutor { feeder_name: "users".to_string() }.outcome();
    assert!(!feed.success);
    assert_eq!(feed.name, "feed");
    assert_eq!(
        feed.error,
        Some("Feeder 'users' not yet wired up - requires scenario context".to_string())
    );
    assert_eq!(feed.response_time_ms, 0);

    let wait = WaitExecutor { duration_ms: 250 }.outcome();
    assert!(wait.success);
    assert_eq!(wait.response_time_ms, 250);
}

#[test]
fn cloned_results_are_equal() {
    let r = ActionResult::failure("a".to_string(), "b".to_string(), 3);
    let c = r.clone();
    assert_eq!(c.name, r.name);
    assert_eq!(c.error, r.error);
    assert_eq!(c.success, r.success);
}

#[test]
fn previews_end_on_a_whole_character() {
    let exec = http_executor(vec![], vec![]);
    let mut session = session_with_user();
    // Byte 1000 falls inside the two-byte `é`: the preview stops before it.
    let body = format!("{}é{}", "a".repeat(999), "b".repeat(10));
    let r = exec.complete(&mut session, "x", 200, &body, 0, 0, 0).unwrap();
    assert_eq!(r.response_body, Some("a".repeat(999)));
    assert_eq!(r.bytes_received, 1011);

    // A four-byte character straddling the cut.
    let wide = format!("{}😀tail", "a".repeat(998));
    let r2 = exec.complete(&mut session, "x", 200, &wide, 0, 0, 0).unwrap();
    assert_eq!(r2.response_body, Some("a".repeat(998)));

    // Exactly 1000 bytes ending on a whole character is kept whole.
    let exact = format!("{}é", "a".repeat(998));
    let r3 = exec.complete(&mut session, "x", 200, &exact, 0, 0, 0).unwrap();
    assert_eq!(r3.response_body, Some(exact.clone()));
}
