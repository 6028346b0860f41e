//! Executing scenario steps: the result of an action, HTTP request
//! preparation and response checking, and the decisions of loops and feeds.
use vstd::prelude::*;
use vstd::utf8::encode_utf8;
use vstd::string::StringSliceAdditionalSpecFns;
use crate::string_map::StringMap;
use crate::session::{Session, render};
use crate::scenario::{
    Check,
    Extraction,
    FlowStep,
    clone_text_option,
    clone_checks,
    clone_extractions,
    clone_steps,
    steps_copy,
};
use crate::text::{
    upper_case,
    to_upper,
    chars_of,
    string_of,
    owned,
    str_eq,
    str_contains,
    contains_seq,
    decimal,
    u64_to_decimal,
};
use crate::pattern::{
    regex_compile_error,
    regex_finds,
    regex_group,
    regex_check,
    regex_is_match,
    regex_capture,
};

verus! {

/// The outcome of executing one action.
#[derive(Debug)]
pub struct ActionResult {
    /// Action name.
    pub name: String,
    /// Whether the action succeeded.
    pub success: bool,
    /// Response time in milliseconds.
    pub response_time_ms: u64,
    /// HTTP status code, if any.
    pub status_code: Option<u16>,
    /// Time to first byte, in milliseconds.
    pub ttfb_ms: Option<u64>,
    /// DNS lookup time, in milliseconds.
    pub dns_lookup_ms: Option<u64>,
    /// TCP connect time, in milliseconds.
    pub tcp_connect_ms: Option<u64>,
    /// TLS handshake time, in milliseconds.
    pub tls_handshake_ms: Option<u64>,
    /// Error message when the action failed.
    pub error: Option<String>,
    /// The start of the response body.
    pub response_body: Option<String>,
    /// Bytes sent.
    pub bytes_sent: usize,
    /// Bytes received.
    pub bytes_received: usize,
    /// Host name of the request URL.
    pub hostname: Option<String>,
}

impl Clone for ActionResult {
    fn clone(&self) -> (r: Self)
        ensures
            r == *self,
    {
        ActionResult {
            name: self.name.clone(),
            success: self.success,
            response_time_ms: self.response_time_ms,
            status_code: self.status_code,
            ttfb_ms: self.ttfb_ms,
            dns_lookup_ms: self.dns_lookup_ms,
            tcp_connect_ms: self.tcp_connect_ms,
            tls_handshake_ms: self.tls_handshake_ms,
            error: clone_text_option(&self.error),
            response_body: clone_text_option(&self.response_body),
            bytes_sent: self.bytes_sent,
            bytes_received: self.bytes_received,
            hostname: clone_text_option(&self.hostname),
        }
    }
}

/// A successful result named `name` that took `ms` milliseconds, with no
/// protocol details.
pub open spec fn plain_success(r: ActionResult, name: Seq<char>, ms: u64) -> bool {
    &&& r.name@ == name
    &&& r.success
    &&& r.response_time_ms == ms
    &&& r.status_code is None
    &&& r.ttfb_ms is None
    &&& r.dns_lookup_ms is None
    &&& r.tcp_connect_ms is None
    &&& r.tls_handshake_ms is None
    &&& r.error is None
    &&& r.response_body is None
    &&& r.bytes_sent == 0
    &&& r.bytes_received == 0
    &&& r.hostname is None
}

/// A failed result named `name` with error `error` that took `ms`
/// milliseconds, with no protocol details.
pub open spec fn plain_failure(r: ActionResult, name: Seq<char>, error: Seq<char>, ms: u64) -> bool {
    &&& r.name@ == name
    &&& !r.success
    &&& r.response_time_ms == ms
    &&& r.status_code is None
    &&& r.ttfb_ms is None
    &&& r.dns_lookup_ms is None
    &&& r.tcp_connect_ms is None
    &&& r.tls_handshake_ms is None
    &&& r.error matches Some(e) && e@ == error
    &&& r.response_body is None
    &&& r.bytes_sent == 0
    &&& r.bytes_received == 0
    &&& r.hostname is None
}

impl ActionResult {
    /// A successful result.
    pub fn success(name: String, response_time_ms: u64) -> (r: Self)
        ensures
            plain_success(r, name@, response_time_ms),
    {
        ActionResult {
            name,
            success: true,
            response_time_ms,
            status_code: None,
            ttfb_ms: None,
            dns_lookup_ms: None,
            tcp_connect_ms: None,
            tls_handshake_ms: None,
            error: None,
            response_body: None,
            bytes_sent: 0,
            bytes_received: 0,
            hostname: None,
        }
    }

    /// A failed result carrying an error message.
    pub fn failure(name: String, error: String, response_time_ms: u64) -> (r: Self)
        ensures
            plain_failure(r, name@, error@, response_time_ms),
    {
        ActionResult {
            name,
            success: false,
            response_time_ms,
            status_code: None,
            ttfb_ms: None,
            dns_lookup_ms: None,
            tcp_connect_ms: None,
            tls_handshake_ms: None,
            error: Some(error),
            response_body: None,
            bytes_sent: 0,
            bytes_received: 0,
            hostname: None,
        }
    }
}

/// Why a step could not be executed.
#[derive(Debug)]
pub enum ActionError {
    /// The HTTP method is not one of GET, POST, PUT, DELETE, PATCH, HEAD.
    UnsupportedMethod(String),
    /// A `request` step names a protocol other than `http_request`.
    UnsupportedProtocol(String),
    /// A regular expression did not compile (the error's text).
    InvalidPattern(String),
    /// No executor exists for this kind of step.
    ExecutorNotImplemented(FlowStep),
}

/// The name of a step's kind.
pub open spec fn step_kind(step: FlowStep) -> Seq<char> {
    match step {
        FlowStep::Request { .. } => "Request"@,
        FlowStep::HttpRequest { .. } => "HttpRequest"@,
        FlowStep::WebSocket { .. } => "WebSocket"@,
        FlowStep::JdbcQuery { .. } => "JdbcQuery"@,
        FlowStep::JmsMessage { .. } => "JmsMessage"@,
        FlowStep::KafkaPublish { .. } => "KafkaPublish"@,
        FlowStep::Wait { .. } => "Wait"@,
        FlowStep::Repeat { .. } => "Repeat"@,
        FlowStep::During { .. } => "During"@,
        FlowStep::If { .. } => "If"@,
        FlowStep::Feed { .. } => "Feed"@,
    }
}

/// The message of an error.
pub open spec fn error_text(e: ActionError) -> Seq<char> {
    match e {
        ActionError::UnsupportedMethod(m) => "Unsupported HTTP method: "@ + m@,
        ActionError::UnsupportedProtocol(p) => "Unsupported request protocol: "@ + p@,
        ActionError::InvalidPattern(t) => t@,
        ActionError::ExecutorNotImplemented(s) => "Executor not implemented for step type: "@
            + step_kind(s),
    }
}

impl ActionError {
    /// The error message.
    pub fn message(&self) -> (r: String)
        ensures
            r@ == error_text(*self),
    {
        match self {
            ActionError::UnsupportedMethod(m) => {
                let mut s = owned("Unsupported HTTP method: ");
                s.append(m.as_str());
                s
            },
            ActionError::UnsupportedProtocol(p) => {
                let mut s = owned("Unsupported request protocol: ");
                s.append(p.as_str());
                s
            },
            ActionError::InvalidPattern(t) => t.clone(),
            ActionError::ExecutorNotImplemented(step) => {
                let mut s = owned("Executor not implemented for step type: ");
                s.append(kind_name(step));
                s
            },
        }
    }
}

fn kind_name(step: &FlowStep) -> (r: &'static str)
    ensures
        r@ == step_kind(*step),
{
    match step {
        FlowStep::Request { .. } => "Request",
        FlowStep::HttpRequest { .. } => "HttpRequest",
        FlowStep::WebSocket { .. } => "WebSocket",
        FlowStep::JdbcQuery { .. } => "JdbcQuery",
        FlowStep::JmsMessage { .. } => "JmsMessage",
        FlowStep::KafkaPublish { .. } => "KafkaPublish",
        FlowStep::Wait { .. } => "Wait",
        FlowStep::Repeat { .. } => "Repeat",
        FlowStep::During { .. } => "During",
        FlowStep::If { .. } => "If",
        FlowStep::Feed { .. } => "Feed",
    }
}

/// `"Status check failed: expected {expected}, got {got}"`.
pub open spec fn status_failure(expected: u16, got: u16) -> Seq<char> {
    "Status check failed: expected "@ + decimal(expected as nat) + ", got "@ + decimal(got as nat)
}

/// `"Body does not contain: {text}"`.
pub open spec fn missing_text_failure(text: Seq<char>) -> Seq<char> {
    "Body does not contain: "@ + text
}

/// `"Body does not match pattern: {pattern}"`.
pub open spec fn pattern_failure(pattern: Seq<char>) -> Seq<char> {
    "Body does not match pattern: "@ + pattern
}

/// `"Response time {elapsed}ms exceeds max {max}ms"`.
pub open spec fn slow_failure(elapsed: u64, max: u64) -> Seq<char> {
    "Response time "@ + decimal(elapsed as nat) + "ms exceeds max "@ + decimal(max as nat) + "ms"@
}

/// `"Header check not implemented: {name} = {value}"`.
pub open spec fn header_check_failure(name: Seq<char>, value: Seq<char>) -> Seq<char> {
    "Header check not implemented: "@ + name + " = "@ + value
}

/// `"JSONPath check not implemented: {path} = {expected}"`.
pub open spec fn json_check_failure(path: Seq<char>, expected: Seq<char>) -> Seq<char> {
    "JSONPath check not implemented: "@ + path + " = "@ + expected
}

/// The verdict of one check: `Ok(None)` when it passes, `Ok(Some(message))`
/// when it fails, `Err(text)` when its pattern does not compile.
pub open spec fn check_verdict(
    c: Check,
    vars: Map<Seq<char>, Seq<char>>,
    status: u16,
    body: Seq<char>,
    elapsed: u64,
) -> Result<Option<Seq<char>>, Seq<char>> {
    match c {
        Check::Status { expected } => if status != expected {
            Ok(Some(status_failure(expected, status)))
        } else {
            Ok(None)
        },
        Check::BodyContains { text } => {
            let t = render(text@, vars);
            if !contains_seq(body, t) {
                Ok(Some(missing_text_failure(t)))
            } else {
                Ok(None)
            }
        },
        Check::BodyMatches { pattern } => match regex_compile_error(pattern@) {
            Some(e) => Err(e),
            None => if !regex_finds(pattern@, body) {
                Ok(Some(pattern_failure(pattern@)))
            } else {
                Ok(None)
            },
        },
        Check::ResponseTime { max_ms } => if elapsed > max_ms {
            Ok(Some(slow_failure(elapsed, max_ms)))
        } else {
            Ok(None)
        },
        Check::HeaderEquals { name, value } => Ok(Some(header_check_failure(name@, value@))),
        Check::JsonPath { path, expected } => Ok(Some(json_check_failure(path@, expected@))),
    }
}

/// The verdict of a list of checks, run in order until one does not pass.
pub open spec fn checks_verdict(
    cs: Seq<Check>,
    vars: Map<Seq<char>, Seq<char>>,
    status: u16,
    body: Seq<char>,
    elapsed: u64,
) -> Result<Option<Seq<char>>, Seq<char>>
    decreases cs.len(),
{
    if cs.len() == 0 {
        Ok(None)
    } else {
        match check_verdict(cs[0], vars, status, body, elapsed) {
            Ok(None) => checks_verdict(cs.drop_first(), vars, status, body, elapsed),
            other => other,
        }
    }
}

/// What one check asks of a response: a status check passes exactly when
/// the status is the expected one (else it names both); a response-time
/// check exactly when the response came within the limit; a body check
/// exactly when the body holds the text, its placeholders filled from the
/// variables; header and JSONPath checks never pass.
pub proof fn law_check_meaning(
    c: Check,
    vars: Map<Seq<char>, Seq<char>>,
    status: u16,
    body: Seq<char>,
    elapsed: u64,
)
    ensures
        c matches Check::Status { expected } ==> (check_verdict(c, vars, status, body, elapsed)
            == Ok::<Option<Seq<char>>, Seq<char>>(None) <==> status == expected),
        c matches Check::Status { expected } ==> (status != expected ==> check_verdict(
            c,
            vars,
            status,
            body,
            elapsed,
        ) == Ok::<Option<Seq<char>>, Seq<char>>(
            Some(
                "Status check failed: expected "@ + decimal(expected as nat) + ", got "@ + decimal(
                    status as nat,
                ),
            ),
        )),
        c matches Check::ResponseTime { max_ms } ==> (check_verdict(c, vars, status, body, elapsed)
            == Ok::<Option<Seq<char>>, Seq<char>>(None) <==> elapsed <= max_ms),
        c matches Check::BodyContains { text } ==> (check_verdict(c, vars, status, body, elapsed)
            == Ok::<Option<Seq<char>>, Seq<char>>(None) <==> contains_seq(body, render(text@, vars))),
        c matches Check::HeaderEquals { .. } ==> check_verdict(c, vars, status, body, elapsed) is Ok
            && check_verdict(c, vars, status, body, elapsed) != Ok::<Option<Seq<char>>, Seq<char>>(
            None,
        ),
        c matches Check::JsonPath { .. } ==> check_verdict(c, vars, status, body, elapsed) is Ok
            && check_verdict(c, vars, status, body, elapsed) != Ok::<Option<Seq<char>>, Seq<char>>(
            None,
        ),
{
}

/// A list of checks passes exactly when each of its checks passes; when one
/// does not, the verdict is that of the first check that does not pass.
pub proof fn law_checks_pass_when_each_passes(
    cs: Seq<Check>,
    vars: Map<Seq<char>, Seq<char>>,
    status: u16,
    body: Seq<char>,
    elapsed: u64,
)
    ensures
        checks_verdict(cs, vars, status, body, elapsed) == Ok::<Option<Seq<char>>, Seq<char>>(None)
            <==> forall|i: int|
            0 <= i < cs.len() ==> #[trigger] check_verdict(cs[i], vars, status, body, elapsed)
                == Ok::<Option<Seq<char>>, Seq<char>>(None),
        forall|k: int|
            0 <= k < cs.len() && #[trigger] check_verdict(cs[k], vars, status, body, elapsed)
                != Ok::<Option<Seq<char>>, Seq<char>>(None) && (forall|i: int|
                0 <= i < k ==> check_verdict(cs[i], vars, status, body, elapsed) == Ok::<
                    Option<Seq<char>>,
                    Seq<char>,
                >(None)) ==> checks_verdict(cs, vars, status, body, elapsed) == check_verdict(
                cs[k],
                vars,
                status,
                body,
                elapsed,
            ),
    decreases cs.len(),
{
    if cs.len() > 0 {
        let rest = cs.drop_first();
        law_checks_pass_when_each_passes(rest, vars, status, body, elapsed);
        assert forall|i: int| 0 <= i < rest.len() implies rest[i] == cs[i + 1] by {}
        if check_verdict(cs[0], vars, status, body, elapsed) == Ok::<Option<Seq<char>>, Seq<char>>(
            None,
        ) {
            assert forall|k: int|
                0 <= k < cs.len() && #[trigger] check_verdict(cs[k], vars, status, body, elapsed)
                    != Ok::<Option<Seq<char>>, Seq<char>>(None) && (forall|i: int|
                    0 <= i < k ==> check_verdict(cs[i], vars, status, body, elapsed) == Ok::<
                        Option<Seq<char>>,
                        Seq<char>,
                    >(None)) implies checks_verdict(cs, vars, status, body, elapsed)
                == check_verdict(cs[k], vars, status, body, elapsed) by {
                assert(k >= 1);
                assert(rest[k - 1] == cs[k]);
                assert forall|i: int| 0 <= i < k - 1 implies check_verdict(
                    rest[i],
                    vars,
                    status,
                    body,
                    elapsed,
                ) == Ok::<Option<Seq<char>>, Seq<char>>(None) by {
                    assert(rest[i] == cs[i + 1]);
                }
            }
            if checks_verdict(cs, vars, status, body, elapsed) == Ok::<
                Option<Seq<char>>,
                Seq<char>,
            >(None) {
                assert forall|i: int| 0 <= i < cs.len() implies #[trigger] check_verdict(
                    cs[i],
                    vars,
                    status,
                    body,
                    elapsed,
                ) == Ok::<Option<Seq<char>>, Seq<char>>(None) by {
                    if i > 0 {
                        assert(rest[i - 1] == cs[i]);
                    }
                }
            }
            if forall|i: int|
                0 <= i < cs.len() ==> #[trigger] check_verdict(cs[i], vars, status, body, elapsed)
                    == Ok::<Option<Seq<char>>, Seq<char>>(None) {
                assert forall|i: int| 0 <= i < rest.len() implies #[trigger] check_verdict(
                    rest[i],
                    vars,
                    status,
                    body,
                    elapsed,
                ) == Ok::<Option<Seq<char>>, Seq<char>>(None) by {
                    assert(rest[i] == cs[i + 1]);
                }
            }
        }
    }
}

fn join2(a: &str, b: &str) -> (r: String)
    ensures
        r@ == a@ + b@,
{
    let mut s = owned(a);
    s.append(b);
    s
}

/// Runs one check against a response.
fn run_check(
    c: &Check,
    session: &Session,
    status: u16,
    body: &str,
    elapsed: u64,
) -> (r: Result<Option<String>, String>)
    ensures
        match (r, check_verdict(*c, session.vars(), status, body@, elapsed)) {
            (Ok(None), Ok(None)) => true,
            (Ok(Some(m)), Ok(Some(v))) => m@ == v,
            (Err(e), Err(v)) => e@ == v,
            _ => false,
        },
{
    match c {
        Check::Status { expected } => {
            if status != *expected {
                let mut m = owned("Status check failed: expected ");
                m.append(u64_to_decimal(*expected as u64).as_str());
                m.append(", got ");
                m.append(u64_to_decimal(status as u64).as_str());
                Ok(Some(m))
            } else {
                Ok(None)
            }
        },
        Check::BodyContains { text } => {
            let t = session.resolve_template(text.as_str());
            if !str_contains(body, t.as_str()) {
                Ok(Some(join2("Body does not contain: ", t.as_str())))
            } else {
                Ok(None)
            }
        },
        Check::BodyMatches { pattern } => {
            match regex_check(pattern.as_str()) {
                Some(e) => Err(e),
                None => {
                    if !regex_is_match(pattern.as_str(), body) {
                        Ok(Some(join2("Body does not match pattern: ", pattern.as_str())))
                    } else {
                        Ok(None)
                    }
                },
            }
        },
        Check::ResponseTime { max_ms } => {
            if elapsed > *max_ms {
                let mut m = owned("Response time ");
                m.append(u64_to_decimal(elapsed).as_str());
                m.append("ms exceeds max ");
                m.append(u64_to_decimal(*max_ms).as_str());
                m.append("ms");
                Ok(Some(m))
            } else {
                Ok(None)
            }
        },
        Check::HeaderEquals { name, value } => {
            let mut m = owned("Header check not implemented: ");
            m.append(name.as_str());
            m.append(" = ");
            m.append(value.as_str());
            Ok(Some(m))
        },
        Check::JsonPath { path, expected } => {
            let mut m = owned("JSONPath check not implemented: ");
            m.append(path.as_str());
            m.append(" = ");
            m.append(expected.as_str());
            Ok(Some(m))
        },
    }
}

/// Runs the checks in order, stopping at the first that does not pass.
fn run_checks(
    cs: &Vec<Check>,
    session: &Session,
    status: u16,
    body: &str,
    elapsed: u64,
) -> (r: Result<Option<String>, String>)
    ensures
        match (r, checks_verdict(cs@, session.vars(), status, body@, elapsed)) {
            (Ok(None), Ok(None)) => true,
            (Ok(Some(m)), Ok(Some(v))) => m@ == v,
            (Err(e), Err(v)) => e@ == v,
            _ => false,
        },
{
    let mut i: usize = 0;
    assert(cs@.skip(0) =~= cs@);
    while i < cs.len()
        invariant
            i <= cs.len(),
            checks_verdict(cs@, session.vars(), status, body@, elapsed) == checks_verdict(
                cs@.skip(i as int),
                session.vars(),
                status,
                body@,
                elapsed,
            ),
        decreases cs.len() - i,
    {
        let v = run_check(&cs[i], session, status, body, elapsed);
        proof {
            assert(cs@.skip(i as int)[0] == cs@[i as int]);
            assert(cs@.skip(i as int).drop_first() =~= cs@.skip(i + 1));
        }
        match v {
            Ok(None) => {},
            other => {
                return other;
            },
        }
        i += 1;
    }
    Ok(None)
}

/// The session variables after one extraction from `body`, or the text of
/// the error when its pattern does not compile.  Extractions that are not
/// implemented leave the variables unchanged.
pub open spec fn extraction_step(
    e: Extraction,
    vars: Map<Seq<char>, Seq<char>>,
    body: Seq<char>,
) -> Result<Map<Seq<char>, Seq<char>>, Seq<char>> {
    match e {
        Extraction::Body { save_as } => Ok(vars.insert(save_as@, body)),
        Extraction::Regex { pattern, group, save_as } => match regex_compile_error(pattern@) {
            Some(err) => Err(err),
            None => match regex_group(pattern@, body, group) {
                Some(g) => Ok(vars.insert(save_as@, g)),
                None => Ok(vars),
            },
        },
        _ => Ok(vars),
    }
}

/// The variables after running the extractions in order, and the error that
/// stopped them, if any (the variables are then those set before it).
pub open spec fn extractions_result(
    es: Seq<Extraction>,
    vars: Map<Seq<char>, Seq<char>>,
    body: Seq<char>,
) -> (Map<Seq<char>, Seq<char>>, Option<Seq<char>>)
    decreases es.len(),
{
    if es.len() == 0 {
        (vars, None)
    } else {
        match extraction_step(es[0], vars, body) {
            Ok(next) => extractions_result(es.drop_first(), next, body),
            Err(err) => (vars, Some(err)),
        }
    }
}

/// An extraction sets at most the variable it saves to: a body extraction
/// saves the whole body there; a regex extraction whose pattern compiles
/// saves there the group it finds, and changes nothing when it finds none;
/// one whose pattern does not compile fails with the pattern's error; the
/// extractions that are not implemented change nothing.  Of a list, a
/// failure stops the rest and keeps the variables set before it.
pub proof fn law_extraction_saves_under_its_name(
    e: Extraction,
    vars: Map<Seq<char>, Seq<char>>,
    body: Seq<char>,
    rest: Seq<Extraction>,
)
    ensures
        e matches Extraction::Body { save_as } ==> extraction_step(e, vars, body) == Ok::<
            Map<Seq<char>, Seq<char>>,
            Seq<char>,
        >(vars.insert(save_as@, body)),
        e matches Extraction::Regex { pattern, group, save_as } ==> (match regex_compile_error(
            pattern@,
        ) {
            Some(err) => extraction_step(e, vars, body) == Err::<
                Map<Seq<char>, Seq<char>>,
                Seq<char>,
            >(err),
            None => extraction_step(e, vars, body) == Ok::<Map<Seq<char>, Seq<char>>, Seq<char>>(
                match regex_group(pattern@, body, group) {
                    Some(g) => vars.insert(save_as@, g),
                    None => vars,
                },
            ),
        }),
        e matches Extraction::JsonPath { .. } ==> extraction_step(e, vars, body) == Ok::<
            Map<Seq<char>, Seq<char>>,
            Seq<char>,
        >(vars),
        e matches Extraction::Header { .. } ==> extraction_step(e, vars, body) == Ok::<
            Map<Seq<char>, Seq<char>>,
            Seq<char>,
        >(vars),
        e matches Extraction::CssSelector { .. } ==> extraction_step(e, vars, body) == Ok::<
            Map<Seq<char>, Seq<char>>,
            Seq<char>,
        >(vars),
        extraction_step(e, vars, body) is Err ==> extractions_result(seq![e] + rest, vars, body) == (
        vars,
        Some(extraction_step(e, vars, body)->Err_0),
        ),
        extraction_step(e, vars, body) matches Ok(next) ==> extractions_result(
            seq![e] + rest,
            vars,
            body,
        ) == extractions_result(rest, next, body),
{
    assert((seq![e] + rest)[0] == e);
    assert((seq![e] + rest).drop_first() =~= rest);
}

/// The session is the same but for its variables.
pub open spec fn same_but_vars(a: Session, b: Session) -> bool {
    a.user_id == b.user_id && a.scenario_name@ == b.scenario_name@ && a.start_time == b.start_time
}

fn run_extraction(e: &Extraction, session: &mut Session, body: &str) -> (r: Result<(), String>)
    ensures
        same_but_vars(*final(session), *old(session)),
        match (r, extraction_step(*e, old(session).vars(), body@)) {
            (Ok(()), Ok(m)) => final(session).vars() == m,
            (Err(t), Err(v)) => t@ == v && final(session).vars() == old(session).vars(),
            _ => false,
        },
{
    match e {
        Extraction::Body { save_as } => {
            session.set(save_as.clone(), owned(body));
            Ok(())
        },
        Extraction::Regex { pattern, group, save_as } => {
            match regex_check(pattern.as_str()) {
                Some(err) => Err(err),
                None => {
                    match regex_capture(pattern.as_str(), body, *group) {
                        Some(g) => {
                            session.set(save_as.clone(), g);
                        },
                        None => {},
                    }
                    Ok(())
                },
            }
        },
        _ => Ok(()),
    }
}

/// Runs the extractions in order, stopping at the first whose pattern does
/// not compile.
fn run_extractions(es: &Vec<Extraction>, session: &mut Session, body: &str) -> (r: Result<
    (),
    String,
>)
    ensures
        same_but_vars(*final(session), *old(session)),
        final(session).vars() == extractions_result(es@, old(session).vars(), body@).0,
        match r {
            Ok(()) => extractions_result(es@, old(session).vars(), body@).1 is None,
            Err(t) => extractions_result(es@, old(session).vars(), body@).1 == Some(t@),
        },
{
    let ghost start = extractions_result(es@, old(session).vars(), body@);
    let mut i: usize = 0;
    assert(es@.skip(0) =~= es@);
    while i < es.len()
        invariant
            i <= es.len(),
            same_but_vars(*session, *old(session)),
            start == extractions_result(es@, old(session).vars(), body@),
            extractions_result(es@.skip(i as int), session.vars(), body@) == start,
        decreases es.len() - i,
    {
        proof {
            assert(es@.skip(i as int)[0] == es@[i as int]);
            assert(es@.skip(i as int).drop_first() =~= es@.skip(i + 1));
        }
        let r = run_extraction(&es[i], session, body);
        match r {
            Ok(()) => {},
            Err(t) => {
                return Err(t);
            },
        }
        i += 1;
    }
    Ok(())
}

/// The first position at or after `i` where `"://"` starts in `s`.
pub open spec fn scheme_end_from(s: Seq<char>, i: int) -> Option<int>
    decreases s.len() - i,
{
    if i < 0 || i + 3 > s.len() {
        None
    } else if s[i] == ':' && s[i + 1] == '/' && s[i + 2] == '/' {
        Some(i)
    } else {
        scheme_end_from(s, i + 1)
    }
}

/// A character that ends the host-and-port part of a URL.
pub open spec fn ends_authority(c: char) -> bool {
    c == '/' || c == '?' || c == '#'
}

/// Number of characters of `s` from `i` on before one for which `stop` holds.
pub open spec fn run_before(s: Seq<char>, i: int, stop: spec_fn(char) -> bool) -> nat
    decreases s.len() - i,
{
    if 0 <= i < s.len() && !stop(s[i]) {
        1 + run_before(s, i + 1, stop)
    } else {
        0
    }
}

/// The host of a URL `scheme://host[:port][/?#...]`: what follows the first
/// `"://"` up to the first `/`, `?` or `#`, then up to the first `:`; `None`
/// when there is no `"://"` or the host is empty.
pub open spec fn host_of(u: Seq<char>) -> Option<Seq<char>> {
    match scheme_end_from(u, 0) {
        None => None,
        Some(k) => {
            let after = u.subrange(k + 3, u.len() as int);
            let hp = after.take(run_before(after, 0, |c: char| ends_authority(c)) as int);
            let host = hp.take(run_before(hp, 0, |c: char| c == ':') as int);
            if host.len() == 0 {
                None
            } else {
                Some(host)
            }
        },
    }
}

proof fn lemma_run_before(s: Seq<char>, i: int, m: int, stop: spec_fn(char) -> bool)
    requires
        0 <= i,
        0 <= m,
        i + m <= s.len(),
        forall|t: int| i <= t < i + m ==> !stop(s[t]),
        i + m == s.len() || stop(s[i + m]),
    ensures
        run_before(s, i, stop) == m,
    decreases m,
{
    if m > 0 {
        lemma_run_before(s, i + 1, m - 1, stop);
    }
}

proof fn lemma_scheme_end(s: Seq<char>, i: int)
    requires
        0 <= i,
    ensures
        scheme_end_from(s, i) matches Some(k) ==> i <= k && k + 3 <= s.len(),
    decreases s.len() - i,
{
    if i + 3 <= s.len() && !(s[i] == ':' && s[i + 1] == '/' && s[i + 2] == '/') {
        lemma_scheme_end(s, i + 1);
    }
}

fn find_scheme_end(s: &[char]) -> (r: Option<usize>)
    ensures
        match scheme_end_from(s@, 0) {
            None => r is None,
            Some(k) => r == Some(k as usize),
        },
{
    let n = s.len();
    let mut k: usize = 0;
    while k < n && n - k >= 3
        invariant
            n == s@.len(),
            k <= n,
            scheme_end_from(s@, 0) == scheme_end_from(s@, k as int),
        decreases n - k,
    {
        if s[k] == ':' && s[k + 1] == '/' && s[k + 2] == '/' {
            return Some(k);
        }
        k += 1;
    }
    None
}

/// The host name of a URL (see `host_of`).
pub fn extract_hostname(u: &str) -> (r: Option<String>)
    ensures
        match host_of(u@) {
            None => r is None,
            Some(h) => r matches Some(x) && x@ == h,
        },
{
    let s = chars_of(u);
    let n = s.len();
    let k = match find_scheme_end(s.as_slice()) {
        Some(k) => k,
        None => {
            return None;
        },
    };
    proof {
        lemma_scheme_end(s@, 0);
    }
    let start = k + 3;
    let mut e = start;
    while e < n && !(s[e] == '/' || s[e] == '?' || s[e] == '#')
        invariant
            n == s@.len(),
            start <= e <= n,
            forall|t: int| start <= t < e ==> !ends_authority(s@[t]),
        decreases n - e,
    {
        e += 1;
    }
    let ghost after = s@.subrange(start as int, n as int);
    proof {
        lemma_run_before(after, 0, e - start, |c: char| ends_authority(c));
    }
    let mut h = start;
    while h < e && s[h] != ':'
        invariant
            n == s@.len(),
            start <= h <= e <= n,
            forall|t: int| start <= t < h ==> s@[t] != ':',
        decreases e - h,
    {
        h += 1;
    }
    let ghost hp = after.take(e - start);
    proof {
        lemma_run_before(hp, 0, h - start, |c: char| c == ':');
        assert(hp.take(h - start) =~= s@.subrange(start as int, h as int));
    }
    if h == start {
        None
    } else {
        Some(string_of(&s[start..h]))
    }
}

/// The last character boundary of `b` at or below `i`.
pub open spec fn boundary_at_or_below(b: Seq<u8>, i: int) -> int
    decreases i,
{
    if i <= 0 {
        0
    } else if vstd::utf8::is_char_boundary(b, i) {
        i
    } else {
        boundary_at_or_below(b, i - 1)
    }
}

/// The bytes kept of a response body: its UTF-8 encoding cut at 1000 bytes,
/// or, where that would split a character, at the end of the last whole
/// character before.
pub open spec fn preview_bytes(text: Seq<char>) -> Seq<u8> {
    let b = encode_utf8(text);
    b.take(boundary_at_or_below(b, if b.len() < 1000 { b.len() as int } else { 1000 }))
}

/// The longest beginning of `text` whose encoding is at most 1000 bytes.
fn body_preview(text: &str) -> (r: String)
    ensures
        encode_utf8(r@) == preview_bytes(text@),
{
    broadcast use vstd::utf8::group_utf8_lib;

    let len = text.as_bytes().len();
    let top = if len <= 1000 { len } else { 1000 };
    let ghost b = text.spec_bytes();
    proof {
        vstd::utf8::encode_utf8_valid_utf8(text@);
        vstd::utf8::is_char_boundary_start_end_of_seq(b);
    }
    let mut n = top;
    while !text.is_char_boundary(n)
        invariant
            b == text.spec_bytes(),
            b == encode_utf8(text@),
            vstd::utf8::valid_utf8(b),
            vstd::utf8::is_char_boundary(b, 0),
            n <= top,
            boundary_at_or_below(b, n as int) == boundary_at_or_below(b, top as int),
        decreases n,
    {
        n -= 1;
    }
    proof {
        if n > 0 {
            assert(boundary_at_or_below(b, n as int) == n);
        }
    }
    let (head, _) = text.split_at(n);
    let r = head.to_owned();
    assert(encode_utf8(r@) == head.spec_bytes());
    assert(head.spec_bytes() =~= preview_bytes(text@));
    r
}

/// HTTP methods a request step can use.
#[derive(Debug, Clone, Copy, PartialEq, Eq, Structural)]
pub enum HttpMethod {
    Get,
    Post,
    Put,
    Delete,
    Patch,
    Head,
    Options,
}

/// The method spelled by an upper-case text.
pub open spec fn method_named(s: Seq<char>) -> Option<HttpMethod> {
    if s == "GET"@ {
        Some(HttpMethod::Get)
    } else if s == "POST"@ {
        Some(HttpMethod::Post)
    } else if s == "PUT"@ {
        Some(HttpMethod::Put)
    } else if s == "DELETE"@ {
        Some(HttpMethod::Delete)
    } else if s == "PATCH"@ {
        Some(HttpMethod::Patch)
    } else if s == "HEAD"@ {
        Some(HttpMethod::Head)
    } else {
        None
    }
}

/// The method spelled by `upper` (already in upper case).
pub fn parse_method(upper: &str) -> (r: Option<HttpMethod>)
    ensures
        r == method_named(upper@),
{
    if str_eq(upper, "GET") {
        Some(HttpMethod::Get)
    } else if str_eq(upper, "POST") {
        Some(HttpMethod::Post)
    } else if str_eq(upper, "PUT") {
        Some(HttpMethod::Put)
    } else if str_eq(upper, "DELETE") {
        Some(HttpMethod::Delete)
    } else if str_eq(upper, "PATCH") {
        Some(HttpMethod::Patch)
    } else if str_eq(upper, "HEAD") {
        Some(HttpMethod::Head)
    } else {
        None
    }
}

/// The method spelled by an upper-case text, for the HTTP client (which
/// also sends OPTIONS).
pub open spec fn client_method_named(s: Seq<char>) -> Option<HttpMethod> {
    if s == "OPTIONS"@ {
        Some(HttpMethod::Options)
    } else {
        method_named(s)
    }
}

/// The method of a client request: its name in upper case must be one of
/// the methods the client sends.
pub fn client_method(method: &str) -> (r: Option<HttpMethod>)
    ensures
        r == client_method_named(upper_case(method@)),
{
    let upper = to_upper(method);
    if str_eq(upper.as_str(), "OPTIONS") {
        Some(HttpMethod::Options)
    } else {
        parse_method(upper.as_str())
    }
}

/// The method of a request step: its name in upper case must be one of the
/// supported methods.
pub fn request_method(method: &str) -> (r: Option<HttpMethod>)
    ensures
        r == method_named(upper_case(method@)),
{
    let upper = to_upper(method);
    parse_method(upper.as_str())
}

/// Executes an HTTP request step.
pub struct HttpRequestExecutor {
    pub name: String,
    pub method: String,
    pub url: String,
    pub headers: StringMap,
    pub body: Option<String>,
    pub checks: Vec<Check>,
    pub extractions: Vec<Extraction>,
}

/// A request ready to be sent: templates resolved against the session.
pub struct PreparedRequest {
    pub method: HttpMethod,
    pub url: String,
    /// Header names with resolved values, in the order of the step's map.
    pub headers: Vec<(String, String)>,
    pub body: Option<String>,
    /// Bytes of the resolved body (0 without a body).
    pub bytes_sent: usize,
}

/// `p` is `e` prepared with the variables `vars`.
pub open spec fn prepared_from(
    p: PreparedRequest,
    e: HttpRequestExecutor,
    vars: Map<Seq<char>, Seq<char>>,
) -> bool {
    &&& method_named(upper_case(e.method@)) == Some(p.method)
    &&& p.url@ == render(e.url@, vars)
    &&& p.headers@.len() == e.headers.key_order().len()
    &&& forall|i: int|
        0 <= i < p.headers@.len() ==> (#[trigger] p.headers@[i]).0@ == e.headers.key_order()[i]
            && p.headers@[i].1@ == render(e.headers@[e.headers.key_order()[i]], vars)
    &&& match e.body {
        Some(b) => p.body matches Some(x) && x@ == render(b@, vars) && p.bytes_sent == encode_utf8(
            x@,
        ).len(),
        None => p.body is None && p.bytes_sent == 0,
    }
}

/// The result of an HTTP request whose response has been checked.
pub open spec fn http_result(
    r: ActionResult,
    name: Seq<char>,
    error: Option<Seq<char>>,
    url: Seq<char>,
    status: u16,
    text: Seq<char>,
    ttfb_ms: u64,
    elapsed_ms: u64,
    bytes_sent: usize,
) -> bool {
    &&& r.name@ == name
    &&& r.success == (error is None)
    &&& r.response_time_ms == elapsed_ms
    &&& r.status_code == Some(status)
    &&& r.ttfb_ms == Some(ttfb_ms)
    &&& r.dns_lookup_ms is None
    &&& r.tcp_connect_ms is None
    &&& r.tls_handshake_ms is None
    &&& match error {
        None => r.error is None,
        Some(m) => r.error matches Some(x) && x@ == m,
    }
    &&& r.response_body matches Some(b) && encode_utf8(b@) == preview_bytes(text)
    &&& r.bytes_sent == bytes_sent
    &&& r.bytes_received == encode_utf8(text).len()
    &&& match host_of(url) {
        None => r.hostname is None,
        Some(h) => r.hostname matches Some(x) && x@ == h,
    }
}

impl HttpRequestExecutor {
    /// Resolves the URL, header values and body against the session and
    /// selects the method; fails when the method is not supported.
    pub fn prepare(&self, session: &Session) -> (r: Result<PreparedRequest, ActionError>)
        ensures
            match r {
                Ok(p) => prepared_from(p, *self, session.vars()),
                Err(e) => {
                    &&& method_named(upper_case(self.method@)) is None
                    &&& e matches ActionError::UnsupportedMethod(m) && m@ == self.method@
                },
            },
    {
        let url = session.resolve_template(self.url.as_str());
        let method = match request_method(self.method.as_str()) {
            Some(m) => m,
            None => {
                return Err(ActionError::UnsupportedMethod(self.method.clone()));
            },
        };
        let n = self.headers.len();
        let mut headers: Vec<(String, String)> = Vec::new();
        let mut i: usize = 0;
        while i < n
            invariant
                n == self.headers@.len(),
                n == self.headers.key_order().len(),
                i <= n,
                headers@.len() == i,
                forall|j: int|
                    0 <= j < i ==> (#[trigger] headers@[j]).0@ == self.headers.key_order()[j]
                        && headers@[j].1@ == render(
                        self.headers@[self.headers.key_order()[j]],
                        session.vars(),
                    ),
            decreases n - i,
        {
            let (k, v) = self.headers.entry(i);
            let value = session.resolve_template(v.as_str());
            headers.push((k.clone(), value));
            i += 1;
        }
        let (body, bytes_sent) = match &self.body {
            Some(b) => {
                let resolved = session.resolve_template(b.as_str());
                let count = resolved.as_str().as_bytes().len();
                (Some(resolved), count)
            },
            None => (None, 0),
        };
        Ok(PreparedRequest { method, url, headers, body, bytes_sent })
    }

    /// Checks a response and, when every check passes, runs the
    /// extractions into the session; builds the action's result.  A pattern
    /// that does not compile is an error.
    pub fn complete(
        &self,
        session: &mut Session,
        resolved_url: &str,
        status_code: u16,
        response_text: &str,
        ttfb_ms: u64,
        elapsed_ms: u64,
        bytes_sent: usize,
    ) -> (r: Result<ActionResult, ActionError>)
        ensures
            same_but_vars(*final(session), *old(session)),
            match checks_verdict(
                self.checks@,
                old(session).vars(),
                status_code,
                response_text@,
                elapsed_ms,
            ) {
                Err(t) => {
                    &&& final(session).vars() == old(session).vars()
                    &&& r matches Err(ActionError::InvalidPattern(x)) && x@ == t
                },
                Ok(Some(m)) => {
                    &&& final(session).vars() == old(session).vars()
                    &&& r matches Ok(res) && http_result(
                        res,
                        self.name@,
                        Some(m),
                        resolved_url@,
                        status_code,
                        response_text@,
                        ttfb_ms,
                        elapsed_ms,
                        bytes_sent,
                    )
                },
                Ok(None) => {
                    let ex = extractions_result(
                        self.extractions@,
                        old(session).vars(),
                        response_text@,
                    );
                    &&& final(session).vars() == ex.0
                    &&& match ex.1 {
                        Some(t) => r matches Err(ActionError::InvalidPattern(x)) && x@ == t,
                        None => r matches Ok(res) && http_result(
                            res,
                            self.name@,
                            None,
                            resolved_url@,
                            status_code,
                            response_text@,
                            ttfb_ms,
                            elapsed_ms,
                            bytes_sent,
                        ),
                    }
                },
            },
    {
        let verdict = run_checks(&self.checks, session, status_code, response_text, elapsed_ms);
        let error = match verdict {
            Err(t) => {
                return Err(ActionError::InvalidPattern(t));
            },
            Ok(m) => m,
        };
        if error.is_none() {
            match run_extractions(&self.extractions, session, response_text) {
                Ok(()) => {},
                Err(t) => {
                    return Err(ActionError::InvalidPattern(t));
                },
            }
        }
        let preview = body_preview(response_text);
        let received = response_text.as_bytes().len();
        let hostname = extract_hostname(resolved_url);
        Ok(
            ActionResult {
                name: self.name.clone(),
                success: error.is_none(),
                response_time_ms: elapsed_ms,
                status_code: Some(status_code),
                ttfb_ms: Some(ttfb_ms),
                dns_lookup_ms: None,
                tcp_connect_ms: None,
                tls_handshake_ms: None,
                error,
                response_body: Some(preview),
                bytes_sent,
                bytes_received: received,
                hostname,
            },
        )
    }
}

/// Executes a pause.
pub struct WaitExecutor {
    pub duration_ms: u64,
}

impl WaitExecutor {
    /// The result once the pause is over: a success named `wait` that took
    /// the pause's duration.
    pub fn outcome(&self) -> (r: ActionResult)
        ensures
            plain_success(r, "wait"@, self.duration_ms),
    {
        ActionResult::success(owned("wait"), self.duration_ms)
    }
}

/// The error carried by a failed step result, or `"Unknown error"`.
pub open spec fn error_or_unknown(result: ActionResult) -> Seq<char> {
    match result.error {
        Some(e) => e@,
        None => "Unknown error"@,
    }
}

fn error_text_of(result: &ActionResult) -> (r: String)
    ensures
        r@ == error_or_unknown(*result),
{
    match &result.error {
        Some(e) => e.clone(),
        None => owned("Unknown error"),
    }
}

/// Where a repeat loop stands: the round (from 0) and the step in it.
#[derive(Debug, Clone, Copy, PartialEq, Eq, Structural)]
pub struct RepeatCursor {
    pub round: usize,
    pub index: usize,
}

/// Position of a cursor in the flattened run of `len`-step rounds.
pub open spec fn cursor_rank(c: RepeatCursor, len: nat) -> int {
    c.round * len + c.index
}

/// Executes a block of steps a number of times.
pub struct RepeatExecutor {
    pub times: usize,
    pub steps: Vec<FlowStep>,
}

impl RepeatExecutor {
    /// The cursor is on a step that the loop runs.
    pub open spec fn valid_cursor(&self, c: RepeatCursor) -> bool {
        c.round < self.times && c.index < self.steps@.len()
    }

    /// The first step to run, or `None` when the loop runs nothing.
    pub fn start(&self) -> (r: Option<RepeatCursor>)
        ensures
            r is None <==> (self.times == 0 || self.steps@.len() == 0),
            r matches Some(c) ==> c == (RepeatCursor { round: 0, index: 0 }),
    {
        if self.times == 0 || self.steps.len() == 0 {
            None
        } else {
            Some(RepeatCursor { round: 0, index: 0 })
        }
    }

    /// The step after `c`: the next one in the round, else the first of the
    /// next round; `None` after the last step of the last round.
    pub fn advance(&self, c: RepeatCursor) -> (r: Option<RepeatCursor>)
        requires
            self.valid_cursor(c),
        ensures
            match r {
                Some(n) => self.valid_cursor(n) && cursor_rank(n, self.steps@.len()) == cursor_rank(
                    c,
                    self.steps@.len(),
                ) + 1,
                None => cursor_rank(c, self.steps@.len()) + 1 == self.times * self.steps@.len(),
            },
    {
        let len = self.steps.len();
        if c.index + 1 < len {
            Some(RepeatCursor { round: c.round, index: c.index + 1 })
        } else if c.round + 1 < self.times {
            proof {
                assert((c.round + 1) * len == c.round * len + len) by (nonlinear_arith);
            }
            Some(RepeatCursor { round: c.round + 1, index: 0 })
        } else {
            proof {
                assert((c.round + 1) * len == c.round * len + len) by (nonlinear_arith);
            }
            None
        }
    }

    /// What a step's result decides: a failed step stops the loop with a
    /// failure named after the round (counted from 1); a successful one lets
    /// it go on (`None`).
    pub fn on_result(&self, c: RepeatCursor, result: &ActionResult, elapsed_ms: u64) -> (r: Option<
        ActionResult,
    >)
        requires
            self.valid_cursor(c),
        ensures
            result.success ==> r is None,
            !result.success ==> (r matches Some(f) && plain_failure(
                f,
                "repeat (iteration "@ + decimal((c.round + 1) as nat) + ")"@,
                error_or_unknown(*result),
                elapsed_ms,
            )),
    {
        if result.success {
            None
        } else {
            let mut name = owned("repeat (iteration ");
            name.append(u64_to_decimal((c.round + 1) as u64).as_str());
            name.append(")");
            Some(ActionResult::failure(name, error_text_of(result), elapsed_ms))
        }
    }

    /// The result once every round has run: a success named `repeat`.
    pub fn finish(&self, elapsed_ms: u64) -> (r: ActionResult)
        ensures
            plain_success(r, "repeat"@, elapsed_ms),
    {
        ActionResult::success(owned("repeat"), elapsed_ms)
    }
}

/// Executes a block of steps over and over for a duration.
pub struct DuringExecutor {
    pub duration_sec: u64,
    pub steps: Vec<FlowStep>,
}

impl DuringExecutor {
    /// Whether time is left after `elapsed_ms` milliseconds.
    pub fn time_left(&self, elapsed_ms: u128) -> (r: bool)
        ensures
            r == (elapsed_ms < self.duration_sec * 1000),
    {
        elapsed_ms < (self.duration_sec as u128) * 1000
    }

    /// What a step's result decides: a failed step stops the loop with a
    /// failure named `during`; a successful one lets it go on (`None`).
    pub fn on_result(&self, result: &ActionResult, elapsed_ms: u64) -> (r: Option<ActionResult>)
        ensures
            result.success ==> r is None,
            !result.success ==> (r matches Some(f) && plain_failure(
                f,
                "during"@,
                error_or_unknown(*result),
                elapsed_ms,
            )),
    {
        if result.success {
            None
        } else {
            Some(ActionResult::failure(owned("during"), error_text_of(result), elapsed_ms))
        }
    }

    /// The result once the time is up: a success named `during`.
    pub fn finish(&self, elapsed_ms: u64) -> (r: ActionResult)
        ensures
            plain_success(r, "during"@, elapsed_ms),
    {
        ActionResult::success(owned("during"), elapsed_ms)
    }
}

/// Executes a feed step on its own, without a scenario's feeders.
pub struct FeedExecutor {
    pub feeder_name: String,
}

impl FeedExecutor {
    /// Its result: a failure saying the feeder is not wired up.
    pub fn outcome(&self) -> (r: ActionResult)
        ensures
            plain_failure(
                r,
                "feed"@,
                "Feeder '"@ + self.feeder_name@ + "' not yet wired up - requires scenario context"@,
                0,
            ),
    {
        let mut msg = owned("Feeder '");
        msg.append(self.feeder_name.as_str());
        msg.append("' not yet wired up - requires scenario context");
        ActionResult::failure(owned("feed"), msg, 0)
    }
}

/// The executor for a step.
pub enum Executor {
    Http(HttpRequestExecutor),
    Wait(WaitExecutor),
    Repeat(RepeatExecutor),
    During(DuringExecutor),
    Feed(FeedExecutor),
}

/// `x` executes an HTTP request with these parts.
pub open spec fn http_executor_of(
    x: Executor,
    name: String,
    method: String,
    url: String,
    headers: StringMap,
    body: Option<String>,
    checks: Vec<Check>,
    extractions: Vec<Extraction>,
) -> bool {
    x matches Executor::Http(h) && h.name == name && h.method == method && h.url == url
        && h.headers@ == headers@ && h.body == body && h.checks@ == checks@ && h.extractions@
        == extractions@
}

/// What `create_executor` gives for a step.
pub open spec fn executor_for(step: FlowStep, r: Result<Executor, ActionError>) -> bool {
    match step {
        FlowStep::Request { protocol, name, method, url, headers, body, checks, extractions } => {
            if protocol@ == "http_request"@ {
                r matches Ok(x) && http_executor_of(
                    x,
                    name,
                    method,
                    url,
                    headers,
                    body,
                    checks,
                    extractions,
                )
            } else {
                r matches Err(ActionError::UnsupportedProtocol(p)) && p == protocol
            }
        },
        FlowStep::HttpRequest { name, method, url, headers, body, checks, extractions } => {
            r matches Ok(x) && http_executor_of(x, name, method, url, headers, body, checks, extractions)
        },
        FlowStep::Wait { duration } => r matches Ok(Executor::Wait(w)) && w.duration_ms == duration,
        FlowStep::Repeat { times, steps } => r matches Ok(Executor::Repeat(x)) && x.times == times
            && steps_copy(x.steps@, steps@),
        FlowStep::During { duration, steps } => r matches Ok(Executor::During(x)) && x.duration_sec
            == duration && steps_copy(x.steps@, steps@),
        FlowStep::Feed { feeder } => r matches Ok(Executor::Feed(x)) && x.feeder_name == feeder,
        _ => r matches Err(ActionError::ExecutorNotImplemented(s)) && crate::scenario::step_copy(
            s,
            step,
        ),
    }
}

/// Builds the executor for a step: HTTP requests (a `request` step only
/// with protocol `http_request`), pauses, repeats, timed loops and feeds.
pub fn create_executor(step: &FlowStep) -> (r: Result<Executor, ActionError>)
    ensures
        executor_for(*step, r),
{
    match step {
        FlowStep::Request { protocol, name, method, url, headers, body, checks, extractions } => {
            if str_eq(protocol.as_str(), "http_request") {
                Ok(
                    Executor::Http(
                        HttpRequestExecutor {
                            name: name.clone(),
                            method: method.clone(),
                            url: url.clone(),
                            headers: headers.clone(),
                            body: clone_text_option(body),
                            checks: clone_checks(checks),
                            extractions: clone_extractions(extractions),
                        },
                    ),
                )
            } else {
                Err(ActionError::UnsupportedProtocol(protocol.clone()))
            }
        },
        FlowStep::HttpRequest { name, method, url, headers, body, checks, extractions } => {
            Ok(
                Executor::Http(
                    HttpRequestExecutor {
                        name: name.clone(),
                        method: method.clone(),
                        url: url.clone(),
                        headers: headers.clone(),
                        body: clone_text_option(body),
                        checks: clone_checks(checks),
                        extractions: clone_extractions(extractions),
                    },
                ),
            )
        },
        FlowStep::Wait { duration } => Ok(Executor::Wait(WaitExecutor { duration_ms: *duration })),
        FlowStep::Repeat { times, steps } => Ok(
            Executor::Repeat(RepeatExecutor { times: *times, steps: clone_steps(steps) }),
        ),
        FlowStep::During { duration, steps } => Ok(
            Executor::During(DuringExecutor { duration_sec: *duration, steps: clone_steps(steps) }),
        ),
        FlowStep::Feed { feeder } => Ok(
            Executor::Feed(FeedExecutor { feeder_name: feeder.clone() }),
        ),
        _ => Err(ActionError::ExecutorNotImplemented(step.clone())),
    }
}

/// An HTTP request step, and a `request` step whose protocol is
/// `http_request`, become an HTTP executor that holds the step's name,
/// method, URL, headers, body, checks and extractions unchanged; a
/// `request` step with another protocol is refused with that protocol; a
/// pause, a repeat, a timed loop and a feed keep their duration, count and
/// feeder name.
pub proof fn law_executor_keeps_the_step(step: FlowStep, r: Result<Executor, ActionError>)
    requires
        executor_for(step, r),
    ensures
        step matches FlowStep::HttpRequest { name, method, url, headers, body, checks, extractions }
            ==> r matches Ok(Executor::Http(h)) && h.name == name && h.method == method && h.url
            == url && h.headers@ == headers@ && h.body == body && h.checks@ == checks@
            && h.extractions@ == extractions@,
        (match step {
            FlowStep::Request { protocol, name, method, url, headers, body, checks, extractions } => {
                if protocol@ == "http_request"@ {
                    r matches Ok(Executor::Http(h)) && h.name == name && h.method == method && h.url
                        == url && h.headers@ == headers@ && h.body == body && h.checks@ == checks@
                        && h.extractions@ == extractions@
                } else {
                    r == Err::<Executor, ActionError>(ActionError::UnsupportedProtocol(protocol))
                }
            },
            _ => true,
        }),
        step matches FlowStep::Wait { duration } ==> r matches Ok(Executor::Wait(w))
            && w.duration_ms == duration,
        step matches FlowStep::Repeat { times, .. } ==> r matches Ok(Executor::Repeat(x)) && x.times
            == times,
        step matches FlowStep::During { duration, .. } ==> r matches Ok(Executor::During(x))
            && x.duration_sec == duration,
        step matches FlowStep::Feed { feeder } ==> r matches Ok(Executor::Feed(x)) && x.feeder_name
            == feeder,
{
}

/// The cursor at rank `k` of a loop of `len`-step rounds.
pub open spec fn cursor_at(k: nat, len: nat) -> (nat, nat) {
    (k / len, k % len)
}

/// A repeat loop runs every step of every round exactly once, in order:
/// the cursors it walks through are ranked 0, 1, ... up to
/// `times * len - 1`, and each rank names one round and one step.
pub proof fn law_repeat_runs_each_step_once(times: nat, len: nat, k: nat)
    requires
        len > 0,
        k < times * len,
    ensures
        cursor_at(k, len).0 < times,
        cursor_at(k, len).1 < len,
        cursor_at(k, len).0 * len + cursor_at(k, len).1 == k,
{
    vstd::arithmetic::div_mod::lemma_fundamental_div_mod(k as int, len as int);
    vstd::arithmetic::div_mod::lemma_mod_bound(k as int, len as int);
    vstd::arithmetic::div_mod::lemma_div_pos_is_pos(k as int, len as int);
    if k / len >= times {
        vstd::arithmetic::mul::lemma_mul_inequality(times as int, (k / len) as int, len as int);
        assert(len * (k / len) == (k / len) * len) by (nonlinear_arith);
        assert(times * len == len * times) by (nonlinear_arith);
    }
    assert(len * (k / len) == (k / len) * len) by (nonlinear_arith);
}

} // verus!
