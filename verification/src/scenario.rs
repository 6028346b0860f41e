//! The steps a scenario is made of: requests, pauses, loops, feeds, and the
//! checks and extractions applied to responses.
use vstd::prelude::*;
use crate::string_map::StringMap;

verus! {

/// WebSocket operations.
#[derive(Debug)]
pub enum WsOperation {
    Connect { url: String },
    Send { message: String },
    Receive { timeout_ms: Option<u64>, extractions: Vec<Extraction> },
    Close,
}

/// JMS message kinds of a scenario step.
#[derive(Debug, Clone, Copy, PartialEq, Eq, Structural)]
pub enum JmsMessageType {
    Text,
    Bytes,
    Object,
}

impl Default for JmsMessageType {
    fn default() -> (r: Self)
        ensures
            r == JmsMessageType::Text,
    {
        JmsMessageType::Text
    }
}

/// A validation applied to a response.
#[derive(Debug)]
pub enum Check {
    /// The HTTP status code equals `expected`.
    Status { expected: u16 },
    /// The body contains `text` (after template resolution).
    BodyContains { text: String },
    /// The body matches the regular expression `pattern`.
    BodyMatches { pattern: String },
    /// A header has a value (not implemented: always fails).
    HeaderEquals { name: String, value: String },
    /// A JSON path has a value (not implemented: always fails).
    JsonPath { path: String, expected: String },
    /// The response took at most `max_ms` milliseconds.
    ResponseTime { max_ms: u64 },
}

/// A value taken from a response into the session.
#[derive(Debug)]
pub enum Extraction {
    /// From a JSON path (not implemented: nothing is extracted).
    JsonPath { path: String, save_as: String },
    /// Capture group `group` of the first match of `pattern`.
    Regex { pattern: String, group: usize, save_as: String },
    /// A response header (not implemented: nothing is extracted).
    Header { name: String, save_as: String },
    /// The whole body.
    Body { save_as: String },
    /// A CSS selector (not implemented: nothing is extracted).
    CssSelector { selector: String, attribute: Option<String>, save_as: String },
}

/// One step of a scenario.
#[derive(Debug)]
pub enum FlowStep {
    /// A request through the named protocol.
    Request {
        protocol: String,
        name: String,
        method: String,
        url: String,
        headers: StringMap,
        body: Option<String>,
        checks: Vec<Check>,
        extractions: Vec<Extraction>,
    },
    /// An HTTP request.
    HttpRequest {
        name: String,
        method: String,
        url: String,
        headers: StringMap,
        body: Option<String>,
        checks: Vec<Check>,
        extractions: Vec<Extraction>,
    },
    /// A WebSocket operation.
    WebSocket { name: String, operation: WsOperation },
    /// A database query.
    JdbcQuery {
        name: String,
        connection: String,
        query: String,
        parameters: Vec<String>,
        extractions: Vec<Extraction>,
    },
    /// A JMS message.
    JmsMessage {
        name: String,
        destination: String,
        message: String,
        message_type: JmsMessageType,
    },
    /// A Kafka record.
    KafkaPublish {
        name: String,
        topic: String,
        key: Option<String>,
        message: String,
        partition: Option<i32>,
    },
    /// A pause, in milliseconds.
    Wait { duration: u64 },
    /// `steps`, `times` times over.
    Repeat { times: usize, steps: Vec<FlowStep> },
    /// `steps`, over and over for `duration` seconds.
    During { duration: u64, steps: Vec<FlowStep> },
    /// `then_steps` when `condition` holds, else `else_steps`.
    If { condition: String, then_steps: Vec<FlowStep>, else_steps: Vec<FlowStep> },
    /// The next row of the named feeder, into the session.
    Feed { feeder: String },
}

impl Clone for Check {
    fn clone(&self) -> (r: Self)
        ensures
            r == *self,
    {
        match self {
            Check::Status { expected } => Check::Status { expected: *expected },
            Check::BodyContains { text } => Check::BodyContains { text: text.clone() },
            Check::BodyMatches { pattern } => Check::BodyMatches { pattern: pattern.clone() },
            Check::HeaderEquals { name, value } => Check::HeaderEquals {
                name: name.clone(),
                value: value.clone(),
            },
            Check::JsonPath { path, expected } => Check::JsonPath {
                path: path.clone(),
                expected: expected.clone(),
            },
            Check::ResponseTime { max_ms } => Check::ResponseTime { max_ms: *max_ms },
        }
    }
}

/// A copy of an optional text.
pub fn clone_text_option(o: &Option<String>) -> (r: Option<String>)
    ensures
        r == *o,
{
    match o {
        Some(s) => Some(s.clone()),
        None => None,
    }
}

impl Clone for Extraction {
    fn clone(&self) -> (r: Self)
        ensures
            r == *self,
    {
        match self {
            Extraction::JsonPath { path, save_as } => Extraction::JsonPath {
                path: path.clone(),
                save_as: save_as.clone(),
            },
            Extraction::Regex { pattern, group, save_as } => Extraction::Regex {
                pattern: pattern.clone(),
                group: *group,
                save_as: save_as.clone(),
            },
            Extraction::Header { name, save_as } => Extraction::Header {
                name: name.clone(),
                save_as: save_as.clone(),
            },
            Extraction::Body { save_as } => Extraction::Body { save_as: save_as.clone() },
            Extraction::CssSelector { selector, attribute, save_as } => Extraction::CssSelector {
                selector: selector.clone(),
                attribute: clone_text_option(attribute),
                save_as: save_as.clone(),
            },
        }
    }
}

/// A copy of a list of checks.
pub fn clone_checks(v: &Vec<Check>) -> (r: Vec<Check>)
    ensures
        r@ == v@,
{
    let mut r: Vec<Check> = Vec::new();
    let mut i: usize = 0;
    while i < v.len()
        invariant
            i <= v.len(),
            r@ == v@.take(i as int),
        decreases v.len() - i,
    {
        r.push(v[i].clone());
        assert(v@.take(i + 1) == v@.take(i as int).push(v@[i as int]));
        i += 1;
    }
    assert(v@.take(v.len() as int) == v@);
    r
}

/// A copy of a list of extractions.
pub fn clone_extractions(v: &Vec<Extraction>) -> (r: Vec<Extraction>)
    ensures
        r@ == v@,
{
    let mut r: Vec<Extraction> = Vec::new();
    let mut i: usize = 0;
    while i < v.len()
        invariant
            i <= v.len(),
            r@ == v@.take(i as int),
        decreases v.len() - i,
    {
        r.push(v[i].clone());
        assert(v@.take(i + 1) == v@.take(i as int).push(v@[i as int]));
        i += 1;
    }
    assert(v@.take(v.len() as int) == v@);
    r
}

/// `a` is a copy of `b` (lists compared by what they hold).
pub open spec fn ws_copy(a: WsOperation, b: WsOperation) -> bool {
    match (a, b) {
        (
            WsOperation::Receive { timeout_ms: t1, extractions: e1 },
            WsOperation::Receive { timeout_ms: t2, extractions: e2 },
        ) => t1 == t2 && e1@ == e2@,
        (WsOperation::Receive { .. }, _) => false,
        (_, WsOperation::Receive { .. }) => false,
        _ => a == b,
    }
}

impl Clone for WsOperation {
    fn clone(&self) -> (r: Self)
        ensures
            ws_copy(r, *self),
    {
        match self {
            WsOperation::Connect { url } => WsOperation::Connect { url: url.clone() },
            WsOperation::Send { message } => WsOperation::Send { message: message.clone() },
            WsOperation::Receive { timeout_ms, extractions } => WsOperation::Receive {
                timeout_ms: *timeout_ms,
                extractions: clone_extractions(extractions),
            },
            WsOperation::Close => WsOperation::Close,
        }
    }
}

/// A copy of a list of texts.
pub fn clone_texts(v: &Vec<String>) -> (r: Vec<String>)
    ensures
        r@ == v@,
{
    let mut r: Vec<String> = Vec::new();
    let mut i: usize = 0;
    while i < v.len()
        invariant
            i <= v.len(),
            r@ == v@.take(i as int),
        decreases v.len() - i,
    {
        r.push(v[i].clone());
        assert(v@.take(i + 1) == v@.take(i as int).push(v@[i as int]));
        i += 1;
    }
    assert(v@.take(v.len() as int) == v@);
    r
}

/// `a` is a copy of `b`: the same kind of step with the same contents (maps
/// and nested steps compared by what they hold).
pub open spec fn step_copy(a: FlowStep, b: FlowStep) -> bool
    decreases a,
{
    match (a, b) {
        (
            FlowStep::Request {
                protocol: p1,
                name: n1,
                method: m1,
                url: u1,
                headers: h1,
                body: b1,
                checks: c1,
                extractions: e1,
            },
            FlowStep::Request {
                protocol: p2,
                name: n2,
                method: m2,
                url: u2,
                headers: h2,
                body: b2,
                checks: c2,
                extractions: e2,
            },
        ) => p1 == p2 && n1 == n2 && m1 == m2 && u1 == u2 && h1@ == h2@ && b1 == b2 && c1@ == c2@
            && e1@ == e2@,
        (
            FlowStep::HttpRequest {
                name: n1,
                method: m1,
                url: u1,
                headers: h1,
                body: b1,
                checks: c1,
                extractions: e1,
            },
            FlowStep::HttpRequest {
                name: n2,
                method: m2,
                url: u2,
                headers: h2,
                body: b2,
                checks: c2,
                extractions: e2,
            },
        ) => n1 == n2 && m1 == m2 && u1 == u2 && h1@ == h2@ && b1 == b2 && c1@ == c2@ && e1@
            == e2@,
        (FlowStep::Repeat { times: t1, steps: s1 }, FlowStep::Repeat { times: t2, steps: s2 }) => {
            t1 == t2 && s1@.len() == s2@.len() && forall|i: int|
                0 <= i < s1@.len() ==> step_copy(#[trigger] s1@[i], s2@[i])
        },
        (
            FlowStep::During { duration: d1, steps: s1 },
            FlowStep::During { duration: d2, steps: s2 },
        ) => {
            d1 == d2 && s1@.len() == s2@.len() && forall|i: int|
                0 <= i < s1@.len() ==> step_copy(#[trigger] s1@[i], s2@[i])
        },
        (
            FlowStep::If { condition: c1, then_steps: t1, else_steps: e1 },
            FlowStep::If { condition: c2, then_steps: t2, else_steps: e2 },
        ) => {
            &&& c1 == c2
            &&& t1@.len() == t2@.len()
            &&& forall|i: int| 0 <= i < t1@.len() ==> step_copy(#[trigger] t1@[i], t2@[i])
            &&& e1@.len() == e2@.len()
            &&& forall|i: int| 0 <= i < e1@.len() ==> step_copy(#[trigger] e1@[i], e2@[i])
        },
        (
            FlowStep::WebSocket { name: n1, operation: o1 },
            FlowStep::WebSocket { name: n2, operation: o2 },
        ) => n1 == n2 && ws_copy(o1, o2),
        (
            FlowStep::JdbcQuery {
                name: n1,
                connection: c1,
                query: q1,
                parameters: p1,
                extractions: e1,
            },
            FlowStep::JdbcQuery {
                name: n2,
                connection: c2,
                query: q2,
                parameters: p2,
                extractions: e2,
            },
        ) => n1 == n2 && c1 == c2 && q1 == q2 && p1@ == p2@ && e1@ == e2@,
        (FlowStep::JmsMessage { .. }, FlowStep::JmsMessage { .. }) => a == b,
        (FlowStep::KafkaPublish { .. }, FlowStep::KafkaPublish { .. }) => a == b,
        (FlowStep::Wait { duration: d1 }, FlowStep::Wait { duration: d2 }) => d1 == d2,
        (FlowStep::Feed { feeder: f1 }, FlowStep::Feed { feeder: f2 }) => f1 == f2,
        _ => false,
    }
}

/// `a` is a copy of `b`, step by step.
pub open spec fn steps_copy(a: Seq<FlowStep>, b: Seq<FlowStep>) -> bool {
    a.len() == b.len() && forall|i: int| 0 <= i < a.len() ==> step_copy(#[trigger] a[i], b[i])
}

impl Clone for FlowStep {
    fn clone(&self) -> (r: Self)
        ensures
            step_copy(r, *self),
        decreases self,
    {
        match self {
            FlowStep::Request { protocol, name, method, url, headers, body, checks, extractions } =>
            FlowStep::Request {
                protocol: protocol.clone(),
                name: name.clone(),
                method: method.clone(),
                url: url.clone(),
                headers: headers.clone(),
                body: clone_text_option(body),
                checks: clone_checks(checks),
                extractions: clone_extractions(extractions),
            },
            FlowStep::HttpRequest { name, method, url, headers, body, checks, extractions } =>
            FlowStep::HttpRequest {
                name: name.clone(),
                method: method.clone(),
                url: url.clone(),
                headers: headers.clone(),
                body: clone_text_option(body),
                checks: clone_checks(checks),
                extractions: clone_extractions(extractions),
            },
            FlowStep::WebSocket { name, operation } => FlowStep::WebSocket {
                name: name.clone(),
                operation: operation.clone(),
            },
            FlowStep::JdbcQuery { name, connection, query, parameters, extractions } =>
            FlowStep::JdbcQuery {
                name: name.clone(),
                connection: connection.clone(),
                query: query.clone(),
                parameters: clone_texts(parameters),
                extractions: clone_extractions(extractions),
            },
            FlowStep::JmsMessage { name, destination, message, message_type } =>
            FlowStep::JmsMessage {
                name: name.clone(),
                destination: destination.clone(),
                message: message.clone(),
                message_type: *message_type,
            },
            FlowStep::KafkaPublish { name, topic, key, message, partition } =>
            FlowStep::KafkaPublish {
                name: name.clone(),
                topic: topic.clone(),
                key: clone_text_option(key),
                message: message.clone(),
                partition: *partition,
            },
            FlowStep::Wait { duration } => FlowStep::Wait { duration: *duration },
            FlowStep::Repeat { times, steps } => FlowStep::Repeat {
                times: *times,
                steps: clone_steps(steps),
            },
            FlowStep::During { duration, steps } => FlowStep::During {
                duration: *duration,
                steps: clone_steps(steps),
            },
            FlowStep::If { condition, then_steps, else_steps } => FlowStep::If {
                condition: condition.clone(),
                then_steps: clone_steps(then_steps),
                else_steps: clone_steps(else_steps),
            },
            FlowStep::Feed { feeder } => FlowStep::Feed { feeder: feeder.clone() },
        }
    }
}

/// A copy of a list of steps.
pub fn clone_steps(v: &Vec<FlowStep>) -> (r: Vec<FlowStep>)
    ensures
        steps_copy(r@, v@),
    decreases v,
{
    let mut r: Vec<FlowStep> = Vec::new();
    let mut i: usize = 0;
    while i < v.len()
        invariant
            i <= v.len(),
            r@.len() == i,
            forall|j: int| 0 <= j < i ==> step_copy(#[trigger] r@[j], v@[j]),
        decreases v.len() - i,
    {
        proof {
            assert(decreases_to!(v => v@));
            assert(decreases_to!(v@ => v@[i as int]));
        }
        let c = v[i].clone();
        r.push(c);
        i += 1;
    }
    r
}

} // verus!
