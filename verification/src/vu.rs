//! What a virtual user decides around each step: feeding rows into its
//! session, which metrics a result yields, and the summary of its run.
use vstd::prelude::*;
use crate::string_map::StringMap;
use crate::session::Session;
use crate::scenario::FlowStep;
use crate::action::{ActionResult, plain_success, plain_failure, same_but_vars};
use crate::stats::MetricType;
use crate::text::{owned, str_eq};

verus! {

/// What looking up a feeder and asking it for a row gave.
pub enum FeedOutcome {
    /// No feeder has that name.
    Missing,
    /// The feeder has no row left.
    Exhausted,
    /// The next row.
    Row(StringMap),
}

/// Applies a feed step's outcome to the session: a row's values are set
/// (replacing variables of the same name); the result is named
/// `feed:{feeder}`, a success for a row, else a failure saying why.
pub fn apply_feed(session: &mut Session, feeder_name: &str, outcome: FeedOutcome) -> (r:
    ActionResult)
    ensures
        same_but_vars(*final(session), *old(session)),
        match outcome {
            FeedOutcome::Missing => {
                &&& final(session).vars() == old(session).vars()
                &&& plain_failure(
                    r,
                    "feed:"@ + feeder_name@,
                    "Feeder '"@ + feeder_name@ + "' not found"@,
                    0,
                )
            },
            FeedOutcome::Exhausted => {
                &&& final(session).vars() == old(session).vars()
                &&& plain_failure(
                    r,
                    "feed:"@ + feeder_name@,
                    "Feeder '"@ + feeder_name@ + "' exhausted"@,
                    0,
                )
            },
            FeedOutcome::Row(row) => {
                &&& final(session).vars() == old(session).vars().union_prefer_right(row@)
                &&& plain_success(r, "feed:"@ + feeder_name@, 0)
            },
        },
{
    let mut name = owned("feed:");
    name.append(feeder_name);
    match outcome {
        FeedOutcome::Missing => {
            let mut msg = owned("Feeder '");
            msg.append(feeder_name);
            msg.append("' not found");
            ActionResult::failure(name, msg, 0)
        },
        FeedOutcome::Exhausted => {
            let mut msg = owned("Feeder '");
            msg.append(feeder_name);
            msg.append("' exhausted");
            ActionResult::failure(name, msg, 0)
        },
        FeedOutcome::Row(row) => {
            session.set_all(row);
            ActionResult::success(name, 0)
        },
    }
}

/// Whether a step is an HTTP request (these are logged request by request).
pub open spec fn is_http_step(step: FlowStep) -> bool {
    match step {
        FlowStep::HttpRequest { .. } => true,
        FlowStep::Request { protocol, .. } => protocol@ == "http_request"@,
        _ => false,
    }
}

/// Whether a step is an HTTP request.
pub fn is_http_request(step: &FlowStep) -> (r: bool)
    ensures
        r == is_http_step(*step),
{
    match step {
        FlowStep::HttpRequest { .. } => true,
        FlowStep::Request { protocol, .. } => str_eq(protocol.as_str(), "http_request"),
        _ => false,
    }
}

/// One metric sample taken from an action's result.
#[derive(Debug)]
pub struct MetricSample {
    pub kind: MetricType,
    /// The name the sample is logged under.
    pub label: &'static str,
    pub value: u64,
}

/// The samples a result yields, in order: its response time; the bytes
/// sent and received when not zero; then one success or one failure.
pub open spec fn samples_of(r: ActionResult) -> Seq<(MetricType, Seq<char>, u64)> {
    let head = seq![(MetricType::ResponseTime, "response_time"@, r.response_time_ms)];
    let sent = if r.bytes_sent > 0 {
        seq![(MetricType::BytesSent, "bytes_sent"@, r.bytes_sent as u64)]
    } else {
        Seq::empty()
    };
    let received = if r.bytes_received > 0 {
        seq![(MetricType::BytesReceived, "bytes_received"@, r.bytes_received as u64)]
    } else {
        Seq::empty()
    };
    let outcome = if r.success {
        seq![(MetricType::Success, "success"@, 1u64)]
    } else {
        seq![(MetricType::Failure, "failure"@, 1u64)]
    };
    head + sent + received + outcome
}

/// The samples as plain values.
pub open spec fn sample_view(v: Seq<MetricSample>) -> Seq<(MetricType, Seq<char>, u64)> {
    v.map_values(|s: MetricSample| (s.kind, s.label@, s.value))
}

/// The metric samples recorded for an action's result.
pub fn metrics_for(result: &ActionResult) -> (r: Vec<MetricSample>)
    ensures
        sample_view(r@) == samples_of(*result),
{
    let mut v: Vec<MetricSample> = Vec::new();
    v.push(
        MetricSample {
            kind: MetricType::ResponseTime,
            label: "response_time",
            value: result.response_time_ms,
        },
    );
    if result.bytes_sent > 0 {
        v.push(
            MetricSample {
                kind: MetricType::BytesSent,
                label: "bytes_sent",
                value: result.bytes_sent as u64,
            },
        );
    }
    if result.bytes_received > 0 {
        v.push(
            MetricSample {
                kind: MetricType::BytesReceived,
                label: "bytes_received",
                value: result.bytes_received as u64,
            },
        );
    }
    if result.success {
        v.push(MetricSample { kind: MetricType::Success, label: "success", value: 1 });
    } else {
        v.push(MetricSample { kind: MetricType::Failure, label: "failure", value: 1 });
    }
    assert(sample_view(v@) =~= samples_of(*result));
    v
}

/// Whether some sample in `s` is of kind `k`.
pub open spec fn has_kind(s: Seq<(MetricType, Seq<char>, u64)>, k: MetricType) -> bool {
    exists|i: int| 0 <= i < s.len() && (#[trigger] s[i]).0 == k
}

/// What a result's samples say: the first is the response time; a
/// bytes-sent sample is there exactly when bytes were sent, and carries
/// the bytes sent; a bytes-received sample likewise carries the bytes
/// received; the last is one success when the action succeeded and one
/// failure otherwise; no kind occurs twice.
pub proof fn law_samples_report_the_result(r: ActionResult)
    ensures
        ({
            let s = samples_of(r);
            &&& s.len() == 2 + (if r.bytes_sent > 0 { 1int } else { 0 }) + (if r.bytes_received
                > 0 {
                1int
            } else {
                0
            })
            &&& s[0] == (MetricType::ResponseTime, "response_time"@, r.response_time_ms)
            &&& has_kind(s, MetricType::BytesSent) <==> r.bytes_sent > 0
            &&& has_kind(s, MetricType::BytesReceived) <==> r.bytes_received > 0
            &&& forall|i: int|
                0 <= i < s.len() && (#[trigger] s[i]).0 == MetricType::BytesSent ==> s[i].2
                    == r.bytes_sent && s[i].1 == "bytes_sent"@
            &&& forall|i: int|
                0 <= i < s.len() && (#[trigger] s[i]).0 == MetricType::BytesReceived ==> s[i].2
                    == r.bytes_received && s[i].1 == "bytes_received"@
            &&& r.success ==> s.last() == (MetricType::Success, "success"@, 1u64)
            &&& !r.success ==> s.last() == (MetricType::Failure, "failure"@, 1u64)
            &&& forall|i: int, j: int|
                0 <= i < j < s.len() ==> (#[trigger] s[i]).0 != (#[trigger] s[j]).0
        }),
{
    let s = samples_of(r);
    let sent: int = if r.bytes_sent > 0 { 1 } else { 0 };
    let received: int = if r.bytes_received > 0 { 1 } else { 0 };
    assert(s.len() == 2 + sent + received);
    assert forall|i: int| 0 <= i < s.len() implies {
        &&& i == 0 ==> (#[trigger] s[i]).0 == MetricType::ResponseTime
        &&& sent == 1 && i == 1 ==> s[i] == (MetricType::BytesSent, "bytes_sent"@, r.bytes_sent as u64)
        &&& received == 1 && i == 1 + sent ==> s[i] == (
            MetricType::BytesReceived,
            "bytes_received"@,
            r.bytes_received as u64,
        )
        &&& i == 1 + sent + received ==> (s[i].0 == MetricType::Success || s[i].0
            == MetricType::Failure)
        &&& (i == 0 || (sent == 1 && i == 1) || (received == 1 && i == 1 + sent) || i == 1 + sent
            + received)
    } by {}
    if r.bytes_sent > 0 {
        assert(s[1].0 == MetricType::BytesSent);
    }
    if r.bytes_received > 0 {
        assert(s[1 + sent].0 == MetricType::BytesReceived);
    }
}

/// Number of successful results.
pub open spec fn count_successes(s: Seq<ActionResult>) -> nat
    decreases s.len(),
{
    if s.len() == 0 {
        0
    } else {
        count_successes(s.drop_last()) + if s.last().success {
            1nat
        } else {
            0nat
        }
    }
}

/// Sum of the response times.
pub open spec fn sum_response_ms(s: Seq<ActionResult>) -> nat
    decreases s.len(),
{
    if s.len() == 0 {
        0
    } else {
        sum_response_ms(s.drop_last()) + s.last().response_time_ms as nat
    }
}

/// Sum of the bytes sent.
pub open spec fn sum_sent(s: Seq<ActionResult>) -> nat
    decreases s.len(),
{
    if s.len() == 0 {
        0
    } else {
        sum_sent(s.drop_last()) + s.last().bytes_sent as nat
    }
}

/// Sum of the bytes received.
pub open spec fn sum_received(s: Seq<ActionResult>) -> nat
    decreases s.len(),
{
    if s.len() == 0 {
        0
    } else {
        sum_received(s.drop_last()) + s.last().bytes_received as nat
    }
}

proof fn lemma_count_le(s: Seq<ActionResult>)
    ensures
        count_successes(s) <= s.len(),
    decreases s.len(),
{
    if s.len() > 0 {
        lemma_count_le(s.drop_last());
    }
}

proof fn lemma_sums_prefix(s: Seq<ActionResult>, i: int)
    requires
        0 <= i <= s.len(),
    ensures
        sum_response_ms(s.take(i)) <= sum_response_ms(s),
        sum_sent(s.take(i)) <= sum_sent(s),
        sum_received(s.take(i)) <= sum_received(s),
    decreases s.len() - i,
{
    if i < s.len() {
        lemma_sums_prefix(s, i + 1);
        assert(s.take(i + 1).drop_last() =~= s.take(i));
    } else {
        assert(s.take(i) =~= s);
    }
}

/// The summary of one virtual user's run.
#[derive(Debug, Clone)]
pub struct VuResult {
    pub vu_id: usize,
    pub success: bool,
    pub duration_ms: u64,
    pub total_actions: usize,
    pub successful_actions: usize,
    pub failed_actions: usize,
    pub avg_response_time_ms: u64,
    pub total_bytes_sent: usize,
    pub total_bytes_received: usize,
    pub error: Option<String>,
    pub action_results: Vec<ActionResult>,
}

impl VuResult {
    /// The summary of a run that produced `results` (in order) and ended
    /// with `error` when its steps could not all be executed.  The average
    /// response time is rounded down, and 0 without results.
    pub fn from_run(
        vu_id: usize,
        duration_ms: u64,
        results: Vec<ActionResult>,
        error: Option<String>,
    ) -> (r: Self)
        requires
            sum_response_ms(results@) <= u64::MAX,
            sum_sent(results@) <= usize::MAX,
            sum_received(results@) <= usize::MAX,
        ensures
            r.vu_id == vu_id,
            r.success == (error is None),
            r.duration_ms == duration_ms,
            r.total_actions == results@.len(),
            r.successful_actions == count_successes(results@),
            r.failed_actions == results@.len() - count_successes(results@),
            r.successful_actions + r.failed_actions == r.total_actions,
            r.avg_response_time_ms == if results@.len() == 0 {
                0
            } else {
                sum_response_ms(results@) / results@.len()
            },
            r.total_bytes_sent == sum_sent(results@),
            r.total_bytes_received == sum_received(results@),
            r.error == error,
            r.action_results@ == results@,
    {
        let n = results.len();
        let mut ok: usize = 0;
        let mut total_ms: u64 = 0;
        let mut sent: usize = 0;
        let mut received: usize = 0;
        let mut i: usize = 0;
        while i < n
            invariant
                n == results@.len(),
                i <= n,
                ok == count_successes(results@.take(i as int)),
                total_ms == sum_response_ms(results@.take(i as int)),
                sent == sum_sent(results@.take(i as int)),
                received == sum_received(results@.take(i as int)),
                sum_response_ms(results@) <= u64::MAX,
                sum_sent(results@) <= usize::MAX,
                sum_received(results@) <= usize::MAX,
            decreases n - i,
        {
            proof {
                assert(results@.take(i + 1).drop_last() =~= results@.take(i as int));
                lemma_sums_prefix(results@, i + 1);
                lemma_count_le(results@.take(i as int));
            }
            let a = &results[i];
            if a.success {
                ok = ok + 1;
            }
            total_ms = total_ms + a.response_time_ms;
            sent = sent + a.bytes_sent;
            received = received + a.bytes_received;
            i += 1;
        }
        proof {
            assert(results@.take(n as int) =~= results@);
            lemma_count_le(results@);
        }
        let avg = if n > 0 {
            total_ms / (n as u64)
        } else {
            0
        };
        VuResult {
            vu_id,
            success: error.is_none(),
            duration_ms,
            total_actions: n,
            successful_actions: ok,
            failed_actions: n - ok,
            avg_response_time_ms: avg,
            total_bytes_sent: sent,
            total_bytes_received: received,
            error,
            action_results: results,
        }
    }
}

/// A user's way through the steps of its scenario: the results of the steps
/// run so far, in step order, and the error of a step that could not be
/// executed, which ends the run.
pub struct UserRun {
    step_count: usize,
    results: Vec<ActionResult>,
    error: Option<String>,
}

impl UserRun {
    #[verifier::type_invariant]
    closed spec fn within_steps(self) -> bool {
        &&& self.results@.len() <= self.step_count
        &&& self.error is Some ==> self.results@.len() < self.step_count
    }

    /// Number of steps of the scenario.
    pub closed spec fn steps(self) -> nat {
        self.step_count as nat
    }

    /// Results of the steps run so far, in step order.
    pub closed spec fn done(self) -> Seq<ActionResult> {
        self.results@
    }

    /// The error that ended the run, if a step could not be executed.
    pub closed spec fn failure(self) -> Option<Seq<char>> {
        match self.error {
            Some(e) => Some(e@),
            None => None,
        }
    }

    /// Whether the run goes on: no step failed and a step is left.
    pub open spec fn goes_on(self) -> bool {
        self.failure() is None && self.done().len() < self.steps()
    }

    /// A run through `step_count` steps, none run yet.
    pub fn new(step_count: usize) -> (r: Self)
        ensures
            r.steps() == step_count,
            r.done() == Seq::<ActionResult>::empty(),
            r.failure() is None,
    {
        UserRun { step_count, results: Vec::new(), error: None }
    }

    /// The step to run next: the first one not run yet, in order; `None`
    /// once every step has run or a step could not be executed.
    pub fn next_step(&self) -> (r: Option<usize>)
        ensures
            r == if self.goes_on() {
                Some(self.done().len() as usize)
            } else {
                None::<usize>
            },
            self.done().len() <= self.steps(),
            self.failure() is Some ==> self.done().len() < self.steps(),
    {
        proof {
            use_type_invariant(self);
        }
        if self.error.is_none() && self.results.len() < self.step_count {
            Some(self.results.len())
        } else {
            None
        }
    }

    /// Records the result of the step `next_step` named.
    pub fn record(&mut self, result: ActionResult)
        requires
            old(self).goes_on(),
        ensures
            final(self).steps() == old(self).steps(),
            final(self).done() == old(self).done().push(result),
            final(self).failure() is None,
    {
        proof {
            use_type_invariant(&*self);
        }
        let mut results: Vec<ActionResult> = Vec::new();
        std::mem::swap(&mut results, &mut self.results);
        results.push(result);
        self.results = results;
    }

    /// Ends the run at the step `next_step` named, which could not be
    /// executed.
    pub fn fail(&mut self, error: String)
        requires
            old(self).goes_on(),
        ensures
            final(self).steps() == old(self).steps(),
            final(self).done() == old(self).done(),
            final(self).failure() == Some(error@),
    {
        proof {
            use_type_invariant(&*self);
        }
        self.error = Some(error);
    }

    /// The results so far.
    pub fn results(&self) -> (r: &Vec<ActionResult>)
        ensures
            r@ == self.done(),
    {
        &self.results
    }

    /// The summary of a finished run (see `VuResult::from_run`): one action
    /// per step run; the run succeeds exactly when every step ran, and it
    /// then counts as many actions as the scenario has steps.
    pub fn finish(self, vu_id: usize, duration_ms: u64) -> (r: VuResult)
        requires
            !self.goes_on(),
            sum_response_ms(self.done()) <= u64::MAX,
            sum_sent(self.done()) <= usize::MAX,
            sum_received(self.done()) <= usize::MAX,
        ensures
            r.vu_id == vu_id,
            r.duration_ms == duration_ms,
            r.action_results@ == self.done(),
            r.total_actions == self.done().len(),
            r.successful_actions == count_successes(self.done()),
            r.failed_actions == self.done().len() - count_successes(self.done()),
            r.avg_response_time_ms == if self.done().len() == 0 {
                0
            } else {
                sum_response_ms(self.done()) / self.done().len()
            },
            r.total_bytes_sent == sum_sent(self.done()),
            r.total_bytes_received == sum_received(self.done()),
            match r.error {
                Some(e) => self.failure() == Some(e@),
                None => self.failure() is None,
            },
            r.success == (r.error is None),
            r.success <==> r.total_actions == self.steps(),
    {
        proof {
            use_type_invariant(&self);
        }
        let UserRun { step_count: _, results, error } = self;
        VuResult::from_run(vu_id, duration_ms, results, error)
    }
}

} // verus!
