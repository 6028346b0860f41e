//! The test run as a whole: its configuration, the decisions taken while
//! users are spawned and collected, and the totals over all users.
use vstd::prelude::*;
use crate::action::ActionResult;
use crate::vu::VuResult;
use crate::text::{owned, u64_to_decimal, decimal};

verus! {

/// Test execution configuration.
#[derive(Debug, Clone)]
pub struct ExecutorConfig {
    /// Maximum number of concurrent users (`None`: no limit).
    pub max_concurrent_vus: Option<usize>,
    /// Whether to stop collecting at the first failed user.
    pub stop_on_error: bool,
    /// Whether to print progress.
    pub show_progress: bool,
    /// Directory for request logs (`None`: no logging).
    pub log_directory: Option<String>,
}

impl Default for ExecutorConfig {
    fn default() -> (r: Self)
        ensures
            r.max_concurrent_vus is None,
            !r.stop_on_error,
            r.show_progress,
            r.log_directory is None,
    {
        ExecutorConfig {
            max_concurrent_vus: None,
            stop_on_error: false,
            show_progress: true,
            log_directory: None,
        }
    }
}

impl ExecutorConfig {
    /// Whether spawning must wait while `running` users are still running.
    pub fn must_wait(&self, running: usize) -> (r: bool)
        ensures
            r == (self.max_concurrent_vus matches Some(m) && running >= m),
    {
        match self.max_concurrent_vus {
            Some(m) => running >= m,
            None => false,
        }
    }

    /// Whether collecting stops after a user that succeeded or not (a user
    /// whose task itself failed counts as not succeeding).
    pub fn stops_after(&self, user_succeeded: bool) -> (r: bool)
        ensures
            r == (self.stop_on_error && !user_succeeded),
    {
        self.stop_on_error && !user_succeeded
    }

    /// Whether progress is printed after `count` users (every tenth).
    pub fn progress_due(&self, count: usize) -> (r: bool)
        ensures
            r == (self.show_progress && count % 10 == 0),
    {
        self.show_progress && count % 10 == 0
    }
}

/// The name a user's lifecycle metrics are recorded under: `vu_{id}`.
pub fn vu_label(user_id: usize) -> (r: String)
    ensures
        r@ == "vu_"@ + decimal(user_id as nat),
{
    let mut s = owned("vu_");
    s.append(u64_to_decimal(user_id as u64).as_str());
    s
}

/// The response times of every action of every user, user by user.
pub open spec fn all_times(vs: Seq<VuResult>) -> Seq<u64>
    decreases vs.len(),
{
    if vs.len() == 0 {
        Seq::empty()
    } else {
        all_times(vs.drop_last()) + vs.last().action_results@.map_values(
            |a: ActionResult| a.response_time_ms,
        )
    }
}

/// Sum of a list of integers.
pub open spec fn sum_u64(s: Seq<u64>) -> nat
    decreases s.len(),
{
    if s.len() == 0 {
        0
    } else {
        sum_u64(s.drop_last()) + s.last() as nat
    }
}

/// The least element (0 for none).
pub open spec fn min_u64(s: Seq<u64>) -> u64
    decreases s.len(),
{
    if s.len() == 0 {
        0
    } else if s.len() == 1 {
        s[0]
    } else {
        let m = min_u64(s.drop_last());
        if s.last() < m {
            s.last()
        } else {
            m
        }
    }
}

/// The greatest element (0 for none).
pub open spec fn max_u64(s: Seq<u64>) -> u64
    decreases s.len(),
{
    if s.len() == 0 {
        0
    } else {
        let m = max_u64(s.drop_last());
        if s.last() > m {
            s.last()
        } else {
            m
        }
    }
}

/// Number of users that succeeded.
pub open spec fn users_ok(vs: Seq<VuResult>) -> nat
    decreases vs.len(),
{
    if vs.len() == 0 {
        0
    } else {
        users_ok(vs.drop_last()) + if vs.last().success {
            1nat
        } else {
            0nat
        }
    }
}

/// Sum of the users' action counts.
pub open spec fn sum_actions(vs: Seq<VuResult>) -> nat
    decreases vs.len(),
{
    if vs.len() == 0 {
        0
    } else {
        sum_actions(vs.drop_last()) + vs.last().total_actions as nat
    }
}

/// Sum of the users' successful action counts.
pub open spec fn sum_ok_actions(vs: Seq<VuResult>) -> nat
    decreases vs.len(),
{
    if vs.len() == 0 {
        0
    } else {
        sum_ok_actions(vs.drop_last()) + vs.last().successful_actions as nat
    }
}

/// Sum of the users' failed action counts.
pub open spec fn sum_failed_actions(vs: Seq<VuResult>) -> nat
    decreases vs.len(),
{
    if vs.len() == 0 {
        0
    } else {
        sum_failed_actions(vs.drop_last()) + vs.last().failed_actions as nat
    }
}

/// Sum of the users' bytes sent.
pub open spec fn sum_vu_sent(vs: Seq<VuResult>) -> nat
    decreases vs.len(),
{
    if vs.len() == 0 {
        0
    } else {
        sum_vu_sent(vs.drop_last()) + vs.last().total_bytes_sent as nat
    }
}

/// Sum of the users' bytes received.
pub open spec fn sum_vu_received(vs: Seq<VuResult>) -> nat
    decreases vs.len(),
{
    if vs.len() == 0 {
        0
    } else {
        sum_vu_received(vs.drop_last()) + vs.last().total_bytes_received as nat
    }
}

/// The totals stay within the integer widths they are kept in.
pub open spec fn totals_fit(vs: Seq<VuResult>) -> bool {
    &&& sum_actions(vs) <= usize::MAX
    &&& sum_ok_actions(vs) <= usize::MAX
    &&& sum_failed_actions(vs) <= usize::MAX
    &&& sum_vu_sent(vs) <= usize::MAX
    &&& sum_vu_received(vs) <= usize::MAX
    &&& sum_u64(all_times(vs)) <= u64::MAX
    &&& all_times(vs).len() <= usize::MAX
}

proof fn lemma_prefix_sums(vs: Seq<VuResult>, i: int)
    requires
        0 <= i <= vs.len(),
    ensures
        users_ok(vs.take(i)) <= i,
        sum_actions(vs.take(i)) <= sum_actions(vs),
        sum_ok_actions(vs.take(i)) <= sum_ok_actions(vs),
        sum_failed_actions(vs.take(i)) <= sum_failed_actions(vs),
        sum_vu_sent(vs.take(i)) <= sum_vu_sent(vs),
        sum_vu_received(vs.take(i)) <= sum_vu_received(vs),
        all_times(vs).len() >= all_times(vs.take(i)).len(),
        all_times(vs.take(i)).is_prefix_of(all_times(vs)),
    decreases vs.len() - i,
{
    if i < vs.len() {
        lemma_prefix_sums(vs, i + 1);
        assert(vs.take(i + 1).drop_last() =~= vs.take(i));
        lemma_users_ok_le(vs.take(i));
    } else {
        assert(vs.take(i) =~= vs);
        lemma_users_ok_le(vs);
    }
}

proof fn lemma_users_ok_le(vs: Seq<VuResult>)
    ensures
        users_ok(vs) <= vs.len(),
    decreases vs.len(),
{
    if vs.len() > 0 {
        lemma_users_ok_le(vs.drop_last());
    }
}

proof fn lemma_sum_prefix(s: Seq<u64>, t: Seq<u64>)
    requires
        s.is_prefix_of(t),
    ensures
        sum_u64(s) <= sum_u64(t),
    decreases t.len(),
{
    if s.len() < t.len() {
        assert(s.is_prefix_of(t.drop_last()));
        lemma_sum_prefix(s, t.drop_last());
    } else {
        assert(s =~= t);
    }
}

/// The totals of a test run over all its users.
#[derive(Debug, Clone, Copy, PartialEq, Eq, Structural)]
pub struct RunTotals {
    pub success: bool,
    pub total_vus: usize,
    pub successful_vus: usize,
    pub failed_vus: usize,
    pub total_actions: usize,
    pub successful_actions: usize,
    pub failed_actions: usize,
    pub total_bytes_sent: usize,
    pub total_bytes_received: usize,
    pub avg_response_time_ms: u64,
    pub min_response_time_ms: u64,
    pub max_response_time_ms: u64,
}

/// The totals over all users: users that succeeded and failed, the sums of
/// their action and byte counts, and the average (rounded down), least and
/// greatest response time over all their actions (0 when there are none).
/// The run succeeds when no user failed.
pub fn summarize_runs(vs: &Vec<VuResult>) -> (r: RunTotals)
    requires
        totals_fit(vs@),
    ensures
        r.total_vus == vs@.len(),
        r.successful_vus == users_ok(vs@),
        r.failed_vus == vs@.len() - users_ok(vs@),
        r.success == (r.failed_vus == 0),
        r.total_actions == sum_actions(vs@),
        r.successful_actions == sum_ok_actions(vs@),
        r.failed_actions == sum_failed_actions(vs@),
        r.total_bytes_sent == sum_vu_sent(vs@),
        r.total_bytes_received == sum_vu_received(vs@),
        r.avg_response_time_ms == if all_times(vs@).len() == 0 {
            0
        } else {
            sum_u64(all_times(vs@)) / all_times(vs@).len()
        },
        r.min_response_time_ms == min_u64(all_times(vs@)),
        r.max_response_time_ms == max_u64(all_times(vs@)),
{
    let n = vs.len();
    let mut ok_vus: usize = 0;
    let mut actions: usize = 0;
    let mut ok_actions: usize = 0;
    let mut failed_actions: usize = 0;
    let mut sent: usize = 0;
    let mut received: usize = 0;
    let mut total_ms: u64 = 0;
    let mut count: usize = 0;
    let mut min_ms: u64 = 0;
    let mut max_ms: u64 = 0;
    let ghost mut seen: Seq<u64> = Seq::empty();
    let mut i: usize = 0;
    while i < n
        invariant
            n == vs@.len(),
            i <= n,
            totals_fit(vs@),
            ok_vus == users_ok(vs@.take(i as int)),
            actions == sum_actions(vs@.take(i as int)),
            ok_actions == sum_ok_actions(vs@.take(i as int)),
            failed_actions == sum_failed_actions(vs@.take(i as int)),
            sent == sum_vu_sent(vs@.take(i as int)),
            received == sum_vu_received(vs@.take(i as int)),
            seen == all_times(vs@.take(i as int)),
            total_ms == sum_u64(seen),
            count == seen.len(),
            min_ms == min_u64(seen),
            max_ms == max_u64(seen),
        decreases n - i,
    {
        proof {
            assert(vs@.take(i + 1).drop_last() =~= vs@.take(i as int));
            lemma_prefix_sums(vs@, i + 1);
        }
        let v = &vs[i];
        if v.success {
            ok_vus = ok_vus + 1;
        }
        actions = actions + v.total_actions;
        ok_actions = ok_actions + v.successful_actions;
        failed_actions = failed_actions + v.failed_actions;
        sent = sent + v.total_bytes_sent;
        received = received + v.total_bytes_received;
        let ghost base = seen;
        let ghost times = v.action_results@.map_values(|a: ActionResult| a.response_time_ms);
        let m = v.action_results.len();
        let mut j: usize = 0;
        while j < m
            invariant
                m == v.action_results@.len(),
                times == v.action_results@.map_values(|a: ActionResult| a.response_time_ms),
                j <= m,
                base + times == all_times(vs@.take(i + 1)),
                all_times(vs@.take(i + 1)).is_prefix_of(all_times(vs@)),
                totals_fit(vs@),
                seen == base + times.take(j as int),
                total_ms == sum_u64(seen),
                count == seen.len(),
                min_ms == min_u64(seen),
                max_ms == max_u64(seen),
            decreases m - j,
        {
            let t = v.action_results[j].response_time_ms;
            let ghost next = seen.push(t);
            proof {
                assert(times[j as int] == t);
                assert(base + times.take(j + 1) =~= next);
                assert(next.is_prefix_of(all_times(vs@)));
                lemma_sum_prefix(next, all_times(vs@));
                assert(next.drop_last() =~= seen);
            }
            total_ms = total_ms + t;
            if count == 0 {
                min_ms = t;
                max_ms = t;
            } else {
                if t < min_ms {
                    min_ms = t;
                }
                if t > max_ms {
                    max_ms = t;
                }
            }
            count = count + 1;
            proof {
                seen = next;
            }
            j += 1;
        }
        proof {
            assert(times.take(m as int) =~= times);
        }
        i += 1;
    }
    proof {
        assert(vs@.take(n as int) =~= vs@);
        lemma_users_ok_le(vs@);
    }
    let avg = if count > 0 {
        total_ms / (count as u64)
    } else {
        0
    };
    RunTotals {
        success: ok_vus == n,
        total_vus: n,
        successful_vus: ok_vus,
        failed_vus: n - ok_vus,
        total_actions: actions,
        successful_actions: ok_actions,
        failed_actions,
        total_bytes_sent: sent,
        total_bytes_received: received,
        avg_response_time_ms: avg,
        min_response_time_ms: min_ms,
        max_response_time_ms: max_ms,
    }
}

/// What collecting the users' outcomes in turn keeps, and whether it has
/// stopped: each result is kept; a user whose task failed (`None`) gives no
/// result; with stop-on-error, collecting stops after the first user that
/// failed or whose task failed.
pub open spec fn collection(stop_on_error: bool, seen: Seq<Option<VuResult>>) -> (
    Seq<VuResult>,
    bool,
)
    decreases seen.len(),
{
    if seen.len() == 0 {
        (Seq::empty(), false)
    } else {
        let before = collection(stop_on_error, seen.drop_last());
        if before.1 {
            before
        } else {
            match seen.last() {
                Some(r) => (before.0.push(r), stop_on_error && !r.success),
                None => (before.0, stop_on_error),
            }
        }
    }
}

/// Collects the outcomes of the users' runs, in the order they are
/// awaited, and counts the users spawned.
pub struct Collector {
    stop_on_error: bool,
    spawned: usize,
    taken: usize,
    results: Vec<VuResult>,
    stopped: bool,
    seen: Ghost<Seq<Option<VuResult>>>,
}

/// Every outcome is a result (no user's task failed).
pub open spec fn all_results(seen: Seq<Option<VuResult>>) -> bool {
    forall|i: int| 0 <= i < seen.len() ==> (#[trigger] seen[i]) is Some
}

proof fn lemma_all_results_kept(seen: Seq<Option<VuResult>>)
    requires
        all_results(seen),
    ensures
        collection(false, seen).0.len() == seen.len(),
        !collection(false, seen).1,
    decreases seen.len(),
{
    if seen.len() > 0 {
        assert(all_results(seen.drop_last())) by {
            assert forall|i: int| 0 <= i < seen.drop_last().len() implies (
            #[trigger] seen.drop_last()[i]) is Some by {
                assert(seen.drop_last()[i] == seen[i]);
            }
        }
        lemma_all_results_kept(seen.drop_last());
        assert(seen[seen.len() - 1] is Some);
    }
}

impl Collector {
    #[verifier::type_invariant]
    closed spec fn follows_seen(self) -> bool {
        &&& collection(self.stop_on_error, self.seen@) == (self.results@, self.stopped)
        &&& self.seen@.len() == self.taken
        &&& self.taken <= self.spawned
    }

    /// Whether collecting stops at a failure.
    pub closed spec fn stops_on_error(self) -> bool {
        self.stop_on_error
    }

    /// Number of users spawned.
    pub closed spec fn spawned(self) -> nat {
        self.spawned as nat
    }

    /// The outcomes taken in so far.
    pub closed spec fn seen(self) -> Seq<Option<VuResult>> {
        self.seen@
    }

    /// The results kept so far.
    pub closed spec fn kept(self) -> Seq<VuResult> {
        self.results@
    }

    /// Whether collecting has stopped.
    pub closed spec fn stopped(self) -> bool {
        self.stopped
    }

    /// Nothing spawned or collected yet, stopping on error as `config`
    /// says.
    pub fn new(config: &ExecutorConfig) -> (r: Self)
        ensures
            r.stops_on_error() == config.stop_on_error,
            r.spawned() == 0,
            r.seen() == Seq::<Option<VuResult>>::empty(),
            r.kept() == Seq::<VuResult>::empty(),
            !r.stopped(),
    {
        Collector {
            stop_on_error: config.stop_on_error,
            spawned: 0,
            taken: 0,
            results: Vec::new(),
            stopped: false,
            seen: Ghost(Seq::empty()),
        }
    }

    /// Counts one more user spawned.
    pub fn spawn(&mut self)
        requires
            old(self).spawned() < usize::MAX,
        ensures
            final(self).spawned() == old(self).spawned() + 1,
            final(self).stops_on_error() == old(self).stops_on_error(),
            final(self).seen() == old(self).seen(),
            final(self).kept() == old(self).kept(),
            final(self).stopped() == old(self).stopped(),
    {
        proof {
            use_type_invariant(&*self);
        }
        self.spawned = self.spawned + 1;
    }

    /// Users spawned whose outcome was not taken in yet.
    pub fn pending(&self) -> (r: usize)
        ensures
            r == self.spawned() - self.seen().len(),
    {
        proof {
            use_type_invariant(self);
        }
        self.spawned - self.taken
    }

    /// Takes in the outcome of one spawned user (`None` when its task
    /// failed); returns whether collecting stops here.
    pub fn take(&mut self, outcome: Option<VuResult>) -> (stop: bool)
        requires
            !old(self).stopped(),
            old(self).seen().len() < old(self).spawned(),
        ensures
            final(self).stops_on_error() == old(self).stops_on_error(),
            final(self).spawned() == old(self).spawned(),
            final(self).seen() == old(self).seen().push(outcome),
            (final(self).kept(), final(self).stopped()) == collection(
                final(self).stops_on_error(),
                final(self).seen(),
            ),
            final(self).kept() == match outcome {
                Some(r) => old(self).kept().push(r),
                None => old(self).kept(),
            },
            stop == final(self).stopped(),
            stop == (old(self).stops_on_error() && !(outcome matches Some(r) && r.success)),
    {
        let mut previous = Collector {
            stop_on_error: false,
            spawned: 0,
            taken: 0,
            results: Vec::new(),
            stopped: false,
            seen: Ghost(Seq::empty()),
        };
        std::mem::swap(&mut previous, self);
        proof {
            use_type_invariant(&previous);
        }
        let ghost seen = previous.seen@.push(outcome);
        proof {
            assert(seen.drop_last() =~= previous.seen@);
        }
        let Collector { stop_on_error, spawned, taken, mut results, stopped: _, seen: _ } = previous;
        let stop = match outcome {
            Some(r) => {
                let failed = !r.success;
                results.push(r);
                stop_on_error && failed
            },
            None => stop_on_error,
        };
        *self = Collector {
            stop_on_error,
            spawned,
            taken: taken + 1,
            results,
            stopped: stop,
            seen: Ghost(seen),
        };
        stop
    }

    /// Whether collecting has stopped.
    pub fn is_stopped(&self) -> (r: bool)
        ensures
            r == self.stopped(),
    {
        self.stopped
    }

    /// The results kept, once every spawned user's outcome is in or
    /// collecting has stopped.  Without stop-on-error, when no user's task
    /// failed, there is one result per user spawned.
    pub fn into_results(self) -> (r: Vec<VuResult>)
        requires
            self.stopped() || self.seen().len() == self.spawned(),
        ensures
            r@ == self.kept(),
            !self.stops_on_error() && all_results(self.seen()) ==> r@.len() == self.spawned(),
    {
        proof {
            use_type_invariant(&self);
            if !self.stop_on_error && all_results(self.seen@) {
                lemma_all_results_kept(self.seen@);
            }
        }
        let Collector { results, .. } = self;
        results
    }
}

/// Without stop-on-error, every user's result is collected, in order, and
/// collecting never stops.
pub proof fn law_every_result_collected(results: Seq<VuResult>)
    ensures
        collection(false, results.map_values(|r: VuResult| Some(r))) == (results, false),
    decreases results.len(),
{
    let outcomes = results.map_values(|r: VuResult| Some(r));
    if results.len() > 0 {
        law_every_result_collected(results.drop_last());
        assert(outcomes.drop_last() =~= results.drop_last().map_values(|r: VuResult| Some(r)));
        assert(results.drop_last().push(results.last()) =~= results);
    } else {
        assert(results =~= Seq::<VuResult>::empty());
    }
}

proof fn lemma_collection_prefix(results: Seq<VuResult>, i: int, n: int)
    requires
        0 <= i < results.len(),
        !results[i].success,
        forall|j: int| 0 <= j < i ==> #[trigger] results[j].success,
        0 <= n <= results.len(),
    ensures
        n <= i ==> collection(true, results.take(n).map_values(|r: VuResult| Some(r))) == (
            results.take(n),
            false,
        ),
        n > i ==> collection(true, results.take(n).map_values(|r: VuResult| Some(r))) == (
            results.take(i + 1),
            true,
        ),
    decreases n,
{
    let outcomes = results.take(n).map_values(|r: VuResult| Some(r));
    if n == 0 {
        assert(results.take(0) =~= Seq::<VuResult>::empty());
    } else {
        lemma_collection_prefix(results, i, n - 1);
        assert(outcomes.drop_last() =~= results.take(n - 1).map_values(|r: VuResult| Some(r)));
        assert(outcomes.last() == Some(results[n - 1]));
        assert(results.take(n - 1).push(results[n - 1]) =~= results.take(n));
    }
}

/// With stop-on-error, when every user's task ends, the results are kept up
/// to and including the first user that failed, and collecting stops there.
pub proof fn law_collection_stops_at_first_failure(results: Seq<VuResult>, i: int)
    requires
        0 <= i < results.len(),
        !results[i].success,
        forall|j: int| 0 <= j < i ==> #[trigger] results[j].success,
    ensures
        collection(true, results.map_values(|r: VuResult| Some(r))) == (results.take(i + 1), true),
{
    lemma_collection_prefix(results, i, results.len() as int);
    assert(results.take(results.len() as int) =~= results);
}

} // verus!
