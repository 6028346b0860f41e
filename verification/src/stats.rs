//! Virtual-user lifecycle statistics and metric kinds.
use vstd::prelude::*;

verus! {

/// Kinds of metric.
#[derive(Debug, Clone, PartialEq, Eq, Hash)]
pub enum MetricType {
    /// Response time in milliseconds.
    ResponseTime,
    /// Throughput (requests per second).
    Throughput,
    /// Error rate.
    ErrorRate,
    /// Bytes sent.
    BytesSent,
    /// Bytes received.
    BytesReceived,
    /// Active VUs count.
    ActiveVUs,
    /// Success count.
    Success,
    /// Failure count.
    Failure,
    /// DNS lookup time in milliseconds.
    DnsLookup,
    /// TCP connection time in milliseconds.
    TcpConnect,
    /// TLS handshake time in milliseconds.
    TlsHandshake,
    /// Time to first byte in milliseconds.
    TimeToFirstByte,
    /// Content download time in milliseconds.
    ContentDownload,
    /// Total connection time (DNS + TCP + TLS).
    ConnectionTime,
    /// VU started.
    VuStarted,
    /// VU completed successfully.
    VuCompleted,
    /// VU failed.
    VuFailed,
    /// VU is currently active.
    VuActive,
    /// VU is idle or waiting.
    VuIdle,
    /// Custom metric.
    Custom(String),
}

/// Type of VU lifecycle event.
#[derive(Debug, Clone, Copy, PartialEq, Eq, Structural)]
pub enum VuEventType {
    Started,
    Completed,
    Failed,
}

/// A VU lifecycle event; the timestamp is in milliseconds.
#[derive(Debug, Clone, Copy, PartialEq, Eq, Structural)]
pub struct VuEvent {
    pub timestamp: u64,
    pub vu_id: usize,
    pub event_type: VuEventType,
}

/// VU counts at a point in time; the timestamp is in milliseconds.
#[derive(Debug, Clone, Copy, PartialEq, Eq, Structural)]
pub struct VuStateSnapshot {
    pub timestamp: u64,
    pub active: usize,
    pub completed: usize,
    pub failed: usize,
    pub total_started: usize,
}

impl VuStateSnapshot {
    /// VUs that finished, successfully or not.
    pub fn total_finished(&self) -> (r: usize)
        requires
            self.completed + self.failed <= usize::MAX,
        ensures
            r == self.completed + self.failed,
    {
        self.completed + self.failed
    }

    /// VUs that started and did not finish yet.
    pub fn pending(&self) -> (r: usize)
        requires
            self.completed + self.failed <= self.total_started,
        ensures
            r == self.total_started - (self.completed + self.failed),
    {
        self.total_started - self.total_finished()
    }
}

/// `s` with `e` placed after every event that is not later than `e` at the
/// end of `s`: one step of a stable insertion sort by timestamp.
pub open spec fn insert_by_time(s: Seq<VuEvent>, e: VuEvent) -> Seq<VuEvent>
    decreases s.len(),
{
    if s.len() == 0 || s.last().timestamp <= e.timestamp {
        s.push(e)
    } else {
        insert_by_time(s.drop_last(), e).push(s.last())
    }
}

/// The events ordered by timestamp, events with equal timestamps kept in
/// the order they came in (as a stable sort by timestamp).
pub open spec fn sort_by_time(s: Seq<VuEvent>) -> Seq<VuEvent>
    decreases s.len(),
{
    if s.len() == 0 {
        s
    } else {
        insert_by_time(sort_by_time(s.drop_last()), s.last())
    }
}

/// Events in non-decreasing timestamp order.
pub open spec fn time_ordered(s: Seq<VuEvent>) -> bool {
    forall|i: int, j: int| 0 <= i <= j < s.len() ==> s[i].timestamp <= s[j].timestamp
}

/// Counts after a prefix of events.
pub struct LifeCounts {
    pub started: nat,
    pub completed: nat,
    pub failed: nat,
    pub active: Set<usize>,
}

/// The counts after the first `n` events: every `Started` event counts and
/// makes its VU active; every `Completed` or `Failed` event counts and makes
/// its VU inactive.
pub open spec fn counts_after(events: Seq<VuEvent>, n: nat) -> LifeCounts
    decreases n,
{
    if n == 0 || n > events.len() {
        LifeCounts { started: 0, completed: 0, failed: 0, active: Set::empty() }
    } else {
        let c = counts_after(events, (n - 1) as nat);
        let e = events[n - 1];
        match e.event_type {
            VuEventType::Started => LifeCounts {
                started: c.started + 1,
                active: c.active.insert(e.vu_id),
                ..c
            },
            VuEventType::Completed => LifeCounts {
                completed: c.completed + 1,
                active: c.active.remove(e.vu_id),
                ..c
            },
            VuEventType::Failed => LifeCounts {
                failed: c.failed + 1,
                active: c.active.remove(e.vu_id),
                ..c
            },
        }
    }
}

/// The snapshot taken after the first `n` events (`n >= 1`).
pub open spec fn snapshot_after(events: Seq<VuEvent>, n: nat) -> VuStateSnapshot {
    let c = counts_after(events, n);
    VuStateSnapshot {
        timestamp: events[n - 1].timestamp,
        active: c.active.len() as usize,
        completed: c.completed as usize,
        failed: c.failed as usize,
        total_started: c.started as usize,
    }
}

/// VU lifecycle statistics.
#[derive(Debug)]
pub struct VuLifecycleStats {
    /// Total VUs started.
    pub total_started: usize,
    /// Total VUs completed.
    pub total_completed: usize,
    /// Total VUs failed.
    pub total_failed: usize,
    /// Currently active VUs (started, not completed or failed).
    pub currently_active: usize,
    /// VU events, in time order.
    pub events: Vec<VuEvent>,
    /// VU counts after each event.
    pub state_snapshots: Vec<VuStateSnapshot>,
}

proof fn lemma_counts_bounded(events: Seq<VuEvent>, n: nat)
    requires
        n <= events.len(),
    ensures
        counts_after(events, n).started + counts_after(events, n).completed + counts_after(
            events,
            n,
        ).failed == n,
        counts_after(events, n).active.finite(),
        counts_after(events, n).active.len() <= counts_after(events, n).started,
    decreases n,
{
    if n > 0 {
        lemma_counts_bounded(events, (n - 1) as nat);
        let c = counts_after(events, (n - 1) as nat);
        let e = events[n - 1];
        if e.event_type == VuEventType::Completed || e.event_type == VuEventType::Failed {
            if c.active.contains(e.vu_id) {
                assert(c.active.remove(e.vu_id).len() == c.active.len() - 1);
            } else {
                assert(c.active.remove(e.vu_id) =~= c.active);
            }
        }
    }
}

/// The events in stable timestamp order (insertion sort).
fn sort_events(v: Vec<VuEvent>) -> (r: Vec<VuEvent>)
    ensures
        r@ == sort_by_time(v@),
{
    let mut out: Vec<VuEvent> = Vec::new();
    let mut i: usize = 0;
    while i < v.len()
        invariant
            i <= v.len(),
            out@ == sort_by_time(v@.take(i as int)),
        decreases v.len() - i,
    {
        let x = v[i];
        let mut p = out.len();
        proof {
            assert(out@.take(p as int) =~= out@);
            assert(out@.skip(p as int) =~= Seq::<VuEvent>::empty());
            assert(insert_by_time(out@, x) + Seq::<VuEvent>::empty() =~= insert_by_time(out@, x));
        }
        while p > 0 && out[p - 1].timestamp > x.timestamp
            invariant
                p <= out.len(),
                insert_by_time(out@, x) == insert_by_time(out@.take(p as int), x) + out@.skip(
                    p as int,
                ),
                forall|j: int| p <= j < out.len() ==> out@[j].timestamp > x.timestamp,
            decreases p,
        {
            proof {
                let t = out@.take(p as int);
                assert(t.drop_last() =~= out@.take(p - 1));
                assert(t.last() == out@[p - 1]);
                assert(out@.skip(p - 1) =~= seq![out@[p - 1]] + out@.skip(p as int));
                assert(insert_by_time(t, x) == insert_by_time(t.drop_last(), x).push(t.last()));
                assert(insert_by_time(out@.take(p - 1), x).push(out@[p - 1]) + out@.skip(p as int)
                    =~= insert_by_time(out@.take(p - 1), x) + out@.skip(p - 1));
            }
            p -= 1;
        }
        let ghost before = out@;
        out.insert(p, x);
        proof {
            assert(insert_by_time(before.take(p as int), x) == before.take(p as int).push(x));
            assert(out@ =~= before.take(p as int).push(x) + before.skip(p as int));
            assert(v@.take(i + 1).drop_last() =~= v@.take(i as int));
            assert(v@.take(i + 1).last() == x);
        }
        i += 1;
    }
    proof {
        assert(v@.take(v.len() as int) =~= v@);
    }
    out
}

/// Position of `id` in `ids`, if present.
fn find_id(ids: &Vec<usize>, id: usize) -> (r: Option<usize>)
    ensures
        match r {
            Some(i) => i < ids.len() && ids@[i as int] == id,
            None => !ids@.contains(id),
        },
{
    let mut i: usize = 0;
    while i < ids.len()
        invariant
            i <= ids.len(),
            forall|j: int| 0 <= j < i ==> ids@[j] != id,
        decreases ids.len() - i,
    {
        if ids[i] == id {
            return Some(i);
        }
        i += 1;
    }
    None
}

impl VuLifecycleStats {
    /// Statistics of a list of events: the events are put in time order
    /// (stable for equal times), counted, and a snapshot of the counts is
    /// taken after each event.
    pub fn from_events(events: Vec<VuEvent>) -> (r: Self)
        ensures
            r.events@ == sort_by_time(events@),
            r.total_started == counts_after(r.events@, r.events@.len()).started,
            r.total_completed == counts_after(r.events@, r.events@.len()).completed,
            r.total_failed == counts_after(r.events@, r.events@.len()).failed,
            r.currently_active == counts_after(r.events@, r.events@.len()).active.len(),
            r.state_snapshots@.len() == r.events@.len(),
            forall|k: int|
                0 <= k < r.state_snapshots@.len() ==> #[trigger] r.state_snapshots@[k]
                    == snapshot_after(r.events@, (k + 1) as nat),
    {
        let sorted = sort_events(events);
        let ghost es = sorted@;
        let mut total_started: usize = 0;
        let mut total_completed: usize = 0;
        let mut total_failed: usize = 0;
        let mut active: Vec<usize> = Vec::new();
        let mut snapshots: Vec<VuStateSnapshot> = Vec::new();
        let mut i: usize = 0;
        while i < sorted.len()
            invariant
                es == sorted@,
                i <= sorted.len(),
                total_started == counts_after(es, i as nat).started,
                total_completed == counts_after(es, i as nat).completed,
                total_failed == counts_after(es, i as nat).failed,
                active@.no_duplicates(),
                active@.to_set() == counts_after(es, i as nat).active,
                snapshots@.len() == i,
                forall|k: int|
                    0 <= k < i ==> #[trigger] snapshots@[k] == snapshot_after(es, (k + 1) as nat),
            decreases sorted.len() - i,
        {
            proof {
                lemma_counts_bounded(es, i as nat);
                lemma_counts_bounded(es, (i + 1) as nat);
            }
            let e = sorted[i];
            let ghost prev = active@;
            match e.event_type {
                VuEventType::Started => {
                    total_started += 1;
                    match find_id(&active, e.vu_id) {
                        Some(p) => {
                            proof {
                                assert(prev[p as int] == e.vu_id);
                                assert(prev.contains(e.vu_id));
                            }
                        },
                        None => {
                            active.push(e.vu_id);
                        },
                    }
                    proof {
                        assert forall|x: usize| active@.to_set().contains(x) <==> prev.to_set().insert(e.vu_id).contains(x) by {
                            if active@.len() == prev.len() + 1 {
                                if prev.contains(x) {
                                    let j = choose|j: int| 0 <= j < prev.len() && prev[j] == x;
                                    assert(active@[j] == x);
                                }
                                if active@.contains(x) {
                                    let j = choose|j: int| 0 <= j < active@.len() && active@[j] == x;
                                    if j < prev.len() { assert(prev[j] == x); }
                                }
                                assert(active@[prev.len() as int] == e.vu_id);
                            }
                        }
                        assert(active@.to_set() =~= prev.to_set().insert(e.vu_id));
                    }
                },
                VuEventType::Completed => {
                    total_completed += 1;
                    match find_id(&active, e.vu_id) {
                        Some(p) => {
                            active.remove(p);
                            proof {
                                assert forall|x: usize| active@.to_set().contains(x) <==> prev.to_set().remove(e.vu_id).contains(x) by {
                                    if x == e.vu_id {
                                        assert forall|j: int| 0 <= j < active@.len() implies active@[j] != x by {
                                            if j < p { assert(active@[j] == prev[j]); }
                                            else { assert(active@[j] == prev[j + 1]); }
                                        }
                                    } else if prev.contains(x) {
                                        let j = choose|j: int| 0 <= j < prev.len() && prev[j] == x;
                                        if j < p { assert(active@[j] == x); }
                                        else { assert(active@[j - 1] == x); }
                                    }
                                }
                            }
                        },
                        None => {},
                    }
                    proof {
                        assert(active@.to_set() =~= prev.to_set().remove(e.vu_id));
                    }
                },
                VuEventType::Failed => {
                    total_failed += 1;
                    match find_id(&active, e.vu_id) {
                        Some(p) => {
                            active.remove(p);
                            proof {
                                assert forall|x: usize| active@.to_set().contains(x) <==> prev.to_set().remove(e.vu_id).contains(x) by {
                                    if x == e.vu_id {
                                        assert forall|j: int| 0 <= j < active@.len() implies active@[j] != x by {
                                            if j < p { assert(active@[j] == prev[j]); }
                                            else { assert(active@[j] == prev[j + 1]); }
                                        }
                                    } else if prev.contains(x) {
                                        let j = choose|j: int| 0 <= j < prev.len() && prev[j] == x;
                                        if j < p { assert(active@[j] == x); }
                                        else { assert(active@[j - 1] == x); }
                                    }
                                }
                            }
                        },
                        None => {},
                    }
                    proof {
                        assert(active@.to_set() =~= prev.to_set().remove(e.vu_id));
                    }
                },
            }
            proof {
                assert(active@.no_duplicates()) by {
                    assert forall|a: int, b: int| 0 <= a < active@.len() && 0 <= b < active@.len() && a != b implies active@[a] != active@[b] by {
                        if active@.len() == prev.len() + 1 {
                            if a < prev.len() && b < prev.len() {
                                assert(active@[a] == prev[a] && active@[b] == prev[b]);
                            } else if a < prev.len() {
                                assert(active@[a] == prev[a]);
                            } else if b < prev.len() {
                                assert(active@[b] == prev[b]);
                            }
                        } else if active@.len() + 1 == prev.len() {
                            let p = choose|p: int| 0 <= p < prev.len() && active@ == prev.remove(p);
                            let a2 = if a < p { a } else { a + 1 };
                            let b2 = if b < p { b } else { b + 1 };
                            assert(active@[a] == prev[a2] && active@[b] == prev[b2]);
                        } else {
                            assert(active@ == prev);
                        }
                    }
                }
                active@.unique_seq_to_set();
            }
            let n_active = active.len();
            snapshots.push(
                VuStateSnapshot {
                    timestamp: e.timestamp,
                    active: n_active,
                    completed: total_completed,
                    failed: total_failed,
                    total_started,
                },
            );
            i += 1;
        }
        let currently_active = active.len();
        proof {
            active@.unique_seq_to_set();
        }
        VuLifecycleStats {
            total_started,
            total_completed,
            total_failed,
            currently_active,
            events: sorted,
            state_snapshots: snapshots,
        }
    }

    /// The last snapshot taken at or before `target_time`, if any.
    pub fn state_at(&self, target_time: u64) -> (r: Option<&VuStateSnapshot>)
        ensures
            match r {
                Some(s) => exists|i: int|
                    0 <= i < self.state_snapshots@.len() && self.state_snapshots@[i] == *s
                        && s.timestamp <= target_time && forall|j: int|
                        i < j < self.state_snapshots@.len()
                            ==> self.state_snapshots@[j].timestamp > target_time,
                None => forall|j: int|
                    0 <= j < self.state_snapshots@.len()
                        ==> self.state_snapshots@[j].timestamp > target_time,
            },
    {
        let mut i = self.state_snapshots.len();
        while i > 0
            invariant
                i <= self.state_snapshots.len(),
                forall|j: int|
                    i <= j < self.state_snapshots@.len()
                        ==> self.state_snapshots@[j].timestamp > target_time,
            decreases i,
        {
            if self.state_snapshots[i - 1].timestamp <= target_time {
                return Some(&self.state_snapshots[i - 1]);
            }
            i -= 1;
        }
        None
    }
}

impl Default for VuLifecycleStats {
    fn default() -> (r: Self)
        ensures
            r.total_started == 0,
            r.total_completed == 0,
            r.total_failed == 0,
            r.currently_active == 0,
            r.events@.len() == 0,
            r.state_snapshots@.len() == 0,
    {
        VuLifecycleStats {
            total_started: 0,
            total_completed: 0,
            total_failed: 0,
            currently_active: 0,
            events: Vec::new(),
            state_snapshots: Vec::new(),
        }
    }
}

} // verus!
