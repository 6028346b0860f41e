//! User-injection schedules: when each virtual user starts.
use vstd::prelude::*;
use crate::clock::{instant_now, millis_since};

verus! {

/// `s` is in non-decreasing order.
pub open spec fn sorted(s: Seq<u64>) -> bool {
    forall|i: int, j: int| 0 <= i <= j < s.len() ==> s[i] <= s[j]
}

/// Interval between consecutive users when `users` users are spread evenly
/// over `total_ms` milliseconds, the first at 0 and the last at the end
/// (rounded down to whole milliseconds).
pub open spec fn spread_interval(users: nat, total_ms: nat) -> nat {
    if users > 1 {
        total_ms / ((users - 1) as nat)
    } else {
        0
    }
}

/// Start times of `users` users spread evenly over `total_ms` milliseconds.
pub open spec fn even_spread(users: nat, total_ms: nat) -> Seq<u64> {
    Seq::new(users, |i: int| (i * spread_interval(users, total_ms)) as u64)
}

/// When each virtual user is injected, and how long the test lasts.
pub struct InjectionSchedule {
    /// Injection times, in milliseconds from the test start.
    pub injection_times: Vec<u64>,
    /// Total test duration in seconds.
    pub duration: Option<u64>,
}

impl Clone for InjectionSchedule {
    fn clone(&self) -> (r: Self)
        ensures
            r.injection_times@ == self.injection_times@,
            r.duration == self.duration,
    {
        InjectionSchedule { injection_times: self.injection_times.clone(), duration: self.duration }
    }
}

impl InjectionSchedule {
    /// An empty schedule.
    pub fn new() -> (s: Self)
        ensures
            s.injection_times@ == Seq::<u64>::empty(),
            s.duration is None,
    {
        InjectionSchedule { injection_times: Vec::new(), duration: None }
    }

    /// Adds an injection time.
    pub fn add(&mut self, time_ms: u64)
        ensures
            final(self).injection_times@ == old(self).injection_times@.push(time_ms),
            final(self).duration == old(self).duration,
    {
        self.injection_times.push(time_ms);
    }

    /// Puts the injection times in non-decreasing order.
    pub fn sort(&mut self)
        ensures
            sorted(final(self).injection_times@),
            final(self).injection_times@.to_multiset() == old(self).injection_times@.to_multiset(),
            final(self).duration == old(self).duration,
    {
        let mut times: Vec<u64> = Vec::new();
        std::mem::swap(&mut times, &mut self.injection_times);
        let sorted_times = sort_times(times);
        self.injection_times = sorted_times;
    }

    /// Number of users to inject.
    pub fn total_users(&self) -> (r: usize)
        ensures
            r == self.injection_times@.len(),
    {
        self.injection_times.len()
    }
}

impl Default for InjectionSchedule {
    fn default() -> (s: Self)
        ensures
            s.injection_times@ == Seq::<u64>::empty(),
            s.duration is None,
    {
        Self::new()
    }
}

/// `v` in non-decreasing order (a stable insertion sort, linear on input
/// that is already in order).
pub fn sort_times(v: Vec<u64>) -> (r: Vec<u64>)
    ensures
        sorted(r@),
        r@.to_multiset() == v@.to_multiset(),
{
    broadcast use vstd::seq_lib::group_to_multiset_ensures;

    let mut out: Vec<u64> = Vec::new();
    let mut i: usize = 0;
    while i < v.len()
        invariant
            i <= v.len(),
            sorted(out@),
            out@.to_multiset() == v@.take(i as int).to_multiset(),
        decreases v.len() - i,
    {
        let x = v[i];
        let mut p = out.len();
        while p > 0 && out[p - 1] > x
            invariant
                p <= out.len(),
                sorted(out@),
                forall|j: int| p <= j < out.len() ==> out@[j] > x,
            decreases p,
        {
            p -= 1;
        }
        let ghost before = out@;
        out.insert(p, x);
        proof {
            assert(out@ == before.insert(p as int, x));
            assert forall|a: int, b: int| 0 <= a <= b < out@.len() implies out@[a] <= out@[b] by {
                if a < p as int && b > p as int {
                    assert(out@[a] == before[a]);
                    assert(out@[b] == before[b - 1]);
                } else if a < p as int && b == p as int {
                    assert(out@[a] == before[a]);
                    assert(before[a] <= before[p - 1]);
                } else if a == p as int && b > p as int {
                    assert(out@[b] == before[b - 1]);
                } else if a > p as int {
                    assert(out@[a] == before[a - 1]);
                    assert(out@[b] == before[b - 1]);
                } else if b < p as int {
                    assert(out@[a] == before[a]);
                    assert(out@[b] == before[b]);
                }
            }
            assert(v@.take(i + 1) == v@.take(i as int).push(x));
            vstd::seq_lib::to_multiset_insert(before, p as int, x);
            vstd::seq_lib::to_multiset_build(v@.take(i as int), x);
            assert(v@.take(i as int).push(x).to_multiset() == v@.take(i as int).to_multiset().insert(
                x,
            ));
        }
        i += 1;
    }
    proof {
        assert(v@.take(v.len() as int) == v@);
    }
    out
}

proof fn lemma_spread_bound(i: nat, users: nat, total_ms: nat)
    requires
        i < users,
    ensures
        i * spread_interval(users, total_ms) <= total_ms,
{
    if users > 1 {
        let q = total_ms / ((users - 1) as nat);
        assert(i * q <= (users - 1) as nat * q) by (nonlinear_arith)
            requires
                i <= (users - 1) as nat,
        ;
        assert((users - 1) as nat * q <= total_ms) by (nonlinear_arith)
            requires
                q == total_ms / ((users - 1) as nat),
                users > 1,
        ;
    }
}

proof fn lemma_spread_monotone(i: nat, j: nat, q: nat)
    requires
        i <= j,
    ensures
        i * q <= j * q,
{
    assert(i * q <= j * q) by (nonlinear_arith)
        requires
            i <= j,
    ;
}

/// `users` users spread evenly over `total_ms` milliseconds.
fn spread_times(users: usize, total_ms: u64) -> (r: Vec<u64>)
    ensures
        r@ == even_spread(users as nat, total_ms as nat),
        forall|i: int| 0 <= i < r@.len() ==> r@[i] <= total_ms,
{
    let interval: u64 = if users > 1 {
        total_ms / (users - 1) as u64
    } else {
        0
    };
    let mut times: Vec<u64> = Vec::new();
    let mut i: usize = 0;
    while i < users
        invariant
            i <= users,
            interval == spread_interval(users as nat, total_ms as nat),
            times@ == even_spread(users as nat, total_ms as nat).take(i as int),
            forall|j: int| 0 <= j < times@.len() ==> times@[j] <= total_ms,
        decreases users - i,
    {
        proof {
            lemma_spread_bound(i as nat, users as nat, total_ms as nat);
        }
        let t = i as u64 * interval;
        times.push(t);
        proof {
            assert(times@ =~= even_spread(users as nat, total_ms as nat).take(i + 1));
        }
        i += 1;
    }
    proof {
        assert(times@ =~= even_spread(users as nat, total_ms as nat));
    }
    times
}

/// Even spreads are in order.
pub proof fn law_even_spread_sorted(users: nat, total_ms: nat)
    requires
        total_ms <= u64::MAX,
    ensures
        sorted(even_spread(users, total_ms)),
        forall|i: int|
            0 <= i < users ==> #[trigger] even_spread(users, total_ms)[i] <= total_ms,
        users > 0 ==> even_spread(users, total_ms)[0] == 0,
{
    let s = even_spread(users, total_ms);
    let q = spread_interval(users, total_ms);
    assert forall|i: int| 0 <= i < users implies #[trigger] s[i] <= total_ms by {
        lemma_spread_bound(i as nat, users, total_ms);
    }
    assert forall|i: int, j: int| 0 <= i <= j < s.len() implies s[i] <= s[j] by {
        lemma_spread_monotone(i as nat, j as nat, q);
        lemma_spread_bound(j as nat, users, total_ms);
    }
}

/// Once the injector is started, a user is let in at its scheduled time:
/// the wait planned `e1` milliseconds after the start ends exactly at the
/// user's scheduled time while that is still ahead, and is nothing once it
/// has passed; planned later, at `e2`, the wait is shorter by at most the
/// time that passed in between.  Before the start there is no wait.
pub proof fn law_wait_ends_at_scheduled_time(inj: UserInjector, c: usize, e1: u64, e2: u64)
    requires
        c < inj.schedule.injection_times@.len(),
        e1 <= e2,
    ensures
        inj.planned(c, e1) matches Some(n1) && inj.planned(c, e2) matches Some(n2) && n1.user_id
            == c + 1 && n1.injection_time_ms == inj.schedule.injection_times@[c as int] && (
        inj.start_time is Some && e1 < n1.injection_time_ms ==> e1 + n1.delay_ms
            == n1.injection_time_ms) && (e1 >= n1.injection_time_ms ==> n1.delay_ms == 0) && (
        inj.start_time is None ==> n1.delay_ms == 0) && n2.delay_ms <= n1.delay_ms && n1.delay_ms
            - n2.delay_ms <= e2 - e1,
{
    assert(inj.schedule.injection_times@.len() == inj.schedule.injection_times.len());
}

/// All users at once, at time 0; the test runs until every user is done.
pub fn build_at_once_schedule(users: usize) -> (s: InjectionSchedule)
    ensures
        s.injection_times@ == Seq::new(users as nat, |i: int| 0u64),
        s.duration is None,
{
    let mut schedule = InjectionSchedule::new();
    let mut i: usize = 0;
    while i < users
        invariant
            i <= users,
            schedule.injection_times@ == Seq::new(i as nat, |j: int| 0u64),
            schedule.duration is None,
        decreases users - i,
    {
        schedule.add(0);
        proof {
            assert(schedule.injection_times@ =~= Seq::new((i + 1) as nat, |j: int| 0u64));
        }
        i += 1;
    }
    schedule
}

/// A fixed number of users: spread evenly over the duration when there is
/// one, all at time 0 otherwise.
pub fn build_constant_schedule(users: usize, duration: Option<u64>) -> (s: InjectionSchedule)
    requires
        users > 0 ==> (duration matches Some(d) ==> d <= u64::MAX / 1000),
    ensures
        users == 0 ==> s.injection_times@ == Seq::<u64>::empty() && s.duration is None,
        users > 0 ==> s.duration == duration,
        users > 0 ==> match duration {
            Some(d) => s.injection_times@ == even_spread(users as nat, (d * 1000) as nat),
            None => s.injection_times@ == Seq::new(users as nat, |i: int| 0u64),
        },
{
    if users == 0 {
        return InjectionSchedule::new();
    }
    match duration {
        Some(dur_sec) => {
            let times = spread_times(users, dur_sec * 1000);
            InjectionSchedule { injection_times: times, duration }
        },
        None => {
            let at_once = build_at_once_schedule(users);
            InjectionSchedule { injection_times: at_once.injection_times, duration }
        },
    }
}

/// Users spread evenly from 0 to the end of the duration.
pub fn build_ramp_up_schedule(users: usize, duration: u64) -> (s: InjectionSchedule)
    requires
        users > 0 ==> duration <= u64::MAX / 1000,
    ensures
        users == 0 ==> s.injection_times@ == Seq::<u64>::empty() && s.duration is None,
        users > 0 ==> s.injection_times@ == even_spread(users as nat, (duration * 1000) as nat),
        users > 0 ==> s.duration == Some(duration),
{
    if users == 0 {
        return InjectionSchedule::new();
    }
    let times = spread_times(users, duration * 1000);
    InjectionSchedule { injection_times: times, duration: Some(duration) }
}

/// Users spread evenly over the ramp; the test then holds for
/// `hold_duration` more seconds.
pub fn build_heaviside_schedule(users: usize, ramp_duration: u64, hold_duration: u64) -> (s:
    InjectionSchedule)
    requires
        users > 0 ==> ramp_duration <= u64::MAX / 1000,
        users > 0 ==> ramp_duration + hold_duration <= u64::MAX,
    ensures
        users == 0 ==> s.injection_times@ == Seq::<u64>::empty() && s.duration is None,
        users > 0 ==> s.injection_times@ == even_spread(users as nat, (ramp_duration * 1000) as nat),
        users > 0 ==> s.duration == Some((ramp_duration + hold_duration) as u64),
{
    if users == 0 {
        return InjectionSchedule::new();
    }
    let times = spread_times(users, ramp_duration * 1000);
    InjectionSchedule { injection_times: times, duration: Some(ramp_duration + hold_duration) }
}

/// The injection of the next user: its ID, its scheduled time and how long
/// to wait before it.
pub struct NextUser {
    pub user_id: usize,
    pub injection_time_ms: u64,
    pub delay_ms: u64,
}

/// Starts virtual users according to a schedule.
pub struct UserInjector {
    pub schedule: InjectionSchedule,
    /// When the injector was started (on the monotonic clock).
    pub start_time: Option<std::time::Instant>,
}

impl UserInjector {
    /// An injector for `schedule`, not yet started.
    pub fn new(schedule: InjectionSchedule) -> (r: Self)
        ensures
            r.schedule == schedule,
            r.start_time is None,
    {
        UserInjector { schedule, start_time: None }
    }

    /// Starts the injector now.
    pub fn start(&mut self)
        ensures
            final(self).schedule == old(self).schedule,
            final(self).start_time is Some,
    {
        self.start_time = Some(instant_now());
    }

    /// The plan for user number `current_user` at `elapsed_ms` milliseconds
    /// after the start.
    pub open spec fn planned(self, current_user: usize, elapsed_ms: u64) -> Option<NextUser> {
        if current_user >= self.schedule.injection_times@.len() {
            None
        } else {
            let t = self.schedule.injection_times@[current_user as int];
            Some(
                NextUser {
                    user_id: (current_user + 1) as usize,
                    injection_time_ms: t,
                    delay_ms: if self.start_time is Some && t > elapsed_ms {
                        (t - elapsed_ms) as u64
                    } else {
                        0
                    },
                },
            )
        }
    }

    /// The injection of user number `current_user` (counting from 0) when
    /// `elapsed_ms` milliseconds have passed since the start: `None` once
    /// every user was injected; otherwise the wait is what remains until the
    /// user's scheduled time (none before the injector is started).
    pub fn plan_at(&self, current_user: usize, elapsed_ms: u64) -> (r: Option<NextUser>)
        ensures
            r == self.planned(current_user, elapsed_ms),
            current_user >= self.schedule.injection_times@.len() <==> r is None,
            r matches Some(n) ==> {
                let t = self.schedule.injection_times@[current_user as int];
                &&& n.user_id == current_user + 1
                &&& n.injection_time_ms == t
                &&& n.delay_ms == if self.start_time is Some && t > elapsed_ms {
                    t - elapsed_ms
                } else {
                    0
                }
            },
    {
        if current_user >= self.schedule.total_users() {
            return None;
        }
        let t = self.schedule.injection_times[current_user];
        let delay = if self.start_time.is_some() && t > elapsed_ms {
            t - elapsed_ms
        } else {
            0
        };
        Some(NextUser { user_id: current_user + 1, injection_time_ms: t, delay_ms: delay })
    }

    /// The injection of user number `current_user` (counting from 0) as of
    /// now: the plan of `plan_at` for the milliseconds that the monotonic
    /// clock reads since the start (0 before the start).  The wait never
    /// exceeds the user's scheduled time; which reading the clock gave is
    /// not stated, so the contract holds of every reading.
    pub fn next_user(&self, current_user: usize) -> (r: Option<NextUser>)
        ensures
            current_user >= self.schedule.injection_times@.len() <==> r is None,
            r matches Some(n) ==> {
                &&& n.user_id == current_user + 1
                &&& n.injection_time_ms == self.schedule.injection_times@[current_user as int]
                &&& n.delay_ms <= n.injection_time_ms
                &&& self.start_time is None ==> n.delay_ms == 0
            },
            exists|elapsed_ms: u64| r == #[trigger] self.planned(current_user, elapsed_ms),
    {
        let elapsed: u64 = match &self.start_time {
            Some(start) => millis_since(start) as u64,
            None => 0,
        };
        self.plan_at(current_user, elapsed)
    }

    /// Number of users to inject.
    pub fn total_users(&self) -> (r: usize)
        ensures
            r == self.schedule.injection_times@.len(),
    {
        self.schedule.total_users()
    }

    /// Test duration in seconds.
    pub fn duration(&self) -> (r: Option<u64>)
        ensures
            r == self.schedule.duration,
    {
        self.schedule.duration
    }
}

} // verus!
