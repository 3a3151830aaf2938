//! The monitor registry and scheduler.
//!
//! The scheduler owns one recurring job per monitor. Time is a count of
//! milliseconds that the caller reads from a clock of its choice; the
//! scheduler only compares and stores such counts. On every tick the caller
//! asks which jobs are due, runs their checks in the order given, and hands
//! over the monitors that were registered since the last tick.

use crate::types::{Monitor, MonitorView};
use vstd::prelude::*;

verus! {

/// The number of milliseconds in a minute.
pub const MILLIS_PER_MINUTE: u64 = 60_000;

/// The number of milliseconds between two ticks of the scheduler loop.
pub const TICK_MILLIS: u64 = 1_000;

/// A recurring check: a monitor and the moment from which its next
/// interval counts.
#[derive(Debug)]
pub struct Job {
    /// The monitor to check.
    pub monitor: Monitor,
    /// When the job last ran or, before its first run, when it was
    /// scheduled.
    pub last_run: u64,
}

/// What a [`Job`] holds.
pub struct JobView {
    pub monitor: MonitorView,
    pub last_run: u64,
}

impl View for Job {
    type V = JobView;

    open spec fn view(&self) -> JobView {
        JobView { monitor: self.monitor@, last_run: self.last_run }
    }
}

impl JobView {
    /// The time between two runs.
    pub open spec fn interval(self) -> int {
        self.monitor.frequency_min * MILLIS_PER_MINUTE
    }

    /// The moment at which the job becomes due.
    pub open spec fn due_at(self) -> int {
        self.last_run + self.interval()
    }

    /// Whether a full interval has passed at `now`.
    pub open spec fn pending(self, now: u64) -> bool {
        self.due_at() <= now
    }

    /// The job after a tick at `now`: a due job has run, another is as it
    /// was.
    pub open spec fn after_tick(self, now: u64) -> JobView {
        if self.pending(now) {
            JobView { monitor: self.monitor, last_run: now }
        } else {
            self
        }
    }
}

impl Job {
    /// The moment at which the job becomes due.
    pub fn due_at(&self) -> (at: u128)
        ensures
            at == self@.due_at(),
    {
        let minutes: u128 = self.monitor.frequency_min as u128;
        assert(minutes * MILLIS_PER_MINUTE <= 65_535 * 60_000) by (nonlinear_arith)
            requires
                minutes <= 65_535,
                MILLIS_PER_MINUTE == 60_000,
        ;
        (self.last_run as u128) + minutes * (MILLIS_PER_MINUTE as u128)
    }

    /// Whether a full interval has passed at `now`.
    pub fn is_pending(&self, now: u64) -> (due: bool)
        ensures
            due == self@.pending(now),
    {
        self.due_at() <= now as u128
    }
}

/// The jobs that a list of jobs holds.
pub open spec fn job_views(jobs: Seq<Job>) -> Seq<JobView> {
    jobs.map_values(|j: Job| j@)
}

/// The monitors that a list of monitors holds.
pub open spec fn monitor_views(monitors: Seq<Monitor>) -> Seq<MonitorView> {
    monitors.map_values(|m: Monitor| m@)
}

/// The jobs that are scheduled at `now` for `monitors`, one each, in order.
pub open spec fn seeded(monitors: Seq<MonitorView>, now: u64) -> Seq<JobView> {
    monitors.map_values(|m: MonitorView| JobView { monitor: m, last_run: now })
}

/// `order` with the job `i` put behind every job that is due no later.
pub open spec fn enqueue(jobs: Seq<JobView>, order: Seq<int>, i: int) -> Seq<int>
    decreases order.len(),
{
    if order.len() == 0 || jobs[order.last()].due_at() <= jobs[i].due_at() {
        order.push(i)
    } else {
        enqueue(jobs, order.drop_last(), i).push(order.last())
    }
}

/// The positions of the jobs among the first `n` that are due at `now`, in
/// the order in which they run.
pub open spec fn run_order_of(jobs: Seq<JobView>, now: u64, n: nat) -> Seq<int>
    decreases n,
{
    if n == 0 {
        Seq::empty()
    } else {
        let earlier = run_order_of(jobs, now, (n - 1) as nat);
        if jobs[n - 1].pending(now) {
            enqueue(jobs, earlier, n - 1)
        } else {
            earlier
        }
    }
}

/// The positions of the jobs that are due at `now`, in the order in which
/// they run: by the moment they became due, and by position among jobs that
/// became due together.
pub open spec fn run_order(jobs: Seq<JobView>, now: u64) -> Seq<int> {
    run_order_of(jobs, now, jobs.len())
}

/// Whether the job at `i` runs before the job at `j`.
pub open spec fn runs_before(jobs: Seq<JobView>, i: int, j: int) -> bool {
    jobs[i].due_at() < jobs[j].due_at() || (jobs[i].due_at() == jobs[j].due_at() && i < j)
}

/// The jobs after a tick at `now`.
pub open spec fn after_tick(jobs: Seq<JobView>, now: u64) -> Seq<JobView> {
    jobs.map_values(|j: JobView| j.after_tick(now))
}

/// The monitors of the jobs at `order`.
pub open spec fn monitors_at(jobs: Seq<JobView>, order: Seq<int>) -> Seq<MonitorView> {
    order.map_values(|i: int| jobs[i].monitor)
}

/// The positions that a list of indices holds.
pub open spec fn positions(order: Seq<usize>) -> Seq<int> {
    order.map_values(|i: usize| i as int)
}

/// Putting a job behind every job that is due no later keeps the order
/// sorted, and adds that job and no other.
proof fn lemma_enqueue(jobs: Seq<JobView>, order: Seq<int>, i: int)
    requires
        forall|k: int| 0 <= k < order.len() ==> 0 <= #[trigger] order[k] < i,
        forall|k: int, l: int|
            0 <= k < l < order.len() ==> runs_before(
                jobs,
                #[trigger] order[k],
                #[trigger] order[l],
            ),
    ensures
        enqueue(jobs, order, i).len() == order.len() + 1,
        forall|x: int| #[trigger]
            enqueue(jobs, order, i).contains(x) <==> (order.contains(x) || x == i),
        forall|k: int, l: int|
            0 <= k < l < enqueue(jobs, order, i).len() ==> runs_before(
                jobs,
                #[trigger] enqueue(jobs, order, i)[k],
                #[trigger] enqueue(jobs, order, i)[l],
            ),
    decreases order.len(),
{
    let r = enqueue(jobs, order, i);
    if order.len() == 0 || jobs[order.last()].due_at() <= jobs[i].due_at() {
        assert(r == order.push(i));
        assert forall|x: int| #[trigger] r.contains(x) <==> (order.contains(x) || x == i) by {
            if order.contains(x) {
                let k = choose|k: int| 0 <= k < order.len() && order[k] == x;
                assert(r[k] == x);
            }
            if x == i {
                assert(r[order.len() as int] == x);
            }
        }
        assert forall|k: int, l: int| 0 <= k < l < r.len() implies runs_before(
            jobs,
            #[trigger] r[k],
            #[trigger] r[l],
        ) by {
            if l == order.len() {
                if k < order.len() - 1 {
                    assert(runs_before(jobs, order[k], order[order.len() - 1]));
                }
            }
        }
    } else {
        let front = order.drop_last();
        let last = order.last();
        lemma_enqueue(jobs, front, i);
        let inner = enqueue(jobs, front, i);
        assert(r == inner.push(last));
        assert forall|x: int| #[trigger] r.contains(x) <==> (order.contains(x) || x == i) by {
            if r.contains(x) {
                let k = choose|k: int| 0 <= k < r.len() && r[k] == x;
                if k < inner.len() {
                    assert(inner.contains(x));
                    if x != i {
                        let m = choose|m: int| 0 <= m < front.len() && front[m] == x;
                        assert(order[m] == x);
                    }
                } else {
                    assert(order[order.len() - 1] == x);
                }
            }
            if order.contains(x) {
                let k = choose|k: int| 0 <= k < order.len() && order[k] == x;
                if k < front.len() {
                    assert(front[k] == x);
                    assert(inner.contains(x));
                    let m = choose|m: int| 0 <= m < inner.len() && inner[m] == x;
                    assert(r[m] == x);
                } else {
                    assert(r[inner.len() as int] == x);
                }
            }
            if x == i {
                assert(inner.contains(x));
                let m = choose|m: int| 0 <= m < inner.len() && inner[m] == x;
                assert(r[m] == x);
            }
        }
        assert forall|k: int, l: int| 0 <= k < l < r.len() implies runs_before(
            jobs,
            #[trigger] r[k],
            #[trigger] r[l],
        ) by {
            if l == inner.len() {
                assert(inner.contains(inner[k]));
                if inner[k] != i {
                    let m = choose|m: int| 0 <= m < front.len() && front[m] == inner[k];
                    assert(runs_before(jobs, order[m], order[order.len() - 1]));
                }
            } else {
                assert(runs_before(jobs, inner[k], inner[l]));
            }
        }
    }
}

/// What holds of the run order of the first `n` jobs.
proof fn lemma_run_order_of(jobs: Seq<JobView>, now: u64, n: nat)
    requires
        n <= jobs.len(),
    ensures
        forall|k: int|
            0 <= k < run_order_of(jobs, now, n).len() ==> 0 <= #[trigger] run_order_of(
                jobs,
                now,
                n,
            )[k] < n && jobs[run_order_of(jobs, now, n)[k]].pending(now),
        forall|i: int|
            0 <= i < n && jobs[i].pending(now) ==> #[trigger] run_order_of(jobs, now, n).contains(
                i,
            ),
        forall|k: int, l: int|
            0 <= k < l < run_order_of(jobs, now, n).len() ==> runs_before(
                jobs,
                #[trigger] run_order_of(jobs, now, n)[k],
                #[trigger] run_order_of(jobs, now, n)[l],
            ),
    decreases n,
{
    if n > 0 {
        let earlier = run_order_of(jobs, now, (n - 1) as nat);
        lemma_run_order_of(jobs, now, (n - 1) as nat);
        if jobs[n - 1].pending(now) {
            lemma_enqueue(jobs, earlier, n - 1);
            let order = run_order_of(jobs, now, n);
            assert(order == enqueue(jobs, earlier, n - 1));
            assert forall|k: int| 0 <= k < order.len() implies 0 <= #[trigger] order[k] < n
                && jobs[order[k]].pending(now) by {
                assert(order.contains(order[k]));
                if order[k] != n - 1 {
                    let m = choose|m: int| 0 <= m < earlier.len() && earlier[m] == order[k];
                }
            }
            assert forall|i: int| 0 <= i < n && jobs[i].pending(now) implies #[trigger]
                order.contains(i) by {
                if i < n - 1 {
                    assert(earlier.contains(i));
                }
            }
        }
    }
}

/// Whether `order` lists the positions of exactly the jobs that are due at
/// `now`, each once, the job that became due earlier first and, of two that
/// became due together, the one that was scheduled earlier.
pub open spec fn is_run_order(jobs: Seq<JobView>, now: u64, order: Seq<int>) -> bool {
    &&& forall|k: int|
        0 <= k < order.len() ==> 0 <= #[trigger] order[k] < jobs.len() && jobs[order[k]].pending(
            now,
        )
    &&& forall|i: int| 0 <= i < jobs.len() && jobs[i].pending(now) ==> #[trigger] order.contains(i)
    &&& forall|k: int, l: int|
        0 <= k < l < order.len() ==> runs_before(jobs, #[trigger] order[k], #[trigger] order[l])
}

/// The jobs run at a tick in a run order.
pub proof fn lemma_run_order(jobs: Seq<JobView>, now: u64)
    ensures
        is_run_order(jobs, now, run_order(jobs, now)),
{
    lemma_run_order_of(jobs, now, jobs.len());
}

/// Two lists that hold the same positions, each sorted by the order in
/// which jobs run, are one list.
proof fn lemma_sorted_alike(jobs: Seq<JobView>, a: Seq<int>, b: Seq<int>)
    requires
        forall|k: int, l: int|
            0 <= k < l < a.len() ==> runs_before(jobs, #[trigger] a[k], #[trigger] a[l]),
        forall|k: int, l: int|
            0 <= k < l < b.len() ==> runs_before(jobs, #[trigger] b[k], #[trigger] b[l]),
        forall|x: int| a.contains(x) <==> b.contains(x),
    ensures
        a == b,
    decreases a.len(),
{
    if a.len() == 0 {
        if b.len() > 0 {
            assert(b.contains(b[0]));
        }
        assert(a =~= b);
    } else if b.len() == 0 {
        assert(a.contains(a[0]));
    } else {
        let top = a.len() - 1;
        assert(a.contains(a[top]));
        let j = choose|j: int| 0 <= j < b.len() && b[j] == a[top];
        assert(b.contains(b[b.len() - 1]));
        let i = choose|i: int| 0 <= i < a.len() && a[i] == b[b.len() - 1];
        if j < b.len() - 1 {
            assert(runs_before(jobs, b[j], b[b.len() - 1]));
            if i < top {
                assert(runs_before(jobs, a[i], a[top]));
            }
        }
        assert(a[top] == b[b.len() - 1]);
        let front_a = a.drop_last();
        let front_b = b.drop_last();
        assert forall|x: int| front_a.contains(x) <==> front_b.contains(x) by {
            if front_a.contains(x) {
                let k = choose|k: int| 0 <= k < front_a.len() && front_a[k] == x;
                assert(runs_before(jobs, a[k], a[top]));
                assert(a.contains(x));
                let m = choose|m: int| 0 <= m < b.len() && b[m] == x;
                assert(front_b[m] == x);
            }
            if front_b.contains(x) {
                let k = choose|k: int| 0 <= k < front_b.len() && front_b[k] == x;
                assert(runs_before(jobs, b[k], b[b.len() - 1]));
                assert(b.contains(x));
                let m = choose|m: int| 0 <= m < a.len() && a[m] == x;
                assert(front_a[m] == x);
            }
        }
        assert forall|k: int, l: int| 0 <= k < l < front_a.len() implies runs_before(
            jobs,
            #[trigger] front_a[k],
            #[trigger] front_a[l],
        ) by {
            assert(runs_before(jobs, a[k], a[l]));
        }
        assert forall|k: int, l: int| 0 <= k < l < front_b.len() implies runs_before(
            jobs,
            #[trigger] front_b[k],
            #[trigger] front_b[l],
        ) by {
            assert(runs_before(jobs, b[k], b[l]));
        }
        lemma_sorted_alike(jobs, front_a, front_b);
        assert(a =~= front_a.push(a[top]));
        assert(b =~= front_b.push(b[b.len() - 1]));
    }
}

/// There is one run order only: what [`is_run_order`] asks decides the
/// order in which the jobs run.
pub proof fn lemma_run_order_is_unique(jobs: Seq<JobView>, now: u64, order: Seq<int>)
    requires
        is_run_order(jobs, now, order),
    ensures
        order == run_order(jobs, now),
{
    let run = run_order(jobs, now);
    lemma_run_order(jobs, now);
    assert forall|x: int| order.contains(x) <==> run.contains(x) by {
        if order.contains(x) {
            let k = choose|k: int| 0 <= k < order.len() && order[k] == x;
            assert(run.contains(x));
        }
        if run.contains(x) {
            let k = choose|k: int| 0 <= k < run.len() && run[k] == x;
            assert(order.contains(x));
        }
    }
    lemma_sorted_alike(jobs, order, run);
}

/// A job that is scheduled at `scheduled_at` does not run at a tick before
/// a full interval of its monitor has passed since then.
pub proof fn lemma_first_run_waits_full_interval(
    jobs: Seq<JobView>,
    monitor: MonitorView,
    scheduled_at: u64,
    now: u64,
)
    requires
        now < scheduled_at + monitor.frequency_min * MILLIS_PER_MINUTE,
    ensures
        !run_order(jobs.push(JobView { monitor, last_run: scheduled_at }), now).contains(
            jobs.len() as int,
        ),
{
    let all = jobs.push(JobView { monitor, last_run: scheduled_at });
    lemma_run_order(all, now);
    let order = run_order(all, now);
    if order.contains(jobs.len() as int) {
        let k = choose|k: int| 0 <= k < order.len() && order[k] == jobs.len();
        assert(all[order[k]].pending(now));
    }
}

proof fn lemma_enqueue_at(jobs: Seq<JobView>, order: Seq<int>, i: int, at: int)
    requires
        0 <= at <= order.len(),
        forall|k: int|
            at <= k < order.len() ==> jobs[#[trigger] order[k]].due_at() > jobs[i].due_at(),
        at == 0 || jobs[order[at - 1]].due_at() <= jobs[i].due_at(),
    ensures
        enqueue(jobs, order, i) == order.insert(at, i),
    decreases order.len(),
{
    if order.len() == 0 || at == order.len() {
        assert(order.push(i) =~= order.insert(at, i));
    } else {
        assert(jobs[order[order.len() - 1]].due_at() > jobs[i].due_at());
        lemma_enqueue_at(jobs, order.drop_last(), i, at);
        assert(order.drop_last().insert(at, i).push(order.last()) =~= order.insert(at, i));
    }
}

/// The intake of the scheduler: the monitors that were registered and not
/// yet scheduled, in order of arrival.
#[derive(Debug)]
pub struct Channel {
    waiting: Vec<Monitor>,
}

impl View for Channel {
    type V = Seq<MonitorView>;

    closed spec fn view(&self) -> Seq<MonitorView> {
        monitor_views(self.waiting@)
    }
}

impl Channel {
    /// An intake that holds nothing.
    pub fn new() -> (channel: Channel)
        ensures
            channel@ == Seq::<MonitorView>::empty(),
    {
        let channel = Channel { waiting: Vec::new() };
        assert(channel@ =~= Seq::<MonitorView>::empty());
        channel
    }

    /// Registers `monitor` for scheduling at the next tick.
    pub fn send(&mut self, monitor: Monitor)
        ensures
            final(self)@ == old(self)@.push(monitor@),
    {
        self.waiting.push(monitor);
        assert(self@ =~= old(self)@.push(monitor@));
    }

    /// Takes out what has arrived, in order of arrival.
    pub fn drain(&mut self) -> (arrivals: Vec<Monitor>)
        ensures
            monitor_views(arrivals@) == old(self)@,
            final(self)@ == Seq::<MonitorView>::empty(),
    {
        let mut arrivals: Vec<Monitor> = Vec::new();
        core::mem::swap(&mut arrivals, &mut self.waiting);
        assert(self@ =~= Seq::<MonitorView>::empty());
        arrivals
    }
}

/// The set of recurring jobs.
#[derive(Debug)]
pub struct Scheduler {
    jobs: Vec<Job>,
}

impl View for Scheduler {
    type V = Seq<JobView>;

    closed spec fn view(&self) -> Seq<JobView> {
        job_views(self.jobs@)
    }
}

impl Scheduler {
    /// A scheduler without jobs.
    pub fn new() -> (scheduler: Scheduler)
        ensures
            scheduler@ == Seq::<JobView>::empty(),
    {
        let scheduler = Scheduler { jobs: Vec::new() };
        assert(scheduler@ =~= Seq::<JobView>::empty());
        scheduler
    }

    /// The number of jobs.
    pub fn len(&self) -> (n: usize)
        ensures
            n == self@.len(),
    {
        self.jobs.len()
    }

    /// The job at position `i`.
    pub fn job(&self, i: usize) -> (job: &Job)
        requires
            i < self@.len(),
        ensures
            job@ == self@[i as int],
    {
        &self.jobs[i]
    }

    /// The positions of the jobs that are due at `now`, in the order in
    /// which they run.
    pub fn pending_order(&self, now: u64) -> (order: Vec<usize>)
        ensures
            positions(order@) == run_order(self@, now),
    {
        let mut order: Vec<usize> = Vec::new();
        let mut i: usize = 0;
        assert(positions(order@) =~= run_order_of(self@, now, 0));
        while i < self.jobs.len()
            invariant
                i <= self.jobs.len(),
                positions(order@) == run_order_of(self@, now, i as nat),
                forall|k: int| 0 <= k < order.len() ==> #[trigger] order[k] < i,
            decreases self.jobs.len() - i,
        {
            if self.jobs[i].is_pending(now) {
                let target = self.jobs[i].due_at();
                let mut at: usize = order.len();
                while at > 0 && self.jobs[order[at - 1]].due_at() > target
                    invariant
                        at <= order.len(),
                        i < self.jobs.len(),
                        target == self@[i as int].due_at(),
                        forall|k: int| 0 <= k < order.len() ==> #[trigger] order[k] < i,
                        forall|k: int|
                            at <= k < order.len() ==> self@[#[trigger] order[k] as int].due_at()
                                > target,
                    decreases at,
                {
                    at = at - 1;
                }
                proof {
                    let before = positions(order@);
                    assert forall|k: int| at <= k < before.len() implies self@[#[trigger]
                        before[k]].due_at() > self@[i as int].due_at() by {
                        assert(before[k] == order[k] as int);
                    }
                    lemma_enqueue_at(self@, before, i as int, at as int);
                    assert(positions(order@.insert(at as int, i)) =~= before.insert(
                        at as int,
                        i as int,
                    ));
                }
                order.insert(at, i);
            }
            i = i + 1;
        }
        order
    }

    /// Says which checks are due at `now` and counts their next interval
    /// from `now`. The monitors come in the order in which their checks are
    /// to run.
    pub fn run_pending(&mut self, now: u64) -> (due: Vec<Monitor>)
        ensures
            final(self)@ == after_tick(old(self)@, now),
            monitor_views(due@) == monitors_at(old(self)@, run_order(old(self)@, now)),
    {
        let order = self.pending_order(now);
        proof {
            lemma_run_order(self@, now);
        }
        let mut due: Vec<Monitor> = Vec::new();
        let mut k: usize = 0;
        while k < order.len()
            invariant
                k <= order.len(),
                positions(order@) == run_order(self@, now),
                is_run_order(self@, now, run_order(self@, now)),
                monitor_views(due@) == monitors_at(self@, run_order(self@, now).take(k as int)),
            decreases order.len() - k,
        {
            assert(positions(order@)[k as int] == order[k as int]);
            let copy = self.jobs[order[k]].monitor.duplicate();
            proof {
                let all = run_order(self@, now);
                assert(all[k as int] == order[k as int] as int);
                assert(copy@ == self@[all[k as int]].monitor);
                assert(all.take(k + 1) =~= all.take(k as int).push(all[k as int]));
                assert(monitors_at(self@, all.take(k + 1)) =~= monitors_at(
                    self@,
                    all.take(k as int),
                ).push(copy@));
                assert(monitor_views(due@.push(copy)) =~= monitor_views(due@).push(copy@));
            }
            due.push(copy);
            k = k + 1;
        }
        assert(run_order(self@, now).take(k as int) =~= run_order(self@, now));
        let mut i: usize = 0;
        while i < self.jobs.len()
            invariant
                i <= self.jobs.len(),
                self.jobs@.len() == old(self).jobs@.len(),
                forall|j: int| 0 <= j < i ==> self.jobs@[j]@ == old(self).jobs@[j]@.after_tick(now),
                forall|j: int| i <= j < self.jobs@.len() ==> self.jobs@[j] == old(self).jobs@[j],
            decreases self.jobs.len() - i,
        {
            if self.jobs[i].is_pending(now) {
                self.jobs[i].last_run = now;
            }
            i = i + 1;
        }
        assert(self@ =~= after_tick(old(self)@, now));
        due
    }
}

/// Adds a recurring job for `monitor`. Its first interval counts from
/// `now`: the first check is due one full interval later.
pub fn schedule_monitoring(monitor: Monitor, scheduler: &mut Scheduler, now: u64)
    ensures
        final(scheduler)@ == old(scheduler)@.push(JobView { monitor: monitor@, last_run: now }),
{
    scheduler.jobs.push(Job { monitor, last_run: now });
    assert(scheduler@ =~= old(scheduler)@.push(JobView { monitor: monitor@, last_run: now }));
}

/// Adds a recurring job for each of `monitors`, in order.
pub fn schedule_all(monitors: Vec<Monitor>, scheduler: &mut Scheduler, now: u64)
    ensures
        final(scheduler)@ == old(scheduler)@ + seeded(monitor_views(monitors@), now),
{
    let ghost all = monitors@;
    for monitor in it: monitors
        invariant
            it.seq() == all,
            scheduler@ == old(scheduler)@ + seeded(
                monitor_views(all.take(it.index() as int)),
                now,
            ),
    {
        proof {
            let n = it.index() as int;
            assert(all.take(n + 1) =~= all.take(n).push(monitor));
            assert(seeded(monitor_views(all.take(n + 1)), now) =~= seeded(
                monitor_views(all.take(n)),
                now,
            ).push(JobView { monitor: monitor@, last_run: now }));
        }
        schedule_monitoring(monitor, scheduler, now);
    }
    assert(all.take(all.len() as int) =~= all);
}

/// Starts a scheduler that holds one job for each monitor already known,
/// each with its first check due one full interval after `now`.
pub fn start(monitors: Vec<Monitor>, now: u64) -> (scheduler: Scheduler)
    ensures
        scheduler@ == seeded(monitor_views(monitors@), now),
{
    let mut scheduler = Scheduler::new();
    schedule_all(monitors, &mut scheduler, now);
    assert(scheduler@ =~= seeded(monitor_views(monitors@), now));
    scheduler
}

/// One tick of the scheduler loop at `now`: the checks that are due come
/// back in the order in which they are to run, and only then the monitors
/// that arrived since the last tick are scheduled, in order of arrival.
pub fn tick(scheduler: &mut Scheduler, now: u64, arrivals: Vec<Monitor>) -> (due: Vec<Monitor>)
    ensures
        final(scheduler)@ == after_tick(old(scheduler)@, now) + seeded(
            monitor_views(arrivals@),
            now,
        ),
        monitor_views(due@) == monitors_at(old(scheduler)@, run_order(old(scheduler)@, now)),
{
    let due = scheduler.run_pending(now);
    schedule_all(arrivals, scheduler, now);
    due
}

} // verus!
