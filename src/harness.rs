//! The contention harness: a ring of workers, each needing the two resources beside it.
//!
//! Worker `n` uses resources `n` and `n + 1`, the last one wrapping round to resource 0. Every
//! worker takes the lower-numbered of its two resources first; for the last worker that reverses
//! the ring's order, which is what keeps the ring from waiting on itself. Each cycle a worker
//! takes both resources, holds them for a pseudo-random time, releases them in reverse order and
//! idles for another pseudo-random time, and the times are added up in `Stats`.

use crate::NUM_PHIL;
use vstd::arithmetic::div_mod::lemma_mod_mod;
use vstd::prelude::*;

verus! {

/// The resources of worker `n`, in the order the worker takes them.
pub open spec fn fork_pair(n: int) -> (int, int) {
    if n == NUM_PHIL - 1 {
        (0, n)
    } else {
        (n, n + 1)
    }
}

/// The resources of worker `n`, in the order the worker takes them: its own and the next one,
/// except that the last worker takes resource 0 before its own.
pub fn forks(n: usize) -> (r: (usize, usize))
    requires
        n < NUM_PHIL,
    ensures
        (r.0 as int, r.1 as int) == fork_pair(n as int),
{
    if n == NUM_PHIL - 1 {
        (0, n)
    } else {
        (n, n + 1)
    }
}

/// Every worker uses the two resources beside it in the ring, and takes the lower-numbered one
/// first.
pub proof fn lemma_forks_in_ring(n: int)
    requires
        0 <= n < NUM_PHIL,
    ensures
        0 <= fork_pair(n).0 < fork_pair(n).1 < NUM_PHIL,
        (fork_pair(n).0 == n && fork_pair(n).1 == (n + 1) % (NUM_PHIL as int)) || (fork_pair(n).1
            == n && fork_pair(n).0 == (n + 1) % (NUM_PHIL as int)),
{
}

/// `ws` is a chain of blocked workers: each holds the first of its resources and waits for its
/// second, which the next worker in the chain holds as its own first.
pub open spec fn is_wait_chain(ws: Seq<int>) -> bool {
    &&& forall|j: int| 0 <= j < ws.len() ==> 0 <= #[trigger] ws[j] < NUM_PHIL
    &&& forall|j: int|
        0 <= j < ws.len() - 1 ==> #[trigger] fork_pair(ws[j]).1 == fork_pair(ws[j + 1]).0
}

/// Along a chain of blocked workers the first resource strictly grows, so the chain never comes
/// back to the worker it started from: the ring cannot deadlock.
pub proof fn lemma_no_circular_wait(ws: Seq<int>)
    requires
        is_wait_chain(ws),
        ws.len() >= 2,
    ensures
        fork_pair(ws[0]).0 < fork_pair(ws[ws.len() - 1]).0,
        ws[0] != ws[ws.len() - 1],
    decreases ws.len(),
{
    let last = ws.len() - 1;
    lemma_forks_in_ring(ws[last - 1]);
    assert(fork_pair(ws[last - 1]).1 == fork_pair(ws[last]).0);
    if ws.len() == 2 {
        lemma_forks_in_ring(ws[0]);
    } else {
        let front = ws.drop_last();
        assert(is_wait_chain(front)) by {
            assert forall|j: int| 0 <= j < front.len() - 1 implies #[trigger] fork_pair(front[j]).1
                == fork_pair(front[j + 1]).0 by {
                assert(front[j] == ws[j] && front[j + 1] == ws[j + 1]);
            }
        }
        lemma_no_circular_wait(front);
    }
}

/// The pseudo-random time, in milliseconds, of worker `id` at uptime `tick` (milliseconds): a
/// multiple of `period` between one and thirty-two periods.
pub open spec fn delay_of(id: int, period: int, tick: int) -> int {
    ((tick / 100) * (id + 1) % 32 + 1) * period
}

/// A pseudo-random time for worker `id`, in milliseconds, drawn from the uptime `tick` in
/// milliseconds.
pub fn get_random_delay(id: usize, period: u64, tick: u64) -> (r: u64)
    requires
        id < usize::MAX,
        period <= u64::MAX / 32,
    ensures
        r == delay_of(id as int, period as int, tick as int),
        period <= r <= 32 * period,
{
    let x: u64 = (tick / 100).wrapping_mul((id as u64) + 1);
    let d: u64 = x & 0x1f;
    assert(d == x % 32) by (bit_vector)
        requires
            d == x & 0x1f,
    ;
    proof {
        let p = (tick / 100) as int * (id as int + 1);
        assert(x == p % 18446744073709551616);
        lemma_mod_mod(p, 32, 576460752303423488);
        assert(32 * 576460752303423488 == 18446744073709551616);
    }
    assert(period <= (d + 1) * period <= 32 * period) by (nonlinear_arith)
        requires
            d < 32,
    ;
    (d + 1) * period
}

/// Where a worker stands in its cycle: the next thing it does.
#[derive(PartialEq, Eq, Structural, Clone, Copy, Debug)]
pub enum Phase {
    TakeFirst,
    TakeSecond,
    Eat,
    ReleaseSecond,
    ReleaseFirst,
    Think,
}

/// What a worker does next; the times are in milliseconds.
#[derive(PartialEq, Eq, Structural, Clone, Copy, Debug)]
pub enum Action {
    /// Take the resource, waiting until it is free.
    Take(usize),
    /// Hold both resources for the given time, then add it to the holding total.
    Eat(u64),
    /// Release the resource.
    Release(usize),
    /// Idle for the given time, then add it to the idle total, which ends the cycle.
    Think(u64),
}

/// The phase after `p`; the cycle starts over after `Think`.
pub open spec fn next_phase(p: Phase) -> Phase {
    match p {
        Phase::TakeFirst => Phase::TakeSecond,
        Phase::TakeSecond => Phase::Eat,
        Phase::Eat => Phase::ReleaseSecond,
        Phase::ReleaseSecond => Phase::ReleaseFirst,
        Phase::ReleaseFirst => Phase::Think,
        Phase::Think => Phase::TakeFirst,
    }
}

/// What worker `n` does in phase `p` at uptime `tick`, with delays in units of `period`.
pub open spec fn action_of(n: int, period: int, p: Phase, tick: int) -> Action {
    match p {
        Phase::TakeFirst => Action::Take(fork_pair(n).0 as usize),
        Phase::TakeSecond => Action::Take(fork_pair(n).1 as usize),
        Phase::Eat => Action::Eat(delay_of(n, period, tick) as u64),
        Phase::ReleaseSecond => Action::Release(fork_pair(n).1 as usize),
        Phase::ReleaseFirst => Action::Release(fork_pair(n).0 as usize),
        Phase::Think => Action::Think(delay_of(n, period, tick) as u64),
    }
}

/// The resources worker `n` holds when it is about to act in phase `p`.
pub open spec fn held_in(n: int, p: Phase) -> Set<int> {
    match p {
        Phase::TakeFirst | Phase::Think => Set::empty(),
        Phase::TakeSecond | Phase::ReleaseFirst => set![fork_pair(n).0],
        Phase::Eat | Phase::ReleaseSecond => set![fork_pair(n).0, fork_pair(n).1],
    }
}

/// One worker of the ring and its place in the cycle.
pub struct Worker {
    id: usize,
    period: u64,
    phase: Phase,
}

impl Worker {
    /// The worker's number.
    pub closed spec fn id_view(&self) -> int {
        self.id as int
    }

    /// The unit of the worker's delays, in milliseconds.
    pub closed spec fn period_view(&self) -> int {
        self.period as int
    }

    /// The worker's next phase.
    pub closed spec fn phase_view(&self) -> Phase {
        self.phase
    }

    /// The worker's number is in the ring and its delays cannot overflow.
    pub open spec fn wf(&self) -> bool {
        &&& self.id_view() < NUM_PHIL
        &&& self.period_view() <= u64::MAX / 32
    }

    /// Worker `id`, about to take its first resource, with delays in units of `period`
    /// milliseconds.
    pub fn new(id: usize, period: u64) -> (r: Worker)
        requires
            id < NUM_PHIL,
            period <= u64::MAX / 32,
        ensures
            r.wf(),
            r.id_view() == id,
            r.period_view() == period,
            r.phase_view() == Phase::TakeFirst,
    {
        Worker { id, period, phase: Phase::TakeFirst }
    }

    /// The worker's next phase.
    pub fn phase(&self) -> (r: Phase)
        ensures
            r == self.phase_view(),
    {
        self.phase
    }

    /// The worker's next action at uptime `tick` (milliseconds), after which it moves on to
    /// the following phase.
    pub fn next(&mut self, tick: u64) -> (r: Action)
        requires
            old(self).wf(),
        ensures
            final(self).wf(),
            final(self).id_view() == old(self).id_view(),
            final(self).period_view() == old(self).period_view(),
            final(self).phase_view() == next_phase(old(self).phase_view()),
            r == action_of(old(self).id_view(), old(self).period_view(), old(self).phase_view(), tick as int),
    {
        let (first, second) = forks(self.id);
        let (r, p) = match self.phase {
            Phase::TakeFirst => (Action::Take(first), Phase::TakeSecond),
            Phase::TakeSecond => (Action::Take(second), Phase::Eat),
            Phase::Eat => (Action::Eat(get_random_delay(self.id, self.period, tick)), Phase::ReleaseSecond),
            Phase::ReleaseSecond => (Action::Release(second), Phase::ReleaseFirst),
            Phase::ReleaseFirst => (Action::Release(first), Phase::Think),
            Phase::Think => (Action::Think(get_random_delay(self.id, self.period, tick)), Phase::TakeFirst),
        };
        self.phase = p;
        r
    }
}

/// One cycle of a worker: it takes its first resource and then its second, holds both while it
/// eats, releases them in the reverse order, idles with none held, and is back where it started.
pub proof fn lemma_worker_cycle(n: int, period: int, t: Seq<int>)
    requires
        0 <= n < NUM_PHIL,
        t.len() == 6,
    ensures
        ({
            let (f0, f1) = fork_pair(n);
            let second = next_phase(Phase::TakeFirst);
            let eat = next_phase(second);
            let put_second = next_phase(eat);
            let put_first = next_phase(put_second);
            let idle = next_phase(put_first);
            &&& action_of(n, period, Phase::TakeFirst, t[0]) == Action::Take(f0 as usize)
            &&& action_of(n, period, second, t[1]) == Action::Take(f1 as usize)
            &&& action_of(n, period, eat, t[2]) is Eat
            &&& held_in(n, eat) == set![f0, f1]
            &&& action_of(n, period, put_second, t[3]) == Action::Release(f1 as usize)
            &&& action_of(n, period, put_first, t[4]) == Action::Release(f0 as usize)
            &&& action_of(n, period, idle, t[5]) is Think
            &&& held_in(n, idle) == Set::<int>::empty()
            &&& next_phase(idle) == Phase::TakeFirst
        }),
{
}

/// The actions of worker `n` starting in phase `p`, one for each uptime of `ticks` in turn.
pub open spec fn worker_run(n: int, period: int, p: Phase, ticks: Seq<int>) -> Seq<Action>
    decreases ticks.len(),
{
    if ticks.len() == 0 {
        Seq::empty()
    } else {
        seq![action_of(n, period, p, ticks[0])].add(
            worker_run(n, period, next_phase(p), ticks.drop_first()),
        )
    }
}

/// How many times `a` occurs in `acts`.
pub open spec fn count_of(acts: Seq<Action>, a: Action) -> nat
    decreases acts.len(),
{
    if acts.len() == 0 {
        0
    } else {
        (if acts[0] == a {
            1nat
        } else {
            0nat
        }) + count_of(acts.drop_first(), a)
    }
}

/// Whether resource `r` is one of worker `n`'s two.
pub open spec fn uses(n: int, r: int) -> nat {
    if fork_pair(n).0 == r || fork_pair(n).1 == r {
        1
    } else {
        0
    }
}

proof fn lemma_run_one_cycle(n: int, period: int, ticks: Seq<int>, a: Action)
    requires
        0 <= n < NUM_PHIL,
        ticks.len() >= 6,
        a is Take || a is Release,
    ensures
        count_of(worker_run(n, period, Phase::TakeFirst, ticks), a) == (if a is Take {
            uses(n, a->Take_0 as int)
        } else {
            uses(n, a->Release_0 as int)
        }) + count_of(worker_run(n, period, Phase::TakeFirst, ticks.subrange(6, ticks.len() as int)), a),
{
    lemma_forks_in_ring(n);
    let t1 = ticks.drop_first();
    let t2 = t1.drop_first();
    let t3 = t2.drop_first();
    let t4 = t3.drop_first();
    let t5 = t4.drop_first();
    let t6 = t5.drop_first();
    assert(t6 =~= ticks.subrange(6, ticks.len() as int));
    let r0 = worker_run(n, period, Phase::TakeFirst, ticks);
    let r1 = worker_run(n, period, Phase::TakeSecond, t1);
    let r2 = worker_run(n, period, Phase::Eat, t2);
    let r3 = worker_run(n, period, Phase::ReleaseSecond, t3);
    let r4 = worker_run(n, period, Phase::ReleaseFirst, t4);
    let r5 = worker_run(n, period, Phase::Think, t5);
    let r6 = worker_run(n, period, Phase::TakeFirst, t6);
    assert(r0.drop_first() =~= r1);
    assert(r1.drop_first() =~= r2);
    assert(r2.drop_first() =~= r3);
    assert(r3.drop_first() =~= r4);
    assert(r4.drop_first() =~= r5);
    assert(r5.drop_first() =~= r6);
    let (f0, f1) = fork_pair(n);
    assert(r0[0] == Action::Take(f0 as usize));
    assert(r1[0] == Action::Take(f1 as usize));
    assert(r2[0] is Eat);
    assert(r3[0] == Action::Release(f1 as usize));
    assert(r4[0] == Action::Release(f0 as usize));
    assert(r5[0] is Think);
    assert(count_of(r0, a) == (if r0[0] == a { 1nat } else { 0nat }) + count_of(r1, a));
    assert(count_of(r1, a) == (if r1[0] == a { 1nat } else { 0nat }) + count_of(r2, a));
    assert(count_of(r2, a) == count_of(r3, a));
    assert(count_of(r3, a) == (if r3[0] == a { 1nat } else { 0nat }) + count_of(r4, a));
    assert(count_of(r4, a) == (if r4[0] == a { 1nat } else { 0nat }) + count_of(r5, a));
    assert(count_of(r5, a) == count_of(r6, a));
}

/// The workload does not depend on how the resources are synchronized: over `k` full cycles a
/// worker takes each of its two resources exactly `k` times and releases each exactly `k` times,
/// and takes or releases no other resource. A run in which every worker completes the same
/// number of cycles therefore takes and releases every resource equally often, whichever fork
/// synchronizer serves it.
pub proof fn lemma_takes_per_cycle(n: int, period: int, ticks: Seq<int>, k: nat, r: usize)
    requires
        0 <= n < NUM_PHIL,
        ticks.len() == 6 * k,
    ensures
        count_of(worker_run(n, period, Phase::TakeFirst, ticks), Action::Take(r)) == k * uses(
            n,
            r as int,
        ),
        count_of(worker_run(n, period, Phase::TakeFirst, ticks), Action::Release(r)) == k * uses(
            n,
            r as int,
        ),
    decreases k,
{
    if k == 0 {
        assert(ticks.len() == 0);
    } else {
        let rest = ticks.subrange(6, ticks.len() as int);
        lemma_run_one_cycle(n, period, ticks, Action::Take(r));
        lemma_run_one_cycle(n, period, ticks, Action::Release(r));
        lemma_takes_per_cycle(n, period, rest, (k - 1) as nat, r);
        assert(k * uses(n, r as int) == uses(n, r as int) + (k - 1) * uses(n, r as int)) by (
        nonlinear_arith);
    }
}

/// Each resource of the ring is used by exactly two workers: the one of the same number and the
/// one before it.
pub proof fn lemma_resource_users(r: int, n: int)
    requires
        0 <= r < NUM_PHIL,
        0 <= n < NUM_PHIL,
    ensures
        uses(n, r) == 1 <==> (n == r || n == (r + NUM_PHIL - 1) % (NUM_PHIL as int)),
{
}

/// Per-worker totals of the harness: cycles completed, and time spent holding and idling, in
/// milliseconds.
pub struct Stats {
    count: Vec<u64>,
    eating: Vec<u64>,
    thinking: Vec<u64>,
}

impl Stats {
    /// Cycles completed, by worker.
    pub closed spec fn count_view(&self) -> Seq<u64> {
        self.count@
    }

    /// Time spent holding resources, by worker.
    pub closed spec fn eating_view(&self) -> Seq<u64> {
        self.eating@
    }

    /// Time spent idle, by worker.
    pub closed spec fn thinking_view(&self) -> Seq<u64> {
        self.thinking@
    }

    /// One entry per worker in each table.
    pub open spec fn wf(&self) -> bool {
        &&& self.count_view().len() == NUM_PHIL
        &&& self.eating_view().len() == NUM_PHIL
        &&& self.thinking_view().len() == NUM_PHIL
    }

    /// All totals zero.
    pub fn new() -> (r: Stats)
        ensures
            r.wf(),
            r.count_view() == Seq::new(NUM_PHIL as nat, |i: int| 0u64),
            r.eating_view() == Seq::new(NUM_PHIL as nat, |i: int| 0u64),
            r.thinking_view() == Seq::new(NUM_PHIL as nat, |i: int| 0u64),
    {
        let mut count: Vec<u64> = Vec::new();
        let mut eating: Vec<u64> = Vec::new();
        let mut thinking: Vec<u64> = Vec::new();
        let mut k: usize = 0;
        while k < NUM_PHIL
            invariant
                k <= NUM_PHIL,
                count@ == Seq::new(k as nat, |i: int| 0u64),
                eating@ == Seq::new(k as nat, |i: int| 0u64),
                thinking@ == Seq::new(k as nat, |i: int| 0u64),
            decreases NUM_PHIL - k,
        {
            count.push(0);
            eating.push(0);
            thinking.push(0);
            k = k + 1;
            assert(count@ =~= Seq::new(k as nat, |i: int| 0u64));
            assert(eating@ =~= Seq::new(k as nat, |i: int| 0u64));
            assert(thinking@ =~= Seq::new(k as nat, |i: int| 0u64));
        }
        Stats { count, eating, thinking }
    }

    /// Adds `time` milliseconds of holding to worker `index`.
    pub fn record_eat(&mut self, index: usize, time: u64)
        requires
            old(self).wf(),
            index < NUM_PHIL,
            old(self).eating_view()[index as int] + time <= u64::MAX,
        ensures
            final(self).wf(),
            final(self).eating_view() == old(self).eating_view().update(
                index as int,
                (old(self).eating_view()[index as int] + time) as u64,
            ),
            final(self).count_view() == old(self).count_view(),
            final(self).thinking_view() == old(self).thinking_view(),
    {
        let e = self.eating[index] + time;
        self.eating.set(index, e);
    }

    /// Adds `time` milliseconds of idling to worker `index`, which completes one of its cycles.
    pub fn record_think(&mut self, index: usize, time: u64)
        requires
            old(self).wf(),
            index < NUM_PHIL,
            old(self).thinking_view()[index as int] + time <= u64::MAX,
            old(self).count_view()[index as int] < u64::MAX,
        ensures
            final(self).wf(),
            final(self).thinking_view() == old(self).thinking_view().update(
                index as int,
                (old(self).thinking_view()[index as int] + time) as u64,
            ),
            final(self).count_view() == old(self).count_view().update(
                index as int,
                (old(self).count_view()[index as int] + 1) as u64,
            ),
            final(self).eating_view() == old(self).eating_view(),
    {
        let t = self.thinking[index] + time;
        self.thinking.set(index, t);
        let c = self.count[index] + 1;
        self.count.set(index, c);
    }

    /// Cycles completed, by worker.
    pub fn count(&self) -> (r: &[u64])
        ensures
            r@ == self.count_view(),
    {
        self.count.as_slice()
    }

    /// Time spent holding resources, by worker.
    pub fn eating(&self) -> (r: &[u64])
        ensures
            r@ == self.eating_view(),
    {
        self.eating.as_slice()
    }

    /// Time spent idle, by worker.
    pub fn thinking(&self) -> (r: &[u64])
        ensures
            r@ == self.thinking_view(),
    {
        self.thinking.as_slice()
    }
}

} // verus!
