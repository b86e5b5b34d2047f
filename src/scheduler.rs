use vstd::prelude::*;
use vstd::arithmetic::div_mod::{lemma_fundamental_div_mod, lemma_mod_pos_bound, lemma_div_pos_is_pos};

verus! {

/// A recurrence: a fire moment every `every` seconds from `anchor` on,
/// moments being whole seconds since the Unix epoch.
#[derive(Clone, Copy, Debug, PartialEq, Eq)]
pub struct Recurrence {
    pub every: u64,
    pub anchor: i64,
}

impl Recurrence {
    pub open spec fn wf(&self) -> bool {
        self.every > 0
    }

    /// Whether `m` is one of the recurrence's moments.
    pub open spec fn fires_at(&self, m: int) -> bool {
        m >= self.anchor && (m - self.anchor) % (self.every as int) == 0
    }
}

/// The first moment of `r` strictly after `t`.
pub open spec fn next_after(r: Recurrence, t: int) -> int {
    if t < r.anchor {
        r.anchor as int
    } else {
        r.anchor + ((t - r.anchor) / (r.every as int) + 1) * (r.every as int)
    }
}

/// `next_after`, held to the range of an `i64`.
pub open spec fn clamped_next(r: Recurrence, t: int) -> int {
    if next_after(r, t) > i64::MAX {
        i64::MAX as int
    } else {
        next_after(r, t)
    }
}

pub proof fn lemma_next_after(r: Recurrence, t: int)
    requires
        r.wf(),
    ensures
        next_after(r, t) > t,
        r.fires_at(next_after(r, t)),
        forall|m: int| t < m < next_after(r, t) ==> !r.fires_at(m),
{
    let e = r.every as int;
    if t >= r.anchor {
        let d = t - r.anchor;
        let q = d / e;
        lemma_fundamental_div_mod(d, e);
        lemma_mod_pos_bound(d, e);
        lemma_div_pos_is_pos(d, e);
        let n = next_after(r, t);
        assert(n - r.anchor == (q + 1) * e) by (nonlinear_arith)
            requires
                n == r.anchor + (q + 1) * e,
        ;
        assert((q + 1) * e == e * q + e) by (nonlinear_arith);
        assert(n > t);
        vstd::arithmetic::div_mod::lemma_mod_multiples_basic(q + 1, e);
        assert forall|m: int| t < m < n implies !r.fires_at(m) by {
            if r.fires_at(m) {
                let k = (m - r.anchor) / e;
                lemma_fundamental_div_mod(m - r.anchor, e);
                assert(m - r.anchor == e * k);
                assert(e * q < e * k) by (nonlinear_arith)
                    requires
                        e * q + d % e == d,
                        d < m - r.anchor,
                        m - r.anchor == e * k,
                        d % e >= 0,
                ;
                assert(e * k < e * (q + 1)) by (nonlinear_arith)
                    requires
                        m - r.anchor == e * k,
                        m < n,
                        n - r.anchor == (q + 1) * e,
                ;
                assert(q < k) by (nonlinear_arith)
                    requires
                        e * q < e * k,
                        e > 0,
                ;
                assert(k < q + 1) by (nonlinear_arith)
                    requires
                        e * k < e * (q + 1),
                        e > 0,
                ;
            }
        }
    } else {
        assert(r.anchor - r.anchor == 0);
        assert(0int % (r.every as int) == 0);
    }
}

/// The first moment of `at` strictly after `now` (the largest `i64` where
/// that moment lies beyond it).
pub fn get_upcoming_moment(now: i64, at: &Recurrence) -> (r: i64)
    requires
        at.wf(),
    ensures
        r == clamped_next(*at, now as int),
{
    if now < at.anchor {
        at.anchor
    } else {
        let d: u128 = (now as i128 - at.anchor as i128) as u128;
        let e: u128 = at.every as u128;
        let q: u128 = d / e;
        proof {
            lemma_fundamental_div_mod(d as int, e as int);
            lemma_mod_pos_bound(d as int, e as int);
            assert(q * e <= d) by (nonlinear_arith)
                requires
                    d as int == e * q + (d as int) % (e as int),
                    (d as int) % (e as int) >= 0,
            ;
        }
        let step: u128 = q * e + e;
        let next: i128 = at.anchor as i128 + step as i128;
        proof {
            assert(step == (q + 1) * e) by (nonlinear_arith)
                requires
                    step == q * e + e,
            ;
        }
        if next > i64::MAX as i128 {
            i64::MAX
        } else {
            next as i64
        }
    }
}

/// The moment at which a task that was planned for `planned` and finished
/// running at `now` fires next: the first moment strictly after both, so that
/// late runs are not collapsed onto one moment.
pub fn get_new_upcoming_moment(now: i64, at: &Recurrence, planned: i64) -> (r: i64)
    requires
        at.wf(),
    ensures
        r == clamped_next(*at, if now > planned { now as int } else { planned as int }),
{
    let from = if now > planned {
        now
    } else {
        planned
    };
    get_upcoming_moment(from, at)
}

/// The moment at which a finished task is queued again lies strictly after
/// the moment it finished, and strictly after the moment it had been planned
/// for, and is a moment of its recurrence (short of the end of the `i64` range).
pub proof fn lemma_reinsert_in_future(at: Recurrence, now: int, planned: int)
    requires
        at.wf(),
        now < i64::MAX,
        planned < i64::MAX,
    ensures
        ({
            let from = if now > planned {
                now
            } else {
                planned
            };
            &&& clamped_next(at, from) > now
            &&& clamped_next(at, from) > planned
            &&& next_after(at, from) <= i64::MAX ==> at.fires_at(clamped_next(at, from))
        }),
{
    let from = if now > planned {
        now
    } else {
        planned
    };
    lemma_next_after(at, from);
}

/// A task under the scheduler, by id.
#[derive(Clone, Copy, Debug, PartialEq, Eq)]
pub struct Schedule {
    pub id: u64,
    pub at: Recurrence,
}

pub open spec fn queue_has(q: Seq<(u64, i64)>, id: u64) -> bool {
    exists|i: int| 0 <= i < q.len() && #[trigger] q[i].0 == id
}

pub open spec fn ids_unique(q: Seq<(u64, i64)>) -> bool {
    forall|i: int, j: int|
        0 <= i < q.len() && 0 <= j < q.len() && i != j ==> #[trigger] q[i].0 != #[trigger] q[j].0
}

pub open spec fn plans_wf(plans: Seq<Schedule>) -> bool {
    &&& forall|i: int| 0 <= i < plans.len() ==> (#[trigger] plans[i]).at.wf()
    &&& forall|i: int, j: int|
        0 <= i < plans.len() && 0 <= j < plans.len() && i != j ==> #[trigger] plans[i].id
            != #[trigger] plans[j].id
}

pub open spec fn plan_has(plans: Seq<Schedule>, id: u64) -> bool {
    exists|i: int| 0 <= i < plans.len() && #[trigger] plans[i].id == id
}

/// The recurrence of the planned task `id`.
pub open spec fn plan_at(plans: Seq<Schedule>, id: u64) -> Recurrence {
    plans[choose|i: int| 0 <= i < plans.len() && #[trigger] plans[i].id == id].at
}

pub proof fn lemma_plan_at(plans: Seq<Schedule>, i: int)
    requires
        plans_wf(plans),
        0 <= i < plans.len(),
    ensures
        plan_at(plans, plans[i].id) == plans[i].at,
{
    let id = plans[i].id;
    assert(plan_has(plans, id));
    let k = choose|k: int| 0 <= k < plans.len() && #[trigger] plans[k].id == id;
    assert(k == i);
}

/// Whether every recurrence fires at all and no two tasks share an id.
pub fn plans_valid(plans: &Vec<Schedule>) -> (r: bool)
    ensures
        r == plans_wf(plans@),
{
    let mut i: usize = 0;
    while i < plans.len()
        invariant
            i <= plans.len(),
            forall|a: int| 0 <= a < i ==> (#[trigger] plans@[a]).at.wf(),
            forall|a: int, b: int|
                0 <= a < i && 0 <= b < plans@.len() && a != b ==> #[trigger] plans@[a].id
                    != #[trigger] plans@[b].id,
        decreases plans.len() - i,
    {
        if plans[i].at.every == 0 {
            return false;
        }
        let mut j: usize = 0;
        while j < plans.len()
            invariant
                i < plans.len(),
                j <= plans.len(),
                forall|b: int| 0 <= b < j && b != i ==> plans@[i as int].id != #[trigger] plans@[b].id,
            decreases plans.len() - j,
        {
            if j != i && plans[j].id == plans[i].id {
                return false;
            }
            j = j + 1;
        }
        i = i + 1;
    }
    true
}

/// Whether `q[i]` holds a nearest moment of `q`.
pub open spec fn is_nearest(q: Seq<(u64, i64)>, i: int) -> bool {
    &&& 0 <= i < q.len()
    &&& forall|j: int| 0 <= j < q.len() ==> q[i].1 <= (#[trigger] q[j]).1
}

/// What the scheduler's loop does next.
#[derive(Clone, Copy, Debug, PartialEq, Eq)]
pub enum Step {
    /// Nothing is queued: sleep one second.
    Idle,
    /// Nothing is due: sleep this many seconds, checking the stop flag each second.
    Sleep { seconds: u64 },
    /// Run task `id`, planned for `planned`, `late` seconds after that moment.
    Fire { id: u64, planned: i64, late: u64 },
}

/// The scheduler's queue of next fire moments, and the tasks it has handed
/// to a runner and not yet queued again.
#[derive(Clone, Debug)]
pub struct Scheduler {
    pub plans: Vec<Schedule>,
    pub queue: Vec<(u64, i64)>,
    pub running: Vec<(u64, i64)>,
}

impl Scheduler {
    /// Every task is either queued once or running once, never both.
    pub open spec fn wf(&self) -> bool {
        &&& plans_wf(self.plans@)
        &&& ids_unique(self.queue@)
        &&& ids_unique(self.running@)
        &&& forall|id: u64| !(queue_has(self.queue@, id) && queue_has(self.running@, id))
        &&& forall|id: u64|
            plan_has(self.plans@, id) <==> (queue_has(self.queue@, id) || queue_has(
                self.running@,
                id,
            ))
    }

    /// Queues every task at its first moment after `now`.
    pub fn new(plans: Vec<Schedule>, now: i64) -> (r: Scheduler)
        requires
            plans_wf(plans@),
        ensures
            r.wf(),
            r.plans@ == plans@,
            r.running@.len() == 0,
            r.queue@.len() == plans@.len(),
            forall|i: int|
                0 <= i < plans@.len() ==> #[trigger] r.queue@[i] == (
                    plans@[i].id,
                    clamped_next(plans@[i].at, now as int) as i64,
                ),
    {
        let mut queue: Vec<(u64, i64)> = Vec::new();
        let mut i: usize = 0;
        while i < plans.len()
            invariant
                plans_wf(plans@),
                i <= plans.len(),
                queue@.len() == i,
                forall|j: int|
                    0 <= j < i ==> #[trigger] queue@[j] == (
                        plans@[j].id,
                        clamped_next(plans@[j].at, now as int) as i64,
                    ),
            decreases plans.len() - i,
        {
            let p = plans[i];
            let m = get_upcoming_moment(now, &p.at);
            queue.push((p.id, m));
            i = i + 1;
        }
        let r = Scheduler { plans, queue, running: Vec::new() };
        proof {
            assert forall|id: u64| plan_has(r.plans@, id) <==> (queue_has(r.queue@, id)
                || queue_has(r.running@, id)) by {
                if plan_has(r.plans@, id) {
                    let k = choose|k: int| 0 <= k < r.plans@.len() && #[trigger] r.plans@[k].id == id;
                    assert(r.queue@[k].0 == id);
                }
                if queue_has(r.queue@, id) {
                    let k = choose|k: int| 0 <= k < r.queue@.len() && #[trigger] r.queue@[k].0 == id;
                    assert(r.plans@[k].id == id);
                }
            }
            assert forall|a: int, b: int|
                0 <= a < r.queue@.len() && 0 <= b < r.queue@.len() && a != b implies #[trigger] r.queue@[a].0
                    != #[trigger] r.queue@[b].0 by {
                assert(r.queue@[a].0 == r.plans@[a].id);
                assert(r.queue@[b].0 == r.plans@[b].id);
            }
        }
        r
    }

    /// The position of a nearest moment of a queue that is not empty.
    fn nearest(&self) -> (r: usize)
        requires
            self.queue@.len() > 0,
        ensures
            is_nearest(self.queue@, r as int),
    {
        let mut best: usize = 0;
        let mut i: usize = 1;
        while i < self.queue.len()
            invariant
                self.queue@.len() > 0,
                best < i <= self.queue@.len(),
                forall|j: int| 0 <= j < i ==> self.queue@[best as int].1 <= (#[trigger] self.queue@[j]).1,
            decreases self.queue.len() - i,
        {
            if self.queue[i].1 < self.queue[best].1 {
                best = i;
            }
            i = i + 1;
        }
        best
    }

    /// One turn of the scheduler's loop at moment `now`: sleep when nothing
    /// is due, else take a nearest task off the queue and hand it to a runner.
    pub fn step(&mut self, now: i64) -> (r: Step)
        requires
            old(self).wf(),
        ensures
            final(self).wf(),
            final(self).plans@ == old(self).plans@,
            (r is Idle) <==> old(self).queue@.len() == 0,
            r is Idle ==> final(self).queue@ == old(self).queue@ && final(self).running@ == old(
                self,
            ).running@,
            r matches Step::Sleep { seconds } ==> {
                &&& forall|j: int|
                    0 <= j < old(self).queue@.len() ==> (#[trigger] old(self).queue@[j]).1 > now
                &&& exists|i: int|
                    is_nearest(old(self).queue@, i) && seconds == if old(self).queue@[i].1 - now
                        + 1 > u64::MAX {
                        u64::MAX as int
                    } else {
                        old(self).queue@[i].1 - now + 1
                    }
                &&& final(self).queue@ == old(self).queue@
                &&& final(self).running@ == old(self).running@
            },
            r matches Step::Fire { id, planned, late } ==> {
                &&& exists|i: int|
                    is_nearest(old(self).queue@, i) && old(self).queue@[i] == (id, planned)
                        && final(self).queue@ == old(self).queue@.remove(i)
                &&& planned <= now
                &&& late == now - planned
                &&& !queue_has(old(self).running@, id)
                &&& final(self).running@ == old(self).running@.push((id, planned))
            },
    {
        if self.queue.len() == 0 {
            return Step::Idle;
        }
        let i = self.nearest();
        let (id, planned) = self.queue[i];
        if planned > now {
            let wait: i128 = planned as i128 - now as i128 + 1;
            let seconds: u64 = if wait > u64::MAX as i128 {
                u64::MAX
            } else {
                wait as u64
            };
            return Step::Sleep { seconds };
        }
        let ghost q0 = self.queue@;
        let ghost r0 = self.running@;
        proof {
            assert(queue_has(q0, id));
        }
        self.queue.remove(i);
        self.running.push((id, planned));
        proof {
            assert(!queue_has(r0, id));
            assert forall|a: int, b: int|
                0 <= a < self.queue@.len() && 0 <= b < self.queue@.len() && a != b implies #[trigger] self.queue@[a].0
                    != #[trigger] self.queue@[b].0 by {
                let a2 = if a < i { a } else { a + 1 };
                let b2 = if b < i { b } else { b + 1 };
                assert(self.queue@[a] == q0[a2]);
                assert(self.queue@[b] == q0[b2]);
            }
            assert forall|a: int, b: int|
                0 <= a < self.running@.len() && 0 <= b < self.running@.len() && a != b implies #[trigger] self.running@[a].0
                    != #[trigger] self.running@[b].0 by {
                if a == r0.len() as int {
                    assert(self.running@[b] == r0[b]);
                } else if b == r0.len() as int {
                    assert(self.running@[a] == r0[a]);
                } else {
                    assert(self.running@[a] == r0[a]);
                    assert(self.running@[b] == r0[b]);
                }
            }
            assert forall|x: u64| queue_has(self.queue@, x) <==> (queue_has(q0, x) && x != id) by {
                if queue_has(self.queue@, x) {
                    let k = choose|k: int| 0 <= k < self.queue@.len() && #[trigger] self.queue@[k].0 == x;
                    let k2 = if k < i { k } else { k + 1 };
                    assert(self.queue@[k] == q0[k2]);
                }
                if queue_has(q0, x) && x != id {
                    let k = choose|k: int| 0 <= k < q0.len() && #[trigger] q0[k].0 == x;
                    if k < i {
                        assert(self.queue@[k] == q0[k]);
                    } else {
                        assert(self.queue@[k - 1] == q0[k]);
                    }
                }
            }
            assert forall|x: u64| queue_has(self.running@, x) <==> (queue_has(r0, x) || x == id) by {
                if queue_has(self.running@, x) {
                    let k = choose|k: int| 0 <= k < self.running@.len() && #[trigger] self.running@[k].0 == x;
                    if k < r0.len() {
                        assert(self.running@[k] == r0[k]);
                    }
                }
                if queue_has(r0, x) {
                    let k = choose|k: int| 0 <= k < r0.len() && #[trigger] r0[k].0 == x;
                    assert(self.running@[k] == r0[k]);
                }
                if x == id {
                    assert(self.running@[r0.len() as int].0 == id);
                }
            }
            assert forall|x: u64| !(queue_has(self.queue@, x) && queue_has(self.running@, x)) by {
                assert(!(queue_has(q0, x) && queue_has(r0, x)));
            }
            assert forall|x: u64| plan_has(self.plans@, x) <==> (queue_has(self.queue@, x)
                || queue_has(self.running@, x)) by {
                assert(plan_has(self.plans@, x) <==> (queue_has(q0, x) || queue_has(r0, x)));
            }
        }
        Step::Fire { id, planned, late: (now as i128 - planned as i128) as u64 }
    }

    /// The recurrence of task `id`, which is planned.
    fn recurrence_of(&self, id: u64) -> (r: Recurrence)
        requires
            plans_wf(self.plans@),
            plan_has(self.plans@, id),
        ensures
            r == plan_at(self.plans@, id),
            r.wf(),
    {
        let mut i: usize = 0;
        while i < self.plans.len()
            invariant
                plans_wf(self.plans@),
                plan_has(self.plans@, id),
                i <= self.plans.len(),
                forall|j: int| 0 <= j < i ==> (#[trigger] self.plans@[j]).id != id,
            decreases self.plans.len() - i,
        {
            if self.plans[i].id == id {
                proof {
                    lemma_plan_at(self.plans@, i as int);
                }
                return self.plans[i].at;
            }
            i = i + 1;
        }
        proof {
            let k = choose|k: int| 0 <= k < self.plans@.len() && #[trigger] self.plans@[k].id == id;
            assert(self.plans@[k].id != id);
        }
        self.plans[0].at
    }

    /// The runner of task `id` is done at moment `now`: the task is queued
    /// again at its next moment after both `now` and the moment it had been
    /// planned for. Returns that moment, or none where `id` was not running.
    pub fn complete(&mut self, id: u64, now: i64) -> (r: Option<i64>)
        requires
            old(self).wf(),
        ensures
            final(self).wf(),
            final(self).plans@ == old(self).plans@,
            r is Some <==> queue_has(old(self).running@, id),
            r is None ==> final(self).queue@ == old(self).queue@ && final(self).running@ == old(
                self,
            ).running@,
            r matches Some(m) ==> exists|j: int|
                0 <= j < old(self).running@.len() && #[trigger] old(self).running@[j].0 == id
                    && final(self).running@ == old(self).running@.remove(j) && m == clamped_next(
                    plan_at(old(self).plans@, id),
                    if now > old(self).running@[j].1 {
                        now as int
                    } else {
                        old(self).running@[j].1 as int
                    },
                ) && final(self).queue@ == old(self).queue@.push((id, m)),
    {
        let mut j: usize = 0;
        while j < self.running.len() && self.running[j].0 != id
            invariant
                j <= self.running.len(),
                forall|k: int| 0 <= k < j ==> (#[trigger] self.running@[k]).0 != id,
            decreases self.running.len() - j,
        {
            j = j + 1;
        }
        if j == self.running.len() {
            return None;
        }
        let ghost q0 = self.queue@;
        let ghost r0 = self.running@;
        proof {
            assert(queue_has(r0, id));
        }
        let at = self.recurrence_of(id);
        let (_, planned) = self.running.remove(j);
        let m = get_new_upcoming_moment(now, &at, planned);
        self.queue.push((id, m));
        proof {
            assert(!queue_has(q0, id));
            assert forall|a: int, b: int|
                0 <= a < self.running@.len() && 0 <= b < self.running@.len() && a != b implies #[trigger] self.running@[a].0
                    != #[trigger] self.running@[b].0 by {
                let a2 = if a < j { a } else { a + 1 };
                let b2 = if b < j { b } else { b + 1 };
                assert(self.running@[a] == r0[a2]);
                assert(self.running@[b] == r0[b2]);
            }
            assert forall|a: int, b: int|
                0 <= a < self.queue@.len() && 0 <= b < self.queue@.len() && a != b implies #[trigger] self.queue@[a].0
                    != #[trigger] self.queue@[b].0 by {
                if a == q0.len() as int {
                    assert(self.queue@[b] == q0[b]);
                } else if b == q0.len() as int {
                    assert(self.queue@[a] == q0[a]);
                } else {
                    assert(self.queue@[a] == q0[a]);
                    assert(self.queue@[b] == q0[b]);
                }
            }
            assert forall|x: u64| queue_has(self.running@, x) <==> (queue_has(r0, x) && x != id) by {
                if queue_has(self.running@, x) {
                    let k = choose|k: int| 0 <= k < self.running@.len() && #[trigger] self.running@[k].0 == x;
                    let k2 = if k < j { k } else { k + 1 };
                    assert(self.running@[k] == r0[k2]);
                }
                if queue_has(r0, x) && x != id {
                    let k = choose|k: int| 0 <= k < r0.len() && #[trigger] r0[k].0 == x;
                    assert(k != j);
                    if k < j {
                        assert(self.running@[k] == r0[k]);
                    } else {
                        assert(self.running@[k - 1] == r0[k]);
                    }
                }
            }
            assert forall|x: u64| queue_has(self.queue@, x) <==> (queue_has(q0, x) || x == id) by {
                if queue_has(self.queue@, x) {
                    let k = choose|k: int| 0 <= k < self.queue@.len() && #[trigger] self.queue@[k].0 == x;
                    if k < q0.len() {
                        assert(self.queue@[k] == q0[k]);
                    }
                }
                if queue_has(q0, x) {
                    let k = choose|k: int| 0 <= k < q0.len() && #[trigger] q0[k].0 == x;
                    assert(self.queue@[k] == q0[k]);
                }
                if x == id {
                    assert(self.queue@[q0.len() as int].0 == id);
                }
            }
            assert forall|x: u64| !(queue_has(self.queue@, x) && queue_has(self.running@, x)) by {
                assert(!(queue_has(q0, x) && queue_has(r0, x)));
            }
            assert forall|x: u64| plan_has(self.plans@, x) <==> (queue_has(self.queue@, x)
                || queue_has(self.running@, x)) by {
                assert(plan_has(self.plans@, x) <==> (queue_has(q0, x) || queue_has(r0, x)));
            }
            assert(r0[j as int].0 == id);
        }
        Some(m)
    }
}

/// A task the scheduler has handed to a runner is off the queue until that
/// runner completes, and is held once: `step` fires only queued tasks, so no
/// task ever has two runners at once.
pub proof fn lemma_single_runner(s: Scheduler, id: u64)
    requires
        s.wf(),
        queue_has(s.running@, id),
    ensures
        !queue_has(s.queue@, id),
        forall|i: int, j: int|
            0 <= i < s.running@.len() && 0 <= j < s.running@.len() && s.running@[i].0 == id
                && s.running@[j].0 == id ==> i == j,
{
}

} // verus!
