use crate::message::ExitReason;
use crate::pid::Pid;
use crate::text::{push_str, string_of};
use vstd::prelude::*;

verus! {

/// Which children a supervisor restarts when one of them fails.
#[derive(Debug, Clone, Copy, PartialEq, Eq, Structural)]
pub enum RestartStrategy {
    /// Restart only the failed child.
    OneForOne,
    /// Restart every child.
    OneForAll,
    /// Restart the failed child and every child started after it.
    RestForOne,
}

/// The restart limit: at most `max_restarts` restarts of a child within
/// `within_seconds` seconds; beyond that the supervisor stops.
#[derive(Debug, Clone, Copy)]
pub struct RestartIntensity {
    /// Maximum number of restarts within the period.
    pub max_restarts: usize,
    /// The period, in seconds.
    pub within_seconds: u64,
}

impl Default for RestartIntensity {
    /// Three restarts within five seconds.
    fn default() -> (r: RestartIntensity)
        ensures
            r.max_restarts == 3,
            r.within_seconds == 5,
    {
        RestartIntensity { max_restarts: 3, within_seconds: 5 }
    }
}

/// Nanoseconds per second; times are monotonic clock readings in
/// nanoseconds.
pub open spec fn nanos_per_second() -> int {
    1_000_000_000
}

/// A restart at time `t` still counts at time `now`: it lies within the
/// last `within_seconds` seconds.
pub open spec fn in_window(t: u64, now: u64, within_seconds: u64) -> bool {
    t + within_seconds * nanos_per_second() > now
}

/// The restart times that still count at `now`, in their order.
pub open spec fn prune(times: Seq<u64>, now: u64, within_seconds: u64) -> Seq<u64>
    decreases times.len(),
{
    if times.len() == 0 {
        Seq::empty()
    } else {
        let p = prune(times.drop_last(), now, within_seconds);
        if in_window(times.last(), now, within_seconds) {
            p.push(times.last())
        } else {
            p
        }
    }
}

/// A child as the supervisor tracks it: its id, its current process and
/// the times it was restarted.
pub type ChildView = (Seq<char>, Pid, Seq<u64>);

/// One restart attempt for child `c` at `now`: the child with its counting
/// restart times (plus `now` when restarted), and whether it is restarted.
/// It is not restarted when `max_restarts` restarts already count.
pub open spec fn restart_one(c: ChildView, now: u64, intensity: RestartIntensity) -> (ChildView, bool) {
    let kept = prune(c.2, now, intensity.within_seconds);
    if kept.len() >= intensity.max_restarts {
        ((c.0, c.1, kept), false)
    } else {
        ((c.0, c.1, kept.push(now)), true)
    }
}

/// The position of the child with id `id`, if any.
pub open spec fn child_index(cs: Seq<ChildView>, id: Seq<char>) -> Option<int> {
    if exists|i: int| 0 <= i < cs.len() && cs[i].0 == id {
        Some(choose|i: int| 0 <= i < cs.len() && cs[i].0 == id)
    } else {
        None
    }
}

/// One step of restarting: the child named `t` (if there is one) is
/// restarted or found at its limit, updating the children, the restarted
/// ids and the last id found at its limit.
#[verifier::opaque]
pub open spec fn restart_step(
    acc: (Seq<ChildView>, Seq<Seq<char>>, Option<Seq<char>>),
    t: Seq<char>,
    now: u64,
    intensity: RestartIntensity,
) -> (Seq<ChildView>, Seq<Seq<char>>, Option<Seq<char>>) {
    match child_index(acc.0, t) {
        None => acc,
        Some(i) => {
            let (c, restarted) = restart_one(acc.0[i], now, intensity);
            if restarted {
                (acc.0.update(i, c), acc.1.push(t), acc.2)
            } else {
                (acc.0.update(i, c), acc.1, Some(t))
            }
        },
    }
}

/// The outcome of restarting the children named in `targets`, in order:
/// the updated children, the ids restarted (in order), and the id of the
/// last child whose restart limit was reached, if any. Ids without a child
/// are skipped.
pub open spec fn apply_restarts(
    cs: Seq<ChildView>,
    targets: Seq<Seq<char>>,
    now: u64,
    intensity: RestartIntensity,
) -> (Seq<ChildView>, Seq<Seq<char>>, Option<Seq<char>>)
    decreases targets.len(),
{
    if targets.len() == 0 {
        (cs, Seq::empty(), None)
    } else {
        restart_step(apply_restarts(cs, targets.drop_last(), now, intensity), targets.last(), now, intensity)
    }
}

/// The first position of `id` in `order`, if any.
pub open spec fn first_index(order: Seq<Seq<char>>, id: Seq<char>) -> Option<int> {
    if exists|i: int| 0 <= i < order.len() && order[i] == id {
        Some(
            choose|i: int|
                0 <= i < order.len() && order[i] == id && forall|j: int| 0 <= j < i ==> order[j] != id,
        )
    } else {
        None
    }
}

/// The children to restart after child `failed` failed, by strategy:
/// itself; every child in start order; or, in start order, every child from
/// the first occurrence of `failed` on.
pub open spec fn restart_targets(strategy: RestartStrategy, order: Seq<Seq<char>>, failed: Seq<char>) -> Seq<
    Seq<char>,
> {
    match strategy {
        RestartStrategy::OneForOne => seq![failed],
        RestartStrategy::OneForAll => order,
        RestartStrategy::RestForOne => match first_index(order, failed) {
            Some(i) => order.subrange(i, order.len() as int),
            None => Seq::empty(),
        },
    }
}

/// The processes to stop before children named in `targets` are started
/// again: the current process of each named child (in the order named),
/// except `failed`, which has already exited. Ids without a child are
/// skipped.
pub open spec fn stop_pids(cs: Seq<ChildView>, targets: Seq<Seq<char>>, failed: Pid) -> Seq<Pid>
    decreases targets.len(),
{
    if targets.len() == 0 {
        Seq::empty()
    } else {
        let rest = stop_pids(cs, targets.drop_last(), failed);
        match child_index(cs, targets.last()) {
            Some(i) => if cs[i].1 != failed {
                rest.push(cs[i].1)
            } else {
                rest
            },
            None => rest,
        }
    }
}

/// What to do after a child exit: stop these still-running children, then
/// restart these children (in order, each to be spawned afresh), and stop
/// the supervisor with this reason when a restart limit was reached.
pub struct RestartPlan {
    /// Processes of old children to terminate before any restart, in order.
    pub terminate: Vec<Pid>,
    /// Ids of the children to spawn again, in order.
    pub restart: Vec<String>,
    /// The supervisor's stop reason, when a restart limit was reached.
    pub stop: Option<ExitReason>,
}

/// A child tracked by a supervisor.
pub struct ChildRecord {
    id: String,
    pid: Pid,
    restart_times: Vec<u64>,
}

/// The decision state of a supervisor: its strategy and limit, its children
/// (one per id) and the order children were started in (an id occurs once
/// per start).
pub struct SupervisorState {
    strategy: RestartStrategy,
    intensity: RestartIntensity,
    children: Vec<ChildRecord>,
    child_order: Vec<String>,
}

/// The ids of `v`, as characters.
pub open spec fn ids(v: Seq<String>) -> Seq<Seq<char>> {
    v.map_values(|s: String| s@)
}

impl SupervisorState {
    /// The children, as (id, process, restart times).
    pub closed spec fn children(&self) -> Seq<ChildView> {
        self.children@.map_values(|c: ChildRecord| (c.id@, c.pid, c.restart_times@))
    }

    /// The start order of child ids.
    pub closed spec fn order(&self) -> Seq<Seq<char>> {
        ids(self.child_order@)
    }

    /// The restart strategy.
    pub closed spec fn strategy(&self) -> RestartStrategy {
        self.strategy
    }

    /// The restart limit.
    pub closed spec fn intensity(&self) -> RestartIntensity {
        self.intensity
    }

    /// No two children share an id.
    pub open spec fn wf(&self) -> bool {
        forall|i: int, j: int|
            0 <= i < j < self.children().len() ==> self.children()[i].0 != self.children()[j].0
    }

    /// A supervisor with no children.
    pub fn new(strategy: RestartStrategy, intensity: RestartIntensity) -> (r: SupervisorState)
        ensures
            r.wf(),
            r.children() == Seq::<ChildView>::empty(),
            r.order() == Seq::<Seq<char>>::empty(),
            r.strategy() == strategy,
            r.intensity() == intensity,
    {
        SupervisorState { strategy, intensity, children: Vec::new(), child_order: Vec::new() }
    }

    fn child_position(&self, id: &String) -> (r: Option<usize>)
        requires
            self.wf(),
        ensures
            r is None <==> child_index(self.children(), id@) is None,
            r matches Some(k) ==> child_index(self.children(), id@) == Some(k as int) && k
                < self.children().len(),
    {
        let n = self.children.len();
        let mut i: usize = 0;
        while i < n
            invariant
                n == self.children@.len(),
                self.wf(),
                i <= n,
                forall|j: int| 0 <= j < i ==> self.children()[j].0 != id@,
            decreases n - i,
        {
            if self.children[i].id == *id {
                assert(self.children()[i as int].0 == id@);
                let ghost k = choose|k: int| 0 <= k < self.children().len() && self.children()[k].0 == id@;
                assert(k == i);
                return Some(i);
            }
            i = i + 1;
        }
        None
    }

    /// Records a started child: its record is created (replacing one with
    /// the same id) with no restarts, and its id is appended to the start
    /// order.
    pub fn add_child(&mut self, id: String, pid: Pid)
        requires
            old(self).wf(),
        ensures
            final(self).wf(),
            final(self).order() == old(self).order().push(id@),
            final(self).strategy() == old(self).strategy(),
            final(self).intensity() == old(self).intensity(),
            match child_index(old(self).children(), id@) {
                Some(i) => final(self).children() == old(self).children().update(i, (id@, pid, Seq::empty())),
                None => final(self).children() == old(self).children().push((id@, pid, Seq::empty())),
            },
    {
        let pos = self.child_position(&id);
        let key = id.clone();
        let record = ChildRecord { id, pid, restart_times: Vec::new() };
        match pos {
            Some(i) => {
                self.children.set(i, record);
                assert(self.children() =~= old(self).children().update(i as int, (key@, pid, Seq::empty())));
            },
            None => {
                self.children.push(record);
                assert(self.children() =~= old(self).children().push((key@, pid, Seq::empty())));
                assert forall|i: int, j: int|
                    0 <= i < j < self.children().len() implies self.children()[i].0
                    != self.children()[j].0 by {
                    if j == old(self).children().len() {
                        assert(old(self).children()[i].0 == self.children()[i].0);
                    }
                }
            },
        }
        self.child_order.push(key);
        assert(self.order() =~= old(self).order().push(key@));
    }

    /// Records the new process of a restarted child.
    pub fn set_child_pid(&mut self, id: &String, pid: Pid)
        requires
            old(self).wf(),
        ensures
            final(self).wf(),
            final(self).order() == old(self).order(),
            final(self).strategy() == old(self).strategy(),
            final(self).intensity() == old(self).intensity(),
            match child_index(old(self).children(), id@) {
                Some(i) => final(self).children() == old(self).children().update(
                    i,
                    (old(self).children()[i].0, pid, old(self).children()[i].2),
                ),
                None => final(self).children() == old(self).children(),
            },
    {
        match self.child_position(id) {
            Some(i) => {
                self.children[i].pid = pid;
                assert(self.children() =~= old(self).children().update(
                    i as int,
                    (old(self).children()[i as int].0, pid, old(self).children()[i as int].2),
                ));
            },
            None => {},
        }
    }
}


/// The first position of a child whose current process is `pid`, if any.
pub open spec fn first_child_with_pid(cs: Seq<ChildView>, pid: Pid) -> Option<int> {
    if exists|i: int| 0 <= i < cs.len() && cs[i].1 == pid {
        Some(
            choose|i: int|
                0 <= i < cs.len() && cs[i].1 == pid && forall|j: int| 0 <= j < i ==> cs[j].1 != pid,
        )
    } else {
        None
    }
}

/// The id a stop is owed to, as characters.
pub open spec fn exceeded_view(e: Option<String>) -> Option<Seq<char>> {
    match e {
        Some(s) => Some(s@),
        None => None,
    }
}

/// The text of the stop reason when child `id` reached its restart limit.
pub open spec fn intensity_exceeded_text(id: Seq<char>) -> Seq<char> {
    "restart intensity exceeded for "@ + id
}

fn in_window_exec(t: u64, now: u64, within_seconds: u64) -> (r: bool)
    ensures
        r == in_window(t, now, within_seconds),
{
    (t as u128) + (within_seconds as u128) * 1_000_000_000u128 > now as u128
}

fn prune_times(times: &Vec<u64>, now: u64, within_seconds: u64) -> (r: Vec<u64>)
    ensures
        r@ == prune(times@, now, within_seconds),
{
    let n = times.len();
    let mut kept: Vec<u64> = Vec::new();
    let mut i: usize = 0;
    while i < n
        invariant
            n == times@.len(),
            i <= n,
            kept@ == prune(times@.take(i as int), now, within_seconds),
        decreases n - i,
    {
        let t = times[i];
        assert(times@.take(i + 1).drop_last() =~= times@.take(i as int));
        if in_window_exec(t, now, within_seconds) {
            kept.push(t);
        }
        i = i + 1;
    }
    assert(times@.take(n as int) =~= times@);
    kept
}

impl SupervisorState {
    fn find_by_pid(&self, pid: Pid) -> (r: Option<usize>)
        ensures
            r is None <==> first_child_with_pid(self.children(), pid) is None,
            r matches Some(k) ==> first_child_with_pid(self.children(), pid) == Some(k as int) && k
                < self.children().len(),
    {
        let n = self.children.len();
        let mut i: usize = 0;
        while i < n
            invariant
                n == self.children@.len(),
                i <= n,
                forall|j: int| 0 <= j < i ==> self.children()[j].1 != pid,
            decreases n - i,
        {
            if self.children[i].pid == pid {
                let ghost cs = self.children();
                assert(cs[i as int].1 == pid);
                let ghost k = choose|k: int|
                    0 <= k < cs.len() && cs[k].1 == pid && forall|j: int| 0 <= j < k ==> cs[j].1 != pid;
                assert(k == i) by {
                    if k < i {
                        assert(cs[k].1 != pid);
                    }
                    if k > i {
                        assert(cs[i as int].1 != pid);
                    }
                }
                return Some(i);
            }
            i = i + 1;
        }
        None
    }

    fn targets(&self, failed: &String) -> (r: Vec<String>)
        ensures
            ids(r@) == restart_targets(self.strategy(), self.order(), failed@),
    {
        match self.strategy {
            RestartStrategy::OneForOne => {
                let mut v: Vec<String> = Vec::new();
                v.push(failed.clone());
                assert(ids(v@) =~= seq![failed@]);
                v
            },
            RestartStrategy::OneForAll => {
                let n = self.child_order.len();
                let mut v: Vec<String> = Vec::new();
                let mut i: usize = 0;
                while i < n
                    invariant
                        n == self.child_order@.len(),
                        i <= n,
                        ids(v@) == self.order().take(i as int),
                    decreases n - i,
                {
                    let ghost prev = v@;
                    let x = self.child_order[i].clone();
                    assert(x@ == self.order()[i as int]);
                    v.push(x);
                    assert(v@ == prev.push(x));
                    assert(ids(v@) =~= ids(prev).push(x@));
                    i = i + 1;
                    assert(ids(v@) =~= self.order().take(i as int));
                }
                assert(self.order().take(n as int) =~= self.order());
                v
            },
            RestartStrategy::RestForOne => {
                let n = self.child_order.len();
                let mut v: Vec<String> = Vec::new();
                let mut start: usize = 0;
                while start < n && self.child_order[start] != *failed
                    invariant
                        n == self.child_order@.len(),
                        start <= n,
                        forall|j: int| 0 <= j < start ==> self.order()[j] != failed@,
                    decreases n - start,
                {
                    start = start + 1;
                }
                let ghost o = self.order();
                if start == n {
                    assert(!(exists|i: int| 0 <= i < o.len() && o[i] == failed@));
                    assert(ids(v@) =~= Seq::<Seq<char>>::empty());
                    return v;
                }
                proof {
                    assert(o[start as int] == failed@);
                    let k = choose|k: int|
                        0 <= k < o.len() && o[k] == failed@ && forall|j: int| 0 <= j < k ==> o[j] != failed@;
                    assert(k == start) by {
                        if k < start {
                            assert(o[k] != failed@);
                        }
                        if k > start {
                            assert(o[start as int] != failed@);
                        }
                    }
                }
                let mut i: usize = start;
                while i < n
                    invariant
                        n == self.child_order@.len(),
                        start <= i <= n,
                        ids(v@) == self.order().subrange(start as int, i as int),
                    decreases n - i,
                {
                    let ghost prev = v@;
                    let x = self.child_order[i].clone();
                    assert(x@ == self.order()[i as int]);
                    v.push(x);
                    assert(v@ == prev.push(x));
                    assert(ids(v@) =~= ids(prev).push(x@));
                    i = i + 1;
                    assert(ids(v@) =~= self.order().subrange(start as int, i as int));
                }
                v
            },
        }
    }

    fn stop_list(&self, targets: &Vec<String>, failed: Pid) -> (r: Vec<Pid>)
        requires
            self.wf(),
        ensures
            r@ == stop_pids(self.children(), ids(targets@), failed),
    {
        let ghost tg = ids(targets@);
        let mut out: Vec<Pid> = Vec::new();
        let n = targets.len();
        let mut k: usize = 0;
        while k < n
            invariant
                n == targets@.len(),
                k <= n,
                self.wf(),
                tg == ids(targets@),
                out@ == stop_pids(self.children(), tg.take(k as int), failed),
            decreases n - k,
        {
            assert(tg.take(k + 1).drop_last() =~= tg.take(k as int));
            assert(tg.take(k + 1).last() == targets@[k as int]@);
            match self.child_position(&targets[k]) {
                Some(i) => {
                    let p = self.children[i].pid;
                    if p != failed {
                        out.push(p);
                    }
                },
                None => {},
            }
            k = k + 1;
        }
        assert(tg.take(n as int) =~= tg);
        out
    }

    fn restart_child(&mut self, t: &String, now: u64, done: &mut Vec<String>, exceeded: &mut Option<String>)
        requires
            old(self).wf(),
        ensures
            final(self).wf(),
            final(self).order() == old(self).order(),
            final(self).strategy() == old(self).strategy(),
            final(self).intensity() == old(self).intensity(),
            final(self).children().len() == old(self).children().len(),
            ({
                let out = restart_step(
                    (old(self).children(), ids(old(done)@), exceeded_view(*old(exceeded))),
                    t@,
                    now,
                    old(self).intensity(),
                );
                &&& final(self).children() == out.0
                &&& ids(final(done)@) == out.1
                &&& exceeded_view(*final(exceeded)) == out.2
            }),
    {
        let ghost before = self.children();
        reveal(restart_step);
        match self.child_position(t) {
            Some(i) => {
                let kept = prune_times(&self.children[i].restart_times, now, self.intensity.within_seconds);
                if kept.len() >= self.intensity.max_restarts {
                    self.children[i].restart_times = kept;
                    *exceeded = Some(t.clone());
                } else {
                    let mut kept = kept;
                    kept.push(now);
                    self.children[i].restart_times = kept;
                    let ghost prev = done@;
                    let x = t.clone();
                    done.push(x);
                    assert(ids(done@) =~= ids(prev).push(t@));
                }
                assert(self.children() =~= before.update(
                    i as int,
                    restart_one(before[i as int], now, self.intensity()).0,
                ));
                assert forall|a: int, b: int|
                    0 <= a < b < self.children().len() implies self.children()[a].0
                    != self.children()[b].0 by {
                    assert(self.children()[a].0 == before[a].0);
                    assert(self.children()[b].0 == before[b].0);
                }
            },
            None => {},
        }
    }

    fn run_restarts(&mut self, targets: &Vec<String>, now: u64) -> (r: (Vec<String>, Option<String>))
        requires
            old(self).wf(),
        ensures
            final(self).wf(),
            final(self).order() == old(self).order(),
            final(self).strategy() == old(self).strategy(),
            final(self).intensity() == old(self).intensity(),
            ({
                let out = apply_restarts(old(self).children(), ids(targets@), now, old(self).intensity());
                &&& final(self).children() == out.0
                &&& ids(r.0@) == out.1
                &&& exceeded_view(r.1) == out.2
            }),
    {
        let ghost cs0 = self.children();
        let ghost tg = ids(targets@);
        let mut done: Vec<String> = Vec::new();
        let mut exceeded: Option<String> = None;
        let n = targets.len();
        let mut k: usize = 0;
        assert(ids(done@) =~= Seq::<Seq<char>>::empty());
        assert(tg.take(0) =~= Seq::<Seq<char>>::empty());
        while k < n
            invariant
                n == targets@.len(),
                k <= n,
                tg == ids(targets@),
                cs0 == old(self).children(),
                self.wf(),
                self.order() == old(self).order(),
                self.strategy() == old(self).strategy(),
                self.intensity() == old(self).intensity(),
                ({
                    let out = apply_restarts(cs0, tg.take(k as int), now, self.intensity());
                    &&& self.children() == out.0
                    &&& ids(done@) == out.1
                    &&& exceeded_view(exceeded) == out.2
                }),
            decreases n - k,
        {
            assert(tg.take(k + 1).drop_last() =~= tg.take(k as int));
            assert(tg.take(k + 1).last() == targets@[k as int]@);
            self.restart_child(&targets[k], now, &mut done, &mut exceeded);
            k = k + 1;
        }
        assert(tg.take(n as int) =~= tg);
        (done, exceeded)
    }

    /// Decides what follows the exit of process `child_pid` for `reason` at
    /// time `now`. Unknown processes and normal exits change nothing. Else
    /// the strategy names the children to restart, in order; each is
    /// restarted unless `max_restarts` of its restarts already count within
    /// the period, in which case the supervisor is to stop (the last such
    /// child names the reason). Restart times are pruned and recorded.
    pub fn plan_child_exit(&mut self, child_pid: Pid, reason: &ExitReason, now: u64) -> (r: RestartPlan)
        requires
            old(self).wf(),
        ensures
            final(self).wf(),
            final(self).order() == old(self).order(),
            final(self).strategy() == old(self).strategy(),
            final(self).intensity() == old(self).intensity(),
            first_child_with_pid(old(self).children(), child_pid) is None || reason is Normal ==> (
            final(self).children() == old(self).children() && r.terminate@.len() == 0
                && r.restart@.len() == 0 && r.stop is None),
            !(reason is Normal) ==> (first_child_with_pid(old(self).children(), child_pid) matches Some(
                i,
            ) ==> ({
                let out = apply_restarts(
                    old(self).children(),
                    restart_targets(
                        old(self).strategy(),
                        old(self).order(),
                        old(self).children()[i].0,
                    ),
                    now,
                    old(self).intensity(),
                );
                &&& r.terminate@ == stop_pids(
                    old(self).children(),
                    restart_targets(
                        old(self).strategy(),
                        old(self).order(),
                        old(self).children()[i].0,
                    ),
                    child_pid,
                )
                &&& final(self).children() == out.0
                &&& ids(r.restart@) == out.1
                &&& out.2 is None ==> r.stop is None
                &&& out.2 matches Some(e) ==> (r.stop matches Some(ExitReason::Custom(m)) && m@
                    == intensity_exceeded_text(e))
            })),
    {
        let found = self.find_by_pid(child_pid);
        if found.is_none() || reason.is_normal() {
            return RestartPlan { terminate: Vec::new(), restart: Vec::new(), stop: None };
        }
        let idx = found.unwrap();
        let failed = self.children[idx].id.clone();
        let targets = self.targets(&failed);
        let terminate = self.stop_list(&targets, child_pid);
        let (done, exceeded) = self.run_restarts(&targets, now);
        let stop = match exceeded {
            Some(e) => {
                let mut m = string_of("restart intensity exceeded for ");
                push_str(&mut m, e.as_str());
                proof {
                    reveal_strlit("restart intensity exceeded for ");
                }
                Some(ExitReason::Custom(m))
            },
            None => None,
        };
        RestartPlan { terminate, restart: done, stop }
    }
}

/// Restart intensity: whenever a child is restarted, at most `max_restarts`
/// restart times of it count, all within the period, and the newest is the
/// time of this restart.
pub proof fn lemma_restart_respects_intensity(c: ChildView, now: u64, intensity: RestartIntensity)
    requires
        restart_one(c, now, intensity).1,
    ensures
        restart_one(c, now, intensity).0.2.len() <= intensity.max_restarts,
        restart_one(c, now, intensity).0.2.last() == now,
        forall|j: int|
            0 <= j < restart_one(c, now, intensity).0.2.len() - 1 ==> in_window(
                #[trigger] restart_one(c, now, intensity).0.2[j],
                now,
                intensity.within_seconds,
            ),
{
    lemma_prune_in_window(c.2, now, intensity.within_seconds);
}

/// Every time that `prune` keeps counts at `now`, and none is invented.
pub proof fn lemma_prune_in_window(times: Seq<u64>, now: u64, within_seconds: u64)
    ensures
        prune(times, now, within_seconds).len() <= times.len(),
        forall|j: int|
            0 <= j < prune(times, now, within_seconds).len() ==> in_window(
                #[trigger] prune(times, now, within_seconds)[j],
                now,
                within_seconds,
            ),
    decreases times.len(),
{
    if times.len() > 0 {
        lemma_prune_in_window(times.drop_last(), now, within_seconds);
    }
}

/// The restart targets by strategy: with one-for-one exactly the failed
/// child, with one-for-all every started child in start order.
pub proof fn lemma_targets_by_strategy(order: Seq<Seq<char>>, failed: Seq<char>)
    ensures
        restart_targets(RestartStrategy::OneForOne, order, failed) == seq![failed],
        restart_targets(RestartStrategy::OneForAll, order, failed) == order,
{
}

/// With rest-for-one, the targets are the failed child and every child
/// started after its first start, in start order.
pub proof fn lemma_rest_for_one_targets(order: Seq<Seq<char>>, failed: Seq<char>, k: int)
    requires
        0 <= k < order.len(),
        order[k] == failed,
        forall|j: int| 0 <= j < k ==> order[j] != failed,
    ensures
        restart_targets(RestartStrategy::RestForOne, order, failed) == order.subrange(k, order.len() as int),
{
    let c = choose|c: int|
        0 <= c < order.len() && order[c] == failed && forall|j: int| 0 <= j < c ==> order[j] != failed;
    assert(c == k) by {
        if c < k {
            assert(order[c] != failed);
        }
        if c > k {
            assert(order[k] != failed);
        }
    }
}

/// Children named for restart are stopped first: every child (ids being
/// distinct) whose id is among the targets and whose process is not the one
/// that failed has its current process among those to stop, and the failed
/// process is never among them.
pub proof fn lemma_targets_stopped_before_restart(
    cs: Seq<ChildView>,
    targets: Seq<Seq<char>>,
    failed: Pid,
    j: int,
)
    requires
        forall|a: int, b: int| 0 <= a < b < cs.len() ==> cs[a].0 != cs[b].0,
        0 <= j < cs.len(),
        targets.contains(cs[j].0),
        cs[j].1 != failed,
    ensures
        stop_pids(cs, targets, failed).contains(cs[j].1),
        !stop_pids(cs, targets, failed).contains(failed),
    decreases targets.len(),
{
    let rest = stop_pids(cs, targets.drop_last(), failed);
    lemma_failed_never_stopped(cs, targets.drop_last(), failed);
    if targets.last() == cs[j].0 {
        let i = choose|i: int| 0 <= i < cs.len() && cs[i].0 == cs[j].0;
        assert(0 <= i < cs.len() && cs[i].0 == cs[j].0);
        assert(i == j);
        assert(stop_pids(cs, targets, failed) == rest.push(cs[j].1));
        assert(stop_pids(cs, targets, failed).last() == cs[j].1);
    } else {
        let k = choose|k: int| 0 <= k < targets.len() && targets[k] == cs[j].0;
        assert(targets.drop_last()[k] == cs[j].0);
        lemma_targets_stopped_before_restart(cs, targets.drop_last(), failed, j);
        let w = choose|w: int| 0 <= w < rest.len() && rest[w] == cs[j].1;
        match child_index(cs, targets.last()) {
            Some(i) => if cs[i].1 != failed {
                assert(stop_pids(cs, targets, failed)[w] == cs[j].1);
            } else {
            },
            None => {},
        }
    }
    lemma_failed_never_stopped(cs, targets, failed);
}

/// The failed process is never among those to stop.
pub proof fn lemma_failed_never_stopped(cs: Seq<ChildView>, targets: Seq<Seq<char>>, failed: Pid)
    ensures
        !stop_pids(cs, targets, failed).contains(failed),
    decreases targets.len(),
{
    if targets.len() > 0 {
        lemma_failed_never_stopped(cs, targets.drop_last(), failed);
        let rest = stop_pids(cs, targets.drop_last(), failed);
        match child_index(cs, targets.last()) {
            Some(i) => if cs[i].1 != failed {
                assert forall|w: int| 0 <= w < rest.len() + 1 implies rest.push(cs[i].1)[w] != failed by {
                    if w < rest.len() {
                        assert(rest[w] != failed);
                    }
                }
            } else {
            },
            None => {},
        }
    }
}

/// Pruning keeps exactly the restart times that still count, in their
/// order: those `t` with `t + within_seconds` seconds later than `now`.
pub proof fn lemma_prune_keeps_exactly_the_window(times: Seq<u64>, now: u64, within_seconds: u64)
    ensures
        prune(times, now, within_seconds) == times.filter(
            |t: u64| t + within_seconds * 1_000_000_000 > now,
        ),
    decreases times.len(),
{
    reveal(Seq::filter);
    if times.len() > 0 {
        lemma_prune_keeps_exactly_the_window(times.drop_last(), now, within_seconds);
    }
}

/// Restart intensity stops the supervisor: a child that already has
/// `max_restarts` restart times, each within the last `within_seconds`
/// seconds of `now`, is not restarted at `now`; and one with fewer restart
/// times recorded at all is restarted, its restart at `now` recorded after
/// the ones that still count.
pub proof fn lemma_intensity_limit_reached(c: ChildView, now: u64, intensity: RestartIntensity)
    ensures
        c.2.len() >= intensity.max_restarts && (forall|j: int|
            0 <= j < c.2.len() ==> #[trigger] c.2[j] + intensity.within_seconds * 1_000_000_000 > now)
            ==> !restart_one(c, now, intensity).1,
        c.2.len() < intensity.max_restarts ==> restart_one(c, now, intensity).1
            && restart_one(c, now, intensity).0.2 == c.2.filter(
            |t: u64| t + intensity.within_seconds * 1_000_000_000 > now,
        ).push(now),
{
    lemma_prune_keeps_exactly_the_window(c.2, now, intensity.within_seconds);
    lemma_prune_in_window(c.2, now, intensity.within_seconds);
    let f = |t: u64| t + intensity.within_seconds * 1_000_000_000 > now;
    if c.2.len() >= intensity.max_restarts && (forall|j: int|
        0 <= j < c.2.len() ==> #[trigger] c.2[j] + intensity.within_seconds * 1_000_000_000 > now) {
        assert(c.2.filter(f) =~= c.2) by {
            lemma_filter_all(c.2, f);
        }
    }
}

proof fn lemma_filter_all(s: Seq<u64>, f: spec_fn(u64) -> bool)
    requires
        forall|j: int| 0 <= j < s.len() ==> f(#[trigger] s[j]),
    ensures
        s.filter(f) == s,
    decreases s.len(),
{
    reveal(Seq::filter);
    if s.len() > 0 {
        lemma_filter_all(s.drop_last(), f);
        assert(s.drop_last().push(s.last()) =~= s);
    } else {
        assert(s.filter(f) =~= s);
    }
}

} // verus!
