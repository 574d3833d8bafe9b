//! The decisions of the task handler's main loop, apart from the threads and
//! channels that carry them out: which workers to respawn, which worker a
//! task goes to, who is told that a task is done, and the ids of workers
//! started for long running tasks.
//!
//! The caller runs the loop: it receives an event, asks the core what to do,
//! does it (starting or stopping threads, sending messages) and reports
//! back the workers it started.

use vstd::prelude::*;
use std::collections::HashMap;

verus! {

broadcast use vstd::std_specs::hash::group_hash_axioms;

/// A number drawn at random from `0..upper`.
///
/// Calls `rand::random_range(0..upper)`, which draws from the range with the
/// thread-local generator and panics on an empty range; the value drawn is
/// not stated beyond lying in the range.
#[verifier::external_body]
fn random_below(upper: usize) -> (r: usize)
    requires
        upper > 0,
    ensures
        r < upper,
{
    rand::random_range(0..upper)
}

/// The state of the main loop: the pool of workers (each with its id), the
/// subscriber waiting for each task, and how many workers were started for
/// long running tasks.
pub struct HandlerCore<W, S> {
    max_workers: u64,
    workers: Vec<(u64, W)>,
    subscribers: HashMap<u128, S>,
    long_worker_count: u64,
}

/// The ids of a list of workers.
pub open spec fn worker_ids<W>(ws: Seq<(u64, W)>) -> Seq<u64> {
    ws.map_values(|p: (u64, W)| p.0)
}

/// The workers whose flag is set (`keep == true`) or unset (`keep ==
/// false`), in order.
pub open spec fn select_by_flag<W>(ws: Seq<(u64, W)>, running: Seq<bool>, keep: bool) -> Seq<(u64, W)>
    decreases ws.len(),
{
    if ws.len() == 0 || running.len() != ws.len() {
        Seq::empty()
    } else {
        let r = select_by_flag(ws.drop_last(), running.drop_last(), keep);
        if running.last() == keep {
            r.push(ws.last())
        } else {
            r
        }
    }
}

/// The ids of a full pool of `max` workers: `0..max`, in order.
pub open spec fn pool_ids(max: u64) -> Seq<u64> {
    Seq::new(max as nat, |i: int| i as u64)
}

/// A change to who waits for which task: what
/// [`HandlerCore::register_subscriber`] and
/// [`HandlerCore::unregister_subscriber`] do.
pub enum SubscriberChange<S> {
    Register(u128, S),
    Unregister(u128),
}

/// The task a change is about.
pub open spec fn change_task<S>(c: SubscriberChange<S>) -> u128 {
    match c {
        SubscriberChange::Register(t, _) => t,
        SubscriberChange::Unregister(t) => t,
    }
}

/// The subscribers after the changes, applied in order.
pub open spec fn apply_subscriber_changes<S>(m: Map<u128, S>, cs: Seq<SubscriberChange<S>>) -> Map<
    u128,
    S,
>
    decreases cs.len(),
{
    if cs.len() == 0 {
        m
    } else {
        let before = apply_subscriber_changes(m, cs.drop_last());
        match cs.last() {
            SubscriberChange::Register(t, s) => before.insert(t, s),
            SubscriberChange::Unregister(t) => before.remove(t),
        }
    }
}

/// The id of the `k`-th worker started for a long running task (counting
/// from 1) in a handler whose pool holds up to `max` workers.
pub open spec fn long_worker_id(max: u64, k: nat) -> int {
    max + k
}

/// How many flags are set.
pub open spec fn count_running(running: Seq<bool>) -> nat
    decreases running.len(),
{
    if running.len() == 0 {
        0
    } else {
        count_running(running.drop_last()) + if running.last() {
            1nat
        } else {
            0nat
        }
    }
}

impl<W, S> HandlerCore<W, S> {
    /// The maximum number of pool workers.
    pub closed spec fn max_spec(&self) -> u64 {
        self.max_workers
    }

    /// The pool workers, with their ids, in order.
    pub closed spec fn workers_spec(&self) -> Seq<(u64, W)> {
        self.workers@
    }

    /// The subscriber of each task.
    pub closed spec fn subscribers_spec(&self) -> Map<u128, S> {
        self.subscribers@
    }

    /// How many long running workers were started.
    pub closed spec fn long_count_spec(&self) -> u64 {
        self.long_worker_count
    }

    /// The pool never holds more than `max_workers` workers, and no two of
    /// them share an id.
    pub open spec fn wf(&self) -> bool {
        &&& self.workers_spec().len() <= self.max_spec()
        &&& worker_ids(self.workers_spec()).no_duplicates()
    }

    /// A core for a pool of at most `max_workers` workers, with no workers
    /// yet and no subscribers.
    pub fn new(max_workers: u64) -> (r: Self)
        ensures
            r.wf(),
            r.max_spec() == max_workers,
            r.workers_spec().len() == 0,
            r.subscribers_spec() == Map::<u128, S>::empty(),
            r.long_count_spec() == 0,
    {
        let r = HandlerCore {
            max_workers,
            workers: Vec::new(),
            subscribers: HashMap::new(),
            long_worker_count: 0,
        };
        assert(worker_ids(r.workers@) =~= Seq::<u64>::empty());
        r
    }

    /// The ids of the workers the pool starts with: `0..max_workers`.
    pub fn initial_worker_ids(&self) -> (r: Vec<u64>)
        ensures
            r@.len() == self.max_spec(),
            forall|i: int| 0 <= i < r@.len() ==> #[trigger] r@[i] == i,
            r@ == pool_ids(self.max_spec()),
    {
        let mut r: Vec<u64> = Vec::new();
        let mut i: u64 = 0;
        while i < self.max_workers
            invariant
                i <= self.max_workers,
                r@.len() == i,
                forall|k: int| 0 <= k < r@.len() ==> #[trigger] r@[k] == k,
            decreases self.max_workers - i,
        {
            r.push(i);
            i = i + 1;
        }
        assert(r@ =~= pool_ids(self.max_workers));
        r
    }

    /// How many workers the pool holds.
    pub fn worker_count(&self) -> (r: usize)
        ensures
            r == self.workers_spec().len(),
    {
        self.workers.len()
    }

    /// The ids of the pool workers, in order.
    pub fn ids(&self) -> (r: Vec<u64>)
        ensures
            r@ == worker_ids(self.workers_spec()),
    {
        let mut r: Vec<u64> = Vec::new();
        let mut i: usize = 0;
        while i < self.workers.len()
            invariant
                i <= self.workers.len(),
                r@ == worker_ids(self.workers@).take(i as int),
            decreases self.workers.len() - i,
        {
            r.push(self.workers[i].0);
            assert(worker_ids(self.workers@).take(i as int + 1) =~= r@);
            i = i + 1;
        }
        assert(worker_ids(self.workers@).take(self.workers.len() as int) =~= worker_ids(
            self.workers@,
        ));
        r
    }

    /// The pool worker at position `i`.
    pub fn worker_at(&self, i: usize) -> (r: &W)
        requires
            i < self.workers_spec().len(),
        ensures
            *r == self.workers_spec()[i as int].1,
    {
        &self.workers[i].1
    }

    /// Adds a started worker with the id `id` to the pool.
    pub fn add_worker(&mut self, id: u64, worker: W)
        requires
            old(self).wf(),
            old(self).workers_spec().len() < old(self).max_spec(),
            !worker_ids(old(self).workers_spec()).contains(id),
        ensures
            final(self).wf(),
            final(self).workers_spec() == old(self).workers_spec().push((id, worker)),
            final(self).max_spec() == old(self).max_spec(),
            final(self).subscribers_spec() == old(self).subscribers_spec(),
            final(self).long_count_spec() == old(self).long_count_spec(),
    {
        let ghost before = worker_ids(self.workers@);
        self.workers.push((id, worker));
        proof {
            let ids = worker_ids(self.workers@);
            assert(ids =~= before.push(id));
            assert forall|a: int, b: int| 0 <= a < ids.len() && 0 <= b < ids.len() && a != b implies ids[a]
                != ids[b] by {
                if a == ids.len() - 1 {
                    assert(before[b] == ids[b]);
                } else if b == ids.len() - 1 {
                    assert(before[a] == ids[a]);
                }
            }
        }
    }

    /// A task arrived: when fewer than `max_workers` workers run
    /// (`running[i]` tells whether the i-th worker still runs), the stopped
    /// ones leave the pool and their ids are returned, in order, to be
    /// respawned. Otherwise nothing changes.
    pub fn on_process_task(&mut self, running: &Vec<bool>) -> (respawn: Vec<u64>)
        requires
            old(self).wf(),
            running@.len() == old(self).workers_spec().len(),
        ensures
            final(self).wf(),
            final(self).max_spec() == old(self).max_spec(),
            final(self).subscribers_spec() == old(self).subscribers_spec(),
            final(self).long_count_spec() == old(self).long_count_spec(),
            count_running(running@) == old(self).max_spec() ==> final(self).workers_spec() == old(
                self,
            ).workers_spec() && respawn@.len() == 0,
            count_running(running@) != old(self).max_spec() ==> final(self).workers_spec()
                == select_by_flag(old(self).workers_spec(), running@, true) && respawn@
                == worker_ids(select_by_flag(old(self).workers_spec(), running@, false)),
    {
        let mut active: u64 = 0;
        let mut i: usize = 0;
        while i < running.len()
            invariant
                i <= running.len(),
                running@.len() == self.workers@.len(),
                self.workers@.len() <= self.max_workers,
                active == count_running(running@.take(i as int)),
                active <= i,
            decreases running.len() - i,
        {
            assert(running@.take(i as int + 1).drop_last() =~= running@.take(i as int));
            if running[i] {
                active = active + 1;
            }
            i = i + 1;
        }
        assert(running@.take(running.len() as int) =~= running@);
        if active == self.max_workers {
            return Vec::new();
        }
        let ghost old_ws = self.workers@;
        let mut kept: Vec<(u64, W)> = Vec::new();
        let mut respawn: Vec<u64> = Vec::new();
        let mut rest: Vec<(u64, W)> = Vec::new();
        std::mem::swap(&mut rest, &mut self.workers);
        assert(rest@ == old_ws);
        let mut j: usize = 0;
        while j < running.len()
            invariant
                j <= running.len(),
                running@.len() == old_ws.len(),
                rest@ == old_ws.skip(j as int),
                kept@ == select_by_flag(old_ws.take(j as int), running@.take(j as int), true),
                respawn@ == worker_ids(
                    select_by_flag(old_ws.take(j as int), running@.take(j as int), false),
                ),
            decreases running.len() - j,
        {
            let w = rest.remove(0);
            assert(w == old_ws[j as int]);
            assert(old_ws.skip(j as int).remove(0) =~= old_ws.skip(j as int + 1));
            assert(old_ws.take(j as int + 1).drop_last() =~= old_ws.take(j as int));
            assert(running@.take(j as int + 1).drop_last() =~= running@.take(j as int));
            assert(old_ws.take(j as int + 1).last() == w);
            assert(running@.take(j as int + 1).last() == running@[j as int]);
            let ghost before = select_by_flag(old_ws.take(j as int), running@.take(j as int), false);
            if running[j] {
                kept.push(w);
            } else {
                respawn.push(w.0);
                assert(worker_ids(before.push(w)) =~= worker_ids(before).push(w.0));
            }
            j = j + 1;
        }
        assert(old_ws.take(running.len() as int) =~= old_ws);
        assert(running@.take(running.len() as int) =~= running@);
        self.workers = kept;
        proof {
            lemma_select_keeps_distinct(old_ws, running@, true);
            lemma_select_len(old_ws, running@, true);
        }
        respawn
    }

    /// The worker that gets the next task: one of the pool, drawn at random.
    pub fn pick_worker(&self) -> (r: &W)
        requires
            self.workers_spec().len() > 0,
        ensures
            exists|i: int| 0 <= i < self.workers_spec().len() && *r == self.workers_spec()[i].1,
    {
        let i = random_below(self.workers.len());
        assert(self.workers_spec()[i as int].1 == self.workers@[i as int].1);
        &self.workers[i].1
    }

    /// The subscriber waiting for `task`, if any, to be told it is done.
    pub fn subscriber(&self, task: u128) -> (r: Option<&S>)
        ensures
            r matches Some(s) ==> self.subscribers_spec().contains_key(task) && *s
                == self.subscribers_spec()[task],
            r is None ==> !self.subscribers_spec().contains_key(task),
    {
        self.subscribers.get(&task)
    }

    /// `subscriber` waits for `task` from now on (replacing any other).
    pub fn register_subscriber(&mut self, task: u128, subscriber: S)
        requires
            old(self).wf(),
        ensures
            final(self).wf(),
            final(self).subscribers_spec() == old(self).subscribers_spec().insert(task, subscriber),
            final(self).workers_spec() == old(self).workers_spec(),
            final(self).max_spec() == old(self).max_spec(),
            final(self).long_count_spec() == old(self).long_count_spec(),
    {
        self.subscribers.insert(task, subscriber);
    }

    /// Nobody waits for `task` any more; the subscriber that did is
    /// returned.
    pub fn unregister_subscriber(&mut self, task: u128) -> (r: Option<S>)
        requires
            old(self).wf(),
        ensures
            final(self).wf(),
            final(self).subscribers_spec() == old(self).subscribers_spec().remove(task),
            r matches Some(s) ==> old(self).subscribers_spec().contains_key(task) && s == old(
                self,
            ).subscribers_spec()[task],
            r is None ==> !old(self).subscribers_spec().contains_key(task),
            final(self).workers_spec() == old(self).workers_spec(),
            final(self).max_spec() == old(self).max_spec(),
            final(self).long_count_spec() == old(self).long_count_spec(),
    {
        self.subscribers.remove(&task)
    }

    /// The id of the next worker started for a long running task: one more
    /// long running worker, numbered after the pool's ids.
    pub fn next_long_worker_id(&mut self) -> (r: u64)
        requires
            old(self).wf(),
            old(self).long_count_spec() + 1 + old(self).max_spec() <= u64::MAX,
        ensures
            final(self).wf(),
            final(self).long_count_spec() == old(self).long_count_spec() + 1,
            r == final(self).long_count_spec() + final(self).max_spec(),
            r == long_worker_id(final(self).max_spec(), final(self).long_count_spec() as nat),
            final(self).workers_spec() == old(self).workers_spec(),
            final(self).max_spec() == old(self).max_spec(),
            final(self).subscribers_spec() == old(self).subscribers_spec(),
    {
        self.long_worker_count = self.long_worker_count + 1;
        self.long_worker_count + self.max_workers
    }

    /// Whether another long running worker can be numbered without the id
    /// overflowing.
    pub fn can_number_long_worker(&self) -> (r: bool)
        ensures
            r == (self.long_count_spec() + 1 + self.max_spec() <= u64::MAX),
    {
        self.long_worker_count < u64::MAX && self.max_workers <= u64::MAX - (self.long_worker_count
            + 1)
    }

    /// Shutting down: the pool workers, in order, to be stopped and joined.
    pub fn into_workers(self) -> (r: Vec<W>)
        ensures
            r@ == self.workers_spec().map_values(|p: (u64, W)| p.1),
    {
        let HandlerCore { workers, .. } = self;
        let ghost ws = workers@;
        let mut rest = workers;
        let mut out: Vec<W> = Vec::new();
        let ghost mut i: int = 0;
        while rest.len() > 0
            invariant
                0 <= i,
                i + rest@.len() == ws.len(),
                rest@ == ws.skip(i as int),
                out@ == ws.take(i as int).map_values(|p: (u64, W)| p.1),
            decreases rest@.len(),
        {
            let pair = rest.remove(0);
            assert(pair == ws[i]);
            let w = pair.1;
            assert(ws.skip(i as int).remove(0) =~= ws.skip(i as int + 1));
            assert(ws.take(i as int + 1).map_values(|p: (u64, W)| p.1) =~= out@.push(w));
            out.push(w);
            proof {
                i = i + 1;
            }
        }
        assert(ws.take(i as int) =~= ws);
        out
    }
}

proof fn lemma_select_len<W>(ws: Seq<(u64, W)>, running: Seq<bool>, keep: bool)
    ensures
        select_by_flag(ws, running, keep).len() <= ws.len(),
    decreases ws.len(),
{
    if ws.len() > 0 && running.len() == ws.len() {
        lemma_select_len(ws.drop_last(), running.drop_last(), keep);
    }
}

proof fn lemma_select_subset<W>(ws: Seq<(u64, W)>, running: Seq<bool>, keep: bool)
    ensures
        forall|i: int|
            0 <= i < select_by_flag(ws, running, keep).len() ==> #[trigger] worker_ids(ws).contains(
                select_by_flag(ws, running, keep)[i].0,
            ),
    decreases ws.len(),
{
    if ws.len() > 0 && running.len() == ws.len() {
        let d = ws.drop_last();
        lemma_select_subset(d, running.drop_last(), keep);
        let s = select_by_flag(ws, running, keep);
        assert forall|i: int| 0 <= i < s.len() implies #[trigger] worker_ids(ws).contains(s[i].0) by {
            let r = select_by_flag(d, running.drop_last(), keep);
            if i < r.len() {
                assert(s[i] == r[i]);
                assert(worker_ids(d).contains(r[i].0));
                let k = choose|k: int| 0 <= k < worker_ids(d).len() && worker_ids(d)[k] == r[i].0;
                assert(worker_ids(d)[k] == d[k].0);
                assert(d[k] == ws[k]);
                assert(worker_ids(ws)[k] == r[i].0);
            } else {
                assert(worker_ids(ws)[ws.len() - 1] == s[i].0);
            }
        }
    }
}

/// Keeping some of the workers keeps their ids distinct.
proof fn lemma_select_keeps_distinct<W>(ws: Seq<(u64, W)>, running: Seq<bool>, keep: bool)
    requires
        worker_ids(ws).no_duplicates(),
    ensures
        worker_ids(select_by_flag(ws, running, keep)).no_duplicates(),
    decreases ws.len(),
{
    if ws.len() > 0 && running.len() == ws.len() {
        let d = ws.drop_last();
        assert(worker_ids(d) =~= worker_ids(ws).drop_last());
        lemma_select_keeps_distinct(d, running.drop_last(), keep);
        let r = select_by_flag(d, running.drop_last(), keep);
        if running.last() == keep {
            lemma_select_subset(d, running.drop_last(), keep);
            let ids = worker_ids(r.push(ws.last()));
            assert(ids =~= worker_ids(r).push(ws.last().0));
            assert forall|a: int, b: int| 0 <= a < ids.len() && 0 <= b < ids.len() && a != b implies ids[a]
                != ids[b] by {
                if a == ids.len() - 1 || b == ids.len() - 1 {
                    let o = if a == ids.len() - 1 { b } else { a };
                    assert(worker_ids(r)[o] == r[o].0);
                    assert(worker_ids(d).contains(r[o].0));
                    let k = choose|k: int| 0 <= k < worker_ids(d).len() && worker_ids(d)[k] == r[o].0;
                    assert(worker_ids(d)[k] == d[k].0);
                    assert(d[k] == ws[k]);
                    assert(worker_ids(ws)[k] == r[o].0);
                    assert(worker_ids(ws)[ws.len() - 1] == ws.last().0);
                } else {
                    assert(worker_ids(r)[a] == ids[a]);
                    assert(worker_ids(r)[b] == ids[b]);
                }
            }
        }
    }
}

} // verus!
