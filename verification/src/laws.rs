use vstd::multiset::Multiset;
use vstd::prelude::*;

use crate::sched::BaseScheduler;
use crate::smp::QueueSlot;
use crate::smp::SmpScheduler;
use crate::task::Task;
use crate::ScheduleHart;

verus! {

/// The identities of all tasks queued anywhere in a sequence of slots.
pub open spec fn total_of<S: BaseScheduler>(slots: Seq<QueueSlot<S>>) -> Multiset<u64>
    decreases slots.len(),
{
    if slots.len() == 0 {
        Multiset::<u64>::empty()
    } else {
        total_of(slots.drop_last()).add(slots.last().sched.task_ids())
    }
}

impl<S: BaseScheduler, H: ScheduleHart> SmpScheduler<S, H> {
    /// The identities of all tasks queued on any hart of this dispatcher.
    pub open spec fn all_tasks(&self) -> Multiset<u64> {
        total_of(self.slots@)
    }
}

/// A single hart's queue is included in the total: no identity occurs on
/// one hart more often than it occurs in the dispatcher as a whole.
pub proof fn lemma_queue_le_total<S: BaseScheduler>(slots: Seq<QueueSlot<S>>, j: int, x: u64)
    requires
        0 <= j < slots.len(),
    ensures
        total_of(slots).count(x) >= slots[j].sched.task_ids().count(x),
    decreases slots.len(),
{
    broadcast use vstd::multiset::group_multiset_axioms;

    if j < slots.len() - 1 {
        lemma_queue_le_total(slots.drop_last(), j, x);
        assert(slots.drop_last()[j] == slots[j]);
    }
}

/// The total only depends on what each slot's queue holds, not on the rest
/// of the slot's state.
pub proof fn lemma_total_congruent<S: BaseScheduler>(a: Seq<QueueSlot<S>>, b: Seq<QueueSlot<S>>)
    requires
        a.len() == b.len(),
        forall|k: int|
            0 <= k < a.len() ==> (#[trigger] b[k]).sched.task_ids() == a[k].sched.task_ids(),
    ensures
        total_of(a) == total_of(b),
    decreases a.len(),
{
    if a.len() > 0 {
        lemma_total_congruent(a.drop_last(), b.drop_last());
        assert(b.last().sched.task_ids() == a.last().sched.task_ids());
    }
}

/// When exactly one slot's queue changes, the total changes by exactly the
/// same amount, for every identity.
pub proof fn lemma_total_update<S: BaseScheduler>(
    pre: Seq<QueueSlot<S>>,
    post: Seq<QueueSlot<S>>,
    j: int,
    x: u64,
)
    requires
        pre.len() == post.len(),
        0 <= j < pre.len(),
        forall|k: int|
            0 <= k < pre.len() && k != j ==> (#[trigger] post[k]).sched.task_ids()
                == pre[k].sched.task_ids(),
    ensures
        total_of(post).count(x) + pre[j].sched.task_ids().count(x) == total_of(pre).count(x)
            + post[j].sched.task_ids().count(x),
    decreases pre.len(),
{
    broadcast use vstd::multiset::group_multiset_axioms;

    if j == pre.len() - 1 {
        lemma_total_congruent(pre.drop_last(), post.drop_last());
    } else {
        lemma_total_update(pre.drop_last(), post.drop_last(), j, x);
        assert(pre.drop_last()[j] == pre[j]);
        assert(post.drop_last()[j] == post[j]);
        assert(post.last().sched.task_ids() == pre.last().sched.task_ids());
    }
}

/// A successful pick hands the task's identity over: one occurrence leaves
/// the dispatcher's queues, wherever the task was taken from.
pub proof fn lemma_pick_removes_from_total<S: BaseScheduler, H: ScheduleHart>(
    pre: SmpScheduler<S, H>,
    post: SmpScheduler<S, H>,
    h: int,
    t: Task,
)
    requires
        0 <= h < pre.hart_count(),
        SmpScheduler::pick_post(pre, post, h, Some(t)),
    ensures
        pre.all_tasks().contains(t.id),
        post.all_tasks() == pre.all_tasks().remove(t.id),
{
    broadcast use vstd::multiset::group_multiset_axioms;

    let src: int = if pre.queue(h).len() > 0 {
        h
    } else {
        choose|j: int| SmpScheduler::steal_post(pre, post, h, j, t)
    };
    if pre.queue(h).len() == 0 {
        assert(SmpScheduler::steal_post(pre, post, h, src, t));
    }
    assert forall|k: int| 0 <= k < pre.slots@.len() && k != src implies (
    #[trigger] post.slots@[k]).sched.task_ids() == pre.slots@[k].sched.task_ids() by {
        assert(post.queue(k) == pre.queue(k));
    }
    lemma_total_update(pre.slots@, post.slots@, src, t.id);
    lemma_queue_le_total(pre.slots@, src, t.id);
    assert forall|x: u64| post.all_tasks().count(x) == pre.all_tasks().remove(t.id).count(
        x,
    ) by {
        lemma_total_update(pre.slots@, post.slots@, src, x);
    }
    assert(post.all_tasks() =~= pre.all_tasks().remove(t.id));
}

/// Putting a task back hands its identity over to the queues again: one
/// occurrence re-enters the dispatcher, so a later pick may deliver it.
pub proof fn lemma_enqueue_adds_to_total<S: BaseScheduler, H: ScheduleHart>(
    pre: SmpScheduler<S, H>,
    post: SmpScheduler<S, H>,
    h: int,
    id: u64,
)
    requires
        0 <= h < pre.hart_count(),
        SmpScheduler::enqueue_post(pre, post, h, id),
    ensures
        post.all_tasks().count(id) == pre.all_tasks().count(id) + 1,
{
    broadcast use vstd::multiset::group_multiset_axioms;

    assert forall|k: int| 0 <= k < pre.slots@.len() && k != h implies (
    #[trigger] post.slots@[k]).sched.task_ids() == pre.slots@[k].sched.task_ids() by {
        assert(post.slots@[k] == pre.slots@[k]);
    }
    lemma_total_update(pre.slots@, post.slots@, h, id);
}

/// The identities delivered by a sequence of pick results, with
/// multiplicity.
pub open spec fn delivered(results: Seq<Option<Task>>) -> Multiset<u64>
    decreases results.len(),
{
    if results.len() == 0 {
        Multiset::<u64>::empty()
    } else {
        match results.last() {
            Some(t) => delivered(results.drop_last()).insert(t.id),
            None => delivered(results.drop_last()),
        }
    }
}

/// A run of the pick protocol: `states` are the dispatcher states between
/// the calls, and the pick on hart `harts[i]` took the dispatcher from
/// `states[i]` to `states[i + 1]` and returned `results[i]`.
pub open spec fn pick_chain<S: BaseScheduler, H: ScheduleHart>(
    states: Seq<SmpScheduler<S, H>>,
    harts: Seq<int>,
    results: Seq<Option<Task>>,
) -> bool {
    &&& states.len() == results.len() + 1
    &&& harts.len() == results.len()
    &&& forall|i: int| 0 <= i < results.len() ==> 0 <= #[trigger] harts[i] < states[i].hart_count()
    &&& forall|i: int|
        0 <= i < results.len() ==> #[trigger] SmpScheduler::pick_post(
            states[i],
            states[i + 1],
            harts[i],
            results[i],
        )
}

/// Conservation of tasks over a run of picks: what was delivered, together
/// with what is still queued, is exactly what was queued at the start —
/// nothing is lost and nothing is invented.
pub proof fn lemma_delivery_conservation<S: BaseScheduler, H: ScheduleHart>(
    states: Seq<SmpScheduler<S, H>>,
    harts: Seq<int>,
    results: Seq<Option<Task>>,
)
    requires
        pick_chain(states, harts, results),
    ensures
        states[0].all_tasks() == delivered(results).add(states.last().all_tasks()),
    decreases results.len(),
{
    broadcast use vstd::multiset::group_multiset_axioms;

    let n: int = results.len() as int;
    if n == 0 {
        assert(states[0].all_tasks() =~= delivered(results).add(states.last().all_tasks()));
    } else {
        assert(pick_chain(states.drop_last(), harts.drop_last(), results.drop_last())) by {
            assert forall|i: int| 0 <= i < n - 1 implies 0 <= #[trigger] harts.drop_last()[i]
                < states.drop_last()[i].hart_count() by {
                assert(harts.drop_last()[i] == harts[i]);
            }
            assert forall|i: int| 0 <= i < n - 1 implies #[trigger] SmpScheduler::pick_post(
                states.drop_last()[i],
                states.drop_last()[i + 1],
                harts.drop_last()[i],
                results.drop_last()[i],
            ) by {
                assert(SmpScheduler::pick_post(states[i], states[i + 1], harts[i], results[i]));
            }
        }
        lemma_delivery_conservation(states.drop_last(), harts.drop_last(), results.drop_last());
        assert(states.drop_last().last() == states[n - 1]);
        assert(SmpScheduler::pick_post(states[n - 1], states[n], harts[n - 1], results[n - 1]));
        match results[n - 1] {
            Some(t) => {
                lemma_pick_removes_from_total(states[n - 1], states[n], harts[n - 1], t);
                assert(states[0].all_tasks() =~= delivered(results).add(states[n].all_tasks()));
            },
            None => {
                assert forall|k: int| 0 <= k < states[n - 1].slots@.len() implies (
                #[trigger] states[n].slots@[k]).sched.task_ids()
                    == states[n - 1].slots@[k].sched.task_ids() by {
                    assert(states[n].queue(k) == states[n - 1].queue(k));
                }
                lemma_total_congruent(states[n - 1].slots@, states[n].slots@);
            },
        }
        assert(states.last() == states[n]);
    }
}

/// A pick that handed a task out contributes its identity to the delivered
/// multiset.
proof fn lemma_delivered_entry(results: Seq<Option<Task>>, i: int, t: Task)
    requires
        0 <= i < results.len(),
        results[i] == Some(t),
    ensures
        delivered(results).count(t.id) >= 1,
    decreases results.len(),
{
    broadcast use vstd::multiset::group_multiset_axioms;

    if i < results.len() - 1 {
        assert(results.drop_last()[i] == results[i]);
        lemma_delivered_entry(results.drop_last(), i, t);
    }
}

/// Two picks that handed out the same identity contribute it twice.
proof fn lemma_delivered_pair(results: Seq<Option<Task>>, i: int, j: int, u: Task, v: Task)
    requires
        0 <= i < j < results.len(),
        results[i] == Some(u),
        results[j] == Some(v),
        u.id == v.id,
    ensures
        delivered(results).count(u.id) >= 2,
    decreases results.len(),
{
    broadcast use vstd::multiset::group_multiset_axioms;

    if j == results.len() - 1 {
        assert(results.drop_last()[i] == results[i]);
        lemma_delivered_entry(results.drop_last(), i, u);
    } else {
        assert(results.drop_last()[i] == results[i]);
        assert(results.drop_last()[j] == results[j]);
        lemma_delivered_pair(results.drop_last(), i, j, u, v);
    }
}

/// Law of no double delivery: over any run of picks that starts from a
/// state in which every task identity is queued at most once, no two picks
/// deliver the same identity.
pub proof fn lemma_no_double_delivery<S: BaseScheduler, H: ScheduleHart>(
    states: Seq<SmpScheduler<S, H>>,
    harts: Seq<int>,
    results: Seq<Option<Task>>,
    i: int,
    j: int,
    u: Task,
    v: Task,
)
    requires
        pick_chain(states, harts, results),
        forall|x: u64| states[0].all_tasks().count(x) <= 1,
        0 <= i < j < results.len(),
        results[i] == Some(u),
        results[j] == Some(v),
    ensures
        u.id != v.id,
{
    broadcast use vstd::multiset::group_multiset_axioms;

    if u.id == v.id {
        lemma_delivery_conservation(states, harts, results);
        lemma_delivered_pair(results, i, j, u, v);
        assert(states[0].all_tasks().count(u.id) >= delivered(results).count(u.id));
        assert(false);
    }
}

/// A dispatcher whose every queue is empty holds no tasks at all.
pub proof fn lemma_total_empty<S: BaseScheduler>(slots: Seq<QueueSlot<S>>)
    requires
        forall|k: int| 0 <= k < slots.len() ==> (#[trigger] slots[k]).sched.task_ids().len() == 0,
    ensures
        total_of(slots) == Multiset::<u64>::empty(),
    decreases slots.len(),
{
    broadcast use vstd::multiset::group_multiset_axioms;
    broadcast use vstd::multiset::lemma_multiset_empty_len;

    if slots.len() > 0 {
        lemma_total_empty(slots.drop_last());
        assert(slots.last().sched.task_ids() =~= Multiset::<u64>::empty());
        assert(total_of(slots) =~= Multiset::<u64>::empty());
    }
}

/// Law of full delivery: a run of picks that drains every queue has
/// delivered exactly the tasks that were queued at the start — each one to
/// exactly one caller.
pub proof fn lemma_all_delivered<S: BaseScheduler, H: ScheduleHart>(
    states: Seq<SmpScheduler<S, H>>,
    harts: Seq<int>,
    results: Seq<Option<Task>>,
)
    requires
        pick_chain(states, harts, results),
        forall|k: int|
            0 <= k < states.last().hart_count() ==> states.last().queue(k).len() == 0,
    ensures
        delivered(results) == states[0].all_tasks(),
{
    broadcast use vstd::multiset::group_multiset_axioms;

    lemma_delivery_conservation(states, harts, results);
    assert forall|k: int| 0 <= k < states.last().slots@.len() implies (
    #[trigger] states.last().slots@[k]).sched.task_ids().len() == 0 by {
        assert(states.last().queue(k).len() == 0);
    }
    lemma_total_empty(states.last().slots@);
    assert(delivered(results) =~= states[0].all_tasks());
}

/// Law of single ownership: once a pick has delivered the only occurrence
/// of a task to some hart, no later pick on any hart can deliver that task
/// again until it has been put back.
pub proof fn lemma_single_ownership<S: BaseScheduler, H: ScheduleHart>(
    s0: SmpScheduler<S, H>,
    s1: SmpScheduler<S, H>,
    s2: SmpScheduler<S, H>,
    h1: int,
    h2: int,
    t: Task,
    r2: Option<Task>,
)
    requires
        0 <= h1 < s0.hart_count(),
        0 <= h2 < s1.hart_count(),
        SmpScheduler::pick_post(s0, s1, h1, Some(t)),
        SmpScheduler::pick_post(s1, s2, h2, r2),
        s0.all_tasks().count(t.id) == 1,
    ensures
        r2 matches Some(u) ==> u.id != t.id,
{
    broadcast use vstd::multiset::group_multiset_axioms;

    lemma_pick_removes_from_total(s0, s1, h1, t);
    match r2 {
        Some(u) => {
            if u.id == t.id {
                if s1.queue(h2).len() > 0 {
                    lemma_queue_le_total(s1.slots@, h2, u.id);
                } else {
                    let j: int = choose|j: int| SmpScheduler::steal_post(s1, s2, h2, j, u);
                    lemma_queue_le_total(s1.slots@, j, u.id);
                }
                assert(false);
            }
        },
        None => {},
    }
}

/// Law of no lost delivery: when every queue is empty, a pick observes
/// "none" and leaves every queue as it was.
pub proof fn lemma_pick_exhausted<S: BaseScheduler, H: ScheduleHart>(
    pre: SmpScheduler<S, H>,
    post: SmpScheduler<S, H>,
    h: int,
    res: Option<Task>,
)
    requires
        0 <= h < pre.hart_count(),
        SmpScheduler::pick_post(pre, post, h, res),
        forall|k: int| 0 <= k < pre.hart_count() ==> pre.queue(k).len() == 0,
    ensures
        res is None,
        forall|k: int| 0 <= k < pre.hart_count() ==> post.queue(k) == pre.queue(k),
{
    broadcast use vstd::multiset::group_multiset_axioms;

    match res {
        Some(t) => {
            let j: int = choose|j: int| SmpScheduler::steal_post(pre, post, h, j, t);
            assert(pre.queue(j).contains(t.id));
            assert(false);
        },
        None => {},
    }
}

/// Law of local-first locality: when the calling hart's own queue is
/// non-empty, a pick delivers a task out of that queue and leaves every
/// remote queue untouched.
pub proof fn lemma_local_first<S: BaseScheduler, H: ScheduleHart>(
    pre: SmpScheduler<S, H>,
    post: SmpScheduler<S, H>,
    h: int,
    res: Option<Task>,
)
    requires
        0 <= h < pre.hart_count(),
        SmpScheduler::pick_post(pre, post, h, res),
        pre.queue(h).len() > 0,
    ensures
        res is Some,
        res matches Some(t) ==> {
            &&& pre.queue(h).contains(t.id)
            &&& post.queue(h) == pre.queue(h).remove(t.id)
        },
        forall|k: int| 0 <= k < pre.hart_count() && k != h ==> post.queue(k) == pre.queue(k),
{
}

/// Law of stealing completeness: when the calling hart's queue is empty and
/// exactly one other hart holds exactly one ready task, with its guard
/// free, a pick delivers exactly that task.
pub proof fn lemma_steal_completeness<S: BaseScheduler, H: ScheduleHart>(
    pre: SmpScheduler<S, H>,
    post: SmpScheduler<S, H>,
    h: int,
    j: int,
    tid: u64,
    res: Option<Task>,
)
    requires
        0 <= h < pre.hart_count(),
        0 <= j < pre.hart_count(),
        j != h,
        SmpScheduler::pick_post(pre, post, h, res),
        pre.queue(h).len() == 0,
        !pre.is_engaged(j),
        pre.queue(j) == Multiset::<u64>::empty().insert(tid),
        forall|k: int| 0 <= k < pre.hart_count() && k != h && k != j ==> pre.queue(k).len() == 0,
    ensures
        res is Some,
        res matches Some(u) ==> u.id == tid,
{
    broadcast use vstd::multiset::group_multiset_axioms;

    assert(pre.queue(j).len() == 1);
    match res {
        Some(u) => {
            let j2: int = choose|j2: int| SmpScheduler::steal_post(pre, post, h, j2, u);
            assert(pre.queue(j2).contains(u.id));
            assert(j2 == j);
            assert(u.id == tid);
        },
        None => {
            assert(pre.is_engaged(j) || pre.queue(j).len() == 0);
            assert(false);
        },
    }
}

} // verus!
