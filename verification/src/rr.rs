use vstd::multiset::Multiset;
use vstd::prelude::*;

use crate::sched::BaseScheduler;
use crate::smp::SmpScheduler;
use crate::task::ids_of;
use crate::task::lemma_ids_insert;
use crate::task::lemma_ids_push;
use crate::task::lemma_ids_remove;
use crate::task::Task;
use crate::ScheduleHart;

verus! {

/// A round-robin single-core scheduling policy: a FIFO queue of tasks, each
/// carrying a time slice in its handle. A freshly added task is granted the
/// full slice; a tick burns one unit and asks for a reschedule when the
/// slice is used up; a preempted task with slice left resumes at the front
/// of the queue, any other returned task goes to the back with a fresh
/// slice. Priorities are not supported.
pub struct RRScheduler {
    /// The queued tasks, front first.
    pub queue: Vec<Task>,
    /// The full time slice granted to a task.
    pub max_time_slice: u64,
}

impl RRScheduler {
    /// The queued task identities, front first.
    pub open spec fn order(&self) -> Seq<u64> {
        ids_of(self.queue@)
    }

    /// Creates a new empty [`RRScheduler`] with the given time slice.
    pub fn new(max_time_slice: u64) -> (r: RRScheduler)
        ensures
            r.task_ids() == Multiset::<u64>::empty(),
            r.order() == Seq::<u64>::empty(),
            r.max_time_slice == max_time_slice,
    {
        let r = RRScheduler { queue: Vec::new(), max_time_slice };
        proof {
            r.order().to_multiset_ensures();
            assert(r.order() =~= Seq::<u64>::empty());
            assert(r.task_ids() =~= Multiset::<u64>::empty());
        }
        r
    }
}

impl BaseScheduler for RRScheduler {
    open spec fn task_ids(&self) -> Multiset<u64> {
        ids_of(self.queue@).to_multiset()
    }

    fn init(&mut self)
        ensures
            *final(self) == *old(self),
    {
    }

    fn add_task(&mut self, task: Task)
        ensures
            final(self).queue@ == old(self).queue@.push(
                (Task { id: task.id, time_slice: old(self).max_time_slice }),
            ),
            final(self).order() == old(self).order().push(task.id),
            final(self).max_time_slice == old(self).max_time_slice,
    {
        let granted = Task { id: task.id, time_slice: self.max_time_slice };
        self.queue.push(granted);
        proof {
            lemma_ids_push(old(self).queue@, granted);
            old(self).order().to_multiset_ensures();
            assert(self.order() == old(self).order().push(task.id));
            assert(self.task_ids() =~= old(self).task_ids().insert(task.id));
        }
    }

    fn remove_task(&mut self, task: &Task) -> (r: Option<Task>)
        ensures
            final(self).max_time_slice == old(self).max_time_slice,
    {
        let mut i: usize = 0;
        while i < self.queue.len()
            invariant
                *self == *old(self),
                i <= self.queue@.len(),
                forall|k: int| 0 <= k < i ==> self.queue@[k].id != task.id,
            decreases self.queue@.len() - i,
        {
            if self.queue[i].id == task.id {
                let found = self.queue.remove(i);
                proof {
                    lemma_ids_remove(old(self).queue@, i as int);
                    old(self).order().to_multiset_ensures();
                    assert(old(self).order()[i as int] == task.id);
                    assert(self.task_ids() =~= old(self).task_ids().remove(task.id));
                    assert(old(self).order().contains(task.id));
                    assert(old(self).task_ids().contains(task.id));
                }
                return Some(found);
            }
            i += 1;
        }
        proof {
            old(self).order().to_multiset_ensures();
            assert(forall|k: int|
                0 <= k < old(self).order().len() ==> old(self).order()[k] == old(self).queue@[k].id);
            assert(!old(self).order().contains(task.id));
            assert(!old(self).task_ids().contains(task.id));
        }
        None
    }

    fn pick_next_task(&mut self) -> (r: Option<Task>)
        ensures
            old(self).queue@.len() > 0 ==> {
                &&& r == Some(old(self).queue@[0])
                &&& final(self).queue@ == old(self).queue@.remove(0)
            },
            old(self).queue@.len() == 0 ==> r is None && *final(self) == *old(self),
            final(self).max_time_slice == old(self).max_time_slice,
    {
        proof {
            self.order().to_multiset_ensures();
        }
        if self.queue.len() == 0 {
            return None;
        }
        let front = self.queue.remove(0);
        proof {
            lemma_ids_remove(old(self).queue@, 0);
            old(self).order().to_multiset_ensures();
            assert(old(self).order()[0] == front.id);
            assert(self.task_ids() =~= old(self).task_ids().remove(front.id));
            assert(old(self).order().contains(front.id));
            assert(old(self).task_ids().contains(front.id));
        }
        Some(front)
    }

    fn put_prev_task(&mut self, prev: Task, preempt: bool)
        ensures
            preempt && prev.time_slice > 0 ==> final(self).queue@ == old(self).queue@.insert(
                0,
                prev,
            ),
            !(preempt && prev.time_slice > 0) ==> final(self).queue@ == old(self).queue@.push(
                (Task { id: prev.id, time_slice: old(self).max_time_slice }),
            ),
            final(self).max_time_slice == old(self).max_time_slice,
    {
        broadcast use vstd::multiset::group_multiset_axioms;

        if preempt && prev.time_slice > 0 {
            self.queue.insert(0, prev);
            proof {
                lemma_ids_insert(old(self).queue@, 0, prev);
                let ids2 = self.order();
                ids2.to_multiset_ensures();
                assert(ids2.remove(0) =~= old(self).order());
                assert(ids2[0] == prev.id);
                assert(old(self).task_ids() =~= ids2.to_multiset().remove(prev.id));
                assert(ids2.contains(prev.id));
                assert(ids2.to_multiset().count(prev.id) > 0);
                assert(self.task_ids() =~= old(self).task_ids().insert(prev.id));
            }
        } else {
            let refreshed = Task { id: prev.id, time_slice: self.max_time_slice };
            self.queue.push(refreshed);
            proof {
                lemma_ids_push(old(self).queue@, refreshed);
                old(self).order().to_multiset_ensures();
                assert(self.task_ids() =~= old(self).task_ids().insert(prev.id));
            }
        }
    }

    fn task_tick(&mut self, current: &mut Task) -> (r: bool)
        ensures
            *final(self) == *old(self),
            final(current).id == old(current).id,
            r == (old(current).time_slice <= 1),
            r ==> final(current).time_slice == 0,
            !r ==> final(current).time_slice == old(current).time_slice - 1,
    {
        if current.time_slice <= 1 {
            current.time_slice = 0;
            true
        } else {
            current.time_slice = current.time_slice - 1;
            false
        }
    }

    fn set_priority(&mut self, task: &Task, prio: isize) -> (r: bool)
        ensures
            *final(self) == *old(self),
            r == false,
    {
        false
    }
}

/// A simple round-robin preemptive smpscheduler: one [`RRScheduler`] per
/// hart, composed under the work-stealing dispatcher.
pub struct RRSmpScheduler<H: ScheduleHart> {
    /// The dispatcher over the per-hart round-robin queues.
    pub smp: SmpScheduler<RRScheduler, H>,
}

impl<H: ScheduleHart> RRSmpScheduler<H> {
    /// Creates a new empty [`RRScheduler`] per hart for `n` harts, each
    /// granting tasks the given time slice.
    pub fn new(n: usize, max_time_slice: u64, hart: H) -> (r: RRSmpScheduler<H>)
        ensures
            r.smp.hart_count() == n,
            forall|i: int| 0 <= i < n ==> r.smp.queue(i) == Multiset::<u64>::empty(),
            forall|i: int| 0 <= i < n ==> !r.smp.is_engaged(i),
    {
        let mut schedulers: Vec<RRScheduler> = Vec::new();
        while schedulers.len() < n
            invariant
                schedulers@.len() <= n,
                forall|i: int|
                    0 <= i < schedulers@.len() ==> (#[trigger] schedulers@[i]).task_ids()
                        == Multiset::<u64>::empty(),
            decreases n - schedulers@.len(),
        {
            schedulers.push(RRScheduler::new(max_time_slice));
        }
        RRSmpScheduler { smp: SmpScheduler::new(schedulers, hart) }
    }
}

} // verus!
