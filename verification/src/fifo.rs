use vstd::multiset::Multiset;
use vstd::prelude::*;

use crate::sched::BaseScheduler;
use crate::smp::SmpScheduler;
use crate::task::ids_of;
use crate::task::lemma_ids_push;
use crate::task::lemma_ids_remove;
use crate::task::Task;
use crate::ScheduleHart;

verus! {

/// A first-in-first-out single-core scheduling policy: tasks leave the
/// queue in the order in which they arrived, a returned task goes to the
/// back, ticks never ask for a reschedule, and priorities are not
/// supported.
pub struct FifoScheduler {
    /// The queued tasks, front first.
    pub queue: Vec<Task>,
}

impl FifoScheduler {
    /// The queued task identities, front first.
    pub open spec fn order(&self) -> Seq<u64> {
        ids_of(self.queue@)
    }

    /// Creates a new empty [`FifoScheduler`].
    pub fn new() -> (r: FifoScheduler)
        ensures
            r.task_ids() == Multiset::<u64>::empty(),
            r.order() == Seq::<u64>::empty(),
    {
        let r = FifoScheduler { queue: Vec::new() };
        proof {
            r.order().to_multiset_ensures();
            assert(r.order() =~= Seq::<u64>::empty());
            assert(r.task_ids() =~= Multiset::<u64>::empty());
        }
        r
    }
}

impl BaseScheduler for FifoScheduler {
    open spec fn task_ids(&self) -> Multiset<u64> {
        ids_of(self.queue@).to_multiset()
    }

    fn init(&mut self)
        ensures
            *final(self) == *old(self),
    {
    }

    fn add_task(&mut self, task: Task)
        ensures
            final(self).queue@ == old(self).queue@.push(task),
            final(self).order() == old(self).order().push(task.id),
    {
        self.queue.push(task);
        proof {
            lemma_ids_push(old(self).queue@, task);
            old(self).order().to_multiset_ensures();
            assert(self.order() == old(self).order().push(task.id));
            assert(self.task_ids() =~= old(self).task_ids().insert(task.id));
        }
    }

    fn remove_task(&mut self, task: &Task) -> (r: Option<Task>)
        ensures
            r matches Some(t) ==> exists|i: int|
                {
                    &&& 0 <= i < old(self).queue@.len()
                    &&& old(self).queue@[i] == t
                    &&& final(self).queue@ == old(self).queue@.remove(i)
                },
    {
        let mut i: usize = 0;
        while i < self.queue.len()
            invariant
                *self == *old(self),
                i <= self.queue@.len(),
                forall|k: int| 0 <= k < i ==> self.queue@[k].id != task.id,
            decreases self.queue@.len() - i,
        {
            if self.queue[i].id == task.id {
                let found = self.queue.remove(i);
                proof {
                    lemma_ids_remove(old(self).queue@, i as int);
                    old(self).order().to_multiset_ensures();
                    assert(old(self).order()[i as int] == task.id);
                    assert(self.task_ids() =~= old(self).task_ids().remove(task.id));
                    assert(old(self).order().contains(task.id));
                    assert(old(self).task_ids().contains(task.id));
                }
                return Some(found);
            }
            i += 1;
        }
        proof {
            old(self).order().to_multiset_ensures();
            assert(forall|k: int|
                0 <= k < old(self).order().len() ==> old(self).order()[k] == old(self).queue@[k].id);
            assert(!old(self).order().contains(task.id));
            assert(!old(self).task_ids().contains(task.id));
        }
        None
    }

    fn pick_next_task(&mut self) -> (r: Option<Task>)
        ensures
            old(self).queue@.len() > 0 ==> {
                &&& r == Some(old(self).queue@[0])
                &&& final(self).queue@ == old(self).queue@.remove(0)
            },
            old(self).queue@.len() == 0 ==> r is None && *final(self) == *old(self),
    {
        proof {
            self.order().to_multiset_ensures();
        }
        if self.queue.len() == 0 {
            return None;
        }
        let front = self.queue.remove(0);
        proof {
            lemma_ids_remove(old(self).queue@, 0);
            old(self).order().to_multiset_ensures();
            assert(old(self).order()[0] == front.id);
            assert(self.task_ids() =~= old(self).task_ids().remove(front.id));
            assert(old(self).order().contains(front.id));
            assert(old(self).task_ids().contains(front.id));
        }
        Some(front)
    }

    fn put_prev_task(&mut self, prev: Task, preempt: bool)
        ensures
            final(self).queue@ == old(self).queue@.push(prev),
            final(self).order() == old(self).order().push(prev.id),
    {
        self.queue.push(prev);
        proof {
            lemma_ids_push(old(self).queue@, prev);
            old(self).order().to_multiset_ensures();
            assert(self.order() == old(self).order().push(prev.id));
            assert(self.task_ids() =~= old(self).task_ids().insert(prev.id));
        }
    }

    fn task_tick(&mut self, current: &mut Task) -> (r: bool)
        ensures
            *final(self) == *old(self),
            *final(current) == *old(current),
            r == false,
    {
        false
    }

    fn set_priority(&mut self, task: &Task, prio: isize) -> (r: bool)
        ensures
            *final(self) == *old(self),
            r == false,
    {
        false
    }
}

/// A simple FIFO preemptive smpscheduler: one [`FifoScheduler`] per hart,
/// composed under the work-stealing dispatcher.
pub struct FifoSmpScheduler<H: ScheduleHart> {
    /// The dispatcher over the per-hart FIFO queues.
    pub smp: SmpScheduler<FifoScheduler, H>,
}

impl<H: ScheduleHart> FifoSmpScheduler<H> {
    /// Creates a new empty [`FifoScheduler`] per hart for `n` harts.
    pub fn new(n: usize, hart: H) -> (r: FifoSmpScheduler<H>)
        ensures
            r.smp.hart_count() == n,
            forall|i: int| 0 <= i < n ==> r.smp.queue(i) == Multiset::<u64>::empty(),
            forall|i: int| 0 <= i < n ==> !r.smp.is_engaged(i),
    {
        let mut schedulers: Vec<FifoScheduler> = Vec::new();
        while schedulers.len() < n
            invariant
                schedulers@.len() <= n,
                forall|i: int|
                    0 <= i < schedulers@.len() ==> (#[trigger] schedulers@[i]).task_ids()
                        == Multiset::<u64>::empty(),
            decreases n - schedulers@.len(),
        {
            schedulers.push(FifoScheduler::new());
        }
        FifoSmpScheduler { smp: SmpScheduler::new(schedulers, hart) }
    }
}

} // verus!
