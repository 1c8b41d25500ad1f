use vstd::multiset::Multiset;
use vstd::prelude::*;

use crate::sched::BaseScheduler;
use crate::task::Task;
use crate::ScheduleHart;

verus! {

/// The error of an operation that was invoked under an impossible hart
/// identity. A hart identity at or above the hart count is a caller bug;
/// the dispatcher fails fast instead of wrapping or indexing out of range.
#[derive(Clone, Copy, Debug, PartialEq, Eq, Structural)]
pub enum SchedError {
    /// The identity capability reported a hart at or above the hart count.
    InvalidHart,
}

/// One hart's guarded queue slot: a single-core scheduling policy instance
/// together with the observable state of its mutual-exclusion guard.
///
/// The guard discipline is modeled explicitly: `engaged` is true while the
/// owning hart holds the guard across a stall, which is exactly what a
/// remote hart's non-blocking probe observes. A blocking acquisition by the
/// slot's owner rides out transient contention, so the dispatcher's own-slot
/// operations do not consult the flag; only the stealing scan does.
pub struct QueueSlot<S> {
    /// The policy instance owned by this slot.
    pub sched: S,
    /// Whether the slot's guard is currently held by its owner.
    pub engaged: bool,
}

/// The multi-core dispatcher: one guarded queue slot per hart, indexed by
/// hart identity. All operations resolve the calling hart through the
/// injected [`ScheduleHart`] capability and work on the caller's own slot;
/// only the pick path additionally scans the other slots, non-blockingly,
/// when the local slot yields nothing.
pub struct SmpScheduler<S, H> {
    /// The guarded queue slots, slot `i` belonging to hart `i`.
    pub slots: Vec<QueueSlot<S>>,
    /// The capability that reports the calling hart's identity.
    pub hart: H,
}

impl<S: BaseScheduler, H: ScheduleHart> SmpScheduler<S, H> {
    /// The number of harts, fixed at construction.
    pub open spec fn hart_count(&self) -> int {
        self.slots@.len() as int
    }

    /// The identities of the tasks queued on hart `i`.
    pub open spec fn queue(&self, i: int) -> Multiset<u64> {
        self.slots@[i].sched.task_ids()
    }

    /// Whether hart `i`'s slot guard is currently held by its owner.
    pub open spec fn is_engaged(&self, i: int) -> bool {
        self.slots@[i].engaged
    }

    /// The dispatcher's shape is untouched: same hart count, same identity
    /// capability, and every slot's guard state is as it was.
    pub open spec fn same_shape(pre: Self, post: Self) -> bool {
        &&& post.hart_count() == pre.hart_count()
        &&& post.hart == pre.hart
        &&& forall|j: int| 0 <= j < pre.hart_count() ==> post.is_engaged(j) == pre.is_engaged(j)
    }

    /// Every slot other than `h` is left exactly as it was: non-stealing
    /// operations neither observe nor mutate a remote hart's slot.
    pub open spec fn untouched_except(pre: Self, post: Self, h: int) -> bool {
        forall|j: int| 0 <= j < pre.hart_count() && j != h ==> post.slots@[j] == pre.slots@[j]
    }

    /// What holds after a task with identity `id` was enqueued on hart `h`.
    pub open spec fn enqueue_post(pre: Self, post: Self, h: int, id: u64) -> bool {
        &&& Self::same_shape(pre, post)
        &&& Self::untouched_except(pre, post, h)
        &&& post.queue(h) == pre.queue(h).insert(id)
    }

    /// What holds after hart `h` asked to remove the task with identity
    /// `id` from its own queue: found and taken out if and only if present
    /// there, and no other slot was involved.
    pub open spec fn remove_post(pre: Self, post: Self, h: int, id: u64, res: Option<
        Task,
    >) -> bool {
        &&& Self::same_shape(pre, post)
        &&& Self::untouched_except(pre, post, h)
        &&& (res is Some <==> pre.queue(h).contains(id))
        &&& (res matches Some(t) ==> t.id == id && post.queue(h) == pre.queue(h).remove(id))
        &&& (res is None ==> post.queue(h) == pre.queue(h))
    }

    /// What holds after a bookkeeping call (a tick or a priority change) on
    /// hart `h`: no queue anywhere gained or lost a task, and no slot other
    /// than `h`'s was touched at all.
    pub open spec fn bookkeeping_post(pre: Self, post: Self, h: int) -> bool {
        &&& Self::same_shape(pre, post)
        &&& Self::untouched_except(pre, post, h)
        &&& forall|j: int| 0 <= j < pre.hart_count() ==> post.queue(j) == pre.queue(j)
    }

    /// What holds when hart `h` stole the task `t` from hart `j`: `j` is a
    /// remote slot whose guard was free, the task was queued there and left
    /// that queue, every other queue kept its tasks, and every remote slot
    /// below `j` in the fixed ascending scan order was either engaged or
    /// empty — the scan takes the first task it can get.
    pub open spec fn steal_post(pre: Self, post: Self, h: int, j: int, t: Task) -> bool {
        &&& 0 <= j < pre.hart_count()
        &&& j != h
        &&& !pre.is_engaged(j)
        &&& pre.queue(j).contains(t.id)
        &&& post.queue(j) == pre.queue(j).remove(t.id)
        &&& forall|k: int| 0 <= k < pre.hart_count() && k != j ==> post.queue(k) == pre.queue(k)
        &&& forall|k: int| 0 <= k < j && k != h ==> pre.is_engaged(k) || pre.queue(k).len() == 0
    }

    /// The contract of the pick protocol on hart `h`.
    ///
    /// Local first: when hart `h`'s own queue is non-empty, the returned
    /// task comes from that queue and no remote queue is involved. Only
    /// with an empty local queue does the scan over the other harts run,
    /// and a `None` outcome certifies that every remote queue was engaged
    /// or empty at the probe.
    pub open spec fn pick_post(pre: Self, post: Self, h: int, res: Option<Task>) -> bool {
        &&& Self::same_shape(pre, post)
        &&& if pre.queue(h).len() > 0 {
            match res {
                Some(t) => {
                    &&& pre.queue(h).contains(t.id)
                    &&& post.queue(h) == pre.queue(h).remove(t.id)
                    &&& Self::untouched_except(pre, post, h)
                    &&& forall|k: int|
                        0 <= k < pre.hart_count() && k != h ==> post.queue(k) == pre.queue(k)
                },
                None => false,
            }
        } else {
            match res {
                Some(t) => exists|j: int| Self::steal_post(pre, post, h, j, t),
                None => {
                    &&& forall|k: int| 0 <= k < pre.hart_count() ==> post.queue(k) == pre.queue(k)
                    &&& forall|k: int|
                        0 <= k < pre.hart_count() && k != h ==> pre.is_engaged(k) || pre.queue(
                            k,
                        ).len() == 0
                },
            }
        }
    }

    /// Creates a new [`SmpScheduler`] over the given policy instances, one
    /// per hart. The instances are moved into the slots from the back of
    /// the vector, so slot `i` receives instance `len - 1 - i`; all guards
    /// start free.
    pub fn new(schedulers: Vec<S>, hart: H) -> (r: Self)
        ensures
            r.hart_count() == schedulers@.len(),
            forall|i: int|
                0 <= i < schedulers@.len() ==> r.slots@[i].sched == schedulers@[schedulers@.len()
                    - 1 - i],
            forall|i: int| 0 <= i < schedulers@.len() ==> !r.is_engaged(i),
            r.hart == hart,
    {
        let ghost orig = schedulers@;
        let mut rest = schedulers;
        let mut slots: Vec<QueueSlot<S>> = Vec::new();
        while rest.len() > 0
            invariant
                rest@ == orig.take(rest@.len() as int),
                slots@.len() + rest@.len() == orig.len(),
                forall|i: int|
                    0 <= i < slots@.len() ==> (#[trigger] slots@[i]).sched == orig[orig.len() - 1
                        - i] && !slots@[i].engaged,
            decreases rest@.len(),
        {
            let ghost k: int = rest@.len() as int;
            let s = rest.pop().unwrap();
            slots.push(QueueSlot { sched: s, engaged: false });
            proof {
                assert(rest@ =~= orig.take(k - 1));
                assert(s == orig[k - 1]);
            }
        }
        SmpScheduler { slots, hart }
    }

    /// Locks and initializes every slot's policy in turn. Called once,
    /// before any other operation and not concurrently with anything.
    pub fn init(&mut self)
        ensures
            Self::same_shape(*old(self), *final(self)),
            forall|j: int|
                0 <= j < old(self).hart_count() ==> final(self).queue(j) == old(self).queue(j),
    {
        let n: usize = self.slots.len();
        let mut i: usize = 0;
        while i < n
            invariant
                n == self.slots@.len(),
                n == old(self).slots@.len(),
                self.hart == old(self).hart,
                forall|j: int|
                    0 <= j < n ==> #[trigger] self.slots@[j].engaged == old(self).slots@[j].engaged,
                forall|j: int| 0 <= j < n ==> self.queue(j) == old(self).queue(j),
            decreases n - i,
        {
            self.slots[i].sched.init();
            i += 1;
        }
    }

    /// Enqueues a task on the given hart's own queue.
    pub fn add_task_on(&mut self, h: usize, task: Task) -> (r: Result<(), SchedError>)
        ensures
            r is Ok <==> (h as int) < old(self).hart_count(),
            r is Ok ==> Self::enqueue_post(*old(self), *final(self), h as int, task.id),
            r matches Err(e) ==> e == SchedError::InvalidHart && *final(self) == *old(self),
    {
        if h >= self.slots.len() {
            return Err(SchedError::InvalidHart);
        }
        self.slots[h].sched.add_task(task);
        Ok(())
    }

    /// Removes the given task from the given hart's own queue, if it is
    /// present there. Other harts' queues are never searched.
    pub fn remove_task_on(&mut self, h: usize, task: &Task) -> (r: Result<
        Option<Task>,
        SchedError,
    >)
        ensures
            r is Ok <==> (h as int) < old(self).hart_count(),
            r matches Ok(res) ==> Self::remove_post(*old(self), *final(self), h as int, task.id, res),
            r matches Err(e) ==> e == SchedError::InvalidHart && *final(self) == *old(self),
    {
        if h >= self.slots.len() {
            return Err(SchedError::InvalidHart);
        }
        let res = self.slots[h].sched.remove_task(task);
        Ok(res)
    }

    /// The pick protocol on the given hart: take the next task from the
    /// hart's own queue; only when that queue is empty, scan all other
    /// slots exactly once in ascending order, skipping self and every slot
    /// whose guard is engaged, and return the first task such a probe
    /// yields; `None` when the whole scan finds nothing.
    pub fn pick_next_task_on(&mut self, h: usize) -> (r: Result<Option<Task>, SchedError>)
        ensures
            r is Ok <==> (h as int) < old(self).hart_count(),
            r matches Ok(res) ==> Self::pick_post(*old(self), *final(self), h as int, res),
            r matches Err(e) ==> e == SchedError::InvalidHart && *final(self) == *old(self),
    {
        let n: usize = self.slots.len();
        if h >= n {
            return Err(SchedError::InvalidHart);
        }
        let local = self.slots[h].sched.pick_next_task();
        if local.is_some() {
            return Ok(local);
        }
        let mut i: usize = 0;
        while i < n
            invariant
                n == self.slots@.len(),
                n == old(self).slots@.len(),
                h < n,
                self.hart == old(self).hart,
                forall|k: int|
                    0 <= k < n ==> #[trigger] self.slots@[k].engaged == old(self).slots@[k].engaged,
                forall|k: int| 0 <= k < n ==> self.queue(k) == old(self).queue(k),
                old(self).queue(h as int).len() == 0,
                forall|k: int|
                    0 <= k < i && k != h ==> old(self).is_engaged(k) || old(self).queue(k).len()
                        == 0,
            decreases n - i,
        {
            if i != h && !self.slots[i].engaged {
                let stolen = self.slots[i].sched.pick_next_task();
                if let Some(t) = stolen {
                    proof {
                        assert(Self::steal_post(*old(self), *self, h as int, i as int, t));
                    }
                    return Ok(Some(t));
                }
            }
            i += 1;
        }
        Ok(None)
    }

    /// Returns a previously running task to the given hart's own queue,
    /// telling the policy whether the return is due to preemption.
    pub fn put_prev_task_on(&mut self, h: usize, prev: Task, preempt: bool) -> (r: Result<
        (),
        SchedError,
    >)
        ensures
            r is Ok <==> (h as int) < old(self).hart_count(),
            r is Ok ==> Self::enqueue_post(*old(self), *final(self), h as int, prev.id),
            r matches Err(e) ==> e == SchedError::InvalidHart && *final(self) == *old(self),
    {
        if h >= self.slots.len() {
            return Err(SchedError::InvalidHart);
        }
        self.slots[h].sched.put_prev_task(prev, preempt);
        Ok(())
    }

    /// Forwards a periodic tick for the task currently running on the given
    /// hart to that hart's own policy; returns whether the policy requests
    /// a reschedule.
    pub fn task_tick_on(&mut self, h: usize, current: &mut Task) -> (r: Result<bool, SchedError>)
        ensures
            r is Ok <==> (h as int) < old(self).hart_count(),
            r is Ok ==> Self::bookkeeping_post(*old(self), *final(self), h as int),
            final(current).id == old(current).id,
            r matches Err(e) ==> e == SchedError::InvalidHart && *final(self) == *old(self)
                && *final(current) == *old(current),
    {
        if h >= self.slots.len() {
            return Err(SchedError::InvalidHart);
        }
        let resched = self.slots[h].sched.task_tick(current);
        Ok(resched)
    }

    /// Forwards a priority change for a task in the given hart's own queue
    /// to that hart's policy; returns whether the change was applied.
    pub fn set_priority_on(&mut self, h: usize, task: &Task, prio: isize) -> (r: Result<
        bool,
        SchedError,
    >)
        ensures
            r is Ok <==> (h as int) < old(self).hart_count(),
            r is Ok ==> Self::bookkeeping_post(*old(self), *final(self), h as int),
            r matches Err(e) ==> e == SchedError::InvalidHart && *final(self) == *old(self),
    {
        if h >= self.slots.len() {
            return Err(SchedError::InvalidHart);
        }
        let applied = self.slots[h].sched.set_priority(task, prio);
        Ok(applied)
    }

    /// Marks hart `i`'s slot guard as held by its owner, as a stalled hart
    /// would leave it. A remote hart's stealing scan observes exactly this
    /// and skips the slot without waiting.
    pub fn engage_slot(&mut self, i: usize) -> (r: Result<(), SchedError>)
        ensures
            r is Ok <==> (i as int) < old(self).hart_count(),
            r is Ok ==> {
                &&& Self::untouched_except(*old(self), *final(self), i as int)
                &&& final(self).hart_count() == old(self).hart_count()
                &&& final(self).hart == old(self).hart
                &&& final(self).is_engaged(i as int)
                &&& final(self).slots@[i as int].sched == old(self).slots@[i as int].sched
            },
            r matches Err(e) ==> e == SchedError::InvalidHart && *final(self) == *old(self),
    {
        if i >= self.slots.len() {
            return Err(SchedError::InvalidHart);
        }
        let slot = &mut self.slots[i];
        slot.engaged = true;
        Ok(())
    }

    /// Marks hart `i`'s slot guard as free again.
    pub fn release_slot(&mut self, i: usize) -> (r: Result<(), SchedError>)
        ensures
            r is Ok <==> (i as int) < old(self).hart_count(),
            r is Ok ==> {
                &&& Self::untouched_except(*old(self), *final(self), i as int)
                &&& final(self).hart_count() == old(self).hart_count()
                &&& final(self).hart == old(self).hart
                &&& !final(self).is_engaged(i as int)
                &&& final(self).slots@[i as int].sched == old(self).slots@[i as int].sched
            },
            r matches Err(e) ==> e == SchedError::InvalidHart && *final(self) == *old(self),
    {
        if i >= self.slots.len() {
            return Err(SchedError::InvalidHart);
        }
        let slot = &mut self.slots[i];
        slot.engaged = false;
        Ok(())
    }

    /// Resolves the calling hart through the identity capability and
    /// enqueues the task on that hart's own queue: a task is born on its
    /// creator's hart, with no creation-time load balancing.
    pub fn add_task(&mut self, task: Task) -> (r: Result<(), SchedError>)
        ensures
            r is Ok ==> exists|h: int|
                #[trigger] Self::enqueue_post(*old(self), *final(self), h, task.id),
            r matches Err(e) ==> e == SchedError::InvalidHart && *final(self) == *old(self),
    {
        let h: usize = self.hart.hart_id();
        self.add_task_on(h, task)
    }

    /// Resolves the calling hart and removes the task from that hart's own
    /// queue if it is present there; `Ok(None)` when it is not. Other
    /// harts' queues are never searched, so a task that was stolen or is
    /// running elsewhere is reported as not found.
    pub fn remove_task(&mut self, task: &Task) -> (r: Result<Option<Task>, SchedError>)
        ensures
            r matches Ok(res) ==> exists|h: int|
                #[trigger] Self::remove_post(*old(self), *final(self), h, task.id, res),
            r matches Err(e) ==> e == SchedError::InvalidHart && *final(self) == *old(self),
    {
        let h: usize = self.hart.hart_id();
        self.remove_task_on(h, task)
    }

    /// Resolves the calling hart and runs the pick protocol there: the next
    /// local task when the hart's own queue is non-empty, else the first
    /// task an ascending non-blocking scan of the other harts yields, else
    /// `Ok(None)`.
    pub fn pick_next_task(&mut self) -> (r: Result<Option<Task>, SchedError>)
        ensures
            r matches Ok(res) ==> exists|h: int|
                #[trigger] Self::pick_post(*old(self), *final(self), h, res),
            r matches Err(e) ==> e == SchedError::InvalidHart && *final(self) == *old(self),
    {
        let h: usize = self.hart.hart_id();
        self.pick_next_task_on(h)
    }

    /// Resolves the calling hart and returns a previously running task to
    /// that hart's own queue.
    pub fn put_prev_task(&mut self, prev: Task, preempt: bool) -> (r: Result<(), SchedError>)
        ensures
            r is Ok ==> exists|h: int|
                #[trigger] Self::enqueue_post(*old(self), *final(self), h, prev.id),
            r matches Err(e) ==> e == SchedError::InvalidHart && *final(self) == *old(self),
    {
        let h: usize = self.hart.hart_id();
        self.put_prev_task_on(h, prev, preempt)
    }

    /// Resolves the calling hart and forwards a periodic tick for the task
    /// currently running there; returns whether the policy requests a
    /// reschedule.
    pub fn task_tick(&mut self, current: &mut Task) -> (r: Result<bool, SchedError>)
        ensures
            r is Ok ==> exists|h: int|
                #[trigger] Self::bookkeeping_post(*old(self), *final(self), h),
            final(current).id == old(current).id,
            r matches Err(e) ==> e == SchedError::InvalidHart && *final(self) == *old(self)
                && *final(current) == *old(current),
    {
        let h: usize = self.hart.hart_id();
        self.task_tick_on(h, current)
    }

    /// Resolves the calling hart and forwards a priority change for a task
    /// in that hart's own queue; returns whether the change was applied.
    pub fn set_priority(&mut self, task: &Task, prio: isize) -> (r: Result<bool, SchedError>)
        ensures
            r is Ok ==> exists|h: int|
                #[trigger] Self::bookkeeping_post(*old(self), *final(self), h),
            r matches Err(e) ==> e == SchedError::InvalidHart && *final(self) == *old(self),
    {
        let h: usize = self.hart.hart_id();
        self.set_priority_on(h, task, prio)
    }
}

} // verus!
