use vstd::multiset::Multiset;
use vstd::prelude::*;

use crate::task::Task;

verus! {

/// The capability interface of a single-core scheduling policy.
///
/// One instance governs one hart's queue. The dispatcher is policy-agnostic:
/// it relies only on what is promised here, which deliberately leaves the
/// order of selection to the policy. The abstract state of a policy is the
/// multiset of identities of the tasks it currently holds, `task_ids`; in
/// what order `pick_next_task` hands them out is the policy's own business.
pub trait BaseScheduler: Sized {
    /// The identities of the tasks currently held in this queue.
    spec fn task_ids(&self) -> Multiset<u64>;

    /// Initializes the policy. Called once before any other operation;
    /// holds no tasks yet or keeps the ones it has.
    fn init(&mut self)
        ensures
            final(self).task_ids() == old(self).task_ids(),
    ;

    /// Adds a task to this queue.
    fn add_task(&mut self, task: Task)
        ensures
            final(self).task_ids() == old(self).task_ids().insert(task.id),
    ;

    /// Removes the task with the given identity from this queue, if it is
    /// present, and returns the stored handle.
    fn remove_task(&mut self, task: &Task) -> (r: Option<Task>)
        ensures
            r is Some <==> old(self).task_ids().contains(task.id),
            r matches Some(t) ==> {
                &&& t.id == task.id
                &&& final(self).task_ids() == old(self).task_ids().remove(task.id)
            },
            r is None ==> final(self).task_ids() == old(self).task_ids(),
    ;

    /// Hands out the next runnable task, chosen by the policy. Returns
    /// `Some` exactly when the queue is non-empty; the returned handle
    /// leaves the queue.
    fn pick_next_task(&mut self) -> (r: Option<Task>)
        ensures
            r is Some <==> old(self).task_ids().len() > 0,
            r matches Some(t) ==> {
                &&& old(self).task_ids().contains(t.id)
                &&& final(self).task_ids() == old(self).task_ids().remove(t.id)
            },
            r is None ==> final(self).task_ids() == old(self).task_ids(),
    ;

    /// Returns a previously running task to this queue; `preempt` tells the
    /// policy whether the task was preempted, which may affect where in the
    /// queue it is placed.
    fn put_prev_task(&mut self, prev: Task, preempt: bool)
        ensures
            final(self).task_ids() == old(self).task_ids().insert(prev.id),
    ;

    /// Forwards a periodic tick for the currently running task; returns
    /// whether the policy requests a reschedule. The queue itself is not
    /// changed, and the handle keeps its identity.
    fn task_tick(&mut self, current: &mut Task) -> (r: bool)
        ensures
            final(self).task_ids() == old(self).task_ids(),
            final(current).id == old(current).id,
    ;

    /// Asks the policy to change a task's priority; returns whether the
    /// change was applied. The set of queued tasks is not changed.
    fn set_priority(&mut self, task: &Task, prio: isize) -> (r: bool)
        ensures
            final(self).task_ids() == old(self).task_ids(),
    ;
}

} // verus!
