use vstd::prelude::*;

verus! {

/// A movable task handle.
///
/// A handle is owned by exactly one queue at a time, or by the hart that is
/// currently running it, or it is in transit during a pick or put call. The
/// dispatcher only ever reads the identity `id`; `time_slice` is bookkeeping
/// that travels with the handle and belongs to the per-hart scheduling
/// policy (a round-robin policy counts the remaining ticks there, a FIFO
/// policy ignores it).
#[derive(Clone, Copy, Debug, PartialEq, Eq, Structural)]
pub struct Task {
    /// The identity of the task.
    pub id: u64,
    /// Ticks left before the owning policy asks for a reschedule.
    pub time_slice: u64,
}

impl Task {
    /// Creates a fresh handle with the given identity and no time slice.
    pub fn new(id: u64) -> (r: Task)
        ensures
            r.id == id,
            r.time_slice == 0,
    {
        Task { id, time_slice: 0 }
    }

    /// The identity of the task.
    pub fn inner(&self) -> (r: u64)
        ensures
            r == self.id,
    {
        self.id
    }
}

/// The identities of the tasks of a sequence, in the same order.
pub open spec fn ids_of(s: Seq<Task>) -> Seq<u64> {
    s.map_values(|t: Task| t.id)
}

/// Appending a task appends its identity.
pub proof fn lemma_ids_push(s: Seq<Task>, t: Task)
    ensures
        ids_of(s.push(t)) =~= ids_of(s).push(t.id),
{
}

/// Removing the task at an index removes its identity at that index.
pub proof fn lemma_ids_remove(s: Seq<Task>, i: int)
    requires
        0 <= i < s.len(),
    ensures
        ids_of(s.remove(i)) =~= ids_of(s).remove(i),
{
    assert forall|j: int| 0 <= j < s.remove(i).len() implies ids_of(s.remove(i))[j] == ids_of(
        s,
    ).remove(i)[j] by {
    }
}

/// Inserting a task at an index inserts its identity there.
pub proof fn lemma_ids_insert(s: Seq<Task>, i: int, t: Task)
    requires
        0 <= i <= s.len(),
    ensures
        ids_of(s.insert(i, t)) =~= ids_of(s).insert(i, t.id),
{
    assert forall|j: int| 0 <= j < s.insert(i, t).len() implies ids_of(s.insert(i, t))[j] == ids_of(
        s,
    ).insert(i, t.id)[j] by {
    }
}

} // verus!
