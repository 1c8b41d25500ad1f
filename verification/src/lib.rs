//! A multi-core ("SMP") task dispatch layer.
//!
//! Every hart owns one scheduling queue. A hart fetches its next task from
//! its own queue first; when that queue is empty it scans the other harts'
//! queues in ascending order and opportunistically steals a ready task,
//! skipping any slot whose guard is currently held by its owner.

use vstd::prelude::*;

mod task;
mod sched;
mod fifo;
mod rr;
mod smp;
pub mod laws;

pub use task::Task;
pub use sched::BaseScheduler;
pub use fifo::FifoScheduler;
pub use fifo::FifoSmpScheduler;
pub use rr::RRScheduler;
pub use rr::RRSmpScheduler;
pub use smp::QueueSlot;
pub use smp::SchedError;
pub use smp::SmpScheduler;

verus! {

/// Capability that reports the identity of the hart on which the caller is
/// currently executing, as a number in `[0, N)` for a dispatcher over `N`
/// harts. The dispatcher asks on every call and never caches the answer; it
/// does not trust the value and rejects an out-of-range identity.
pub trait ScheduleHart {
    /// get the hart id
    fn hart_id(&self) -> usize;
}

} // verus!
