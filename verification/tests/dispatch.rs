use std::cell::Cell;
use std::rc::Rc;

use smpscheduler::FifoScheduler;
use smpscheduler::FifoSmpScheduler;
use smpscheduler::RRSmpScheduler;
use smpscheduler::BaseScheduler;
use smpscheduler::ScheduleHart;
use smpscheduler::SchedError;
use smpscheduler::SmpScheduler;
use smpscheduler::Task;

struct TestHart(Rc<Cell<usize>>);

impl ScheduleHart for TestHart {
    fn hart_id(&self) -> usize {
        self.0.get()
    }
}

fn hart_cell(start: usize) -> (Rc<Cell<usize>>, TestHart) {
    let cur = Rc::new(Cell::new(start));
    let hart = TestHart(cur.clone());
    (cur, hart)
}

#[test]
fn fifo_test() {
    let (cur, hart) = hart_cell(0);
    let mut fifo = FifoSmpScheduler::new(2, hart);
    fifo.smp.init();
    fifo.smp.add_task(Task::new(1)).unwrap();
    cur.set(1);
    fifo.smp.add_task(Task::new(2)).unwrap();
    cur.set(0);
    let task = fifo.smp.pick_next_task().unwrap();
    assert!(task.is_some());
    let task = task.unwrap();
    let v = task.inner();
    assert_eq!(v, 1);
    let task = fifo.smp.pick_next_task().unwrap(); // steal task from  hart 1
    assert!(task.is_some());
    let task = task.unwrap();
    let v = task.inner();
    assert_eq!(v, 2);
}

#[test]
fn rr_test() {
    let (cur, hart) = hart_cell(0);
    let mut rr = RRSmpScheduler::new(2, 5, hart);
    rr.smp.init();
    rr.smp.add_task(Task::new(1)).unwrap();
    cur.set(1);
    rr.smp.add_task(Task::new(2)).unwrap();
    cur.set(0);
    let task = rr.smp.pick_next_task().unwrap();
    assert!(task.is_some());
    let task = task.unwrap();
    let v = task.inner();
    assert_eq!(v, 1);
    let task = rr.smp.pick_next_task().unwrap(); // steal task from  hart 1
    assert!(task.is_some());
    let task = task.unwrap();
    let v = task.inner();
    assert_eq!(v, 2);
}

#[test]
fn fifo_local_then_steal_then_none() {
    // Two harts, FIFO policy: hart 0 adds A, hart 1 adds B; hart 0 picks
    // A locally, then steals B, then observes none.
    let (cur, hart) = hart_cell(0);
    let mut fifo = FifoSmpScheduler::new(2, hart);
    fifo.smp.init();
    fifo.smp.add_task(Task::new(10)).unwrap();
    cur.set(1);
    fifo.smp.add_task(Task::new(20)).unwrap();
    cur.set(0);
    let a = fifo.smp.pick_next_task().unwrap().unwrap();
    assert_eq!(a.id, 10);
    let b = fifo.smp.pick_next_task().unwrap().unwrap();
    assert_eq!(b.id, 20);
    let none = fifo.smp.pick_next_task().unwrap();
    assert!(none.is_none());
}

#[test]
fn invalid_hart_fails_fast() {
    // Hart identity reported as 5 when there are 4 harts: every operation
    // fails fast instead of wrapping or indexing out of range.
    let (cur, hart) = hart_cell(5);
    let mut fifo = FifoSmpScheduler::new(4, hart);
    assert_eq!(fifo.smp.add_task(Task::new(1)), Err(SchedError::InvalidHart));
    assert_eq!(fifo.smp.pick_next_task(), Err(SchedError::InvalidHart));
    assert_eq!(fifo.smp.remove_task(&Task::new(1)), Err(SchedError::InvalidHart));
    assert_eq!(fifo.smp.put_prev_task(Task::new(1), false), Err(SchedError::InvalidHart));
    let mut t = Task::new(1);
    assert_eq!(fifo.smp.task_tick(&mut t), Err(SchedError::InvalidHart));
    assert_eq!(fifo.smp.set_priority(&Task::new(1), 3), Err(SchedError::InvalidHart));
    cur.set(3);
    assert_eq!(fifo.smp.add_task(Task::new(1)), Ok(()));
}

#[test]
fn engaged_slot_is_skipped() {
    // A stalled hart holding its own slot's guard must not freeze another
    // hart's dispatch: the stealing scan skips it without waiting.
    let (cur, hart) = hart_cell(1);
    let mut fifo = FifoSmpScheduler::new(2, hart);
    fifo.smp.init();
    fifo.smp.add_task(Task::new(7)).unwrap();
    cur.set(0);
    fifo.smp.engage_slot(1).unwrap();
    let none = fifo.smp.pick_next_task().unwrap();
    assert!(none.is_none());
    fifo.smp.release_slot(1).unwrap();
    let stolen = fifo.smp.pick_next_task().unwrap().unwrap();
    assert_eq!(stolen.id, 7);
}

#[test]
fn engage_slot_rejects_bad_index() {
    let (_cur, hart) = hart_cell(0);
    let mut fifo = FifoSmpScheduler::new(2, hart);
    assert_eq!(fifo.smp.engage_slot(2), Err(SchedError::InvalidHart));
    assert_eq!(fifo.smp.release_slot(9), Err(SchedError::InvalidHart));
}

#[test]
fn non_stealing_operations_stay_local() {
    // Hart 0's queue stays empty and hart 1's queue is full, yet hart 0's
    // add/remove/put/tick/priority calls never reach hart 1's queue.
    let (cur, hart) = hart_cell(1);
    let mut fifo = FifoSmpScheduler::new(2, hart);
    fifo.smp.init();
    fifo.smp.add_task(Task::new(40)).unwrap();
    fifo.smp.add_task(Task::new(41)).unwrap();
    cur.set(0);
    // removing a task that lives on hart 1 from hart 0 finds nothing
    assert_eq!(fifo.smp.remove_task(&Task::new(40)), Ok(None));
    let mut running = Task::new(99);
    assert_eq!(fifo.smp.task_tick(&mut running), Ok(false));
    assert_eq!(fifo.smp.set_priority(&Task::new(40), 1), Ok(false));
    fifo.smp.put_prev_task(Task::new(42), false).unwrap();
    assert_eq!(fifo.smp.pick_next_task().unwrap().unwrap().id, 42);
    // hart 1 still holds both of its tasks in order
    cur.set(1);
    assert_eq!(fifo.smp.pick_next_task().unwrap().unwrap().id, 40);
    assert_eq!(fifo.smp.pick_next_task().unwrap().unwrap().id, 41);
}

#[test]
fn remove_task_local_only() {
    let (cur, hart) = hart_cell(0);
    let mut fifo = FifoSmpScheduler::new(2, hart);
    fifo.smp.init();
    fifo.smp.add_task(Task::new(3)).unwrap();
    assert_eq!(fifo.smp.remove_task(&Task::new(3)).unwrap().unwrap().id, 3);
    assert_eq!(fifo.smp.remove_task(&Task::new(3)), Ok(None));
    cur.set(1);
    assert_eq!(fifo.smp.remove_task(&Task::new(3)), Ok(None));
}

#[test]
fn explicit_hart_operations() {
    let (_cur, hart) = hart_cell(0);
    let mut fifo = FifoSmpScheduler::new(3, hart);
    fifo.smp.init();
    fifo.smp.add_task_on(2, Task::new(5)).unwrap();
    assert_eq!(fifo.smp.add_task_on(3, Task::new(5)), Err(SchedError::InvalidHart));
    assert_eq!(fifo.smp.pick_next_task_on(1).unwrap().unwrap().id, 5);
    assert_eq!(fifo.smp.pick_next_task_on(1).unwrap(), None);
    assert_eq!(fifo.smp.pick_next_task_on(7), Err(SchedError::InvalidHart));
    fifo.smp.put_prev_task_on(0, Task::new(6), true).unwrap();
    assert_eq!(fifo.smp.remove_task_on(0, &Task::new(6)).unwrap().unwrap().id, 6);
    let mut t = Task::new(6);
    assert_eq!(fifo.smp.task_tick_on(0, &mut t), Ok(false));
    assert_eq!(fifo.smp.set_priority_on(0, &t, -1), Ok(false));
}

#[test]
fn each_task_delivered_once() {
    // Two tasks in two queues, picks from every hart: each task is
    // delivered exactly once and the leftover pick observes none.
    let (cur, hart) = hart_cell(0);
    let mut fifo = FifoSmpScheduler::new(2, hart);
    fifo.smp.init();
    fifo.smp.add_task(Task::new(100)).unwrap();
    cur.set(1);
    fifo.smp.add_task(Task::new(200)).unwrap();
    let first = fifo.smp.pick_next_task().unwrap().unwrap();
    cur.set(0);
    let second = fifo.smp.pick_next_task().unwrap().unwrap();
    assert_ne!(first.id, second.id);
    assert!(first.id == 200 && second.id == 100);
    assert_eq!(fifo.smp.pick_next_task().unwrap(), None);
    cur.set(1);
    assert_eq!(fifo.smp.pick_next_task().unwrap(), None);
}

#[test]
fn construction_fills_slots_from_the_back() {
    // SmpScheduler::new moves the given instances into the slots from the
    // back of the vector: with two distinct queues, slot 0 receives the
    // second one.
    let mut with_task = FifoScheduler::new();
    with_task.add_task(Task::new(77));
    let empty = FifoScheduler::new();
    let (_cur, hart) = hart_cell(0);
    let mut smp = SmpScheduler::new(vec![with_task, empty], hart);
    // slot 0 is empty, so hart 0 steals from slot 1
    let stolen = smp.pick_next_task().unwrap().unwrap();
    assert_eq!(stolen.id, 77);
}

#[test]
fn steal_scan_prefers_the_lowest_index() {
    // The steal scan runs in fixed ascending order: with ready tasks on
    // harts 1 and 2, hart 0 steals from hart 1 first; with hart 1 engaged
    // it moves on to hart 2.
    let (cur, hart) = hart_cell(1);
    let mut fifo = FifoSmpScheduler::new(3, hart);
    fifo.smp.init();
    fifo.smp.add_task(Task::new(11)).unwrap();
    cur.set(2);
    fifo.smp.add_task(Task::new(22)).unwrap();
    cur.set(0);
    assert_eq!(fifo.smp.pick_next_task().unwrap().unwrap().id, 11);
    cur.set(1);
    fifo.smp.add_task(Task::new(12)).unwrap();
    cur.set(0);
    fifo.smp.engage_slot(1).unwrap();
    assert_eq!(fifo.smp.pick_next_task().unwrap().unwrap().id, 22);
    fifo.smp.release_slot(1).unwrap();
    assert_eq!(fifo.smp.pick_next_task().unwrap().unwrap().id, 12);
}

#[test]
fn zero_harts_rejects_everything() {
    let (_cur, hart) = hart_cell(0);
    let mut fifo = FifoSmpScheduler::new(0, hart);
    assert_eq!(fifo.smp.add_task(Task::new(1)), Err(SchedError::InvalidHart));
    assert_eq!(fifo.smp.pick_next_task(), Err(SchedError::InvalidHart));
}
