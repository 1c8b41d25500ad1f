use smpscheduler::BaseScheduler;
use smpscheduler::FifoScheduler;
use smpscheduler::RRScheduler;
use smpscheduler::Task;

#[test]
fn fifo_hands_tasks_out_in_arrival_order() {
    let mut fifo = FifoScheduler::new();
    fifo.init();
    fifo.add_task(Task::new(1));
    fifo.add_task(Task::new(2));
    fifo.add_task(Task::new(3));
    assert_eq!(fifo.pick_next_task().unwrap().id, 1);
    assert_eq!(fifo.pick_next_task().unwrap().id, 2);
    assert_eq!(fifo.pick_next_task().unwrap().id, 3);
    assert!(fifo.pick_next_task().is_none());
}

#[test]
fn fifo_put_prev_goes_to_the_back() {
    let mut fifo = FifoScheduler::new();
    fifo.add_task(Task::new(1));
    fifo.add_task(Task::new(2));
    let first = fifo.pick_next_task().unwrap();
    assert_eq!(first.id, 1);
    fifo.put_prev_task(first, true);
    assert_eq!(fifo.pick_next_task().unwrap().id, 2);
    assert_eq!(fifo.pick_next_task().unwrap().id, 1);
}

#[test]
fn fifo_remove_finds_only_present_tasks() {
    let mut fifo = FifoScheduler::new();
    fifo.add_task(Task::new(1));
    fifo.add_task(Task::new(2));
    let removed = fifo.remove_task(&Task::new(2)).unwrap();
    assert_eq!(removed.id, 2);
    assert!(fifo.remove_task(&Task::new(2)).is_none());
    assert_eq!(fifo.pick_next_task().unwrap().id, 1);
    assert!(fifo.pick_next_task().is_none());
}

#[test]
fn fifo_tick_and_priority_do_nothing() {
    let mut fifo = FifoScheduler::new();
    let mut running = Task::new(9);
    assert!(!fifo.task_tick(&mut running));
    assert_eq!(running, Task::new(9));
    assert!(!fifo.set_priority(&running, 100));
}

#[test]
fn rr_grants_the_full_slice_on_add() {
    let mut rr = RRScheduler::new(5);
    rr.init();
    rr.add_task(Task::new(1));
    let t = rr.pick_next_task().unwrap();
    assert_eq!(t.id, 1);
    assert_eq!(t.time_slice, 5);
}

#[test]
fn rr_tick_burns_the_slice_down_to_zero() {
    let mut rr = RRScheduler::new(3);
    rr.add_task(Task::new(1));
    let mut t = rr.pick_next_task().unwrap();
    assert_eq!(t.time_slice, 3);
    assert!(!rr.task_tick(&mut t));
    assert_eq!(t.time_slice, 2);
    assert!(!rr.task_tick(&mut t));
    assert_eq!(t.time_slice, 1);
    assert!(rr.task_tick(&mut t));
    assert_eq!(t.time_slice, 0);
}

#[test]
fn rr_preempted_task_with_slice_left_resumes_first() {
    let mut rr = RRScheduler::new(4);
    rr.add_task(Task::new(1));
    rr.add_task(Task::new(2));
    let mut t = rr.pick_next_task().unwrap();
    assert_eq!(t.id, 1);
    assert!(!rr.task_tick(&mut t));
    rr.put_prev_task(t, true);
    // the preempted task still had slice left, so it sits at the front
    let again = rr.pick_next_task().unwrap();
    assert_eq!(again.id, 1);
    assert_eq!(again.time_slice, 3);
}

#[test]
fn rr_exhausted_task_goes_to_the_back_with_a_fresh_slice() {
    let mut rr = RRScheduler::new(1);
    rr.add_task(Task::new(1));
    rr.add_task(Task::new(2));
    let mut t = rr.pick_next_task().unwrap();
    assert_eq!(t.id, 1);
    assert!(rr.task_tick(&mut t));
    rr.put_prev_task(t, true);
    // the slice was used up, so the task went to the back, refreshed
    assert_eq!(rr.pick_next_task().unwrap().id, 2);
    let back = rr.pick_next_task().unwrap();
    assert_eq!(back.id, 1);
    assert_eq!(back.time_slice, 1);
}

#[test]
fn rr_voluntary_return_goes_to_the_back() {
    let mut rr = RRScheduler::new(8);
    rr.add_task(Task::new(1));
    rr.add_task(Task::new(2));
    let t = rr.pick_next_task().unwrap();
    assert_eq!(t.id, 1);
    // not a preemption: the task yields and rejoins at the back
    rr.put_prev_task(t, false);
    assert_eq!(rr.pick_next_task().unwrap().id, 2);
    assert_eq!(rr.pick_next_task().unwrap().id, 1);
}

#[test]
fn rr_remove_and_priority() {
    let mut rr = RRScheduler::new(2);
    rr.add_task(Task::new(1));
    assert_eq!(rr.remove_task(&Task::new(1)).unwrap().id, 1);
    assert!(rr.remove_task(&Task::new(1)).is_none());
    assert!(!rr.set_priority(&Task::new(1), 7));
}

#[test]
fn duplicate_identities_are_kept_apart() {
    // Two handles may carry the same identity; the queue holds both and
    // removing takes out one occurrence at a time.
    let mut fifo = FifoScheduler::new();
    fifo.add_task(Task::new(4));
    fifo.add_task(Task::new(4));
    assert_eq!(fifo.remove_task(&Task::new(4)).unwrap().id, 4);
    assert_eq!(fifo.pick_next_task().unwrap().id, 4);
    assert!(fifo.pick_next_task().is_none());
}

#[test]
fn task_handle_reports_its_identity() {
    let t = Task::new(42);
    assert_eq!(t.inner(), 42);
    assert_eq!(t.time_slice, 0);
}
