use rqcore::schedule::{HeartbeatTask, RqTaskScheduler, IDLE_SLEEP_SECS};

#[test]
fn due_tasks_are_those_at_or_before_now() {
    let mut sched = RqTaskScheduler::new();
    sched.schedule_task(1, 100);
    sched.schedule_task(2, 200);
    sched.schedule_task(3, 150);
    assert_eq!(sched.due_tasks(150), vec![1, 3]);
    assert_eq!(sched.due_tasks(99), Vec::<u64>::new());
    assert_eq!(sched.due_tasks(300), vec![1, 2, 3]);
}

#[test]
fn soonest_trigger_is_the_minimum() {
    let mut sched = RqTaskScheduler::new();
    assert_eq!(sched.soonest_trigger(), None);
    sched.schedule_task(1, 500);
    sched.schedule_task(2, 300);
    sched.schedule_task(3, 400);
    assert_eq!(sched.soonest_trigger(), Some(300));
}

#[test]
fn sleep_until_the_soonest_trigger() {
    let mut sched = RqTaskScheduler::new();
    assert_eq!(sched.sleep_seconds(1000), IDLE_SLEEP_SECS);
    sched.schedule_task(1, 1500);
    assert_eq!(sched.sleep_seconds(1000), 500);
    // A trigger already in the past means no sleep.
    assert_eq!(sched.sleep_seconds(2000), 0);
}

#[test]
fn updating_a_trigger_moves_only_that_task() {
    let mut sched = RqTaskScheduler::new();
    sched.schedule_task(1, 100);
    sched.schedule_task(2, 200);
    sched.update_trigger(1, 999);
    assert_eq!(sched.tasks[0].next_trigger_epoch, 999);
    assert_eq!(sched.tasks[1].next_trigger_epoch, 200);
    // A long-running task whose trigger moved forward is not re-dispatched.
    assert_eq!(sched.due_tasks(200), vec![2]);
}

#[test]
fn heartbeat_reschedules_one_interval_ahead() {
    let mut hb = HeartbeatTask::new(10_000);
    assert_eq!(hb.interval_secs, 600);
    assert_eq!(hb.next_trigger_epoch, 10_600);
    hb.reschedule(11_000);
    assert_eq!(hb.next_trigger_epoch, 11_600);
}
