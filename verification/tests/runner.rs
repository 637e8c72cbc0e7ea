use home_control::automations::AutomationSet;
use home_control::policy::{queued, single, Event, Outcome};
use home_control::scheduler::{materialize, Scheduler, SchedulerEvent, TaskStatus};

#[test]
fn all_tasks_finishing_stops_the_run() {
    let mut sched = Scheduler::new(3);
    assert!(!sched.stopped());
    sched.step(SchedulerEvent::TaskEnded { index: 1, panicked: false });
    assert!(!sched.stopped());
    sched.step(SchedulerEvent::TaskEnded { index: 0, panicked: false });
    sched.step(SchedulerEvent::TaskEnded { index: 2, panicked: false });
    assert!(sched.stopped());
    for i in 0..3 {
        assert_eq!(sched.task_status(i), TaskStatus::Finished);
    }
}

#[test]
fn materialize_spawns_one_slot_per_task() {
    let set = AutomationSet::group(vec![
        AutomationSet::automation("porch"),
        AutomationSet::group(vec![
            AutomationSet::automation("kitchen"),
            AutomationSet::automation("bedroom"),
        ]),
    ]);
    let (tasks, sched) = materialize(set);
    assert_eq!(tasks, vec!["porch", "kitchen", "bedroom"]);
    assert_eq!(sched.task_count(), 3);
    assert!(!sched.stopped());
    for i in 0..3 {
        assert_eq!(sched.task_status(i), TaskStatus::Running);
    }
}

#[test]
fn empty_run_is_over_at_once() {
    let sched = Scheduler::new(0);
    assert!(sched.stopped());
    assert_eq!(sched.task_count(), 0);
}

#[test]
fn panicking_automation_leaves_the_other_untouched() {
    // one automation whose action always panics, one whose action succeeds
    let mut faulty = single::<u32>(String::from("faulty"));
    let mut steady = queued::<u32>(String::from("steady"));
    let mut steady_done: u32 = 0;

    for t in 1..=3u32 {
        let inv = faulty.step(Event::Trigger(t)).start.unwrap();
        let r = faulty.step(Event::Done { id: inv.id, outcome: Outcome::Panicked });
        assert!(r.failure);

        let inv = steady.step(Event::Trigger(t)).start.unwrap();
        let r = steady.step(Event::Done { id: inv.id, outcome: Outcome::Success });
        assert!(!r.failure);
        steady_done += 1;
    }
    // the non-panicking automation processed all its triggers
    assert_eq!(steady_done, 3);
    // both loops wind down cleanly on stream closure
    faulty.step(Event::StreamClosed);
    steady.step(Event::StreamClosed);
    assert!(faulty.closed());
    assert!(steady.closed());

    // and the scheduler terminates cleanly once both tasks finish
    let mut sched = Scheduler::new(2);
    sched.step(SchedulerEvent::TaskEnded { index: 0, panicked: false });
    sched.step(SchedulerEvent::TaskEnded { index: 1, panicked: false });
    assert!(sched.stopped());
}

#[test]
fn task_panic_is_logged_and_isolated() {
    let mut sched = Scheduler::new(2);
    let r = sched.step(SchedulerEvent::TaskEnded { index: 0, panicked: true });
    assert_eq!(r.log_panic, Some(0));
    assert!(!sched.stopped());
    assert_eq!(sched.task_status(0), TaskStatus::Panicked);
    assert_eq!(sched.task_status(1), TaskStatus::Running);
    let r = sched.step(SchedulerEvent::TaskEnded { index: 1, panicked: false });
    assert_eq!(r.log_panic, None);
    assert!(sched.stopped());
}

#[test]
fn shutdown_aborts_what_outlives_the_grace_period() {
    // a long-running invocation, and a shutdown signal fired immediately
    let mut sched = Scheduler::new(2);
    let r = sched.step(SchedulerEvent::Shutdown);
    assert!(r.broadcast_cancel);
    assert!(!r.abort_rest);
    assert!(!sched.stopped());
    // one task observes the cancellation and exits within the grace period
    sched.step(SchedulerEvent::TaskEnded { index: 1, panicked: false });
    assert!(!sched.stopped());
    // the other never resolves: at the deadline it is forcibly aborted
    let r = sched.step(SchedulerEvent::GraceElapsed);
    assert!(r.abort_rest);
    assert!(sched.stopped());
    assert_eq!(sched.task_status(0), TaskStatus::Aborted);
    assert_eq!(sched.task_status(1), TaskStatus::Finished);
}

#[test]
fn cooperative_exit_during_grace_needs_no_force() {
    let mut sched = Scheduler::new(1);
    sched.step(SchedulerEvent::Shutdown);
    sched.step(SchedulerEvent::TaskEnded { index: 0, panicked: false });
    // everything exited cleanly before the deadline
    assert!(sched.stopped());
    assert_eq!(sched.task_status(0), TaskStatus::Finished);
}
