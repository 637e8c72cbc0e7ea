use home_control::policy::{cancel, parallel, queued, single, Event, Outcome, Policy, RunLoopPhase};

#[test]
fn single_ignores_triggers_while_busy() {
    let mut rl = single::<u32>(String::from("hall light"));
    // trigger 1 starts an invocation at once
    let r = rl.step(Event::Trigger(1));
    let first = r.start.unwrap();
    assert_eq!(first.trigger, 1);
    assert!(r.cancel.is_none());
    // trigger 2 arrives strictly before invocation 1 completes: never passed on
    let r = rl.step(Event::Trigger(2));
    assert!(r.start.is_none());
    assert!(r.cancel.is_none());
    assert_eq!(rl.in_flight(), 1);
    // invocation 1 completes; the dropped trigger does not come back
    let r = rl.step(Event::Done { id: first.id, outcome: Outcome::Success });
    assert!(r.start.is_none());
    assert_eq!(rl.in_flight(), 0);
    // a later trigger 3 is passed to the action
    let r = rl.step(Event::Trigger(3));
    assert_eq!(r.start.unwrap().trigger, 3);
}

#[test]
fn queued_runs_in_arrival_order() {
    let mut rl = queued::<&str>(String::from("heating"));
    // T1 starts, T2 and T3 are queued while the action is slow
    let r1 = rl.step(Event::Trigger("T1"));
    let inv1 = r1.start.unwrap();
    assert_eq!(inv1.trigger, "T1");
    let r2 = rl.step(Event::Trigger("T2"));
    assert!(r2.start.is_none());
    let r3 = rl.step(Event::Trigger("T3"));
    assert!(r3.start.is_none());
    assert_eq!(rl.in_flight(), 1);
    // invocation 2 starts only once invocation 1 resolves, and so on
    let r = rl.step(Event::Done { id: inv1.id, outcome: Outcome::Success });
    let inv2 = r.start.unwrap();
    assert_eq!(inv2.trigger, "T2");
    assert_eq!(rl.in_flight(), 1);
    let r = rl.step(Event::Done { id: inv2.id, outcome: Outcome::Success });
    let inv3 = r.start.unwrap();
    assert_eq!(inv3.trigger, "T3");
    let r = rl.step(Event::Done { id: inv3.id, outcome: Outcome::Success });
    assert!(r.start.is_none());
    assert_eq!(rl.in_flight(), 0);
}

#[test]
fn cancel_abandons_suspended_invocation() {
    let mut rl = cancel::<u8>(String::from("blinds"));
    let r = rl.step(Event::Trigger(1));
    let inv1 = r.start.unwrap();
    // T2 arrives while T1's invocation is suspended: T1's invocation is
    // dropped before completing, T2's invocation runs to completion
    let r = rl.step(Event::Trigger(2));
    assert_eq!(r.cancel, Some(inv1.id));
    let inv2 = r.start.unwrap();
    assert_eq!(inv2.trigger, 2);
    assert_ne!(inv2.id, inv1.id);
    assert_eq!(rl.in_flight(), 1);
    let r = rl.step(Event::Done { id: inv2.id, outcome: Outcome::Success });
    assert!(r.start.is_none());
    assert_eq!(rl.in_flight(), 0);
}

#[test]
fn parallel_caps_in_flight_and_drops_nothing() {
    let mut rl = parallel::<u32>(String::from("notifier"), 2);
    assert_eq!(rl.policy(), Policy::Parallel { max: 2 });
    // four triggers at once: exactly two invocations in flight
    let r1 = rl.step(Event::Trigger(1));
    let inv1 = r1.start.unwrap();
    let r2 = rl.step(Event::Trigger(2));
    let inv2 = r2.start.unwrap();
    assert_eq!(rl.in_flight(), 2);
    let r3 = rl.step(Event::Trigger(3));
    assert!(r3.start.is_none());
    let r4 = rl.step(Event::Trigger(4));
    assert!(r4.start.is_none());
    assert_eq!(rl.in_flight(), 2);
    // a slot frees: the waiting triggers are admitted, in order
    let r = rl.step(Event::Done { id: inv1.id, outcome: Outcome::Success });
    let inv3 = r.start.unwrap();
    assert_eq!(inv3.trigger, 3);
    assert_eq!(rl.in_flight(), 2);
    let r = rl.step(Event::Done { id: inv2.id, outcome: Outcome::Success });
    let inv4 = r.start.unwrap();
    assert_eq!(inv4.trigger, 4);
    assert_eq!(rl.in_flight(), 2);
    // all four eventually complete; none was dropped
    rl.step(Event::Done { id: inv3.id, outcome: Outcome::Success });
    let r = rl.step(Event::Done { id: inv4.id, outcome: Outcome::Success });
    assert!(r.start.is_none());
    assert_eq!(rl.in_flight(), 0);
}

#[test]
fn failure_and_panic_do_not_end_the_loop() {
    let mut rl = queued::<u32>(String::from("flaky device"));
    let inv1 = rl.step(Event::Trigger(1)).start.unwrap();
    let r = rl.step(Event::Done { id: inv1.id, outcome: Outcome::Failure });
    assert!(r.failure);
    assert!(!rl.closed());
    // a panicked invocation is treated exactly like a failed one
    let inv2 = rl.step(Event::Trigger(2)).start.unwrap();
    let r = rl.step(Event::Done { id: inv2.id, outcome: Outcome::Panicked });
    assert!(r.failure);
    assert!(!rl.closed());
    // subsequent triggers are unaffected
    let inv3 = rl.step(Event::Trigger(3)).start.unwrap();
    assert_eq!(inv3.trigger, 3);
    let r = rl.step(Event::Done { id: inv3.id, outcome: Outcome::Success });
    assert!(!r.failure);
}

#[test]
fn run_loop_closes_only_when_drained() {
    let mut rl = queued::<u32>(String::from("drain"));
    let inv1 = rl.step(Event::Trigger(1)).start.unwrap();
    rl.step(Event::Trigger(2));
    // the stream closes with one invocation running and one trigger queued
    rl.step(Event::StreamClosed);
    assert!(!rl.closed());
    let r = rl.step(Event::Done { id: inv1.id, outcome: Outcome::Success });
    let inv2 = r.start.unwrap();
    assert_eq!(inv2.trigger, 2);
    assert!(!rl.closed());
    rl.step(Event::Done { id: inv2.id, outcome: Outcome::Success });
    assert!(rl.closed());
}

#[test]
fn idle_stream_closure_closes_at_once() {
    let mut rl = single::<u32>(String::from("idle"));
    assert!(!rl.closed());
    rl.step(Event::StreamClosed);
    assert!(rl.closed());
    assert_eq!(rl.name(), "idle");
}

#[test]
fn phases_follow_the_run_loop_life() {
    let mut rl = single::<u32>(String::from("phased"));
    assert_eq!(rl.phase(), RunLoopPhase::WaitingForTrigger);
    let inv = rl.step(Event::Trigger(1)).start.unwrap();
    assert_eq!(rl.phase(), RunLoopPhase::Busy);
    rl.step(Event::StreamClosed);
    assert_eq!(rl.phase(), RunLoopPhase::Busy);
    rl.step(Event::Done { id: inv.id, outcome: Outcome::Success });
    assert_eq!(rl.phase(), RunLoopPhase::Closed);
}

#[test]
fn parallel_with_one_slot_serializes() {
    let mut rl = parallel::<u32>(String::from("narrow"), 1);
    let inv1 = rl.step(Event::Trigger(1)).start.unwrap();
    let r = rl.step(Event::Trigger(2));
    assert!(r.start.is_none());
    assert_eq!(rl.in_flight(), 1);
    let r = rl.step(Event::Done { id: inv1.id, outcome: Outcome::Success });
    assert_eq!(r.start.unwrap().trigger, 2);
}

#[test]
fn cancel_when_idle_starts_normally() {
    let mut rl = cancel::<u32>(String::from("calm"));
    let r = rl.step(Event::Trigger(7));
    assert!(r.cancel.is_none());
    assert_eq!(r.start.unwrap().trigger, 7);
}
