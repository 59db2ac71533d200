use joerl::pid::Pid;
use joerl::error::ActorError;
use joerl::registry::Registry;
use joerl::scheduler::{Destination, Scheduler, TimerRef};

#[test]
fn test_destination_from_pid() {
    let pid = Pid::with_node(0, 1);
    let dest: Destination = pid.into();
    assert_eq!(dest, Destination::Pid(pid));
}

#[test]
fn test_destination_from_string() {
    let dest: Destination = "worker".into();
    assert_eq!(dest, Destination::Name("worker".to_string()));
}

#[test]
fn test_destination_display() {
    let pid = Pid::with_node(0, 1);
    let dest_pid = Destination::Pid(pid);
    let dest_name = Destination::Name("worker".to_string());

    assert!(dest_pid.to_string().contains(&pid.to_string()));
    assert_eq!(dest_name.to_string(), "worker");
}

#[test]
fn test_timer_ref_equality() {
    let ref1 = TimerRef::new(1);
    let ref2 = TimerRef::new(1);
    let ref3 = TimerRef::new(2);

    assert_eq!(ref1, ref2);
    assert_ne!(ref1, ref3);
}

#[test]
fn test_timer_ref_display() {
    let timer_ref = TimerRef::new(42);
    assert_eq!(timer_ref.to_string(), "#TimerRef<42>");
}

#[test]
fn test_scheduler_creation() {
    let scheduler = Scheduler::new();
    assert_eq!(scheduler.active_timer_count(), 0);
}

#[test]
fn test_cancel_nonexistent_timer() {
    let mut scheduler = Scheduler::new();
    let fake_ref = TimerRef::new(999);
    let result = scheduler.cancel_timer(fake_ref).unwrap();
    assert!(!result);
}

#[test]
fn timers_are_numbered_and_cancelled_once() {
    let mut scheduler = Scheduler::new();
    let (r1, t1) = scheduler.start_timer();
    let (r2, _t2) = scheduler.start_timer();
    assert_eq!(r1.id() + 1, r2.id());
    assert_eq!(scheduler.active_timer_count(), 2);
    assert_eq!(scheduler.cancel_timer(r1).unwrap(), true);
    assert!(t1.is_cancelled());
    assert_eq!(scheduler.cancel_timer(r1).unwrap(), false);
    assert_eq!(scheduler.active_timer_count(), 1);
    assert!(scheduler.timer_finished(r2));
    assert_eq!(scheduler.active_timer_count(), 0);
}

#[test]
fn destination_by_name() {
    let d = Destination::name("logger");
    assert_eq!(d, Destination::Name("logger".to_string()));
    let from_string: Destination = String::from("db").into();
    assert_eq!(from_string.to_string(), "db");
}

#[test]
fn destinations_resolve_at_delivery() {
    let mut registry = Registry::new();
    let p = Pid::with_node(0, 7);
    assert!(matches!(Destination::Pid(p).resolve(&registry), Ok(q) if q == p));
    match Destination::name("worker").resolve(&registry) {
        Err(ActorError::NameNotRegistered(n)) => assert_eq!(n, "worker"),
        other => panic!("unexpected {:?}", other),
    }
    registry.register("worker", p).unwrap();
    assert!(matches!(Destination::name("worker").resolve(&registry), Ok(q) if q == p));
}

#[test]
fn cancelled_timer_is_never_due() {
    let mut scheduler = Scheduler::new();
    let (r, _t) = scheduler.start_timer();
    assert_eq!(scheduler.cancel_timer(r).unwrap(), true);
    assert!(!scheduler.timer_finished(r));
    let (fired, _t2) = scheduler.start_timer();
    assert!(scheduler.timer_finished(fired));
    assert!(!scheduler.timer_finished(fired));
    assert_eq!(scheduler.cancel_timer(fired).unwrap(), false);
}
