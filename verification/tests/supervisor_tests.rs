use joerl::message::ExitReason;
use joerl::pid::Pid;
use joerl::supervisor::{RestartIntensity, RestartStrategy, SupervisorState};

const SECOND: u64 = 1_000_000_000;

fn supervisor(strategy: RestartStrategy, intensity: RestartIntensity) -> SupervisorState {
    let mut s = SupervisorState::new(strategy, intensity);
    s.add_child("a".to_string(), Pid::with_node(0, 1));
    s.add_child("b".to_string(), Pid::with_node(0, 2));
    s.add_child("c".to_string(), Pid::with_node(0, 3));
    s
}

fn panic_reason() -> ExitReason {
    ExitReason::Panic("boom".to_string())
}

#[test]
fn test_restart_strategy() {
    assert_eq!(RestartStrategy::OneForOne, RestartStrategy::OneForOne);
    assert_ne!(RestartStrategy::OneForOne, RestartStrategy::OneForAll);
}

#[test]
fn test_restart_intensity_default() {
    let intensity = RestartIntensity::default();
    assert_eq!(intensity.max_restarts, 3);
    assert_eq!(intensity.within_seconds, 5);
}

#[test]
fn one_for_one_restarts_only_the_failed_child() {
    let mut s = supervisor(RestartStrategy::OneForOne, RestartIntensity::default());
    let plan = s.plan_child_exit(Pid::with_node(0, 2), &panic_reason(), 0);
    assert_eq!(plan.restart, vec!["b".to_string()]);
    assert!(plan.stop.is_none());
}

#[test]
fn one_for_all_restarts_every_child() {
    let mut s = supervisor(RestartStrategy::OneForAll, RestartIntensity::default());
    let plan = s.plan_child_exit(Pid::with_node(0, 2), &panic_reason(), 0);
    assert_eq!(plan.restart, vec!["a".to_string(), "b".to_string(), "c".to_string()]);
}

#[test]
fn rest_for_one_restarts_the_failed_child_and_later_ones() {
    let mut s = supervisor(RestartStrategy::RestForOne, RestartIntensity::default());
    let plan = s.plan_child_exit(Pid::with_node(0, 2), &panic_reason(), 0);
    assert_eq!(plan.restart, vec!["b".to_string(), "c".to_string()]);
}

#[test]
fn normal_exits_and_unknown_children_change_nothing() {
    let mut s = supervisor(RestartStrategy::OneForAll, RestartIntensity::default());
    let plan = s.plan_child_exit(Pid::with_node(0, 2), &ExitReason::Normal, 0);
    assert!(plan.restart.is_empty());
    assert!(plan.stop.is_none());
    let plan = s.plan_child_exit(Pid::with_node(0, 99), &panic_reason(), 0);
    assert!(plan.restart.is_empty());
    assert!(plan.stop.is_none());
}

#[test]
fn restart_intensity_stops_the_supervisor() {
    let intensity = RestartIntensity { max_restarts: 1, within_seconds: 5 };
    let mut s = supervisor(RestartStrategy::OneForOne, intensity);
    let first = s.plan_child_exit(Pid::with_node(0, 2), &panic_reason(), SECOND);
    assert_eq!(first.restart, vec!["b".to_string()]);
    assert!(first.stop.is_none());
    let second = s.plan_child_exit(Pid::with_node(0, 2), &panic_reason(), 2 * SECOND);
    assert!(second.restart.is_empty());
    match second.stop {
        Some(ExitReason::Custom(m)) => assert_eq!(m, "restart intensity exceeded for b"),
        _ => panic!("expected the supervisor to stop"),
    }
}

#[test]
fn old_restarts_stop_counting() {
    let intensity = RestartIntensity { max_restarts: 1, within_seconds: 5 };
    let mut s = supervisor(RestartStrategy::OneForOne, intensity);
    s.plan_child_exit(Pid::with_node(0, 2), &panic_reason(), SECOND);
    let later = s.plan_child_exit(Pid::with_node(0, 2), &panic_reason(), 7 * SECOND);
    assert_eq!(later.restart, vec!["b".to_string()]);
    assert!(later.stop.is_none());
}

#[test]
fn restarted_child_is_found_by_its_new_pid() {
    let mut s = supervisor(RestartStrategy::OneForOne, RestartIntensity::default());
    s.set_child_pid(&"b".to_string(), Pid::with_node(0, 20));
    let plan = s.plan_child_exit(Pid::with_node(0, 2), &panic_reason(), 0);
    assert!(plan.restart.is_empty());
    let plan = s.plan_child_exit(Pid::with_node(0, 20), &panic_reason(), 0);
    assert_eq!(plan.restart, vec!["b".to_string()]);
}

#[test]
fn one_for_all_terminates_the_other_children_first() {
    let mut s = supervisor(RestartStrategy::OneForAll, RestartIntensity::default());
    let plan = s.plan_child_exit(Pid::with_node(0, 2), &panic_reason(), 0);
    assert_eq!(plan.terminate, vec![Pid::with_node(0, 1), Pid::with_node(0, 3)]);
}

#[test]
fn rest_for_one_terminates_only_later_children() {
    let mut s = supervisor(RestartStrategy::RestForOne, RestartIntensity::default());
    let plan = s.plan_child_exit(Pid::with_node(0, 1), &panic_reason(), 0);
    assert_eq!(plan.terminate, vec![Pid::with_node(0, 2), Pid::with_node(0, 3)]);
    let plan = s.plan_child_exit(Pid::with_node(0, 3), &panic_reason(), 0);
    assert!(plan.terminate.is_empty());
}

#[test]
fn one_for_one_terminates_nothing_else() {
    let mut s = supervisor(RestartStrategy::OneForOne, RestartIntensity::default());
    let plan = s.plan_child_exit(Pid::with_node(0, 2), &panic_reason(), 0);
    assert!(plan.terminate.is_empty());
    let plan = s.plan_child_exit(Pid::with_node(0, 2), &ExitReason::Normal, 0);
    assert!(plan.terminate.is_empty());
}
