use joerl::error::ActorError;
use joerl::pid::Pid;
use joerl::registry::Registry;

#[test]
fn test_register_and_whereis() {
    let mut registry = Registry::new();
    let pid = Pid::with_node(0, 1);

    registry.register("test", pid).unwrap();
    assert_eq!(registry.whereis("test"), Some(pid));
}

#[test]
fn registry_test_register_duplicate_name() {
    let mut registry = Registry::new();
    let pid1 = Pid::with_node(0, 1);
    let pid2 = Pid::with_node(0, 2);

    registry.register("test", pid1).unwrap();
    let result = registry.register("test", pid2);
    assert!(matches!(result, Err(ActorError::NameAlreadyRegistered(_))));
}

#[test]
fn test_register_same_pid_different_name() {
    let mut registry = Registry::new();
    let pid = Pid::with_node(0, 1);

    registry.register("name1", pid).unwrap();
    registry.register("name2", pid).unwrap();

    assert_eq!(registry.whereis("name1"), None);
    assert_eq!(registry.whereis("name2"), Some(pid));
    assert_eq!(registry.name_of(pid), Some("name2".to_string()));
}

#[test]
fn registry_test_unregister() {
    let mut registry = Registry::new();
    let pid = Pid::with_node(0, 1);

    registry.register("test", pid).unwrap();
    let unregistered_pid = registry.unregister("test").unwrap();
    assert_eq!(unregistered_pid, pid);
    assert_eq!(registry.whereis("test"), None);
}

#[test]
fn test_unregister_not_registered() {
    let mut registry = Registry::new();
    let result = registry.unregister("nonexistent");
    assert!(matches!(result, Err(ActorError::NameNotRegistered(_))));
}

#[test]
fn test_registered() {
    let mut registry = Registry::new();
    let pid1 = Pid::with_node(0, 1);
    let pid2 = Pid::with_node(0, 2);

    registry.register("process1", pid1).unwrap();
    registry.register("process2", pid2).unwrap();

    let names = registry.registered();
    assert_eq!(names.len(), 2);
    assert!(names.contains(&"process1".to_string()));
    assert!(names.contains(&"process2".to_string()));
}

#[test]
fn test_name_of() {
    let mut registry = Registry::new();
    let pid = Pid::with_node(0, 1);

    registry.register("my_process", pid).unwrap();
    assert_eq!(registry.name_of(pid), Some("my_process".to_string()));
}

#[test]
fn test_cleanup_pid() {
    let mut registry = Registry::new();
    let pid = Pid::with_node(0, 1);

    registry.register("test", pid).unwrap();
    registry.cleanup_pid(pid);

    assert_eq!(registry.whereis("test"), None);
    assert_eq!(registry.name_of(pid), None);
}

#[test]
fn test_empty_name() {
    let mut registry = Registry::new();
    let pid = Pid::with_node(0, 1);

    let result = registry.register("", pid);
    assert!(matches!(result, Err(ActorError::InvalidName(_))));
}

#[test]
fn test_len_and_is_empty() {
    let mut registry = Registry::new();
    assert!(registry.is_empty());
    assert_eq!(registry.len(), 0);

    let pid = Pid::with_node(0, 1);
    registry.register("test", pid).unwrap();
    assert!(!registry.is_empty());
    assert_eq!(registry.len(), 1);

    registry.unregister("test").unwrap();
    assert!(registry.is_empty());
    assert_eq!(registry.len(), 0);
}

#[test]
fn registered_name_resolves_back() {
    let mut registry = Registry::new();
    let pid = Pid::with_node(0, 9);
    registry.register("worker", pid).unwrap();
    let pid_found = registry.whereis("worker").unwrap();
    assert_eq!(registry.name_of(pid_found), Some("worker".to_string()));
}

#[test]
fn error_texts_of_registry() {
    let mut registry = Registry::new();
    let e = registry.unregister("ghost").unwrap_err();
    assert_eq!(e.to_string(), "Name 'ghost' is not registered");
    let e = registry.register("", Pid::with_node(0, 1)).unwrap_err();
    assert_eq!(e.to_string(), "Invalid name: Name cannot be empty");
}

#[test]
fn refused_rename_keeps_the_old_name() {
    let mut registry = Registry::new();
    let p = Pid::with_node(0, 1);
    let q = Pid::with_node(0, 2);
    registry.register("x", p).unwrap();
    registry.register("y", q).unwrap();
    assert!(matches!(registry.register("y", p), Err(ActorError::NameAlreadyRegistered(_))));
    assert_eq!(registry.whereis("x"), Some(p));
    assert_eq!(registry.name_of(p), Some("x".to_string()));
    assert_eq!(registry.whereis("y"), Some(q));
}
