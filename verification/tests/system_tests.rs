use joerl::distributed::hash_node_name;
use joerl::error::ActorError;
use joerl::message::{ExitReason, MonitorRef, Signal};
use joerl::pid::Pid;
use joerl::system::{parse_listen_address, ActorSystem, SendRoute};

#[test]
fn test_system_new() {
    let system = ActorSystem::new();
    assert_eq!(system.actor_count(), 0);
}

#[test]
fn test_spawn_actor() {
    let mut system = ActorSystem::new();
    let pid = system.spawn_entry("TestActor");
    assert!(system.is_actor_alive(pid));
}

#[test]
fn test_send_to_dead_actor() {
    let system = ActorSystem::new();
    let pid = Pid::with_node(0, 77);
    assert!(matches!(system.route(pid), SendRoute::Refused(ActorError::ActorNotFound(_))));
}

#[test]
fn test_link_actors() {
    let mut system = ActorSystem::new();
    let a = system.spawn_entry("A");
    let b = system.spawn_entry("B");
    assert!(system.link(a, b).is_ok());
}

#[test]
fn test_monitor_actor() {
    let mut system = ActorSystem::new();
    let a = system.spawn_entry("A");
    let b = system.spawn_entry("B");
    assert!(system.monitor(a, b).is_ok());
}

#[test]
fn test_is_actor_alive() {
    let mut system = ActorSystem::new();
    let pid = system.spawn_entry("A");
    assert!(system.is_actor_alive(pid));
    assert!(!system.is_actor_alive(Pid::with_node(0, 1000)));
}

#[test]
fn test_is_distributed() {
    let local_system = ActorSystem::new();
    assert!(!local_system.is_distributed());
    assert_eq!(local_system.local_node_id(), 0);
}

#[test]
fn test_nodes_empty_for_local() {
    let system = ActorSystem::new();
    assert_eq!(system.nodes(), Vec::<String>::new());
}

#[test]
fn test_node_none_for_local() {
    let system = ActorSystem::new();
    assert_eq!(system.node(), None);
}

#[test]
fn test_node_of_local_pid() {
    let system = ActorSystem::new();
    assert_eq!(system.node_of(Pid::with_node(0, 5)), None);
}

#[test]
fn test_is_process_alive_local() {
    let mut system = ActorSystem::new();
    let pid = system.spawn_entry("A");
    assert!(system.is_process_alive(pid));
    assert!(!system.is_process_alive(Pid::with_node(0, 999)));
}

#[test]
fn test_pid_normalization_local_system() {
    let system = ActorSystem::new();
    let local_pid = Pid::with_node(0, 12);

    let normalized = system.normalize_pid(local_pid);
    assert_eq!(normalized.node(), 0);

    let remote_looking_pid = Pid::with_node(42, local_pid.id());
    let normalized2 = system.normalize_pid(remote_looking_pid);
    assert_eq!(normalized2.node(), 0);
}

#[test]
fn spawned_pids_are_fresh_and_numbered() {
    let mut system = ActorSystem::new();
    let a = system.spawn_entry("A");
    let b = system.spawn_entry("B");
    assert_ne!(a, b);
    assert_eq!(a.id() + 1, b.id());
    assert_eq!(a.node(), 0);
    assert_eq!(system.actor_count(), 2);
}

#[test]
fn link_to_missing_actor() {
    let mut system = ActorSystem::new();
    let a = system.spawn_entry("A");
    let ghost = Pid::with_node(0, 500);
    match system.link(ghost, a) {
        Err(ActorError::ActorNotFound(p)) => assert_eq!(p, ghost),
        _ => panic!("expected ActorNotFound"),
    }
    match system.link(a, ghost) {
        Err(ActorError::ActorNotFound(p)) => assert_eq!(p, ghost),
        _ => panic!("expected ActorNotFound"),
    }
}

#[test]
fn monitor_refs_count_up_even_on_failure() {
    let mut system = ActorSystem::new();
    let a = system.spawn_entry("A");
    let b = system.spawn_entry("B");
    let r1 = system.monitor(a, b).unwrap();
    assert!(system.monitor(a, Pid::with_node(0, 900)).is_err());
    let r2 = system.monitor(a, b).unwrap();
    assert_eq!(r1, MonitorRef::new(1));
    assert_eq!(r2, MonitorRef::new(3));
}

#[test]
fn cleanup_notifies_links_then_watchers() {
    let mut system = ActorSystem::new();
    let a = system.spawn_entry("A");
    let b = system.spawn_entry("B");
    let c = system.spawn_entry("C");
    system.link(a, b).unwrap();
    let r = system.monitor(c, a).unwrap();
    let reason = ExitReason::Panic("crash".to_string());
    let signals = system.cleanup_actor(a, &reason);
    assert!(!system.is_actor_alive(a));
    assert_eq!(signals.len(), 2);
    match &signals[0] {
        (to, Signal::Exit { from, reason: rr }) => {
            assert_eq!(*to, b);
            assert_eq!(*from, a);
            assert_eq!(*rr, reason);
        }
        _ => panic!("expected an exit signal first"),
    }
    match &signals[1] {
        (to, Signal::Down { reference, pid, reason: rr }) => {
            assert_eq!(*to, c);
            assert_eq!(*reference, r);
            assert_eq!(*pid, a);
            assert_eq!(*rr, reason);
        }
        _ => panic!("expected a down signal second"),
    }
    assert!(system.cleanup_actor(a, &reason).is_empty());
}

#[test]
fn linking_twice_links_once() {
    let mut system = ActorSystem::new();
    let a = system.spawn_entry("A");
    let b = system.spawn_entry("B");
    system.link(a, b).unwrap();
    system.link(b, a).unwrap();
    let signals = system.cleanup_actor(a, &ExitReason::Killed);
    assert_eq!(signals.len(), 1);
}

#[test]
fn distributed_system_swaps_node_numbers() {
    let (system, host, port) = ActorSystem::new_distributed("node_a", "127.0.0.1:5000").unwrap();
    assert_eq!(host, "127.0.0.1");
    assert_eq!(port, 5000);
    let id = hash_node_name("node_a");
    assert_eq!(system.local_node_id(), id);
    assert_eq!(system.node(), Some("node_a"));
    assert_eq!(system.listen_address(), Some("127.0.0.1:5000"));
    assert_eq!(system.normalize_pid(Pid::with_node(0, 4)), Pid::with_node(id, 4));
    assert_eq!(system.normalize_pid(Pid::with_node(id, 4)), Pid::with_node(0, 4));
    let other = if id == 7 { 8 } else { 7 };
    assert_eq!(system.normalize_pid(Pid::with_node(other, 4)), Pid::with_node(other, 4));
    assert!(matches!(system.route(Pid::with_node(other, 1)), SendRoute::Remote));
    assert_eq!(system.node_of(Pid::with_node(0, 1)), Some("node_a".to_string()));
    assert_eq!(system.node_of(Pid::with_node(other, 1)), None);
}

#[test]
fn connections_name_remote_nodes() {
    let (mut system, _, _) = ActorSystem::new_distributed("node_a", "127.0.0.1:5000").unwrap();
    let id = system.record_connection("node_b").unwrap();
    assert_eq!(id, hash_node_name("node_b"));
    assert_eq!(system.nodes(), vec!["node_b".to_string()]);
    assert_eq!(system.node_of(Pid::with_node(id, 3)), Some("node_b".to_string()));
    let mut local = ActorSystem::new();
    assert_eq!(local.record_connection("node_b"), None);
}

#[test]
fn local_route_delivers_to_live_actors() {
    let mut system = ActorSystem::new();
    let a = system.spawn_entry("A");
    match system.route(a) {
        SendRoute::Local(p) => assert_eq!(p, a),
        _ => panic!("expected a local route"),
    }
    match system.route(Pid::with_node(42, a.id())) {
        SendRoute::Local(p) => assert_eq!(p, a),
        _ => panic!("a local-only system files every process under node 0"),
    }
}

#[test]
fn listen_addresses_are_parsed() {
    let (host, port) = parse_listen_address("127.0.0.1:5000").unwrap();
    assert_eq!(host, "127.0.0.1");
    assert_eq!(port, 5000);
    let (host, port) = parse_listen_address("h:+80:extra").unwrap();
    assert_eq!(host, "h");
    assert_eq!(port, 80);
    for bad in ["nohost", "h:", "h:70000", "h:-1", "h:x1", "h:+"] {
        match parse_listen_address(bad) {
            Err(ActorError::Other(m)) => assert_eq!(m, format!("Invalid listen address: {}", bad)),
            _ => panic!("expected a refusal for {}", bad),
        }
    }
}

#[test]
fn test_connect_to_node_requires_distributed() {
    let system = ActorSystem::new();
    assert!(!system.is_distributed());
    assert!(system.node_registry().is_none());
}

#[test]
fn distributed_system_refuses_an_invalid_listen_address() {
    for bad in ["localhost", "127.0.0.1:http"] {
        match ActorSystem::new_distributed("node_a", bad) {
            Err(ActorError::Other(m)) => assert_eq!(m, format!("Invalid listen address: {}", bad)),
            _ => panic!("expected a refusal for {}", bad),
        }
    }
}

#[test]
fn monitor_needs_a_live_watcher() {
    let mut system = ActorSystem::new();
    let target = system.spawn_entry("T");
    let dead_watcher = Pid::with_node(0, 400);
    match system.monitor(dead_watcher, target) {
        Err(ActorError::ActorNotFound(p)) => assert_eq!(p, dead_watcher),
        _ => panic!("expected ActorNotFound for the watcher"),
    }
    let signals = system.cleanup_actor(target, &ExitReason::Killed);
    assert!(signals.is_empty());
}

#[test]
fn distributed_node_reaches_its_own_actors() {
    let (mut system, _, _) = ActorSystem::new_distributed("node_a", "127.0.0.1:5000").unwrap();
    let a = system.spawn_entry("A");
    assert_eq!(a.node(), system.local_node_id());
    match system.route(a) {
        SendRoute::Local(p) => assert_eq!(p, a),
        _ => panic!("expected a local route"),
    }
    match system.route(Pid::with_node(0, a.id())) {
        SendRoute::Local(p) => assert_eq!(p, a),
        _ => panic!("a local pid written with node 0 names the same actor"),
    }
    assert!(system.is_process_alive(a));
    assert!(system.is_process_alive(Pid::with_node(0, a.id())));
    assert!(!system.is_process_alive(Pid::with_node(0, a.id() + 1)));
}

#[test]
fn ports_parse_up_to_the_largest_u16() {
    assert_eq!(parse_listen_address("h:65535").unwrap().1, 65535);
    assert_eq!(parse_listen_address("h:007").unwrap().1, 7);
    assert!(parse_listen_address("h:65536").is_err());
    assert!(parse_listen_address("h:1+").is_err());
}

#[test]
fn only_distributed_systems_connect() {
    let local = ActorSystem::new();
    match local.connection_check() {
        Err(ActorError::Other(m)) => assert_eq!(m, "Cannot connect - system is not distributed"),
        _ => panic!("a local-only system cannot connect"),
    }
    let (system, _, _) = ActorSystem::new_distributed("node_a", "127.0.0.1:5000").unwrap();
    assert!(system.connection_check().is_ok());
}
