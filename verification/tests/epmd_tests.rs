use joerl::epmd::{
    epmd_frame_len, frame_header, frame_len, keep_alive_reply, list_nodes_reply, lookup_reply,
    ping_reply, register_reply, unregister_reply, EpmdError, EpmdMessage, EpmdServer, NodeInfo,
    NodeMetadata, DEFAULT_EPMD_PORT,
};
use std::time::Duration;

const SECOND: u64 = 1_000_000_000;

fn register(server: &mut EpmdServer, name: &str, port: u16, now: u64) -> EpmdMessage {
    server.handle_message(
        EpmdMessage::Register {
            name: name.to_string(),
            host: "127.0.0.1".to_string(),
            port,
            metadata: NodeMetadata::default(),
        },
        now,
    )
}

#[test]
fn test_node_info_creation() {
    let info = NodeInfo::new("test_node".to_string(), "127.0.0.1".to_string(), 5000);
    assert_eq!(info.name, "test_node");
    assert_eq!(info.host, "127.0.0.1");
    assert_eq!(info.port, 5000);
    assert_eq!(info.address(), "127.0.0.1:5000");
}

#[test]
fn test_node_info_display() {
    let info = NodeInfo::new("node1".to_string(), "192.168.1.100".to_string(), 4000);
    assert_eq!(info.to_string(), "node1@192.168.1.100:4000");
}

#[test]
fn test_handle_register() {
    let mut server = EpmdServer::new("127.0.0.1:0");
    let response = register(&mut server, "test_node", 5000, 0);
    assert!(matches!(response, EpmdMessage::RegisterOk));
    assert_eq!(server.node_count(), 1);
}

#[test]
fn test_handle_lookup() {
    let mut server = EpmdServer::new("127.0.0.1:0");
    register(&mut server, "test_node", 5000, 0);

    let response =
        server.handle_message(EpmdMessage::Lookup { name: "test_node".to_string() }, 0);
    match response {
        EpmdMessage::LookupResult { node: Some(info) } => {
            assert_eq!(info.name, "test_node");
            assert_eq!(info.port, 5000);
        }
        _ => panic!("Expected LookupResult with node"),
    }
}

#[test]
fn test_handle_list_nodes() {
    let mut server = EpmdServer::new("127.0.0.1:0");
    for i in 0..2u16 {
        register(&mut server, &format!("node{}", i), 5000 + i, 0);
    }

    let response = server.handle_message(EpmdMessage::ListNodes, 0);
    match response {
        EpmdMessage::NodeList { nodes: node_list } => {
            assert_eq!(node_list.len(), 2);
        }
        _ => panic!("Expected NodeList"),
    }
}

#[test]
fn test_epmd_server_start() {
    let server = EpmdServer::new("127.0.0.1:0");
    assert_eq!(server.node_count(), 0);
    assert_eq!(server.address(), "127.0.0.1:0");
}

#[test]
fn duplicate_registration_is_refused() {
    let mut server = EpmdServer::new("127.0.0.1:4369");
    register(&mut server, "a", 1, 0);
    match register(&mut server, "a", 2, 0) {
        EpmdMessage::RegisterError { reason } => assert_eq!(reason, "Node a already registered"),
        _ => panic!("expected RegisterError"),
    }
    assert_eq!(server.node_count(), 1);
}

#[test]
fn unregister_then_lookup_finds_nothing() {
    let mut server = EpmdServer::new("127.0.0.1:4369");
    register(&mut server, "a", 1, 0);
    let r = server.handle_message(EpmdMessage::Unregister { name: "a".to_string() }, 0);
    assert!(matches!(r, EpmdMessage::UnregisterOk));
    let r = server.handle_message(EpmdMessage::Unregister { name: "a".to_string() }, 0);
    assert!(matches!(r, EpmdMessage::UnregisterOk));
    let r = server.handle_message(EpmdMessage::Lookup { name: "a".to_string() }, 0);
    assert!(matches!(r, EpmdMessage::LookupResult { node: None }));
}

#[test]
fn ping_keep_alive_and_unexpected_messages() {
    let mut server = EpmdServer::new("127.0.0.1:4369");
    assert!(matches!(server.handle_message(EpmdMessage::Ping, 0), EpmdMessage::Pong));
    match server.handle_message(EpmdMessage::KeepAlive { name: "x".to_string() }, 0) {
        EpmdMessage::RegisterError { reason } => assert_eq!(reason, "Node x not registered"),
        _ => panic!("expected RegisterError"),
    }
    register(&mut server, "x", 1, 0);
    assert!(matches!(
        server.handle_message(EpmdMessage::KeepAlive { name: "x".to_string() }, 5),
        EpmdMessage::KeepAliveAck
    ));
    match server.handle_message(EpmdMessage::Pong, 0) {
        EpmdMessage::RegisterError { reason } => assert_eq!(reason, "Unexpected message type"),
        _ => panic!("expected RegisterError"),
    }
}

#[test]
fn silent_nodes_are_dropped() {
    let mut server = EpmdServer::new("127.0.0.1:4369");
    register(&mut server, "old", 1, 0);
    register(&mut server, "fresh", 2, 50 * SECOND);
    let dead = server.remove_dead_nodes(61 * SECOND);
    assert_eq!(dead, vec!["old".to_string()]);
    assert_eq!(server.node_count(), 1);
    let r = server.handle_message(EpmdMessage::Lookup { name: "fresh".to_string() }, 0);
    assert!(matches!(r, EpmdMessage::LookupResult { node: Some(_) }));
}

#[test]
fn keep_alive_keeps_a_node() {
    let mut server =
        EpmdServer::new("127.0.0.1:4369").with_keep_alive_timeout(Duration::from_secs(10));
    register(&mut server, "n", 1, 0);
    server.handle_message(EpmdMessage::KeepAlive { name: "n".to_string() }, 8 * SECOND);
    assert!(server.remove_dead_nodes(15 * SECOND).is_empty());
    assert_eq!(server.remove_dead_nodes(19 * SECOND), vec!["n".to_string()]);
}

#[test]
fn replies_are_interpreted() {
    assert!(register_reply(EpmdMessage::RegisterOk).is_ok());
    match register_reply(EpmdMessage::RegisterError { reason: "taken".to_string() }) {
        Err(EpmdError::NodeAlreadyRegistered(r)) => assert_eq!(r, "taken"),
        _ => panic!("expected NodeAlreadyRegistered"),
    }
    match register_reply(EpmdMessage::Pong) {
        Err(EpmdError::ProtocolError(m)) => assert_eq!(m, "Unexpected response to Register"),
        _ => panic!("expected ProtocolError"),
    }
    assert!(unregister_reply(EpmdMessage::UnregisterOk).is_ok());
    assert!(unregister_reply(EpmdMessage::Pong).is_err());
    assert!(matches!(lookup_reply(EpmdMessage::LookupResult { node: None }), Ok(None)));
    assert!(lookup_reply(EpmdMessage::Pong).is_err());
    assert_eq!(list_nodes_reply(EpmdMessage::NodeList { nodes: vec![] }).unwrap().len(), 0);
    assert!(ping_reply(EpmdMessage::Pong).is_ok());
    assert!(ping_reply(EpmdMessage::RegisterOk).is_err());
    assert!(keep_alive_reply(EpmdMessage::KeepAliveAck).is_ok());
    match keep_alive_reply(EpmdMessage::Pong) {
        Err(e) => assert_eq!(e.to_string(), "Protocol error: Unexpected response to KeepAlive"),
        _ => panic!("expected an error"),
    }
}

#[test]
fn epmd_frames() {
    let h = frame_header(300);
    assert_eq!(h, [0, 0, 1, 44]);
    assert_eq!(frame_len(h), 300);
    assert_eq!(epmd_frame_len([0, 16, 0, 0]).unwrap(), 1048576);
    match epmd_frame_len([0, 16, 0, 1]) {
        Err(EpmdError::ProtocolError(m)) => assert_eq!(m, "Message too large"),
        _ => panic!("expected refusal"),
    }
}

#[test]
fn node_metadata_defaults() {
    let m = NodeMetadata::default();
    assert_eq!(m.protocol_version, 1);
    assert!(m.capabilities.is_empty());
    assert!(m.attributes.is_empty());
    assert_eq!(DEFAULT_EPMD_PORT, 4370);
}

#[test]
fn epmd_error_texts() {
    assert_eq!(EpmdError::NodeNotFound("a".to_string()).to_string(), "Node not found: a");
    assert_eq!(
        EpmdError::NodeAlreadyRegistered("a".to_string()).to_string(),
        "Node already registered: a"
    );
    assert_eq!(
        EpmdError::SerializationError("bad".to_string()).to_string(),
        "Serialization error: bad"
    );
}
