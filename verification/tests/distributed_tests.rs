use joerl::distributed::{
    deserialize_message, frame_network_message, hash_node_name, incoming_message_len,
    serialize_message, DistributedError, NodeRegistry,
};
use joerl::epmd::EpmdError;
use joerl::error::ActorError;
use joerl::pid::Pid;
use joerl::serialization::{MessageRegistry, SerializableEnvelope, SerializableMessage, SerializationError};

#[derive(Debug, Clone, PartialEq)]
struct TestMsg {
    value: u32,
    text: String,
}

impl SerializableMessage for TestMsg {
    fn message_type_id(&self) -> &'static str {
        "test::TestMsg"
    }

    fn serialize(&self) -> Result<Vec<u8>, SerializationError> {
        let mut bytes = self.value.to_le_bytes().to_vec();
        bytes.extend_from_slice(self.text.as_bytes());
        Ok(bytes)
    }
}

type Deser = fn(&[u8]) -> Result<TestMsg, SerializationError>;

fn deserialize_test_msg(data: &[u8]) -> Result<TestMsg, SerializationError> {
    if data.len() < 4 {
        return Err(SerializationError::InvalidFormat("Too short".into()));
    }
    let value = u32::from_le_bytes([data[0], data[1], data[2], data[3]]);
    let text = String::from_utf8(data[4..].to_vec())
        .map_err(|e| SerializationError::DeserializeFailed(e.to_string()))?;
    Ok(TestMsg { value, text })
}

fn registry() -> MessageRegistry<Deser> {
    let mut r: MessageRegistry<Deser> = MessageRegistry::new();
    r.register("test::TestMsg", deserialize_test_msg as Deser);
    r
}

#[test]
fn test_hash_node_name() {
    let id1 = hash_node_name("node_a");
    let id2 = hash_node_name("node_b");
    let id3 = hash_node_name("node_a");

    assert_ne!(id1, id2);
    assert_eq!(id1, id3);
}

#[test]
fn test_serialize_message_roundtrip() {
    let sent = TestMsg { value: 42, text: "Hello, World!".to_string() };
    let serialized = serialize_message(Some(&sent)).expect("Serialization should succeed");
    let deserialized: TestMsg =
        deserialize_message(&serialized, &registry()).expect("Deserialization should succeed");
    assert_eq!(deserialized.value, sent.value);
    assert_eq!(deserialized.text, sent.text);
}

#[test]
fn test_serialize_non_serializable_message() {
    let result = serialize_message::<TestMsg>(None);
    assert!(result.is_err());

    match result {
        Err(DistributedError::SerializationError(err)) => {
            assert!(err.contains("does not implement SerializableMessage"));
        }
        _ => panic!("Expected SerializationError"),
    }
}

#[test]
fn test_deserialize_invalid_envelope() {
    let invalid_data = vec![1, 2, 3];
    let result = deserialize_message(&invalid_data, &registry());
    assert!(result.is_err());
}

#[test]
fn test_deserialize_unknown_message_type() {
    struct UnknownMsg;
    impl SerializableMessage for UnknownMsg {
        fn message_type_id(&self) -> &'static str {
            "test::UnknownMsg"
        }
        fn serialize(&self) -> Result<Vec<u8>, SerializationError> {
            Ok(vec![1, 2, 3, 4])
        }
    }

    let envelope = SerializableEnvelope::wrap(&UnknownMsg).unwrap();
    let bytes = envelope.to_bytes();

    let result = deserialize_message(&bytes, &registry());
    assert!(result.is_err());
}

#[test]
fn deserialize_errors_carry_their_text() {
    let r = deserialize_message(&[1, 2, 3], &registry());
    match r {
        Err(DistributedError::SerializationError(m)) => {
            assert_eq!(m, "Invalid format: Envelope too short")
        }
        _ => panic!("expected a serialization error"),
    }
    let unknown = SerializableEnvelope::new("nope".to_string(), vec![]).to_bytes();
    match deserialize_message(&unknown, &registry()) {
        Err(DistributedError::SerializationError(m)) => assert_eq!(m, "Unknown message type: nope"),
        _ => panic!("expected a serialization error"),
    }
    let short = SerializableEnvelope::new("test::TestMsg".to_string(), vec![1]).to_bytes();
    match deserialize_message(&short, &registry()) {
        Err(DistributedError::SerializationError(m)) => assert_eq!(m, "Invalid format: Too short"),
        _ => panic!("expected a serialization error"),
    }
}

#[test]
fn serialize_failure_is_a_serialization_error() {
    struct Broken;
    impl SerializableMessage for Broken {
        fn message_type_id(&self) -> &'static str {
            "Broken"
        }
        fn serialize(&self) -> Result<Vec<u8>, SerializationError> {
            Err(SerializationError::SerializeFailed("no".to_string()))
        }
    }
    match serialize_message(Some(&Broken)) {
        Err(DistributedError::SerializationError(m)) => assert_eq!(m, "Serialization failed: no"),
        _ => panic!("expected a serialization error"),
    }
}

#[test]
fn network_frames_are_length_prefixed() {
    let framed = frame_network_message(&[9, 8, 7]);
    assert_eq!(framed, vec![0, 0, 0, 3, 9, 8, 7]);
    assert_eq!(incoming_message_len([0, 0, 1, 0]).unwrap(), 256);
    assert_eq!(incoming_message_len([0, 0xa0, 0, 0]).unwrap(), 10 * 1024 * 1024);
    match incoming_message_len([0, 0xa0, 0, 1]) {
        Err(DistributedError::SerializationError(m)) => assert_eq!(m, "Message too large"),
        _ => panic!("expected a refusal"),
    }
}

#[test]
fn node_directory_records_and_forgets() {
    let mut dir = NodeRegistry::new();
    assert!(dir.list_connected_nodes().is_empty());
    let id = dir.record_connection("node_b");
    assert_eq!(id, hash_node_name("node_b"));
    assert!(dir.is_connected("node_b"));
    assert_eq!(dir.get_node_name(id), Some("node_b".to_string()));
    assert_eq!(dir.connection_name(id).unwrap(), "node_b");
    assert_eq!(dir.list_connected_nodes(), vec!["node_b".to_string()]);
    dir.remove("node_b");
    assert!(!dir.is_connected("node_b"));
    assert_eq!(dir.get_node_name(id), None);
    match dir.connection_name(id) {
        Err(DistributedError::NodeNotFound(n)) => assert_eq!(n, format!("unknown_node_{}", id)),
        _ => panic!("expected NodeNotFound"),
    }
}

#[test]
fn distributed_error_texts() {
    assert_eq!(
        DistributedError::NodeNotFound("x".to_string()).to_string(),
        "Node not found: x"
    );
    assert_eq!(
        DistributedError::ConnectionFailed("refused".to_string()).to_string(),
        "Connection failed: refused"
    );
    assert_eq!(
        DistributedError::ActorError(ActorError::Timeout).to_string(),
        "Actor error: Operation timed out"
    );
    assert_eq!(
        DistributedError::EpmdError(EpmdError::NodeNotFound("n".to_string())).to_string(),
        "EPMD error: Node not found: n"
    );
    let io = std::io::Error::new(std::io::ErrorKind::Other, "broken pipe");
    assert_eq!(DistributedError::IoError(io).to_string(), "IO error: broken pipe");
}

#[test]
fn network_message_fields() {
    let m = joerl::distributed::NetworkMessage {
        to: Pid::with_node(1, 42),
        from: Pid::with_node(2, 100),
        payload: vec![1, 2, 3, 4],
    };
    let c = m.clone();
    assert_eq!(c.to, Pid::with_node(1, 42));
    assert_eq!(c.from, Pid::with_node(2, 100));
    assert_eq!(c.payload, vec![1, 2, 3, 4]);
}
