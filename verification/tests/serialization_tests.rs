use joerl::serialization::{
    MessageRegistry, SerializableEnvelope, SerializableMessage, SerializationError,
};

#[derive(Debug, Clone, PartialEq)]
struct TestMessage {
    value: u32,
}

impl SerializableMessage for TestMessage {
    fn message_type_id(&self) -> &'static str {
        "TestMessage"
    }

    fn serialize(&self) -> Result<Vec<u8>, SerializationError> {
        Ok(self.value.to_le_bytes().to_vec())
    }
}

type Deser = fn(&[u8]) -> Result<TestMessage, SerializationError>;

fn deserialize_test_message(data: &[u8]) -> Result<TestMessage, SerializationError> {
    if data.len() != 4 {
        return Err(SerializationError::DeserializeFailed("Invalid length".to_string()));
    }
    let value = u32::from_le_bytes([data[0], data[1], data[2], data[3]]);
    Ok(TestMessage { value })
}

fn test_registry_with_message() -> MessageRegistry<Deser> {
    let mut registry: MessageRegistry<Deser> = MessageRegistry::new();
    registry.register("TestMessage", deserialize_test_message as Deser);
    registry
}

#[test]
fn serialization_test_message_serialization() {
    let msg = TestMessage { value: 42 };
    let data = msg.serialize().unwrap();
    assert_eq!(data, vec![42, 0, 0, 0]);
}

#[test]
fn test_registry() {
    let mut registry: MessageRegistry<Deser> = MessageRegistry::new();
    assert!(registry.is_empty());

    registry.register("TestMessage", deserialize_test_message as Deser);
    assert_eq!(registry.len(), 1);
    assert!(registry.has_type("TestMessage"));
    assert!(!registry.has_type("UnknownType"));
}

#[test]
fn test_registry_deserialize() {
    let registry = test_registry_with_message();
    let data = vec![42, 0, 0, 0];
    let msg = registry.deserialize("TestMessage", &data).unwrap();
    assert_eq!(msg.value, 42);
}

#[test]
fn test_registry_unknown_type() {
    let registry: MessageRegistry<Deser> = MessageRegistry::new();
    let result = registry.deserialize("Unknown", &[]);
    assert!(matches!(result, Err(SerializationError::UnknownMessageType(_))));
}

#[test]
fn test_envelope_wrap_unwrap() {
    let msg = TestMessage { value: 123 };
    let envelope = SerializableEnvelope::wrap(&msg).unwrap();
    assert_eq!(envelope.type_id(), "TestMessage");

    let registry = test_registry_with_message();
    let unwrapped = envelope.unwrap(&registry).unwrap();
    assert_eq!(unwrapped.value, 123);
}

#[test]
fn test_envelope_to_from_bytes() {
    let msg = TestMessage { value: 999 };
    let envelope = SerializableEnvelope::wrap(&msg).unwrap();

    let bytes = envelope.to_bytes();
    let reconstructed = SerializableEnvelope::from_bytes(&bytes).unwrap();

    assert_eq!(envelope.type_id(), reconstructed.type_id());
    assert_eq!(envelope.data(), reconstructed.data());
}

#[test]
fn test_envelope_from_bytes_invalid() {
    let result = SerializableEnvelope::from_bytes(&[1, 2, 3]);
    assert!(matches!(result, Err(SerializationError::InvalidFormat(_))));
}

#[test]
fn test_registry_clone() {
    let registry = test_registry_with_message();
    let cloned = registry.clone();
    assert!(cloned.has_type("TestMessage"));
}

#[test]
fn test_registry_clear() {
    let mut registry = test_registry_with_message();
    assert_eq!(registry.len(), 1);

    registry.clear();
    assert!(registry.is_empty());
}

#[test]
fn envelope_wire_form_is_exact() {
    let envelope = SerializableEnvelope::new("Ab".to_string(), vec![7, 8, 9]);
    assert_eq!(envelope.to_bytes(), vec![2, 0, 0, 0, b'A', b'b', 3, 0, 0, 0, 7, 8, 9]);
}

#[test]
fn envelope_reading_ignores_trailing_bytes() {
    let bytes = vec![1, 0, 0, 0, b'x', 1, 0, 0, 0, 5, 99, 99];
    let e = SerializableEnvelope::from_bytes(&bytes).unwrap();
    assert_eq!(e.type_id(), "x");
    assert_eq!(e.data(), &[5]);
}

#[test]
fn envelope_errors_each_kind() {
    let short = SerializableEnvelope::from_bytes(&[0; 7]).unwrap_err();
    assert_eq!(short.to_string(), "Invalid format: Envelope too short");
    let bad_len = SerializableEnvelope::from_bytes(&[9, 0, 0, 0, 0, 0, 0, 0]).unwrap_err();
    assert_eq!(bad_len.to_string(), "Invalid format: Invalid type_id length");
    let bad_utf8 = SerializableEnvelope::from_bytes(&[1, 0, 0, 0, 0xff, 0, 0, 0, 0]).unwrap_err();
    assert!(bad_utf8.to_string().starts_with("Invalid format: Invalid UTF-8: "));
    let bad_data = SerializableEnvelope::from_bytes(&[0, 0, 0, 0, 2, 0, 0, 0, 1]).unwrap_err();
    assert_eq!(bad_data.to_string(), "Invalid format: Invalid data length");
}

#[test]
fn registry_replaces_deserializer() {
    fn always_seven(_d: &[u8]) -> Result<TestMessage, SerializationError> {
        Ok(TestMessage { value: 7 })
    }
    let mut registry = test_registry_with_message();
    registry.register("TestMessage", always_seven as Deser);
    assert_eq!(registry.len(), 1);
    assert_eq!(registry.deserialize("TestMessage", &[1, 0, 0, 0]).unwrap().value, 7);
}

#[test]
fn serialization_error_texts() {
    assert_eq!(
        SerializationError::UnknownMessageType("Ping".to_string()).to_string(),
        "Unknown message type: Ping"
    );
    assert_eq!(
        SerializationError::TypeMismatch { expected: "A".to_string(), found: "B".to_string() }
            .to_string(),
        "Type mismatch: expected A, found B"
    );
    assert_eq!(
        SerializationError::SerializeFailed("x".to_string()).to_string(),
        "Serialization failed: x"
    );
}
