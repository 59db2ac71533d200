use joerl::serialization::{MessageRegistry, SerializableEnvelope, SerializableMessage, SerializationError};

#[derive(Debug, Clone, PartialEq)]
struct TestMessage {
    value: i64,
    text: String,
}

impl SerializableMessage for TestMessage {
    fn message_type_id(&self) -> &'static str {
        "test::TestMessage"
    }

    fn serialize(&self) -> Result<Vec<u8>, SerializationError> {
        let mut bytes = Vec::new();
        bytes.extend_from_slice(&self.value.to_le_bytes());
        let text_bytes = self.text.as_bytes();
        bytes.extend_from_slice(&(text_bytes.len() as u32).to_le_bytes());
        bytes.extend_from_slice(text_bytes);
        Ok(bytes)
    }
}

fn deserialize_test_message(data: &[u8]) -> Result<TestMessage, SerializationError> {
    if data.len() < 12 {
        return Err(SerializationError::DeserializeFailed(
            "TestMessage requires at least 12 bytes".to_string(),
        ));
    }
    let value = i64::from_le_bytes([
        data[0], data[1], data[2], data[3], data[4], data[5], data[6], data[7],
    ]);
    let text_len = u32::from_le_bytes([data[8], data[9], data[10], data[11]]) as usize;
    if data.len() < 12 + text_len {
        return Err(SerializationError::DeserializeFailed("Insufficient data for text".to_string()));
    }
    let text = String::from_utf8(data[12..12 + text_len].to_vec())
        .map_err(|e| SerializationError::DeserializeFailed(format!("Invalid UTF-8: {}", e)))?;
    Ok(TestMessage { value, text })
}

#[test]
fn prop_large_message_serialization() {
    let large_text = "a".repeat(10000);
    let msg = TestMessage { value: 42, text: large_text.clone() };

    let serialized = msg.serialize().expect("serialization failed");
    let recovered = deserialize_test_message(&serialized).expect("deserialization failed");
    assert_eq!(recovered.value, 42);
    assert_eq!(recovered.text, large_text);
}

#[test]
fn prop_empty_string_serialization() {
    let msg = TestMessage { value: 123, text: String::new() };

    let serialized = msg.serialize().expect("serialization failed");
    let recovered = deserialize_test_message(&serialized).expect("deserialization failed");
    assert_eq!(recovered.value, 123);
    assert_eq!(recovered.text, "");
}

#[test]
fn wrapped_message_carries_its_type_id_and_bytes() {
    let msg = TestMessage { value: -1, text: "hi".to_string() };
    let envelope = SerializableEnvelope::wrap(&msg).unwrap();
    assert_eq!(envelope.type_id(), "test::TestMessage");
    assert_eq!(envelope.data(), &msg.serialize().unwrap()[..]);

    type Deser = fn(&[u8]) -> Result<TestMessage, SerializationError>;
    let mut registry: MessageRegistry<Deser> = MessageRegistry::new();
    registry.register("test::TestMessage", deserialize_test_message as Deser);
    let bytes = envelope.to_bytes();
    let back = SerializableEnvelope::from_bytes(&bytes).unwrap().unwrap(&registry).unwrap();
    assert_eq!(back, msg);
}

#[test]
fn wrapping_a_failing_message_gives_its_error() {
    struct Failing;
    impl SerializableMessage for Failing {
        fn message_type_id(&self) -> &'static str {
            "Failing"
        }
        fn serialize(&self) -> Result<Vec<u8>, SerializationError> {
            Err(SerializationError::SerializeFailed("nope".to_string()))
        }
    }
    match SerializableEnvelope::wrap(&Failing) {
        Err(SerializationError::SerializeFailed(m)) => assert_eq!(m, "nope"),
        _ => panic!("expected the serialization error"),
    }
}
