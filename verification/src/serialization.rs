use crate::text::{push_str, string_of};
use vstd::prelude::*;
use vstd::slice::{slice_subrange, slice_to_vec};
use vstd::utf8::*;
use std::string::FromUtf8Error;

verus! {

broadcast use vstd::utf8::encode_utf8_decode_utf8, vstd::utf8::encode_utf8_valid_utf8;

/// Errors of serialization and deserialization.
#[derive(Debug, Clone)]
pub enum SerializationError {
    /// A message could not be serialized.
    SerializeFailed(String),
    /// A message could not be deserialized.
    DeserializeFailed(String),
    /// No deserializer is registered for this type id.
    UnknownMessageType(String),
    /// The bytes do not have the expected format.
    InvalidFormat(String),
    /// The deserialized value has another type than expected.
    TypeMismatch { expected: String, found: String },
}

/// The text form of a serialization error.
pub open spec fn serialization_error_text(e: SerializationError) -> Seq<char> {
    match e {
        SerializationError::SerializeFailed(m) => "Serialization failed: "@ + m@,
        SerializationError::DeserializeFailed(m) => "Deserialization failed: "@ + m@,
        SerializationError::UnknownMessageType(t) => "Unknown message type: "@ + t@,
        SerializationError::InvalidFormat(m) => "Invalid format: "@ + m@,
        SerializationError::TypeMismatch { expected, found } => "Type mismatch: expected "@
            + expected@ + ", found "@ + found@,
    }
}

impl SerializationError {
    /// The text form, e.g. `Unknown message type: Ping`.
    pub fn to_string(&self) -> (r: String)
        ensures
            r@ == serialization_error_text(*self),
    {
        match self {
            SerializationError::SerializeFailed(m) => {
                let mut s = string_of("Serialization failed: ");
                push_str(&mut s, m.as_str());
                s
            },
            SerializationError::DeserializeFailed(m) => {
                let mut s = string_of("Deserialization failed: ");
                push_str(&mut s, m.as_str());
                s
            },
            SerializationError::UnknownMessageType(t) => {
                let mut s = string_of("Unknown message type: ");
                push_str(&mut s, t.as_str());
                s
            },
            SerializationError::InvalidFormat(m) => {
                let mut s = string_of("Invalid format: ");
                push_str(&mut s, m.as_str());
                s
            },
            SerializationError::TypeMismatch { expected, found } => {
                let mut s = string_of("Type mismatch: expected ");
                push_str(&mut s, expected.as_str());
                push_str(&mut s, ", found ");
                push_str(&mut s, found.as_str());
                s
            },
        }
    }
}

/// A message that can be serialized. Each message type names itself with a
/// type id that is unique across the system, and turns itself into bytes.
pub trait SerializableMessage {
    /// The unique, stable identifier of this message type.
    fn message_type_id(&self) -> &'static str;

    /// The message as bytes.
    fn serialize(&self) -> Result<Vec<u8>, SerializationError>;
}

// ---------------------------------------------------------------------------
// Little-endian 32-bit integers
// ---------------------------------------------------------------------------

/// The four little-endian bytes of `x`.
pub open spec fn u32_le(x: u32) -> Seq<u8> {
    seq![(x & 0xff) as u8, ((x >> 8) & 0xff) as u8, ((x >> 16) & 0xff) as u8, ((x >> 24) & 0xff) as u8]
}

/// The integer whose little-endian bytes are `b[0..4]`.
pub open spec fn u32_from_le(b: Seq<u8>) -> u32
    recommends
        b.len() >= 4,
{
    (b[0] as u32) | ((b[1] as u32) << 8) | ((b[2] as u32) << 16) | ((b[3] as u32) << 24)
}

proof fn lemma_u32_le_value_roundtrip(x: u32)
    ensures
        u32_from_le(u32_le(x)) == x,
{
    let b = u32_le(x);
    let b0 = b[0];
    let b1 = b[1];
    let b2 = b[2];
    let b3 = b[3];
    assert(b0 == (x & 0xff) as u8 && b1 == ((x >> 8) & 0xff) as u8 && b2 == ((x >> 16) & 0xff) as u8
        && b3 == ((x >> 24) & 0xff) as u8);
    assert(b0 == (x & 0xff) as u8 && b1 == ((x >> 8) & 0xff) as u8 && b2 == ((x >> 16) & 0xff) as u8
        && b3 == ((x >> 24) & 0xff) as u8 ==> (b0 as u32) | ((b1 as u32) << 8) | ((b2 as u32) << 16)
        | ((b3 as u32) << 24) == x) by (bit_vector);
}

proof fn lemma_u32_le_bytes_roundtrip(b: Seq<u8>)
    requires
        b.len() == 4,
    ensures
        u32_le(u32_from_le(b)) == b,
{
    let x = u32_from_le(b);
    let b0 = b[0];
    let b1 = b[1];
    let b2 = b[2];
    let b3 = b[3];
    assert(x == (b0 as u32) | ((b1 as u32) << 8) | ((b2 as u32) << 16) | ((b3 as u32) << 24));
    assert(x == (b0 as u32) | ((b1 as u32) << 8) | ((b2 as u32) << 16) | ((b3 as u32) << 24) ==> b0
        == (x & 0xff) as u8 && b1 == ((x >> 8) & 0xff) as u8 && b2 == ((x >> 16) & 0xff) as u8 && b3
        == ((x >> 24) & 0xff) as u8) by (bit_vector);
    assert(u32_le(x) =~= b);
}

/// The length fields are little-endian: byte `k` of `u32_le(x)` is digit
/// `k` of `x` in base 256, least significant first, and `u32_from_le`
/// reads four bytes as that base-256 number.
pub proof fn lemma_u32_le_is_base_256(x: u32, b: Seq<u8>)
    requires
        b.len() >= 4,
    ensures
        u32_le(x).len() == 4,
        u32_le(x)[0] == x % 256,
        u32_le(x)[1] == (x / 256) % 256,
        u32_le(x)[2] == (x / 65536) % 256,
        u32_le(x)[3] == x / 16777216,
        u32_from_le(b) == b[0] + 256 * b[1] + 65536 * b[2] + 16777216 * b[3],
{
    assert((x & 0xff) as u8 == x % 256) by (bit_vector);
    assert(((x >> 8) & 0xff) as u8 == (x / 256) % 256) by (bit_vector);
    assert(((x >> 16) & 0xff) as u8 == (x / 65536) % 256) by (bit_vector);
    assert(((x >> 24) & 0xff) as u8 == x / 16777216) by (bit_vector);
    let b0 = b[0];
    let b1 = b[1];
    let b2 = b[2];
    let b3 = b[3];
    assert((b0 as u32) | ((b1 as u32) << 8) | ((b2 as u32) << 16) | ((b3 as u32) << 24) == b0 + 256
        * b1 + 65536 * b2 + 16777216 * b3) by (bit_vector);
}

fn push_u32_le(v: &mut Vec<u8>, x: u32)
    ensures
        final(v)@ == old(v)@ + u32_le(x),
{
    v.push((x & 0xff) as u8);
    v.push(((x >> 8) & 0xff) as u8);
    v.push(((x >> 16) & 0xff) as u8);
    v.push(((x >> 24) & 0xff) as u8);
    assert(final(v)@ =~= old(v)@ + u32_le(x));
}

fn read_u32_le(b: &[u8], at: usize) -> (r: u32)
    requires
        at + 4 <= b@.len(),
    ensures
        r == u32_from_le(b@.subrange(at as int, at + 4)),
{
    let b0 = b[at];
    let b1 = b[at + 1];
    let b2 = b[at + 2];
    let b3 = b[at + 3];
    (b0 as u32) | ((b1 as u32) << 8) | ((b2 as u32) << 16) | ((b3 as u32) << 24)
}

fn append_bytes(v: &mut Vec<u8>, b: &[u8])
    ensures
        final(v)@ == old(v)@ + b@,
{
    let n = b.len();
    let mut i: usize = 0;
    while i < n
        invariant
            n == b@.len(),
            i <= n,
            v@ == old(v)@ + b@.subrange(0, i as int),
        decreases n - i,
    {
        v.push(b[i]);
        i = i + 1;
        assert(v@ =~= old(v)@ + b@.subrange(0, i as int));
    }
    assert(b@.subrange(0, n as int) =~= b@);
}

// ---------------------------------------------------------------------------
// Envelope wire format
// ---------------------------------------------------------------------------

/// The wire form of an envelope with type id `t` and payload `d`: the byte
/// length of `t`'s UTF-8 encoding as a little-endian `u32`, those bytes, the
/// payload length as a little-endian `u32`, and the payload. Lengths are
/// truncated to 32 bits, as the conversion to `u32` does.
pub open spec fn envelope_bytes(t: Seq<char>, d: Seq<u8>) -> Seq<u8> {
    u32_le(encode_utf8(t).len() as u32) + encode_utf8(t) + u32_le(d.len() as u32) + d
}

/// The type-id length field of a byte sequence that holds at least 4 bytes.
pub open spec fn wire_type_id_len(b: Seq<u8>) -> int {
    u32_from_le(b.subrange(0, 4)) as int
}

/// The type-id bytes of a byte sequence whose type-id length field fits.
pub open spec fn wire_type_id_bytes(b: Seq<u8>) -> Seq<u8> {
    b.subrange(4, 4 + wire_type_id_len(b))
}

/// The payload length field of a byte sequence with a complete header.
pub open spec fn wire_data_len(b: Seq<u8>) -> int {
    u32_from_le(b.subrange(4 + wire_type_id_len(b), 8 + wire_type_id_len(b))) as int
}

/// The result of reading an envelope from `b`: its type id and payload, or
/// `None` when `b` is too short for its length fields or the type id is not
/// valid UTF-8. Bytes after the payload are ignored.
pub open spec fn decode_envelope(b: Seq<u8>) -> Option<(Seq<char>, Seq<u8>)> {
    if b.len() < 8 {
        None
    } else if b.len() < 8 + wire_type_id_len(b) {
        None
    } else if !valid_utf8(wire_type_id_bytes(b)) {
        None
    } else if b.len() < 8 + wire_type_id_len(b) + wire_data_len(b) {
        None
    } else {
        Some(
            (
                decode_utf8(wire_type_id_bytes(b)),
                b.subrange(8 + wire_type_id_len(b), 8 + wire_type_id_len(b) + wire_data_len(b)),
            ),
        )
    }
}

/// Reading back what was written gives the same type id and payload, for
/// every type id whose UTF-8 encoding and every payload whose length fit in
/// 32 bits.
pub proof fn lemma_envelope_roundtrip(t: Seq<char>, d: Seq<u8>)
    requires
        encode_utf8(t).len() <= u32::MAX,
        d.len() <= u32::MAX,
    ensures
        decode_envelope(envelope_bytes(t, d)) == Some((t, d)),
{
    let tb = encode_utf8(t);
    let tl = tb.len() as u32;
    let dl = d.len() as u32;
    let b = envelope_bytes(t, d);
    assert(b.subrange(0, 4) =~= u32_le(tl));
    lemma_u32_le_value_roundtrip(tl);
    assert(wire_type_id_len(b) == tb.len());
    assert(wire_type_id_bytes(b) =~= tb);
    assert(b.subrange(4 + tb.len() as int, 8 + tb.len() as int) =~= u32_le(dl));
    lemma_u32_le_value_roundtrip(dl);
    assert(wire_data_len(b) == d.len());
    assert(b.subrange(8 + tb.len() as int, 8 + tb.len() + d.len() as int) =~= d);
}

/// An envelope that reads successfully occupies exactly the bytes that
/// writing its type id and payload produces: the format has one encoding
/// per envelope.
pub proof fn lemma_envelope_decoding_is_canonical(b: Seq<u8>, t: Seq<char>, d: Seq<u8>)
    requires
        decode_envelope(b) == Some((t, d)),
    ensures
        envelope_bytes(t, d) == b.subrange(0, 8 + wire_type_id_len(b) + wire_data_len(b)),
{
    let tl = wire_type_id_len(b);
    let dl = wire_data_len(b);
    let tb = wire_type_id_bytes(b);
    vstd::utf8::decode_utf8_encode_utf8(tb);
    assert(encode_utf8(t) == tb);
    lemma_u32_le_bytes_roundtrip(b.subrange(0, 4));
    lemma_u32_le_bytes_roundtrip(b.subrange(4 + tl, 8 + tl));
    assert(tb.len() == tl);
    assert((tl as u32) as int == tl);
    assert((dl as u32) as int == dl);
    assert(envelope_bytes(t, d) =~= b.subrange(0, 8 + tl + dl));
}

/// The trusted call of `String::from_utf8`: Ok exactly for valid UTF-8, with
/// the decoded characters (as documented for `String::from_utf8`).
#[verifier::external_body]
fn string_from_utf8(v: Vec<u8>) -> (r: Result<String, FromUtf8Error>)
    ensures
        r is Ok <==> valid_utf8(v@),
        r matches Ok(s) ==> s@ == decode_utf8(v@),
{
    String::from_utf8(v)
}

/// The trusted call of `FromUtf8Error`'s `Display`, the text of a UTF-8
/// decoding error. Nothing is stated of the text.
#[verifier::external_body]
fn utf8_error_text(e: &FromUtf8Error) -> String {
    e.to_string()
}

#[verifier::external_type_specification]
#[verifier::external_body]
pub struct ExFromUtf8Error(FromUtf8Error);

/// `r` is an `InvalidFormat` error with exactly the text `msg`.
pub open spec fn invalid_format_with<T>(r: Result<T, SerializationError>, msg: Seq<char>) -> bool {
    r matches Err(SerializationError::InvalidFormat(m)) && m@ == msg
}

/// `r` is an `InvalidFormat` error whose text starts with `prefix`.
pub open spec fn invalid_format_starting<T>(r: Result<T, SerializationError>, prefix: Seq<char>) -> bool {
    r matches Err(SerializationError::InvalidFormat(m)) && m@.len() >= prefix.len() && m@.subrange(
        0,
        prefix.len() as int,
    ) == prefix
}

/// A serialized message: its type id and its bytes.
#[derive(Debug, Clone)]
pub struct SerializableEnvelope {
    type_id: String,
    data: Vec<u8>,
}

impl View for SerializableEnvelope {
    type V = (Seq<char>, Seq<u8>);

    closed spec fn view(&self) -> (Seq<char>, Seq<u8>) {
        (self.type_id@, self.data@)
    }
}

impl SerializableEnvelope {
    /// An envelope holding the given type id and bytes.
    pub fn new(type_id: String, data: Vec<u8>) -> (r: SerializableEnvelope)
        ensures
            r@ == (type_id@, data@),
    {
        SerializableEnvelope { type_id, data }
    }

    /// The envelope for a message whose type id and serialization are given:
    /// the serialization's error, or an envelope holding both.
    pub fn from_parts(type_id: &str, serialized: Result<Vec<u8>, SerializationError>) -> (r: Result<
        SerializableEnvelope,
        SerializationError,
    >)
        ensures
            serialized matches Err(e) ==> (r matches Err(e2) && e2 == e),
            serialized matches Ok(d) ==> (r matches Ok(e) && e@ == (type_id@, d@)),
    {
        match serialized {
            Ok(data) => Ok(SerializableEnvelope { type_id: string_of(type_id), data }),
            Err(e) => Err(e),
        }
    }

    /// Wraps a serializable message: its type id and its serialized bytes,
    /// or the error its serialization returned.
    pub fn wrap<T: SerializableMessage + ?Sized>(msg: &T) -> (r: Result<SerializableEnvelope, SerializationError>)
        ensures
            exists|t: &'static str, d: Result<Vec<u8>, SerializationError>|
                #![trigger call_ensures(T::message_type_id, (msg,), t), call_ensures(T::serialize, (msg,), d)]
                call_ensures(T::message_type_id, (msg,), t) && call_ensures(T::serialize, (msg,), d)
                    && (d matches Ok(v) ==> (r matches Ok(e) && e@ == (t@, v@)))
                    && (d matches Err(x) ==> (r matches Err(y) && y == x)),
    {
        let type_id_of = T::message_type_id;
        let serialize_of = T::serialize;
        let type_id = type_id_of(msg);
        let data = serialize_of(msg);
        Self::from_parts(type_id, data)
    }

    /// The type id of the wrapped message.
    pub fn type_id(&self) -> (r: &str)
        ensures
            r@ == self@.0,
    {
        self.type_id.as_str()
    }

    /// The serialized bytes.
    pub fn data(&self) -> (r: &[u8])
        ensures
            r@ == self@.1,
    {
        self.data.as_slice()
    }

    /// The wire form: the type id's byte length (u32, little endian), the
    /// type id's UTF-8 bytes, the payload length (u32, little endian) and
    /// the payload.
    pub fn to_bytes(&self) -> (r: Vec<u8>)
        ensures
            r@ == envelope_bytes(self@.0, self@.1),
    {
        let type_id_bytes = self.type_id.as_str().as_bytes();
        let type_id_len = type_id_bytes.len() as u32;
        let data_len = self.data.len() as u32;
        let mut result: Vec<u8> = Vec::new();
        push_u32_le(&mut result, type_id_len);
        append_bytes(&mut result, type_id_bytes);
        push_u32_le(&mut result, data_len);
        append_bytes(&mut result, self.data.as_slice());
        result
    }

    /// Reads an envelope from its wire form. Fails with `InvalidFormat` when
    /// the bytes are too short for the header or for the lengths they
    /// announce, or when the type id is not valid UTF-8. Bytes after the
    /// payload are ignored.
    pub fn from_bytes(bytes: &[u8]) -> (r: Result<SerializableEnvelope, SerializationError>)
        ensures
            r is Ok <==> decode_envelope(bytes@) is Some,
            r matches Ok(e) ==> Some(e@) == decode_envelope(bytes@),
            bytes@.len() < 8 ==> invalid_format_with(r, "Envelope too short"@),
            bytes@.len() >= 8 && bytes@.len() < 8 + wire_type_id_len(bytes@) ==> invalid_format_with(
                r,
                "Invalid type_id length"@,
            ),
            bytes@.len() >= 8 + wire_type_id_len(bytes@) && !valid_utf8(wire_type_id_bytes(bytes@))
                ==> invalid_format_starting(r, "Invalid UTF-8: "@),
            bytes@.len() >= 8 + wire_type_id_len(bytes@) && valid_utf8(wire_type_id_bytes(bytes@))
                && bytes@.len() < 8 + wire_type_id_len(bytes@) + wire_data_len(bytes@)
                ==> invalid_format_with(r, "Invalid data length"@),
    {
        proof {
            reveal_strlit("Envelope too short");
            reveal_strlit("Invalid type_id length");
            reveal_strlit("Invalid UTF-8: ");
            reveal_strlit("Missing data length");
            reveal_strlit("Invalid data length");
        }
        let n = bytes.len();
        if n < 8 {
            return Err(SerializationError::InvalidFormat(string_of("Envelope too short")));
        }
        let type_id_len = read_u32_le(bytes, 0) as usize;
        assert(bytes@.subrange(0, 4) =~= bytes@.subrange(0, 0int + 4));
        if n - 8 < type_id_len {
            return Err(SerializationError::InvalidFormat(string_of("Invalid type_id length")));
        }
        let type_id_slice = slice_subrange(bytes, 4, 4 + type_id_len);
        let type_id = match string_from_utf8(slice_to_vec(type_id_slice)) {
            Ok(s) => s,
            Err(e) => {
                let mut m = string_of("Invalid UTF-8: ");
                let detail = utf8_error_text(&e);
                push_str(&mut m, detail.as_str());
                assert(m@.subrange(0, 15) =~= "Invalid UTF-8: "@);
                return Err(SerializationError::InvalidFormat(m));
            },
        };
        let data_len_offset = 4 + type_id_len;
        if n - data_len_offset < 4 {
            return Err(SerializationError::InvalidFormat(string_of("Missing data length")));
        }
        let data_len = read_u32_le(bytes, data_len_offset) as usize;
        let data_offset = data_len_offset + 4;
        if n - data_offset < data_len {
            return Err(SerializationError::InvalidFormat(string_of("Invalid data length")));
        }
        let data = slice_to_vec(slice_subrange(bytes, data_offset, data_offset + data_len));
        Ok(SerializableEnvelope { type_id, data })
    }
}

} // verus!

verus! {

/// The map from type ids to entries that a list of (type id, entry) pairs
/// stands for; a later pair wins over an earlier one with the same id.
pub open spec fn entries_map<D>(s: Seq<(String, D)>) -> Map<Seq<char>, D>
    decreases s.len(),
{
    if s.len() == 0 {
        Map::empty()
    } else {
        entries_map(s.drop_last()).insert(s.last().0@, s.last().1)
    }
}

/// No two pairs of `s` share a type id.
pub open spec fn keys_distinct<D>(s: Seq<(String, D)>) -> bool {
    forall|i: int, j: int| 0 <= i < j < s.len() ==> s[i].0@ != s[j].0@
}

proof fn lemma_entries_map_dom<D>(s: Seq<(String, D)>)
    ensures
        entries_map(s).dom().finite(),
        forall|k: Seq<char>| #[trigger]
            entries_map(s).dom().contains(k) <==> exists|i: int| 0 <= i < s.len() && s[i].0@ == k,
    decreases s.len(),
{
    if s.len() > 0 {
        lemma_entries_map_dom(s.drop_last());
        assert forall|k: Seq<char>| #[trigger]
            entries_map(s).dom().contains(k) <==> exists|i: int| 0 <= i < s.len() && s[i].0@ == k by {
            if entries_map(s).dom().contains(k) && k != s.last().0@ {
                let i = choose|i: int| 0 <= i < s.drop_last().len() && s.drop_last()[i].0@ == k;
                assert(s[i].0@ == k);
            }
            if exists|i: int| 0 <= i < s.len() && s[i].0@ == k {
                let i = choose|i: int| 0 <= i < s.len() && s[i].0@ == k;
                if i < s.len() - 1 {
                    assert(s.drop_last()[i].0@ == k);
                }
            }
        }
    }
}

proof fn lemma_entries_map_value<D>(s: Seq<(String, D)>, i: int)
    requires
        keys_distinct(s),
        0 <= i < s.len(),
    ensures
        entries_map(s).dom().contains(s[i].0@),
        entries_map(s)[s[i].0@] == s[i].1,
    decreases s.len(),
{
    lemma_entries_map_dom(s);
    if i < s.len() - 1 {
        assert(keys_distinct(s.drop_last()));
        lemma_entries_map_value(s.drop_last(), i);
        assert(s.drop_last()[i] == s[i]);
    }
}

proof fn lemma_entries_map_len<D>(s: Seq<(String, D)>)
    requires
        keys_distinct(s),
    ensures
        entries_map(s).len() == s.len(),
    decreases s.len(),
{
    if s.len() > 0 {
        let t = s.drop_last();
        assert(keys_distinct(t));
        lemma_entries_map_len(t);
        lemma_entries_map_dom(t);
        if entries_map(t).dom().contains(s.last().0@) {
            let i = choose|i: int| 0 <= i < t.len() && t[i].0@ == s.last().0@;
            assert(s[i].0@ == s[s.len() - 1].0@);
        }
    }
}

proof fn lemma_entries_map_update<D>(s: Seq<(String, D)>, i: int, e: (String, D))
    requires
        keys_distinct(s),
        0 <= i < s.len(),
        e.0@ == s[i].0@,
    ensures
        keys_distinct(s.update(i, e)),
        entries_map(s.update(i, e)) == entries_map(s).insert(e.0@, e.1),
{
    let t = s.update(i, e);
    assert(keys_distinct(t));
    lemma_entries_map_dom(s);
    lemma_entries_map_dom(t);
    assert forall|k: Seq<char>| #[trigger] entries_map(t).dom().contains(k) implies entries_map(
        s,
    ).insert(e.0@, e.1).dom().contains(k) by {
        let j = choose|j: int| 0 <= j < t.len() && t[j].0@ == k;
        if j != i {
            assert(s[j].0@ == k);
        }
    }
    assert forall|k: Seq<char>| #[trigger]
        entries_map(s).insert(e.0@, e.1).dom().contains(k) implies entries_map(t).dom().contains(
        k,
    ) by {
        if k != e.0@ {
            let j = choose|j: int| 0 <= j < s.len() && s[j].0@ == k;
            assert(t[j].0@ == k);
        } else {
            assert(t[i].0@ == k);
        }
    }
    assert forall|k: Seq<char>| #[trigger] entries_map(t).dom().contains(k) implies entries_map(t)[k]
        == entries_map(s).insert(e.0@, e.1)[k] by {
        let j = choose|j: int| 0 <= j < t.len() && t[j].0@ == k;
        lemma_entries_map_value(t, j);
        if j != i {
            lemma_entries_map_value(s, j);
        }
    }
    assert(entries_map(t) =~= entries_map(s).insert(e.0@, e.1));
}

/// The registry of message types: for each type id, the deserializer that
/// turns bytes back into a message of that type.
#[derive(Clone)]
pub struct MessageRegistry<D> {
    entries: Vec<(String, D)>,
}

impl<D> View for MessageRegistry<D> {
    type V = Map<Seq<char>, D>;

    closed spec fn view(&self) -> Map<Seq<char>, D> {
        entries_map(self.entries@)
    }
}

impl<D> MessageRegistry<D> {
    /// The registry's internal invariant: no type id occurs twice.
    pub closed spec fn wf(&self) -> bool {
        keys_distinct(self.entries@)
    }

    /// An empty registry.
    pub fn new() -> (r: MessageRegistry<D>)
        ensures
            r.wf(),
            r@ == Map::<Seq<char>, D>::empty(),
    {
        MessageRegistry { entries: Vec::new() }
    }

    fn find(&self, type_id: &str) -> (r: Option<usize>)
        requires
            self.wf(),
        ensures
            r matches Some(i) ==> i < self.entries@.len() && self.entries@[i as int].0@ == type_id@,
            r is None ==> !self@.dom().contains(type_id@),
    {
        let key = string_of(type_id);
        let n = self.entries.len();
        let mut i: usize = 0;
        while i < n
            invariant
                n == self.entries@.len(),
                i <= n,
                key@ == type_id@,
                forall|j: int| 0 <= j < i ==> self.entries@[j].0@ != type_id@,
            decreases n - i,
        {
            if self.entries[i].0 == key {
                return Some(i);
            }
            i = i + 1;
        }
        proof {
            lemma_entries_map_dom(self.entries@);
        }
        None
    }

    /// Registers `deserializer` for `type_id`, replacing an earlier one.
    pub fn register(&mut self, type_id: &str, deserializer: D)
        requires
            old(self).wf(),
        ensures
            final(self).wf(),
            final(self)@ == old(self)@.insert(type_id@, deserializer),
    {
        match self.find(type_id) {
            Some(i) => {
                let ghost s = self.entries@;
                let e = (string_of(type_id), deserializer);
                proof {
                    lemma_entries_map_update(s, i as int, e);
                }
                self.entries.set(i, e);
            },
            None => {
                let ghost s = self.entries@;
                self.entries.push((string_of(type_id), deserializer));
                proof {
                    lemma_entries_map_dom(s);
                    assert(self.entries@.drop_last() =~= s);
                    assert forall|i: int, j: int|
                        0 <= i < j < self.entries@.len() implies self.entries@[i].0@
                        != self.entries@[j].0@ by {
                        if j == s.len() {
                            assert(s[i].0@ == self.entries@[i].0@);
                        }
                    }
                }
            },
        }
    }

    /// True when a deserializer is registered for `type_id`.
    pub fn has_type(&self, type_id: &str) -> (r: bool)
        requires
            self.wf(),
        ensures
            r == self@.dom().contains(type_id@),
    {
        proof {
            lemma_entries_map_dom(self.entries@);
        }
        self.find(type_id).is_some()
    }

    /// The number of registered message types.
    pub fn len(&self) -> (r: usize)
        requires
            self.wf(),
        ensures
            r == self@.len(),
    {
        proof {
            lemma_entries_map_len(self.entries@);
        }
        self.entries.len()
    }

    /// True when no message type is registered.
    pub fn is_empty(&self) -> (r: bool)
        requires
            self.wf(),
        ensures
            r == (self@.len() == 0),
    {
        proof {
            lemma_entries_map_len(self.entries@);
        }
        self.entries.len() == 0
    }

    /// Removes every registered deserializer.
    pub fn clear(&mut self)
        ensures
            final(self).wf(),
            final(self)@ == Map::<Seq<char>, D>::empty(),
    {
        self.entries = Vec::new();
    }

    /// The deserializer registered for `type_id`, if any.
    pub fn get(&self, type_id: &str) -> (r: Option<&D>)
        requires
            self.wf(),
        ensures
            r matches Some(d) ==> self@.dom().contains(type_id@) && *d == self@[type_id@],
            r is None <==> !self@.dom().contains(type_id@),
    {
        match self.find(type_id) {
            Some(i) => {
                proof {
                    lemma_entries_map_value(self.entries@, i as int);
                }
                Some(&self.entries[i].1)
            },
            None => None,
        }
    }

    /// Deserializes `data` with the deserializer registered for `type_id`:
    /// `UnknownMessageType(type_id)` when none is registered, otherwise what
    /// the deserializer returns.
    pub fn deserialize<M>(&self, type_id: &str, data: &[u8]) -> (r: Result<M, SerializationError>) where
        D: Fn(&[u8]) -> Result<M, SerializationError>,

        requires
            self.wf(),
            self@.dom().contains(type_id@) ==> call_requires(self@[type_id@], (data,)),
        ensures
            !self@.dom().contains(type_id@) ==> (r matches Err(
                SerializationError::UnknownMessageType(t),
            ) && t@ == type_id@),
            self@.dom().contains(type_id@) ==> call_ensures(self@[type_id@], (data,), r),
    {
        match self.get(type_id) {
            Some(d) => d(data),
            None => Err(SerializationError::UnknownMessageType(string_of(type_id))),
        }
    }
}

impl SerializableEnvelope {
    /// Deserializes the wrapped bytes with the deserializer that `registry`
    /// holds for the envelope's type id (`UnknownMessageType` when none).
    pub fn unwrap<D, M>(&self, registry: &MessageRegistry<D>) -> (r: Result<M, SerializationError>) where
        D: Fn(&[u8]) -> Result<M, SerializationError>,

        requires
            registry.wf(),
            registry@.dom().contains(self@.0) ==> forall|s: &[u8]|
                s@ == self@.1 ==> call_requires(registry@[self@.0], (s,)),
        ensures
            !registry@.dom().contains(self@.0) ==> (r matches Err(
                SerializationError::UnknownMessageType(t),
            ) && t@ == self@.0),
            registry@.dom().contains(self@.0) ==> exists|s: &[u8]|
                s@ == self@.1 && call_ensures(registry@[self@.0], (s,), r),
    {
        let data = self.data();
        let r = registry.deserialize(self.type_id(), data);
        assert(registry@.dom().contains(self@.0) ==> data@ == self@.1 && call_ensures(
            registry@[self@.0],
            (data,),
            r,
        ));
        r
    }
}

} // verus!
