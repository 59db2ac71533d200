use crate::epmd::{
    be_u32_bytes, be_u32_value, epmd_error_text, frame_header, frame_len, io_error_text, EpmdError,
};
use crate::error::{actor_error_text, ActorError};
use crate::pid::Pid;
use crate::serialization::{
    decode_envelope, envelope_bytes, serialization_error_text, MessageRegistry,
    SerializableEnvelope, SerializableMessage, SerializationError,
};
use crate::text::{decimal, push_decimal, push_str, string_of};
use dashmap::DashMap;
use std::collections::hash_map::DefaultHasher;
use std::hash::{BuildHasher, BuildHasherDefault};
use vstd::prelude::*;

verus! {

/// Errors of distributed operations.
#[derive(Debug)]
pub enum DistributedError {
    /// The port mapper failed.
    EpmdError(EpmdError),
    /// No node with this name is known.
    NodeNotFound(String),
    /// Connecting to a node failed.
    ConnectionFailed(String),
    /// An I/O error.
    IoError(std::io::Error),
    /// A message could not be encoded or decoded.
    SerializationError(String),
    /// An actor operation failed.
    ActorError(ActorError),
}

impl DistributedError {
    /// The text form, e.g. `Node not found: node_b`.
    pub fn to_string(&self) -> (r: String)
        ensures
            self matches DistributedError::NodeNotFound(m) ==> r@ == "Node not found: "@ + m@,
            self matches DistributedError::ConnectionFailed(m) ==> r@ == "Connection failed: "@
                + m@,
            self matches DistributedError::SerializationError(m) ==> r@ == "Serialization error: "@
                + m@,
            self matches DistributedError::ActorError(e) ==> r@ == "Actor error: "@
                + actor_error_text(*e),
            self is EpmdError ==> r@.len() >= 12 && r@.subrange(0, 12) == "EPMD error: "@,
            self matches DistributedError::EpmdError(e) ==> (!(e is IoError) ==> r@ == "EPMD error: "@
                + epmd_error_text(*e)),
            self is IoError ==> r@.len() >= 10 && r@.subrange(0, 10) == "IO error: "@,
    {
        let (prefix, detail) = match self {
            DistributedError::EpmdError(e) => ("EPMD error: ", e.to_string()),
            DistributedError::NodeNotFound(m) => ("Node not found: ", m.clone()),
            DistributedError::ConnectionFailed(m) => ("Connection failed: ", m.clone()),
            DistributedError::IoError(e) => ("IO error: ", io_error_text(e)),
            DistributedError::SerializationError(m) => ("Serialization error: ", m.clone()),
            DistributedError::ActorError(e) => ("Actor error: ", e.to_string()),
        };
        let mut s = string_of(prefix);
        push_str(&mut s, detail.as_str());
        proof {
            reveal_strlit("EPMD error: ");
            reveal_strlit("IO error: ");
            assert(s@.subrange(0, prefix@.len() as int) =~= prefix@);
        }
        s
    }
}

/// A message on its way to an actor on another node.
#[derive(Debug, Clone)]
pub struct NetworkMessage {
    /// The receiving actor.
    pub to: Pid,
    /// The sending actor.
    pub from: Pid,
    /// The serialized message.
    pub payload: Vec<u8>,
}

// ---------------------------------------------------------------------------
// Node identifiers
// ---------------------------------------------------------------------------

/// The 64-bit hash that std's default hasher computes for a string.
pub uninterp spec fn default_str_hash(s: Seq<char>) -> u64;

/// The trusted call of `BuildHasher::hash_one` with the default hasher of
/// `std` (`DefaultHasher::new()`, whose keys are fixed), on a string: a
/// function of the string alone.
#[verifier::external_body]
fn str_hash(s: &str) -> (r: u64)
    ensures
        r == default_str_hash(s@),
{
    BuildHasherDefault::<DefaultHasher>::default().hash_one(s)
}

/// The node number of a node name: the low 32 bits of its hash.
pub open spec fn node_id_of(name: Seq<char>) -> u32 {
    (default_str_hash(name) & 0xffff_ffff) as u32
}

/// The node number derived from a node name; the same name always gives the
/// same number.
pub fn hash_node_name(name: &str) -> (r: u32)
    ensures
        r == node_id_of(name@),
{
    let h = str_hash(name);
    (h & 0xffff_ffff) as u32
}

// ---------------------------------------------------------------------------
// Frames between nodes
// ---------------------------------------------------------------------------

/// The largest message accepted from another node, in bytes (10 MiB).
pub const MAX_NETWORK_MESSAGE: u32 = 10485760;

/// The frame carrying `bytes` to another node: their length as four
/// big-endian bytes (truncated to 32 bits), then the bytes.
pub fn frame_network_message(bytes: &[u8]) -> (r: Vec<u8>)
    ensures
        r@ == be_u32_bytes(bytes@.len() as u32) + bytes@,
{
    let header = frame_header(bytes.len());
    let mut out: Vec<u8> = Vec::new();
    let mut i: usize = 0;
    while i < 4
        invariant
            i <= 4,
            out@ == header@.take(i as int),
        decreases 4 - i,
    {
        out.push(header[i]);
        i = i + 1;
        assert(out@ =~= header@.take(i as int));
    }
    let n = bytes.len();
    let mut j: usize = 0;
    while j < n
        invariant
            n == bytes@.len(),
            j <= n,
            out@ == header@ + bytes@.take(j as int),
        decreases n - j,
    {
        out.push(bytes[j]);
        j = j + 1;
        assert(out@ =~= header@ + bytes@.take(j as int));
    }
    assert(bytes@.take(n as int) =~= bytes@);
    out
}

/// The length of an incoming message from its frame header; more than
/// 10 MiB is refused with `Message too large`.
pub fn incoming_message_len(header: [u8; 4]) -> (r: Result<usize, DistributedError>)
    ensures
        be_u32_value(header) > MAX_NETWORK_MESSAGE ==> (r matches Err(
            DistributedError::SerializationError(m),
        ) && m@ == "Message too large"@),
        be_u32_value(header) <= MAX_NETWORK_MESSAGE ==> (r matches Ok(n) && n == be_u32_value(
            header,
        )),
{
    let len = frame_len(header);
    if len > MAX_NETWORK_MESSAGE {
        Err(DistributedError::SerializationError(string_of("Message too large")))
    } else {
        Ok(len as usize)
    }
}

// ---------------------------------------------------------------------------
// Message payloads
// ---------------------------------------------------------------------------

/// The text every non-serializable message is refused with.
pub open spec fn not_serializable_text() -> Seq<char> {
    "Message does not implement SerializableMessage"@
}

/// The payload for a wrapped message: the envelope's wire form, or the
/// wrapping error as a `SerializationError` carrying its text.
pub fn envelope_payload(wrapped: Result<SerializableEnvelope, SerializationError>) -> (r: Result<
    Vec<u8>,
    DistributedError,
>)
    ensures
        wrapped matches Ok(e) ==> (r matches Ok(b) && b@ == envelope_bytes(e@.0, e@.1)),
        wrapped matches Err(e) ==> (r matches Err(DistributedError::SerializationError(m)) && m@
            == serialization_error_text(e)),
{
    match wrapped {
        Ok(envelope) => Ok(envelope.to_bytes()),
        Err(e) => Err(DistributedError::SerializationError(e.to_string())),
    }
}

/// The payload for a message sent to another node. `msg` is the message seen
/// as serializable, or `None` when it is not; such a message is refused with
/// `Message does not implement SerializableMessage`. A serializable message
/// becomes the wire form of its envelope; a failing serialization becomes a
/// `SerializationError` carrying the failure's text.
pub fn serialize_message<T: SerializableMessage + ?Sized>(msg: Option<&T>) -> (r: Result<
    Vec<u8>,
    DistributedError,
>)
    ensures
        msg is None ==> (r matches Err(DistributedError::SerializationError(m)) && m@
            == not_serializable_text()),
        msg matches Some(m) ==> exists|t: &'static str, d: Result<Vec<u8>, SerializationError>|
            #![trigger call_ensures(T::message_type_id, (m,), t), call_ensures(T::serialize, (m,), d)]
            call_ensures(T::message_type_id, (m,), t) && call_ensures(T::serialize, (m,), d) && (d matches Ok(
                v,
            ) ==> (r matches Ok(b) && b@ == envelope_bytes(t@, v@))) && (d matches Err(x) ==> (r matches Err(
                DistributedError::SerializationError(s),
            ) && s@ == serialization_error_text(x))),
        (r matches Err(DistributedError::SerializationError(s)) && s@ == not_serializable_text())
            ==> msg is None,
        r matches Err(e) ==> e is SerializationError,
{
    proof {
        reveal_strlit("Message does not implement SerializableMessage");
        reveal_strlit("Serialization failed: ");
        reveal_strlit("Deserialization failed: ");
        reveal_strlit("Unknown message type: ");
        reveal_strlit("Invalid format: ");
        reveal_strlit("Type mismatch: expected ");
    }
    match msg {
        None => Err(DistributedError::SerializationError(
            string_of("Message does not implement SerializableMessage"),
        )),
        Some(m) => {
            let wrapped = SerializableEnvelope::wrap(m);
            let r = envelope_payload(wrapped);
            proof {
                if wrapped is Err {
                    let e = wrapped->Err_0;
                    assert(serialization_error_text(e)[0] != not_serializable_text()[0]);
                }
            }
            r
        },
    }
}

/// The message a payload from another node carries, read with the
/// deserializers of `registry`: a payload that is no envelope, or whose
/// type is not registered, or whose deserializer fails, gives a
/// `SerializationError` with the text of the underlying error.
pub fn deserialize_message<D, M>(data: &[u8], registry: &MessageRegistry<D>) -> (r: Result<
    M,
    DistributedError,
>) where D: Fn(&[u8]) -> Result<M, SerializationError>
    requires
        registry.wf(),
        forall|t: Seq<char>, s: &[u8]|
            #![trigger registry@[t], s@]
            registry@.dom().contains(t) ==> call_requires(registry@[t], (s,)),
    ensures
        decode_envelope(data@) is None ==> (r matches Err(DistributedError::SerializationError(m))
            && m@.len() >= 16 && m@.subrange(0, 16) == "Invalid format: "@),
        decode_envelope(data@) matches Some((t, d)) ==> (!registry@.dom().contains(t) ==> (r matches Err(
            DistributedError::SerializationError(m),
        ) && m@ == "Unknown message type: "@ + t)),
        decode_envelope(data@) matches Some((t, d)) ==> (registry@.dom().contains(t) ==> exists|
            s: &[u8],
            inner: Result<M, SerializationError>,
        |
            s@ == d && call_ensures(registry@[t], (s,), inner) && (inner matches Ok(v) ==> (r matches Ok(
                w,
            ) && w == v)) && (inner matches Err(e) ==> (r matches Err(
                DistributedError::SerializationError(m),
            ) && m@ == serialization_error_text(e)))),
{
    proof {
        reveal_strlit("Invalid format: ");
        reveal_strlit("Unknown message type: ");
    }
    let envelope = match SerializableEnvelope::from_bytes(data) {
        Ok(e) => e,
        Err(e) => {
            let m = e.to_string();
            assert(m@.subrange(0, 16) =~= "Invalid format: "@);
            return Err(DistributedError::SerializationError(m));
        },
    };
    let inner = envelope.unwrap(registry);
    match inner {
        Ok(v) => Ok(v),
        Err(e) => Err(DistributedError::SerializationError(e.to_string())),
    }
}

// ---------------------------------------------------------------------------
// The directory of connected nodes
// ---------------------------------------------------------------------------

/// What a table keyed by node number holds: each number and a node name.
pub uninterp spec fn id_table(m: DashMap<u32, String>) -> Map<u32, Seq<char>>;

/// What a table keyed by node name holds: each name and its node number.
pub uninterp spec fn name_id_table(m: DashMap<String, u32>) -> Map<Seq<char>, u32>;

/// The trusted call of `DashMap::new` for a table keyed by node number.
#[verifier::external_body]
fn ids_new() -> (res: DashMap<u32, String>)
    ensures
        id_table(res) =~= Map::empty(),
{
    DashMap::new()
}

/// The trusted call of `DashMap::insert` on a table keyed by node number.
#[verifier::external_body]
fn ids_insert(m: &mut DashMap<u32, String>, id: u32, name: String)
    ensures
        id_table(*final(m)) == id_table(*old(m)).insert(id, name@),
{
    m.insert(id, name);
}

/// The trusted call of `DashMap::remove` on a table keyed by node number.
#[verifier::external_body]
fn ids_remove(m: &mut DashMap<u32, String>, id: u32)
    ensures
        id_table(*final(m)) == id_table(*old(m)).remove(id),
{
    m.remove(&id);
}

/// The trusted call of `DashMap::get` on a table keyed by node number,
/// copying the name.
#[verifier::external_body]
fn ids_get(m: &DashMap<u32, String>, id: u32) -> (res: Option<String>)
    ensures
        res is Some <==> id_table(*m).dom().contains(id),
        res matches Some(n) ==> n@ == id_table(*m)[id],
{
    m.get(&id).map(|name| name.value().clone())
}

/// The trusted call of `DashMap::new` for a table keyed by node name.
#[verifier::external_body]
fn named_new() -> (res: DashMap<String, u32>)
    ensures
        name_id_table(res) =~= Map::empty(),
{
    DashMap::new()
}

/// The trusted call of `DashMap::insert` on a table keyed by node name.
#[verifier::external_body]
fn named_insert(m: &mut DashMap<String, u32>, name: String, id: u32)
    ensures
        name_id_table(*final(m)) == name_id_table(*old(m)).insert(name@, id),
{
    m.insert(name, id);
}

/// The trusted call of `DashMap::remove` on a table keyed by node name.
#[verifier::external_body]
fn named_remove(m: &mut DashMap<String, u32>, name: &str)
    ensures
        name_id_table(*final(m)) == name_id_table(*old(m)).remove(name@),
{
    m.remove(name);
}

/// The trusted call of `DashMap::contains_key` on a table keyed by node
/// name.
#[verifier::external_body]
fn named_contains(m: &DashMap<String, u32>, name: &str) -> (res: bool)
    ensures
        res == name_id_table(*m).dom().contains(name@),
{
    m.contains_key(name)
}

/// The trusted call of `DashMap::iter` on a table keyed by node name, each
/// entry mapped to a copy of its key: every name once, in no stated order.
#[verifier::external_body]
fn named_keys(m: &DashMap<String, u32>) -> (res: Vec<String>)
    ensures
        res@.len() == name_id_table(*m).len(),
        forall|i: int| 0 <= i < res@.len() ==> name_id_table(*m).dom().contains(#[trigger] res@[i]@),
        forall|i: int, j: int| 0 <= i < j < res@.len() ==> res@[i]@ != res@[j]@,
{
    m.iter().map(|entry| entry.key().clone()).collect()
}

/// The text of an unknown node number: `unknown_node_<id>`.
pub open spec fn unknown_node_text(id: u32) -> Seq<char> {
    "unknown_node_"@ + decimal(id as nat)
}

/// The nodes this node is connected to: each connected name with its node
/// number, the connection under each number, and the name last recorded
/// for each number.
pub struct NodeRegistry {
    connections_by_name: DashMap<String, u32>,
    connections_by_id: DashMap<u32, String>,
    node_id_to_name: DashMap<u32, String>,
}

impl NodeRegistry {
    /// The connected node names and their numbers.
    pub closed spec fn connected(&self) -> Map<Seq<char>, u32> {
        name_id_table(self.connections_by_name)
    }

    /// The name of the connection held under each node number.
    pub closed spec fn by_id(&self) -> Map<u32, Seq<char>> {
        id_table(self.connections_by_id)
    }

    /// The name recorded for each node number.
    pub closed spec fn names(&self) -> Map<u32, Seq<char>> {
        id_table(self.node_id_to_name)
    }

    /// The tables are finite.
    pub open spec fn wf(&self) -> bool {
        self.connected().dom().finite()
    }

    /// An empty directory.
    pub fn new() -> (r: NodeRegistry)
        ensures
            r.wf(),
            r.connected() == Map::<Seq<char>, u32>::empty(),
            r.by_id() == Map::<u32, Seq<char>>::empty(),
            r.names() == Map::<u32, Seq<char>>::empty(),
    {
        NodeRegistry {
            connections_by_name: named_new(),
            connections_by_id: ids_new(),
            node_id_to_name: ids_new(),
        }
    }

    /// The names of all connected nodes, each once, in no stated order.
    pub fn list_connected_nodes(&self) -> (r: Vec<String>)
        requires
            self.wf(),
        ensures
            r@.len() == self.connected().len(),
            forall|i: int| 0 <= i < r@.len() ==> self.connected().dom().contains(#[trigger] r@[i]@),
            forall|i: int, j: int| 0 <= i < j < r@.len() ==> r@[i]@ != r@[j]@,
    {
        named_keys(&self.connections_by_name)
    }

    /// The name recorded for a node number.
    pub fn get_node_name(&self, node_id: u32) -> (r: Option<String>)
        ensures
            r is Some <==> self.names().dom().contains(node_id),
            r matches Some(n) ==> n@ == self.names()[node_id],
    {
        ids_get(&self.node_id_to_name, node_id)
    }

    /// Whether a connection to the named node is held.
    pub fn is_connected(&self, node_name: &str) -> (r: bool)
        ensures
            r == self.connected().dom().contains(node_name@),
    {
        named_contains(&self.connections_by_name, node_name)
    }

    /// Records a new connection to the named node under the number its name
    /// hashes to, and returns that number.
    pub fn record_connection(&mut self, node_name: &str) -> (r: u32)
        requires
            old(self).wf(),
        ensures
            final(self).wf(),
            r == node_id_of(node_name@),
            final(self).connected() == old(self).connected().insert(node_name@, r),
            final(self).by_id() == old(self).by_id().insert(r, node_name@),
            final(self).names() == old(self).names().insert(r, node_name@),
    {
        let node_id = hash_node_name(node_name);
        named_insert(&mut self.connections_by_name, string_of(node_name), node_id);
        ids_insert(&mut self.connections_by_id, node_id, string_of(node_name));
        ids_insert(&mut self.node_id_to_name, node_id, string_of(node_name));
        node_id
    }

    /// The name of the connection held under a node number; without one,
    /// `NodeNotFound` with the name recorded for the number, or
    /// `unknown_node_<id>` when none is.
    pub fn connection_name(&self, node_id: u32) -> (r: Result<String, DistributedError>)
        ensures
            self.by_id().dom().contains(node_id) ==> (r matches Ok(n) && n@ == self.by_id()[node_id]),
            !self.by_id().dom().contains(node_id) && self.names().dom().contains(node_id) ==> (r matches Err(
                DistributedError::NodeNotFound(n),
            ) && n@ == self.names()[node_id]),
            !self.by_id().dom().contains(node_id) && !self.names().dom().contains(node_id) ==> (r matches Err(
                DistributedError::NodeNotFound(n),
            ) && n@ == unknown_node_text(node_id)),
    {
        match ids_get(&self.connections_by_id, node_id) {
            Some(name) => Ok(name),
            None => {
                let name = match ids_get(&self.node_id_to_name, node_id) {
                    Some(n) => n,
                    None => {
                        let mut s = string_of("unknown_node_");
                        push_decimal(&mut s, node_id as u64);
                        s
                    },
                };
                Err(DistributedError::NodeNotFound(name))
            },
        }
    }

    /// Forgets the connection to the named node and the name recorded under
    /// its number.
    pub fn remove(&mut self, node_name: &str)
        requires
            old(self).wf(),
        ensures
            final(self).wf(),
            final(self).connected() == old(self).connected().remove(node_name@),
            final(self).by_id() == old(self).by_id().remove(node_id_of(node_name@)),
            final(self).names() == old(self).names().remove(node_id_of(node_name@)),
    {
        let node_id = hash_node_name(node_name);
        named_remove(&mut self.connections_by_name, node_name);
        ids_remove(&mut self.connections_by_id, node_id);
        ids_remove(&mut self.node_id_to_name, node_id);
    }
}

impl Default for NodeRegistry {
    fn default() -> (r: NodeRegistry)
        ensures
            r.wf(),
            r.connected() == Map::<Seq<char>, u32>::empty(),
            r.by_id() == Map::<u32, Seq<char>>::empty(),
            r.names() == Map::<u32, Seq<char>>::empty(),
    {
        NodeRegistry::new()
    }
}

/// A recorded connection is found again: after recording a node, its number
/// resolves to its name, and the name counts as connected.
pub proof fn lemma_recorded_node_resolves(reg_before: &NodeRegistry, reg_after: &NodeRegistry, name: Seq<char>, id: u32)
    requires
        id == node_id_of(name),
        reg_after.connected() == reg_before.connected().insert(name, id),
        reg_after.by_id() == reg_before.by_id().insert(id, name),
        reg_after.names() == reg_before.names().insert(id, name),
    ensures
        reg_after.connected().dom().contains(name),
        reg_after.by_id()[id] == name,
        reg_after.names()[id] == name,
{
}

} // verus!
