use crate::text::{decimal, push_decimal, push_str, string_of};
use dashmap::DashMap;
use std::collections::HashMap;
use std::time::Duration;
use vstd::prelude::*;

verus! {

/// The default port of the node port mapper.
pub const DEFAULT_EPMD_PORT: u16 = 4370;

/// Errors of the node port mapper protocol.
#[derive(Debug)]
pub enum EpmdError {
    /// Connecting failed.
    ConnectionFailed(String),
    /// No node with this name is registered.
    NodeNotFound(String),
    /// A node with this name is already registered.
    NodeAlreadyRegistered(String),
    /// The peer broke the protocol.
    ProtocolError(String),
    /// An I/O error.
    IoError(std::io::Error),
    /// A message could not be encoded or decoded.
    SerializationError(String),
}

#[verifier::external_type_specification]
#[verifier::external_body]
pub struct ExIoError(std::io::Error);

/// The trusted call of `std::io::Error`'s `Display`. Nothing is stated of the
/// text.
#[verifier::external_body]
pub(crate) fn io_error_text(e: &std::io::Error) -> String {
    e.to_string()
}

/// The text form of a port mapper error other than an I/O error.
pub open spec fn epmd_error_text(e: EpmdError) -> Seq<char> {
    match e {
        EpmdError::ConnectionFailed(m) => "Connection failed: "@ + m@,
        EpmdError::NodeNotFound(m) => "Node not found: "@ + m@,
        EpmdError::NodeAlreadyRegistered(m) => "Node already registered: "@ + m@,
        EpmdError::ProtocolError(m) => "Protocol error: "@ + m@,
        EpmdError::IoError(_) => "IO error: "@,
        EpmdError::SerializationError(m) => "Serialization error: "@ + m@,
    }
}

impl EpmdError {
    /// The text form, e.g. `Node not found: node1`.
    pub fn to_string(&self) -> (r: String)
        ensures
            self matches EpmdError::ConnectionFailed(m) ==> r@ == "Connection failed: "@ + m@,
            self matches EpmdError::NodeNotFound(m) ==> r@ == "Node not found: "@ + m@,
            self matches EpmdError::NodeAlreadyRegistered(m) ==> r@ == "Node already registered: "@
                + m@,
            self matches EpmdError::ProtocolError(m) ==> r@ == "Protocol error: "@ + m@,
            self matches EpmdError::SerializationError(m) ==> r@ == "Serialization error: "@ + m@,
            !(self is IoError) ==> r@ == epmd_error_text(*self),
            self is IoError ==> r@.len() >= 10 && r@.subrange(0, 10) == "IO error: "@,
    {
        let (prefix, detail) = match self {
            EpmdError::ConnectionFailed(m) => ("Connection failed: ", m.clone()),
            EpmdError::NodeNotFound(m) => ("Node not found: ", m.clone()),
            EpmdError::NodeAlreadyRegistered(m) => ("Node already registered: ", m.clone()),
            EpmdError::ProtocolError(m) => ("Protocol error: ", m.clone()),
            EpmdError::IoError(e) => ("IO error: ", io_error_text(e)),
            EpmdError::SerializationError(m) => ("Serialization error: ", m.clone()),
        };
        let mut s = string_of(prefix);
        push_str(&mut s, detail.as_str());
        proof {
            reveal_strlit("Connection failed: ");
            reveal_strlit("Node not found: ");
            reveal_strlit("Node already registered: ");
            reveal_strlit("Protocol error: ");
            reveal_strlit("IO error: ");
            reveal_strlit("Serialization error: ");
        }
        assert(self is IoError ==> s@.subrange(0, 10) =~= "IO error: "@);
        s
    }
}

/// Additional information about a node.
#[derive(Debug)]
pub struct NodeMetadata {
    /// Protocol version.
    pub protocol_version: u32,
    /// Node capabilities.
    pub capabilities: Vec<String>,
    /// Custom attributes.
    pub attributes: HashMap<String, String>,
}

/// The view of metadata: version, capabilities as characters, attributes.
pub type MetadataView = (u32, Seq<Seq<char>>, Map<String, String>);

impl View for NodeMetadata {
    type V = MetadataView;

    open spec fn view(&self) -> MetadataView {
        (self.protocol_version, self.capabilities@.map_values(|s: String| s@), self.attributes@)
    }
}

impl Default for NodeMetadata {
    /// Protocol version 1, no capabilities, no attributes.
    fn default() -> (r: NodeMetadata)
        ensures
            r.protocol_version == 1,
            r.capabilities@.len() == 0,
            r.attributes@ == Map::<String, String>::empty(),
    {
        NodeMetadata { protocol_version: 1, capabilities: Vec::new(), attributes: HashMap::new() }
    }
}

impl NodeMetadata {
    /// A copy with the same version, capabilities and attributes.
    pub fn duplicate(&self) -> (r: NodeMetadata)
        ensures
            r@ == self@,
    {
        let n = self.capabilities.len();
        let mut caps: Vec<String> = Vec::new();
        let mut i: usize = 0;
        while i < n
            invariant
                n == self.capabilities@.len(),
                i <= n,
                caps@.map_values(|s: String| s@) == self.capabilities@.map_values(|s: String| s@).take(
                    i as int,
                ),
            decreases n - i,
        {
            let ghost prev = caps@;
            let c = self.capabilities[i].clone();
            caps.push(c);
            assert(caps@.map_values(|s: String| s@) =~= prev.map_values(|s: String| s@).push(c@));
            i = i + 1;
            assert(caps@.map_values(|s: String| s@) =~= self.capabilities@.map_values(
                |s: String| s@,
            ).take(i as int));
        }
        assert(self.capabilities@.map_values(|s: String| s@).take(n as int) =~= self.capabilities@.map_values(
            |s: String| s@,
        ));
        NodeMetadata {
            protocol_version: self.protocol_version,
            capabilities: caps,
            attributes: self.attributes.clone(),
        }
    }
}

/// What the port mapper knows of a node.
#[derive(Debug)]
pub struct NodeInfo {
    /// Node name.
    pub name: String,
    /// Host address.
    pub host: String,
    /// Port for node connections.
    pub port: u16,
    /// Additional metadata.
    pub metadata: NodeMetadata,
}

/// The view of node information.
pub type NodeInfoView = (Seq<char>, Seq<char>, u16, MetadataView);

impl View for NodeInfo {
    type V = NodeInfoView;

    open spec fn view(&self) -> NodeInfoView {
        (self.name@, self.host@, self.port, self.metadata@)
    }
}

/// The address `host:port` of a node.
pub open spec fn address_text(host: Seq<char>, port: u16) -> Seq<char> {
    host + ":"@ + decimal(port as nat)
}

impl NodeInfo {
    /// Node information with default metadata.
    pub fn new(name: String, host: String, port: u16) -> (r: NodeInfo)
        ensures
            r.name == name,
            r.host == host,
            r.port == port,
            r.metadata.protocol_version == 1,
            r.metadata.capabilities@.len() == 0,
            r.metadata.attributes@ == Map::<String, String>::empty(),
    {
        NodeInfo { name, host, port, metadata: NodeMetadata::default() }
    }

    /// Node information with the given metadata.
    pub fn with_metadata(name: String, host: String, port: u16, metadata: NodeMetadata) -> (r: NodeInfo)
        ensures
            r == (NodeInfo { name, host, port, metadata }),
    {
        NodeInfo { name, host, port, metadata }
    }

    /// The node's address, `host:port`.
    pub fn address(&self) -> (r: String)
        ensures
            r@ == address_text(self.host@, self.port),
    {
        let mut s = string_of(self.host.as_str());
        push_str(&mut s, ":");
        push_decimal(&mut s, self.port as u64);
        s
    }

    /// The text form `name@host:port`.
    pub fn to_string(&self) -> (r: String)
        ensures
            r@ == self.name@ + "@"@ + address_text(self.host@, self.port),
    {
        let mut s = string_of(self.name.as_str());
        push_str(&mut s, "@");
        let a = self.address();
        push_str(&mut s, a.as_str());
        assert(s@ =~= self.name@ + "@"@ + address_text(self.host@, self.port));
        s
    }

    /// A copy with the same view.
    pub fn duplicate(&self) -> (r: NodeInfo)
        ensures
            r@ == self@,
    {
        NodeInfo {
            name: self.name.clone(),
            host: self.host.clone(),
            port: self.port,
            metadata: self.metadata.duplicate(),
        }
    }
}

/// Messages of the node port mapper protocol.
#[derive(Debug)]
pub enum EpmdMessage {
    /// Register a node.
    Register { name: String, host: String, port: u16, metadata: NodeMetadata },
    /// Unregister a node.
    Unregister { name: String },
    /// Look a node up by name.
    Lookup { name: String },
    /// List all registered nodes.
    ListNodes,
    /// Check that the port mapper is alive.
    Ping,
    /// Registration succeeded.
    RegisterOk,
    /// Registration failed.
    RegisterError { reason: String },
    /// Unregistration done.
    UnregisterOk,
    /// Result of a lookup.
    LookupResult { node: Option<NodeInfo> },
    /// All registered nodes.
    NodeList { nodes: Vec<NodeInfo> },
    /// Answer to `Ping`.
    Pong,
    /// Periodic sign of life of a registered node.
    KeepAlive { name: String },
    /// Answer to `KeepAlive`.
    KeepAliveAck,
}

// ---------------------------------------------------------------------------
// Interpreting replies (client side)
// ---------------------------------------------------------------------------

/// `r` is a `ProtocolError` with the text `msg`.
pub open spec fn protocol_error_with<T>(r: Result<T, EpmdError>, msg: Seq<char>) -> bool {
    r matches Err(EpmdError::ProtocolError(m)) && m@ == msg
}

fn protocol_error<T>(msg: &str) -> (r: Result<T, EpmdError>)
    ensures
        protocol_error_with(r, msg@),
{
    Err(EpmdError::ProtocolError(string_of(msg)))
}

/// The outcome of a registration from the port mapper's reply: `Ok` for
/// `RegisterOk`, `NodeAlreadyRegistered(reason)` for `RegisterError`, and a
/// protocol error for anything else.
pub fn register_reply(reply: EpmdMessage) -> (r: Result<(), EpmdError>)
    ensures
        reply is RegisterOk ==> r is Ok,
        reply matches EpmdMessage::RegisterError { reason } ==> (r matches Err(
            EpmdError::NodeAlreadyRegistered(m),
        ) && m == reason),
        !(reply is RegisterOk) && !(reply is RegisterError) ==> protocol_error_with(
            r,
            "Unexpected response to Register"@,
        ),
{
    proof {
        reveal_strlit("Unexpected response to Register");
    }
    match reply {
        EpmdMessage::RegisterOk => Ok(()),
        EpmdMessage::RegisterError { reason } => Err(EpmdError::NodeAlreadyRegistered(reason)),
        _ => protocol_error("Unexpected response to Register"),
    }
}

/// The outcome of an unregistration: `Ok` for `UnregisterOk`, else a
/// protocol error.
pub fn unregister_reply(reply: EpmdMessage) -> (r: Result<(), EpmdError>)
    ensures
        reply is UnregisterOk ==> r is Ok,
        !(reply is UnregisterOk) ==> protocol_error_with(r, "Unexpected response to Unregister"@),
{
    proof {
        reveal_strlit("Unexpected response to Unregister");
    }
    match reply {
        EpmdMessage::UnregisterOk => Ok(()),
        _ => protocol_error("Unexpected response to Unregister"),
    }
}

/// The outcome of a lookup: the node carried by `LookupResult`, else a
/// protocol error.
pub fn lookup_reply(reply: EpmdMessage) -> (r: Result<Option<NodeInfo>, EpmdError>)
    ensures
        reply matches EpmdMessage::LookupResult { node } ==> r == Ok::<Option<NodeInfo>, EpmdError>(
            node,
        ),
        !(reply is LookupResult) ==> protocol_error_with(r, "Unexpected response to Lookup"@),
{
    proof {
        reveal_strlit("Unexpected response to Lookup");
    }
    match reply {
        EpmdMessage::LookupResult { node } => Ok(node),
        _ => protocol_error("Unexpected response to Lookup"),
    }
}

/// The outcome of listing nodes: the nodes carried by `NodeList`, else a
/// protocol error.
pub fn list_nodes_reply(reply: EpmdMessage) -> (r: Result<Vec<NodeInfo>, EpmdError>)
    ensures
        reply matches EpmdMessage::NodeList { nodes } ==> r == Ok::<Vec<NodeInfo>, EpmdError>(nodes),
        !(reply is NodeList) ==> protocol_error_with(r, "Unexpected response to ListNodes"@),
{
    proof {
        reveal_strlit("Unexpected response to ListNodes");
    }
    match reply {
        EpmdMessage::NodeList { nodes } => Ok(nodes),
        _ => protocol_error("Unexpected response to ListNodes"),
    }
}

/// The outcome of a ping: `Ok` for `Pong`, else a protocol error.
pub fn ping_reply(reply: EpmdMessage) -> (r: Result<(), EpmdError>)
    ensures
        reply is Pong ==> r is Ok,
        !(reply is Pong) ==> protocol_error_with(r, "Unexpected response to Ping"@),
{
    proof {
        reveal_strlit("Unexpected response to Ping");
    }
    match reply {
        EpmdMessage::Pong => Ok(()),
        _ => protocol_error("Unexpected response to Ping"),
    }
}

/// The outcome of a keep-alive: `Ok` for `KeepAliveAck`, else a protocol
/// error.
pub fn keep_alive_reply(reply: EpmdMessage) -> (r: Result<(), EpmdError>)
    ensures
        reply is KeepAliveAck ==> r is Ok,
        !(reply is KeepAliveAck) ==> protocol_error_with(r, "Unexpected response to KeepAlive"@),
{
    proof {
        reveal_strlit("Unexpected response to KeepAlive");
    }
    match reply {
        EpmdMessage::KeepAliveAck => Ok(()),
        _ => protocol_error("Unexpected response to KeepAlive"),
    }
}

// ---------------------------------------------------------------------------
// Length-prefixed frames
// ---------------------------------------------------------------------------

/// The big-endian bytes of a frame length.
pub open spec fn be_u32_bytes(x: u32) -> Seq<u8> {
    seq![((x >> 24) & 0xff) as u8, ((x >> 16) & 0xff) as u8, ((x >> 8) & 0xff) as u8, (x & 0xff) as u8]
}

/// The frame length that big-endian header bytes announce.
pub open spec fn be_u32_value(b: [u8; 4]) -> u32 {
    ((b[0] as u32) << 24) | ((b[1] as u32) << 16) | ((b[2] as u32) << 8) | (b[3] as u32)
}

/// The four-byte big-endian header announcing a frame of `len` bytes
/// (truncated to 32 bits, as the conversion to `u32` does).
pub fn frame_header(len: usize) -> (r: [u8; 4])
    ensures
        r@ == be_u32_bytes(len as u32),
{
    let x = len as u32;
    let r = [((x >> 24) & 0xff) as u8, ((x >> 16) & 0xff) as u8, ((x >> 8) & 0xff) as u8, (x & 0xff) as u8];
    assert(r@ =~= be_u32_bytes(len as u32));
    r
}

/// The frame length a header announces.
pub fn frame_len(header: [u8; 4]) -> (r: u32)
    ensures
        r == be_u32_value(header),
{
    ((header[0] as u32) << 24) | ((header[1] as u32) << 16) | ((header[2] as u32) << 8) | (header[3] as u32)
}

/// A frame header read back gives the length it was written for, for every
/// length that fits in 32 bits.
pub proof fn lemma_frame_header_roundtrip(len: u32, h: [u8; 4])
    requires
        h@ == be_u32_bytes(len),
    ensures
        be_u32_value(h) == len,
{
    let b0 = h[0];
    let b1 = h[1];
    let b2 = h[2];
    let b3 = h[3];
    assert(h@[0] == b0 && h@[1] == b1 && h@[2] == b2 && h@[3] == b3);
    assert(b0 == ((len >> 24) & 0xff) as u8 && b1 == ((len >> 16) & 0xff) as u8 && b2 == ((len >> 8)
        & 0xff) as u8 && b3 == (len & 0xff) as u8);
    assert(b0 == ((len >> 24) & 0xff) as u8 && b1 == ((len >> 16) & 0xff) as u8 && b2 == ((len >> 8)
        & 0xff) as u8 && b3 == (len & 0xff) as u8 ==> ((b0 as u32) << 24) | ((b1 as u32) << 16) | ((
    b2 as u32) << 8) | (b3 as u32) == len) by (bit_vector);
}

/// The largest message the port mapper accepts, in bytes.
pub const EPMD_MAX_FRAME: u32 = 1048576;

/// The length of an incoming port mapper frame, refused with `Message too
/// large` beyond 1 MiB.
pub fn epmd_frame_len(header: [u8; 4]) -> (r: Result<usize, EpmdError>)
    ensures
        be_u32_value(header) > EPMD_MAX_FRAME ==> protocol_error_with(r, "Message too large"@),
        be_u32_value(header) <= EPMD_MAX_FRAME ==> (r matches Ok(n) && n == be_u32_value(header)),
{
    proof {
        reveal_strlit("Message too large");
    }
    let len = frame_len(header);
    if len > EPMD_MAX_FRAME {
        protocol_error("Message too large")
    } else {
        Ok(len as usize)
    }
}

// ---------------------------------------------------------------------------
// The port mapper's node table
// ---------------------------------------------------------------------------

/// A registered node and when it was last heard from (nanoseconds since the
/// Unix epoch).
pub struct NodeEntry {
    /// The node's information.
    pub info: NodeInfo,
    /// Time of registration or of the last keep-alive.
    pub last_seen: u64,
}

/// What the port mapper's table holds: each registered name and its entry.
pub uninterp spec fn node_table(m: DashMap<String, NodeEntry>) -> Map<Seq<char>, NodeEntry>;

/// The trusted call of `DashMap::new` for a node table: empty.
#[verifier::external_body]
fn nodes_new() -> (res: DashMap<String, NodeEntry>)
    ensures
        node_table(res) =~= Map::empty(),
{
    DashMap::new()
}

/// The trusted call of `DashMap::contains_key` on a node table.
#[verifier::external_body]
fn nodes_contains(m: &DashMap<String, NodeEntry>, name: &str) -> (res: bool)
    ensures
        res == node_table(*m).dom().contains(name@),
{
    m.contains_key(name)
}

/// The trusted call of `DashMap::insert` on a node table.
#[verifier::external_body]
fn nodes_insert(m: &mut DashMap<String, NodeEntry>, name: String, entry: NodeEntry)
    ensures
        node_table(*final(m)) == node_table(*old(m)).insert(name@, entry),
{
    m.insert(name, entry);
}

/// The trusted call of `DashMap::remove` on a node table: whether the name
/// was present, and the table without it.
#[verifier::external_body]
fn nodes_remove(m: &mut DashMap<String, NodeEntry>, name: &str) -> (res: bool)
    ensures
        node_table(*final(m)) == node_table(*old(m)).remove(name@),
        res == node_table(*old(m)).dom().contains(name@),
{
    m.remove(name).is_some()
}

/// The trusted call of `DashMap::get` on a node table, copying the node's
/// information with the verified `NodeInfo::duplicate`.
#[verifier::external_body]
fn nodes_get_info(m: &DashMap<String, NodeEntry>, name: &str) -> (res: Option<NodeInfo>)
    ensures
        res is Some <==> node_table(*m).dom().contains(name@),
        res matches Some(i) ==> i@ == node_table(*m)[name@].info@,
{
    m.get(name).map(|entry| entry.info.duplicate())
}

/// The trusted call of `DashMap::get_mut` on a node table, setting the
/// entry's `last_seen`: whether the name was present, and the table with
/// the new time.
#[verifier::external_body]
fn nodes_touch(m: &mut DashMap<String, NodeEntry>, name: &str, now: u64) -> (res: bool)
    ensures
        res == node_table(*old(m)).dom().contains(name@),
        res ==> node_table(*final(m)).dom() == node_table(*old(m)).dom(),
        res ==> forall|k: Seq<char>| #[trigger]
            node_table(*final(m)).dom().contains(k) ==> node_table(*final(m))[k].info == node_table(
                *old(m),
            )[k].info && node_table(*final(m))[k].last_seen == (if k == name@ {
                now
            } else {
                node_table(*old(m))[k].last_seen
            }),
        !res ==> node_table(*final(m)) == node_table(*old(m)),
{
    match m.get_mut(name) {
        Some(mut entry) => {
            entry.last_seen = now;
            true
        },
        None => false,
    }
}

/// The trusted call of `DashMap::iter` on a node table, each entry mapped to
/// a copy of its key and (with the verified `NodeInfo::duplicate`) of its
/// information: each entry once, in no stated order.
#[verifier::external_body]
fn nodes_entries(m: &DashMap<String, NodeEntry>) -> (res: Vec<(String, NodeInfo, u64)>)
    ensures
        res@.len() == node_table(*m).len(),
        forall|i: int|
            0 <= i < res@.len() ==> node_table(*m).dom().contains(#[trigger] res@[i].0@) && res@[i].1@
                == node_table(*m)[res@[i].0@].info@ && res@[i].2 == node_table(*m)[res@[i].0@].last_seen,
        forall|i: int, j: int| 0 <= i < j < res@.len() ==> res@[i].0@ != res@[j].0@,
{
    m.iter().map(|entry| (entry.key().clone(), entry.info.duplicate(), entry.last_seen)).collect()
}

/// The name recorded in a table entry's information matches its key.
pub open spec fn table_names_match(t: Map<Seq<char>, NodeEntry>) -> bool {
    &&& t.dom().finite()
    &&& forall|k: Seq<char>| #[trigger] t.dom().contains(k) ==> t[k].info.name@ == k
}

/// The trusted call of `Duration::from_secs`: a duration of `secs` seconds.
#[verifier::external_body]
fn duration_from_secs(secs: u64) -> (res: Duration)
    ensures
        duration_nanos(res) == secs as int * 1_000_000_000,
{
    Duration::from_secs(secs)
}

/// The total nanoseconds of a duration, as `Duration::as_nanos` gives them.
pub uninterp spec fn duration_nanos(d: Duration) -> int;

/// The trusted call of `Duration::as_nanos`.
#[verifier::external_body]
fn duration_as_nanos(d: &Duration) -> (res: u128)
    ensures
        res == duration_nanos(*d),
{
    d.as_nanos()
}

/// The node port mapper: the address it listens on, the registered nodes,
/// and how long a node may stay silent before it is dropped.
pub struct EpmdServer {
    address: String,
    nodes: DashMap<String, NodeEntry>,
    keep_alive_timeout: Duration,
}

/// The port mapper's table after answering `msg` at time `now`: a
/// registration of a free name adds the node as seen now, an unregistration
/// drops the name, a keep-alive of a registered name records it as seen now;
/// every other message leaves the table alone.
pub open spec fn table_after(t: Map<Seq<char>, NodeEntry>, msg: EpmdMessage, now: u64) -> Map<
    Seq<char>,
    NodeEntry,
> {
    match msg {
        EpmdMessage::Register { name, host, port, metadata } => if t.dom().contains(name@) {
            t
        } else {
            t.insert(name@, NodeEntry { info: NodeInfo { name, host, port, metadata }, last_seen: now })
        },
        EpmdMessage::Unregister { name } => t.remove(name@),
        EpmdMessage::KeepAlive { name } => if t.dom().contains(name@) {
            t.insert(name@, NodeEntry { info: t[name@].info, last_seen: now })
        } else {
            t
        },
        _ => t,
    }
}

/// A node is dead at `now` when more than `timeout` nanoseconds passed
/// since it was last seen (a time after `now` never counts as dead).
pub open spec fn is_dead(last_seen: u64, now: u64, timeout: int) -> bool {
    last_seen <= now && now - last_seen > timeout
}

impl EpmdServer {
    /// The registered nodes.
    pub closed spec fn table(&self) -> Map<Seq<char>, NodeEntry> {
        node_table(self.nodes)
    }

    /// The keep-alive timeout in nanoseconds.
    pub closed spec fn timeout_nanos(&self) -> int {
        duration_nanos(self.keep_alive_timeout)
    }

    /// The address to listen on.
    pub closed spec fn address_view(&self) -> Seq<char> {
        self.address@
    }

    /// Every entry's information carries its own name.
    pub open spec fn wf(&self) -> bool {
        table_names_match(self.table())
    }

    /// A port mapper for `address` with no nodes and a 60 second keep-alive
    /// timeout.
    pub fn new(address: &str) -> (r: EpmdServer)
        ensures
            r.wf(),
            r.table() == Map::<Seq<char>, NodeEntry>::empty(),
            r.timeout_nanos() == 60_000_000_000,
            r.address_view() == address@,
    {
        EpmdServer {
            address: string_of(address),
            nodes: nodes_new(),
            keep_alive_timeout: duration_from_secs(60),
        }
    }

    /// The same port mapper with another keep-alive timeout.
    pub fn with_keep_alive_timeout(self, timeout: Duration) -> (r: EpmdServer)
        ensures
            r.table() == self.table(),
            r.address_view() == self.address_view(),
            r.timeout_nanos() == duration_nanos(timeout),
    {
        EpmdServer { keep_alive_timeout: timeout, ..self }
    }

    /// The address to listen on.
    pub fn address(&self) -> (r: &str)
        ensures
            r@ == self.address_view(),
    {
        self.address.as_str()
    }

    /// The number of registered nodes.
    pub fn node_count(&self) -> (r: usize)
        requires
            self.wf(),
        ensures
            r == self.table().len(),
    {
        let entries = nodes_entries(&self.nodes);
        entries.len()
    }

    /// Answers one protocol message at time `now` (nanoseconds since the
    /// Unix epoch):
    /// - `Register`: `RegisterError` when the name is taken, else the node is
    ///   recorded as seen now and the answer is `RegisterOk`;
    /// - `Unregister`: the name is dropped; always `UnregisterOk`;
    /// - `Lookup`: the node's information, if registered;
    /// - `ListNodes`: every registered node's information;
    /// - `Ping`: `Pong`;
    /// - `KeepAlive`: the node is recorded as seen now (`KeepAliveAck`), or
    ///   `RegisterError` when it is not registered;
    /// - any reply message: `RegisterError`.
    pub fn handle_message(&mut self, msg: EpmdMessage, now: u64) -> (r: EpmdMessage)
        requires
            old(self).wf(),
        ensures
            final(self).wf(),
            final(self).timeout_nanos() == old(self).timeout_nanos(),
            final(self).address_view() == old(self).address_view(),
            final(self).table() == table_after(old(self).table(), msg, now),
            match msg {
                EpmdMessage::Register { name, host, port, metadata } => if old(self).table().dom().contains(
                    name@,
                ) {
                    &&& final(self).table() == old(self).table()
                    &&& r matches EpmdMessage::RegisterError { reason }
                    &&& reason@ == "Node "@ + name@ + " already registered"@
                } else {
                    &&& final(self).table() == old(self).table().insert(
                        name@,
                        NodeEntry { info: NodeInfo { name, host, port, metadata }, last_seen: now },
                    )
                    &&& r is RegisterOk
                },
                EpmdMessage::Unregister { name } => {
                    &&& final(self).table() == old(self).table().remove(name@)
                    &&& r is UnregisterOk
                },
                EpmdMessage::Lookup { name } => {
                    &&& final(self).table() == old(self).table()
                    &&& r matches EpmdMessage::LookupResult { node }
                    &&& node is Some <==> old(self).table().dom().contains(name@)
                    &&& node matches Some(i) ==> i@ == old(self).table()[name@].info@
                },
                EpmdMessage::ListNodes => {
                    &&& final(self).table() == old(self).table()
                    &&& r matches EpmdMessage::NodeList { nodes }
                    &&& nodes@.len() == old(self).table().len()
                    &&& forall|i: int|
                        0 <= i < nodes@.len() ==> old(self).table().dom().contains(
                            #[trigger] nodes@[i].name@,
                        ) && nodes@[i]@ == old(self).table()[nodes@[i].name@].info@
                    &&& forall|i: int, j: int|
                        0 <= i < j < nodes@.len() ==> nodes@[i].name@ != nodes@[j].name@
                },
                EpmdMessage::Ping => {
                    &&& final(self).table() == old(self).table()
                    &&& r is Pong
                },
                EpmdMessage::KeepAlive { name } => if old(self).table().dom().contains(name@) {
                    &&& final(self).table().dom() == old(self).table().dom()
                    &&& forall|k: Seq<char>| #[trigger]
                        final(self).table().dom().contains(k) ==> final(self).table()[k].info
                            == old(self).table()[k].info && final(self).table()[k].last_seen == (if k
                            == name@ {
                            now
                        } else {
                            old(self).table()[k].last_seen
                        })
                    &&& r is KeepAliveAck
                } else {
                    &&& final(self).table() == old(self).table()
                    &&& r matches EpmdMessage::RegisterError { reason }
                    &&& reason@ == "Node "@ + name@ + " not registered"@
                },
                _ => {
                    &&& final(self).table() == old(self).table()
                    &&& r matches EpmdMessage::RegisterError { reason }
                    &&& reason@ == "Unexpected message type"@
                },
            },
    {
        proof {
            reveal_strlit("Node ");
            reveal_strlit(" already registered");
            reveal_strlit(" not registered");
            reveal_strlit("Unexpected message type");
        }
        match msg {
            EpmdMessage::Register { name, host, port, metadata } => {
                if nodes_contains(&self.nodes, name.as_str()) {
                    let mut reason = string_of("Node ");
                    push_str(&mut reason, name.as_str());
                    push_str(&mut reason, " already registered");
                    EpmdMessage::RegisterError { reason }
                } else {
                    let key = name.clone();
                    let info = NodeInfo::with_metadata(name, host, port, metadata);
                    nodes_insert(&mut self.nodes, key, NodeEntry { info, last_seen: now });
                    EpmdMessage::RegisterOk
                }
            },
            EpmdMessage::Unregister { name } => {
                let _ = nodes_remove(&mut self.nodes, name.as_str());
                EpmdMessage::UnregisterOk
            },
            EpmdMessage::Lookup { name } => {
                let node = nodes_get_info(&self.nodes, name.as_str());
                EpmdMessage::LookupResult { node }
            },
            EpmdMessage::ListNodes => {
                let entries = nodes_entries(&self.nodes);
                let n = entries.len();
                let mut list: Vec<NodeInfo> = Vec::new();
                let mut i: usize = 0;
                while i < n
                    invariant
                        n == entries@.len(),
                        i <= n,
                        list@.len() == i,
                        self.wf(),
                        forall|j: int|
                            0 <= j < i ==> #[trigger] list@[j]@ == entries@[j].1@ && list@[j].name@
                                == entries@[j].0@,
                        forall|j: int|
                            0 <= j < n ==> self.table().dom().contains(#[trigger] entries@[j].0@)
                                && entries@[j].1@ == self.table()[entries@[j].0@].info@,
                    decreases n - i,
                {
                    let ghost k = entries@[i as int].0@;
                    assert(self.table().dom().contains(k));
                    let info = entries[i].1.duplicate();
                    list.push(info);
                    i = i + 1;
                }
                assert forall|j: int| 0 <= j < list@.len() implies self.table().dom().contains(
                    #[trigger] list@[j].name@,
                ) && list@[j]@ == self.table()[list@[j].name@].info@ by {
                    assert(list@[j]@ == entries@[j].1@);
                    assert(self.table().dom().contains(entries@[j].0@));
                }
                EpmdMessage::NodeList { nodes: list }
            },
            EpmdMessage::Ping => EpmdMessage::Pong,
            EpmdMessage::KeepAlive { name } => {
                if nodes_touch(&mut self.nodes, name.as_str(), now) {
                    assert(self.table() =~= old(self).table().insert(
                        name@,
                        NodeEntry { info: old(self).table()[name@].info, last_seen: now },
                    ));
                    EpmdMessage::KeepAliveAck
                } else {
                    let mut reason = string_of("Node ");
                    push_str(&mut reason, name.as_str());
                    push_str(&mut reason, " not registered");
                    EpmdMessage::RegisterError { reason }
                }
            },
            _ => EpmdMessage::RegisterError { reason: string_of("Unexpected message type") },
        }
    }

    /// Drops every node silent for longer than the keep-alive timeout at
    /// `now`, returning the dropped names.
    pub fn remove_dead_nodes(&mut self, now: u64) -> (r: Vec<String>)
        requires
            old(self).wf(),
        ensures
            final(self).wf(),
            final(self).timeout_nanos() == old(self).timeout_nanos(),
            final(self).address_view() == old(self).address_view(),
            forall|k: Seq<char>|
                #![trigger final(self).table().dom().contains(k)]
                #![trigger old(self).table().dom().contains(k)]
                final(self).table().dom().contains(k) <==> old(self).table().dom().contains(k)
                    && !is_dead(old(self).table()[k].last_seen, now, old(self).timeout_nanos()),
            forall|k: Seq<char>| #[trigger]
                final(self).table().dom().contains(k) ==> final(self).table()[k] == old(self).table()[k],
            forall|i: int|
                0 <= i < r@.len() ==> old(self).table().dom().contains(#[trigger] r@[i]@) && is_dead(
                    old(self).table()[r@[i]@].last_seen,
                    now,
                    old(self).timeout_nanos(),
                ),
            forall|k: Seq<char>|
                #![trigger old(self).table().dom().contains(k)]
                old(self).table().dom().contains(k) && is_dead(
                    old(self).table()[k].last_seen,
                    now,
                    old(self).timeout_nanos(),
                ) ==> exists|i: int| 0 <= i < r@.len() && #[trigger] r@[i]@ == k,
    {
        let timeout = duration_as_nanos(&self.keep_alive_timeout);
        let entries = nodes_entries(&self.nodes);
        let ghost t0 = self.table();
        let n = entries.len();
        let mut dead: Vec<String> = Vec::new();
        let mut i: usize = 0;
        while i < n
            invariant
                n == entries@.len(),
                i <= n,
                timeout == old(self).timeout_nanos(),
                t0 == old(self).table(),
                self.table() == t0,
                forall|j: int|
                    0 <= j < n ==> t0.dom().contains(#[trigger] entries@[j].0@) && entries@[j].2
                        == t0[entries@[j].0@].last_seen,
                forall|j: int|
                    0 <= j < dead@.len() ==> t0.dom().contains(#[trigger] dead@[j]@) && is_dead(
                        t0[dead@[j]@].last_seen,
                        now,
                        timeout as int,
                    ),
                forall|j: int|
                    0 <= j < i && #[trigger] is_dead(entries@[j].2, now, timeout as int) ==> exists|
                        d: int,
                    | 0 <= d < dead@.len() && dead@[d]@ == entries@[j].0@,
            decreases n - i,
        {
            let last_seen = entries[i].2;
            if last_seen <= now && ((now - last_seen) as u128) > timeout {
                let ghost prev = dead@;
                dead.push(entries[i].0.clone());
                assert forall|j: int|
                    0 <= j < i && #[trigger] is_dead(entries@[j].2, now, timeout as int) implies exists|
                    d: int,
                | 0 <= d < dead@.len() && dead@[d]@ == entries@[j].0@ by {
                    let d = choose|d: int| 0 <= d < prev.len() && prev[d]@ == entries@[j].0@;
                    assert(dead@[d] == prev[d]);
                }
                assert(dead@[dead@.len() - 1]@ == entries@[i as int].0@);
            }
            i = i + 1;
        }
        let m = dead.len();
        let mut j: usize = 0;
        while j < m
            invariant
                m == dead@.len(),
                j <= m,
                t0 == old(self).table(),
                self.keep_alive_timeout == old(self).keep_alive_timeout,
                self.address == old(self).address,
                table_names_match(t0),
                table_names_match(self.table()),
                forall|k: Seq<char>|
                    #![trigger self.table().dom().contains(k)]
                    self.table().dom().contains(k) <==> t0.dom().contains(k) && !(exists|d: int|
                        0 <= d < j && #[trigger] dead@[d]@ == k),
                forall|k: Seq<char>| #[trigger]
                    self.table().dom().contains(k) ==> self.table()[k] == t0[k],
            decreases m - j,
        {
            let ghost before = self.table();
            let _ = nodes_remove(&mut self.nodes, dead[j].as_str());
            proof {
                assert forall|k: Seq<char>|
                    #![trigger self.table().dom().contains(k)]
                    self.table().dom().contains(k) <==> t0.dom().contains(k) && !(exists|d: int|
                        0 <= d < j + 1 && #[trigger] dead@[d]@ == k) by {
                    if exists|d: int| 0 <= d < j + 1 && #[trigger] dead@[d]@ == k {
                        let d = choose|d: int| 0 <= d < j + 1 && #[trigger] dead@[d]@ == k;
                        if d < j {
                            assert(!before.dom().contains(k));
                        }
                    } else {
                        assert(dead@[j as int]@ != k);
                        if t0.dom().contains(k) {
                            assert(!(exists|d: int| 0 <= d < j && #[trigger] dead@[d]@ == k));
                            assert(before.dom().contains(k));
                        }
                    }
                }
            }
            j = j + 1;
        }
        proof {
            assert forall|k: Seq<char>|
                #![trigger self.table().dom().contains(k)]
                #![trigger t0.dom().contains(k)]
                self.table().dom().contains(k) <==> t0.dom().contains(k) && !is_dead(
                    t0[k].last_seen,
                    now,
                    timeout as int,
                ) by {
                if t0.dom().contains(k) && is_dead(t0[k].last_seen, now, timeout as int) {
                    lemma_entry_listed(entries@, t0, k);
                    let e = choose|e: int| 0 <= e < n && entries@[e].0@ == k;
                    assert(is_dead(entries@[e].2, now, timeout as int));
                    let d = choose|d: int| 0 <= d < dead@.len() && dead@[d]@ == entries@[e].0@;
                    assert(dead@[d]@ == k);
                }
                if exists|d: int| 0 <= d < m && #[trigger] dead@[d]@ == k {
                    let d = choose|d: int| 0 <= d < m && #[trigger] dead@[d]@ == k;
                    assert(t0.dom().contains(dead@[d]@));
                }
            }
        }
        dead
    }
}

proof fn lemma_entry_listed(entries: Seq<(String, NodeInfo, u64)>, t: Map<Seq<char>, NodeEntry>, k: Seq<char>)
    requires
        t.dom().finite(),
        entries.len() == t.len(),
        forall|i: int| 0 <= i < entries.len() ==> t.dom().contains(#[trigger] entries[i].0@),
        forall|i: int, j: int| 0 <= i < j < entries.len() ==> entries[i].0@ != entries[j].0@,
        t.dom().contains(k),
    ensures
        exists|i: int| 0 <= i < entries.len() && entries[i].0@ == k,
{
    let listed = entries.map_values(|e: (String, NodeInfo, u64)| e.0@);
    assert forall|i: int, j: int| 0 <= i < j < listed.len() implies listed[i] != listed[j] by {}
    listed.unique_seq_to_set();
    let set = listed.to_set();
    assert(set.subset_of(t.dom())) by {
        assert forall|x: Seq<char>| set.contains(x) implies t.dom().contains(x) by {
            let i = choose|i: int| 0 <= i < listed.len() && listed[i] == x;
        }
    }
    if !set.contains(k) {
        assert(set.subset_of(t.dom().remove(k)));
        vstd::set_lib::lemma_len_subset(set, t.dom().remove(k));
        assert(false);
    }
    let i = choose|i: int| 0 <= i < listed.len() && listed[i] == k;
    assert(entries[i].0@ == k);
}

/// A port mapper law: after a registration of a free name, the table that
/// `handle_message` leaves holds the node with its host and port, and a
/// lookup of the name (which leaves the table alone) finds that entry.
pub proof fn lemma_register_then_lookup(
    t: Map<Seq<char>, NodeEntry>,
    name: String,
    host: String,
    port: u16,
    metadata: NodeMetadata,
    now: u64,
    later: u64,
)
    requires
        !t.dom().contains(name@),
    ensures
        ({
            let t1 = table_after(t, EpmdMessage::Register { name, host, port, metadata }, now);
            &&& t1.dom().contains(name@)
            &&& t1[name@].info.host@ == host@
            &&& t1[name@].info.port == port
            &&& table_after(t1, EpmdMessage::Lookup { name }, later) == t1
        }),
{
}

/// A port mapper law: unregistering is idempotent; the table after two
/// unregistrations of a name, as `handle_message` leaves it, is the table
/// after one, and the name is no longer registered.
pub proof fn lemma_unregister_idempotent(t: Map<Seq<char>, NodeEntry>, name: String, now: u64, later: u64)
    ensures
        ({
            let t1 = table_after(t, EpmdMessage::Unregister { name }, now);
            &&& !t1.dom().contains(name@)
            &&& table_after(t1, EpmdMessage::Unregister { name }, later) == t1
        }),
{
    assert(t.remove(name@).remove(name@) =~= t.remove(name@));
}

} // verus!
