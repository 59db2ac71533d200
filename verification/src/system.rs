use crate::actor::default_stop;
use crate::distributed::{hash_node_name, node_id_of, NodeRegistry};
use crate::error::ActorError;
use crate::message::{ExitReason, MonitorRef, Signal};
use crate::pid::{pid_text, Pid};
use crate::text::{push_str, string_of};
use dashmap::DashMap;
use vstd::prelude::*;
use vstd::string::StrSliceExecFns;

verus! {

/// What the system records of a live actor: the actors linked to it, the
/// monitors watching it (watcher and reference), and its type name.
pub struct ActorEntry {
    /// Linked actors, each once.
    pub links: Vec<Pid>,
    /// Watching actors with their monitor references, each pair once.
    pub monitors: Vec<(Pid, MonitorRef)>,
    /// The actor's type name.
    pub actor_type: String,
}

/// What an actor table holds: each live actor and its entry.
pub uninterp spec fn actor_table(m: DashMap<Pid, ActorEntry>) -> Map<Pid, ActorEntry>;

/// The trusted call of `DashMap::new` for an actor table: empty.
#[verifier::external_body]
fn actors_new() -> (res: DashMap<Pid, ActorEntry>)
    ensures
        actor_table(res) =~= Map::empty(),
{
    DashMap::new()
}

/// The trusted call of `DashMap::insert` on an actor table.
#[verifier::external_body]
fn actors_insert(m: &mut DashMap<Pid, ActorEntry>, pid: Pid, entry: ActorEntry)
    ensures
        actor_table(*final(m)) == actor_table(*old(m)).insert(pid, entry),
{
    m.insert(pid, entry);
}

/// The trusted call of `DashMap::remove` on an actor table: the removed
/// entry, if the actor was present, and the table without it.
#[verifier::external_body]
fn actors_remove(m: &mut DashMap<Pid, ActorEntry>, pid: &Pid) -> (res: Option<ActorEntry>)
    ensures
        actor_table(*final(m)) == actor_table(*old(m)).remove(*pid),
        res is Some <==> actor_table(*old(m)).dom().contains(*pid),
        res matches Some(e) ==> e == actor_table(*old(m))[*pid],
{
    m.remove(pid).map(|(_, entry)| entry)
}

/// The trusted call of `DashMap::contains_key` on an actor table.
#[verifier::external_body]
fn actors_contains(m: &DashMap<Pid, ActorEntry>, pid: &Pid) -> (res: bool)
    ensures
        res == actor_table(*m).dom().contains(*pid),
{
    m.contains_key(pid)
}

/// The trusted call of `DashMap::get` on an actor table, copying the
/// entry's type name.
#[verifier::external_body]
fn actors_get_type(m: &DashMap<Pid, ActorEntry>, pid: &Pid) -> (res: Option<String>)
    ensures
        res is Some <==> actor_table(*m).dom().contains(*pid),
        res matches Some(t) ==> t@ == actor_table(*m)[*pid].actor_type@,
{
    m.get(pid).map(|entry| entry.actor_type.clone())
}

/// The trusted call of `DashMap::len` on an actor table.
#[verifier::external_body]
fn actors_len(m: &DashMap<Pid, ActorEntry>) -> (res: usize)
    ensures
        res == actor_table(*m).len(),
{
    m.len()
}

/// `s` with `p` added at the end, unless it already holds `p`.
pub open spec fn with_member<T>(s: Seq<T>, p: T) -> Seq<T> {
    if s.contains(p) {
        s
    } else {
        s.push(p)
    }
}

/// After adding a member, the sequence holds it, and adding it again
/// changes nothing.
pub proof fn lemma_with_member_contains<T>(s: Seq<T>, p: T)
    ensures
        with_member(s, p).contains(p),
        with_member(with_member(s, p), p) == with_member(s, p),
{
    if !s.contains(p) {
        assert(s.push(p)[s.len() as int] == p);
    }
}

/// Adds `p` to a duplicate-free list unless it is there already.
fn add_pid(v: &mut Vec<Pid>, p: Pid)
    requires
        old(v)@.no_duplicates(),
    ensures
        final(v)@ == with_member(old(v)@, p),
        final(v)@.no_duplicates(),
{
    let n = v.len();
    let mut i: usize = 0;
    while i < n
        invariant
            n == v@.len(),
            v@ == old(v)@,
            v@.no_duplicates(),
            i <= n,
            forall|j: int| 0 <= j < i ==> v@[j] != p,
        decreases n - i,
    {
        if v[i] == p {
            assert(v@.contains(p));
            return;
        }
        i = i + 1;
    }
    assert(!v@.contains(p));
    v.push(p);
}

/// Adds a watcher pair to a duplicate-free list unless it is there already.
fn add_monitor(v: &mut Vec<(Pid, MonitorRef)>, m: (Pid, MonitorRef))
    requires
        old(v)@.no_duplicates(),
    ensures
        final(v)@ == with_member(old(v)@, m),
        final(v)@.no_duplicates(),
{
    let n = v.len();
    let mut i: usize = 0;
    while i < n
        invariant
            n == v@.len(),
            v@ == old(v)@,
            v@.no_duplicates(),
            i <= n,
            forall|j: int| 0 <= j < i ==> v@[j] != m,
        decreases n - i,
    {
        let (p, r) = v[i];
        if p == m.0 && r.0 == (m.1).0 {
            assert(v@[i as int] == m);
            assert(v@.contains(m));
            return;
        }
        i = i + 1;
    }
    assert(!v@.contains(m));
    v.push(m);
}

/// The exit signals a terminating actor `from` sends to the actors linked
/// to it, in the order of `links`.
pub open spec fn exit_signals(links: Seq<Pid>, from: Pid, reason: ExitReason) -> Seq<(Pid, Signal)> {
    links.map_values(|l: Pid| (l, Signal::Exit { from, reason }))
}

/// The down signals a terminating actor `pid` sends to its watchers, in the
/// order of `monitors`.
pub open spec fn down_signals(monitors: Seq<(Pid, MonitorRef)>, pid: Pid, reason: ExitReason) -> Seq<
    (Pid, Signal),
> {
    monitors.map_values(|m: (Pid, MonitorRef)| (m.0, Signal::Down { reference: m.1, pid, reason }))
}

/// The identifier the local table uses for `pid`. A local-only system
/// (node number 0) files every process under node 0. A distributed system
/// swaps 0 and its own number, and leaves other nodes' processes alone.
pub open spec fn normalized(local_node_id: u32, pid: Pid) -> Pid {
    if local_node_id == 0 {
        Pid { node: 0, id: pid.id }
    } else if pid.node == 0 {
        Pid { node: local_node_id, id: pid.id }
    } else if pid.node == local_node_id {
        Pid { node: 0, id: pid.id }
    } else {
        pid
    }
}

/// The key under which this node files the process `pid`, when `pid` names
/// a process of this node: written with node number 0 or with the node's
/// own number (on a local-only node, any number). Processes of other nodes
/// have no key here.
pub open spec fn table_key(local_node_id: u32, pid: Pid) -> Option<Pid> {
    if local_node_id == 0 || pid.node == 0 || pid.node == local_node_id {
        Some(Pid { node: local_node_id, id: pid.id })
    } else {
        None
    }
}

/// Where a message for a process goes.
#[derive(Debug)]
pub enum SendRoute {
    /// To the mailbox of this live local actor.
    Local(Pid),
    /// Over the network to another node.
    Remote,
    /// Nowhere: the send fails with this error.
    Refused(ActorError),
}

/// The actor system's bookkeeping: the live actors with their links and
/// monitors, this node's number and name, the nodes it is connected to,
/// and the counters that hand out process numbers and monitor references.
pub struct ActorSystem {
    actors: DashMap<Pid, ActorEntry>,
    local_node_id: u32,
    node_name: Option<String>,
    listen_address: Option<String>,
    node_registry: Option<NodeRegistry>,
    next_pid: u64,
    next_monitor: u64,
}

impl ActorSystem {
    /// The live actors and their entries.
    pub closed spec fn actors(&self) -> Map<Pid, ActorEntry> {
        actor_table(self.actors)
    }

    /// This node's number (0 for a local-only system).
    pub closed spec fn node_id(&self) -> u32 {
        self.local_node_id
    }

    /// This node's name, for a distributed system.
    pub closed spec fn name_view(&self) -> Option<Seq<char>> {
        match self.node_name {
            Some(n) => Some(n@),
            None => None,
        }
    }

    /// The address this node listens on, for a distributed system.
    pub closed spec fn listen_view(&self) -> Option<Seq<char>> {
        match self.listen_address {
            Some(a) => Some(a@),
            None => None,
        }
    }

    /// The directory of connected nodes, for a distributed system.
    pub closed spec fn registry_view(&self) -> Option<NodeRegistry> {
        self.node_registry
    }

    /// The number the next spawned actor gets.
    pub closed spec fn next_pid_view(&self) -> u64 {
        self.next_pid
    }

    /// The number of the next monitor reference.
    pub closed spec fn next_monitor_view(&self) -> u64 {
        self.next_monitor
    }

    /// The actors linked to a live actor.
    pub open spec fn links(&self, p: Pid) -> Seq<Pid> {
        self.actors()[p].links@
    }

    /// The watchers of a live actor.
    pub open spec fn monitors(&self, p: Pid) -> Seq<(Pid, MonitorRef)> {
        self.actors()[p].monitors@
    }

    /// The table is finite, its entries hold each link and watcher once,
    /// every live actor is filed under this node's number (the key that
    /// routing looks up) with a number handed out already, and the directory
    /// of nodes is well formed.
    pub open spec fn wf(&self) -> bool {
        &&& self.actors().dom().finite()
        &&& forall|p: Pid| #[trigger]
            self.actors().dom().contains(p) ==> self.links(p).no_duplicates() && self.monitors(
                p,
            ).no_duplicates() && p.id < self.next_pid_view() && p.node == self.node_id()
        &&& self.registry_view() matches Some(r) ==> r.wf()
    }

    /// A local-only system: node number 0, no name, no connections.
    pub fn new() -> (r: ActorSystem)
        ensures
            r.wf(),
            r.actors() == Map::<Pid, ActorEntry>::empty(),
            r.node_id() == 0,
            r.name_view() is None,
            r.listen_view() is None,
            r.registry_view() is None,
            r.next_pid_view() == 1,
            r.next_monitor_view() == 1,
    {
        ActorSystem {
            actors: actors_new(),
            local_node_id: 0,
            node_name: None,
            listen_address: None,
            node_registry: None,
            next_pid: 1,
            next_monitor: 1,
        }
    }

    /// A distributed system for the named node listening on
    /// `listen_address`, with the host and port that address names (see
    /// `listen_parts`). An address without a valid port is refused with
    /// `Invalid listen address: <address>` and no system is made. The node
    /// number is the name's hash, and the system starts with no actors and
    /// no connections.
    pub fn new_distributed(node_name: &str, listen_address: &str) -> (r: Result<
        (ActorSystem, String, u16),
        ActorError,
    >)
        ensures
            r is Ok <==> listen_parts(listen_address@) is Some,
            listen_parts(listen_address@) is None ==> (r matches Err(ActorError::Other(m)) && m@
                == "Invalid listen address: "@ + listen_address@),
            listen_parts(listen_address@) matches Some((h, p)) ==> (r matches Ok(v) ==> v.1@ == h
                && v.2 == p),
            r matches Ok(v) ==> ({
                let sys = v.0;
                &&& sys.wf()
                &&& sys.actors() == Map::<Pid, ActorEntry>::empty()
                &&& sys.node_id() == node_id_of(node_name@)
                &&& sys.name_view() == Some(node_name@)
                &&& sys.listen_view() == Some(listen_address@)
                &&& sys.registry_view() is Some
                &&& sys.registry_view() matches Some(reg) ==> reg.connected().dom().is_empty()
                    && reg.by_id().dom().is_empty() && reg.names().dom().is_empty()
                &&& sys.next_pid_view() == 1
                &&& sys.next_monitor_view() == 1
            }),
    {
        let (host, port) = match parse_listen_address(listen_address) {
            Ok(parts) => parts,
            Err(e) => return Err(e),
        };
        let system = ActorSystem {
            actors: actors_new(),
            local_node_id: hash_node_name(node_name),
            node_name: Some(string_of(node_name)),
            listen_address: Some(string_of(listen_address)),
            node_registry: Some(NodeRegistry::new()),
            next_pid: 1,
            next_monitor: 1,
        };
        Ok((system, host, port))
    }

    /// The node number derived from a node name (see `hash_node_name`).
    pub fn hash_node_name(name: &str) -> (r: u32)
        ensures
            r == node_id_of(name@),
    {
        hash_node_name(name)
    }

    /// This node's number; 0 for a local-only system.
    pub fn local_node_id(&self) -> (r: u32)
        ensures
            r == self.node_id(),
    {
        self.local_node_id
    }

    /// True for a distributed node (one with a non-zero node number).
    pub fn is_distributed(&self) -> (r: bool)
        ensures
            r == (self.node_id() != 0),
    {
        self.local_node_id != 0
    }

    /// This node's name; `None` for a local-only system.
    pub fn node(&self) -> (r: Option<&str>)
        ensures
            r is Some == self.name_view() is Some,
            r matches Some(n) ==> n@ == self.name_view()->0,
    {
        match &self.node_name {
            Some(n) => Some(n.as_str()),
            None => None,
        }
    }

    /// The address this node listens on; `None` for a local-only system.
    pub fn listen_address(&self) -> (r: Option<&str>)
        ensures
            r is Some == self.listen_view() is Some,
            r matches Some(a) ==> a@ == self.listen_view()->0,
    {
        match &self.listen_address {
            Some(a) => Some(a.as_str()),
            None => None,
        }
    }

    /// Whether this system may connect to other nodes: it must have a
    /// directory of nodes, a name and a listen address; otherwise the
    /// connection is refused with "Cannot connect - system is not
    /// distributed".
    pub fn connection_check(&self) -> (r: Result<(), ActorError>)
        ensures
            r is Ok <==> (self.registry_view() is Some && self.name_view() is Some
                && self.listen_view() is Some),
            r matches Err(e) ==> e matches ActorError::Other(m) && m@
                == "Cannot connect - system is not distributed"@,
    {
        if self.node_registry.is_some() && self.node_name.is_some() && self.listen_address.is_some() {
            Ok(())
        } else {
            Err(ActorError::Other(string_of("Cannot connect - system is not distributed")))
        }
    }

    /// The directory of connected nodes; `None` for a local-only system.
    pub fn node_registry(&self) -> (r: Option<&NodeRegistry>)
        ensures
            r is Some == self.registry_view() is Some,
            r matches Some(g) ==> *g == self.registry_view()->0,
    {
        self.node_registry.as_ref()
    }

    /// The names of the connected nodes, each once; none for a local-only
    /// system.
    pub fn nodes(&self) -> (r: Vec<String>)
        requires
            self.wf(),
        ensures
            self.registry_view() is None ==> r@.len() == 0,
            self.registry_view() matches Some(g) ==> r@.len() == g.connected().len() && (forall|
                i: int,
            |
                0 <= i < r@.len() ==> g.connected().dom().contains(#[trigger] r@[i]@)) && (forall|
                i: int,
                j: int,
            | 0 <= i < j < r@.len() ==> r@[i]@ != r@[j]@),
    {
        match &self.node_registry {
            Some(g) => g.list_connected_nodes(),
            None => Vec::new(),
        }
    }

    /// Records a connection to the named node in the directory of a
    /// distributed system and returns the node's number; a local-only
    /// system records nothing and gives `None`.
    pub fn record_connection(&mut self, node_name: &str) -> (r: Option<u32>)
        requires
            old(self).wf(),
        ensures
            final(self).wf(),
            final(self).actors() == old(self).actors(),
            final(self).node_id() == old(self).node_id(),
            final(self).name_view() == old(self).name_view(),
            final(self).next_pid_view() == old(self).next_pid_view(),
            final(self).next_monitor_view() == old(self).next_monitor_view(),
            old(self).registry_view() is None ==> r is None && final(self).registry_view() is None,
            old(self).registry_view() is Some ==> r == Some(node_id_of(node_name@)),
            old(self).registry_view() is Some ==> final(self).registry_view() is Some,
            old(self).registry_view() matches Some(g) ==> (final(self).registry_view() matches Some(g2)
                ==> g2.connected() == g.connected().insert(node_name@, node_id_of(node_name@))
                && g2.by_id() == g.by_id().insert(node_id_of(node_name@), node_name@) && g2.names()
                == g.names().insert(node_id_of(node_name@), node_name@)),
    {
        match self.node_registry.as_mut() {
            Some(g) => Some(g.record_connection(node_name)),
            None => None,
        }
    }

    /// The identifier the local table uses for `pid` (see `normalized`).
    pub fn normalize_pid(&self, pid: Pid) -> (r: Pid)
        ensures
            r == normalized(self.node_id(), pid),
    {
        if self.local_node_id == 0 {
            return Pid::with_node(0, pid.id());
        }
        if pid.node() == 0 {
            Pid::with_node(self.local_node_id, pid.id())
        } else if pid.node() == self.local_node_id {
            Pid::with_node(0, pid.id())
        } else {
            pid
        }
    }

    /// The number the next spawned actor gets.
    pub fn next_pid_number(&self) -> (r: u64)
        ensures
            r == self.next_pid_view(),
    {
        self.next_pid
    }

    /// The number of the next monitor reference.
    pub fn next_monitor_number(&self) -> (r: u64)
        ensures
            r == self.next_monitor_view(),
    {
        self.next_monitor
    }

    /// The type name of a live actor.
    pub fn actor_type_of(&self, pid: Pid) -> (r: Option<String>)
        ensures
            r is Some == self.actors().dom().contains(pid),
            r matches Some(t) ==> t@ == self.actors()[pid].actor_type@,
    {
        match actors_get_type(&self.actors, &pid) {
            Some(t) => Some(t),
            None => None,
        }
    }

    /// True when an actor is registered under exactly this identifier.
    pub fn is_actor_alive(&self, pid: Pid) -> (r: bool)
        ensures
            r == self.actors().dom().contains(pid),
    {
        actors_contains(&self.actors, &pid)
    }

    /// The number of live actors.
    pub fn actor_count(&self) -> (r: usize)
        ensures
            r == self.actors().len(),
    {
        actors_len(&self.actors)
    }

    /// Records a newly spawned actor of the given type and returns its
    /// identifier: on this node, with the next free number, with no links
    /// and no monitors.
    pub fn spawn_entry(&mut self, actor_type: &str) -> (r: Pid)
        requires
            old(self).wf(),
            old(self).next_pid_view() < u64::MAX,
        ensures
            final(self).wf(),
            r.node == old(self).node_id(),
            r.id == old(self).next_pid_view(),
            !old(self).actors().dom().contains(r),
            final(self).actors().dom() == old(self).actors().dom().insert(r),
            final(self).actors().len() == old(self).actors().len() + 1,
            forall|p: Pid| #[trigger]
                old(self).actors().dom().contains(p) ==> final(self).actors()[p] == old(self).actors()[p],
            final(self).links(r).len() == 0,
            final(self).monitors(r).len() == 0,
            final(self).actors()[r].actor_type@ == actor_type@,
            final(self).next_pid_view() == old(self).next_pid_view() + 1,
            final(self).next_monitor_view() == old(self).next_monitor_view(),
            final(self).node_id() == old(self).node_id(),
            final(self).name_view() == old(self).name_view(),
            final(self).listen_view() == old(self).listen_view(),
            final(self).registry_view() == old(self).registry_view(),
    {
        let pid = Pid::with_node(self.local_node_id, self.next_pid);
        self.next_pid = self.next_pid + 1;
        let entry = ActorEntry { links: Vec::new(), monitors: Vec::new(), actor_type: string_of(actor_type) };
        actors_insert(&mut self.actors, pid, entry);
        proof {
            assert(self.actors() =~= old(self).actors().insert(pid, entry));
            assert(entry.links@ =~= Seq::<Pid>::empty());
            assert(entry.monitors@ =~= Seq::<(Pid, MonitorRef)>::empty());
        }
        pid
    }

    /// Links two actors both ways. Fails with `ActorNotFound(pid1)` when the
    /// first is not alive (nothing changes), and with `ActorNotFound(pid2)`
    /// when the second is not (the first keeps its new link).
    pub fn link(&mut self, pid1: Pid, pid2: Pid) -> (r: Result<(), ActorError>)
        requires
            old(self).wf(),
        ensures
            final(self).wf(),
            final(self).actors().dom() == old(self).actors().dom(),
            final(self).node_id() == old(self).node_id(),
            final(self).name_view() == old(self).name_view(),
            final(self).listen_view() == old(self).listen_view(),
            final(self).registry_view() == old(self).registry_view(),
            final(self).next_pid_view() == old(self).next_pid_view(),
            final(self).next_monitor_view() == old(self).next_monitor_view(),
            !old(self).actors().dom().contains(pid1) ==> (r matches Err(ActorError::ActorNotFound(q))
                && q == pid1 && final(self).actors() == old(self).actors()),
            old(self).actors().dom().contains(pid1) ==> final(self).links(pid1) == with_member(
                old(self).links(pid1),
                pid2,
            ),
            old(self).actors().dom().contains(pid1) && !old(self).actors().dom().contains(pid2) ==> (r matches Err(
                ActorError::ActorNotFound(q),
            ) && q == pid2),
            old(self).actors().dom().contains(pid1) && old(self).actors().dom().contains(pid2) ==> r
                is Ok && final(self).links(pid2) == with_member(old(self).links(pid2), pid1),
            forall|p: Pid| #[trigger]
                final(self).actors().dom().contains(p) ==> final(self).monitors(p) == old(self).monitors(p) && final(self).actors()[p].actor_type == old(self).actors()[p].actor_type,
            forall|p: Pid| #[trigger]
                final(self).actors().dom().contains(p) && p != pid1 && p != pid2 ==> final(self).actors()[p] == old(self).actors()[p],
    {
        match actors_remove(&mut self.actors, &pid1) {
            None => {
                return Err(ActorError::ActorNotFound(pid1));
            },
            Some(mut e) => {
                add_pid(&mut e.links, pid2);
                actors_insert(&mut self.actors, pid1, e);
                assert(self.actors() =~= old(self).actors().insert(pid1, e));
            },
        }
        let ghost mid = self.actors();
        match actors_remove(&mut self.actors, &pid2) {
            None => {
                assert(self.actors() =~= mid);
                Err(ActorError::ActorNotFound(pid2))
            },
            Some(mut e) => {
                add_pid(&mut e.links, pid1);
                actors_insert(&mut self.actors, pid2, e);
                assert(self.actors() =~= mid.insert(pid2, e));
                proof {
                    lemma_with_member_contains(old(self).links(pid1), pid2);
                    if pid1 == pid2 {
                        assert(mid[pid1].links@ == with_member(old(self).links(pid1), pid2));
                    }
                }
                Ok(())
            },
        }
    }

    /// Makes `from` watch `to` under a fresh monitor reference, which is
    /// returned. Both actors must be alive: the call fails with
    /// `ActorNotFound(to)` when `to` is not, else with `ActorNotFound(from)`
    /// when `from` is not, and then nothing but the used-up reference
    /// changes.
    pub fn monitor(&mut self, from: Pid, to: Pid) -> (r: Result<MonitorRef, ActorError>)
        requires
            old(self).wf(),
            old(self).next_monitor_view() < u64::MAX,
        ensures
            final(self).wf(),
            final(self).next_monitor_view() == old(self).next_monitor_view() + 1,
            final(self).actors().dom() == old(self).actors().dom(),
            final(self).node_id() == old(self).node_id(),
            final(self).name_view() == old(self).name_view(),
            final(self).listen_view() == old(self).listen_view(),
            final(self).registry_view() == old(self).registry_view(),
            final(self).next_pid_view() == old(self).next_pid_view(),
            !old(self).actors().dom().contains(to) ==> (r matches Err(ActorError::ActorNotFound(q)) && q
                == to && final(self).actors() == old(self).actors()),
            old(self).actors().dom().contains(to) && !old(self).actors().dom().contains(from) ==> (r matches Err(
                ActorError::ActorNotFound(q),
            ) && q == from && final(self).actors() == old(self).actors()),
            old(self).actors().dom().contains(to) && old(self).actors().dom().contains(from) ==> (r matches Ok(
                m,
            ) && m == MonitorRef(old(self).next_monitor_view())) && final(self).monitors(to) == with_member(
                old(self).monitors(to),
                (from, MonitorRef(old(self).next_monitor_view())),
            ) && final(self).links(to) == old(self).links(to) && final(self).actors()[to].actor_type
                == old(self).actors()[to].actor_type,
            forall|p: Pid| #[trigger]
                final(self).actors().dom().contains(p) && p != to ==> final(self).actors()[p] == old(self).actors()[p],
    {
        let monitor_ref = MonitorRef::new(self.next_monitor);
        self.next_monitor = self.next_monitor + 1;
        if !actors_contains(&self.actors, &to) {
            return Err(ActorError::ActorNotFound(to));
        }
        if !actors_contains(&self.actors, &from) {
            return Err(ActorError::ActorNotFound(from));
        }
        match actors_remove(&mut self.actors, &to) {
            None => Err(ActorError::ActorNotFound(to)),
            Some(mut e) => {
                add_monitor(&mut e.monitors, (from, monitor_ref));
                actors_insert(&mut self.actors, to, e);
                assert(self.actors() =~= old(self).actors().insert(to, e));
                Ok(monitor_ref)
            },
        }
    }

    /// The key under which this node files `pid`, if `pid` names a process
    /// of this node (see `table_key`).
    fn local_key(&self, pid: Pid) -> (r: Option<Pid>)
        ensures
            r == table_key(self.node_id(), pid),
    {
        if self.local_node_id == 0 || pid.node() == 0 || pid.node() == self.local_node_id {
            Some(Pid::with_node(self.local_node_id, pid.id()))
        } else {
            None
        }
    }

    /// Where a message for `to` goes: to the live local actor filed under
    /// its key, if `to` names a process of this node (`ActorNotFound(to)`
    /// when that process is not alive); over the network for a process on
    /// another node, if the system is distributed; otherwise it is refused
    /// as not sendable from a local-only system.
    pub fn route(&self, to: Pid) -> (r: SendRoute)
        ensures
            match table_key(self.node_id(), to) {
                Some(k) => if self.actors().dom().contains(k) {
                    r == SendRoute::Local(k)
                } else {
                    r == SendRoute::Refused(ActorError::ActorNotFound(to))
                },
                None => if self.registry_view() is Some {
                    r is Remote
                } else {
                    r matches SendRoute::Refused(ActorError::Other(m)) && m@ == "Cannot send to remote Pid "@
                        + pid_text(to) + " - system is not distributed"@
                },
            },
    {
        match self.local_key(to) {
            Some(k) => {
                if actors_contains(&self.actors, &k) {
                    SendRoute::Local(k)
                } else {
                    SendRoute::Refused(ActorError::ActorNotFound(to))
                }
            },
            None => {
                if self.node_registry.is_some() {
                    SendRoute::Remote
                } else {
                    proof {
                        reveal_strlit("Cannot send to remote Pid ");
                        reveal_strlit(" - system is not distributed");
                    }
                    let mut m = string_of("Cannot send to remote Pid ");
                    let p = to.to_string();
                    push_str(&mut m, p.as_str());
                    push_str(&mut m, " - system is not distributed");
                    SendRoute::Refused(ActorError::Other(m))
                }
            },
        }
    }

    /// True when a process is alive: a process of this node when it is
    /// filed under its key; a process on another node is never reported
    /// alive, as nodes do not answer liveness queries.
    pub fn is_process_alive(&self, pid: Pid) -> (r: bool)
        ensures
            r == (table_key(self.node_id(), pid) matches Some(k) && self.actors().dom().contains(k)),
    {
        match self.local_key(pid) {
            Some(k) => actors_contains(&self.actors, &k),
            None => false,
        }
    }

    /// The name of the node a process lives on: this node's name for a
    /// local process (none for a local-only system), the recorded name for
    /// another node's number, if any.
    pub fn node_of(&self, pid: Pid) -> (r: Option<String>)
        ensures
            pid.node == 0 || pid.node == self.node_id() ==> (r is Some == self.name_view() is Some && (r matches Some(
                n,
            ) ==> Some(n@) == self.name_view())),
            pid.node != 0 && pid.node != self.node_id() && self.registry_view() is None ==> r is None,
            pid.node != 0 && pid.node != self.node_id() ==> (self.registry_view() matches Some(g) ==> (r is Some
                == g.names().dom().contains(pid.node) && (r matches Some(n) ==> n@ == g.names()[pid.node]))),
    {
        let node_id = pid.node();
        if node_id == 0 || node_id == self.local_node_id {
            return match &self.node_name {
                Some(n) => Some(n.clone()),
                None => None,
            };
        }
        match &self.node_registry {
            Some(g) => g.get_node_name(node_id),
            None => None,
        }
    }

    /// Removes a terminated actor and returns the signals its end causes, in
    /// order: an exit signal with `reason` to each linked actor, then a down
    /// signal with the monitor reference to each watcher. An actor that is
    /// not alive causes none.
    pub fn cleanup_actor(&mut self, pid: Pid, reason: &ExitReason) -> (r: Vec<(Pid, Signal)>)
        requires
            old(self).wf(),
        ensures
            final(self).wf(),
            final(self).actors() == old(self).actors().remove(pid),
            old(self).actors().dom().contains(pid) ==> final(self).actors().len() == old(self).actors().len() - 1,
            final(self).node_id() == old(self).node_id(),
            final(self).name_view() == old(self).name_view(),
            final(self).listen_view() == old(self).listen_view(),
            final(self).registry_view() == old(self).registry_view(),
            final(self).next_pid_view() == old(self).next_pid_view(),
            final(self).next_monitor_view() == old(self).next_monitor_view(),
            !old(self).actors().dom().contains(pid) ==> r@.len() == 0,
            old(self).actors().dom().contains(pid) ==> r@ == exit_signals(old(self).links(pid), pid, *reason)
                + down_signals(old(self).monitors(pid), pid, *reason),
    {
        let entry = match actors_remove(&mut self.actors, &pid) {
            None => return Vec::new(),
            Some(e) => e,
        };
        let mut out: Vec<(Pid, Signal)> = Vec::new();
        let n = entry.links.len();
        let mut i: usize = 0;
        while i < n
            invariant
                n == entry.links@.len(),
                i <= n,
                out@ == exit_signals(entry.links@.take(i as int), pid, *reason),
            decreases n - i,
        {
            out.push((entry.links[i], Signal::Exit { from: pid, reason: reason.duplicate() }));
            i = i + 1;
            assert(out@ =~= exit_signals(entry.links@.take(i as int), pid, *reason));
        }
        assert(entry.links@.take(n as int) =~= entry.links@);
        let ghost exits = out@;
        let m = entry.monitors.len();
        let mut j: usize = 0;
        while j < m
            invariant
                m == entry.monitors@.len(),
                j <= m,
                out@ == exits + down_signals(entry.monitors@.take(j as int), pid, *reason),
            decreases m - j,
        {
            let (watcher, reference) = entry.monitors[j];
            out.push((watcher, Signal::Down { reference, pid, reason: reason.duplicate() }));
            j = j + 1;
            assert(out@ =~= exits + down_signals(entry.monitors@.take(j as int), pid, *reason));
        }
        assert(entry.monitors@.take(m as int) =~= entry.monitors@);
        out
    }
}

/// Links are mutual: once two live actors are linked, each is among the
/// other's links.
pub proof fn lemma_link_is_mutual(before: &ActorSystem, after: &ActorSystem, a: Pid, b: Pid)
    requires
        after.links(a) == with_member(before.links(a), b),
        after.links(b) == with_member(before.links(b), a),
    ensures
        after.links(a).contains(b),
        after.links(b).contains(a),
{
    lemma_with_member_contains(before.links(a), b);
    lemma_with_member_contains(before.links(b), a);
}

/// A terminating actor notifies each linked actor with an exit signal and
/// each watcher with a down signal carrying the watcher's reference, and
/// sends nothing else.
pub proof fn lemma_cleanup_notifies_links_and_watchers(
    links: Seq<Pid>,
    monitors: Seq<(Pid, MonitorRef)>,
    pid: Pid,
    reason: ExitReason,
)
    ensures
        ({
            let sent = exit_signals(links, pid, reason) + down_signals(monitors, pid, reason);
            &&& sent.len() == links.len() + monitors.len()
            &&& forall|i: int|
                0 <= i < links.len() ==> #[trigger] sent[i] == (links[i], Signal::Exit { from: pid, reason })
            &&& forall|j: int|
                0 <= j < monitors.len() ==> #[trigger] sent[links.len() + j] == (
                    monitors[j].0,
                    Signal::Down { reference: monitors[j].1, pid, reason },
                )
        }),
{
    let sent = exit_signals(links, pid, reason) + down_signals(monitors, pid, reason);
    assert forall|j: int| 0 <= j < monitors.len() implies #[trigger] sent[links.len() + j] == (
        monitors[j].0,
        Signal::Down { reference: monitors[j].1, pid, reason },
    ) by {
        assert(sent[links.len() + j] == down_signals(monitors, pid, reason)[j]);
    }
}

/// Links carry failures: when an actor ends, every actor linked to it gets
/// an exit signal from it with its reason, and the default handling stops
/// that actor exactly when the reason is not normal and the actor does not
/// trap it (a `Killed` reason cannot be trapped).
pub proof fn lemma_linked_actor_receives_exit(
    links: Seq<Pid>,
    monitors: Seq<(Pid, MonitorRef)>,
    ended: Pid,
    linked: Pid,
    reason: ExitReason,
    trapping: bool,
)
    requires
        links.contains(linked),
    ensures
        exists|i: int|
            0 <= i < links.len() && (exit_signals(links, ended, reason) + down_signals(
                monitors,
                ended,
                reason,
            ))[i] == (linked, Signal::Exit { from: ended, reason }),
        default_stop(Signal::Exit { from: ended, reason }, trapping) is Some <==> (!(reason is Normal)
            && (!trapping || reason is Killed)),
{
    let i = choose|i: int| 0 <= i < links.len() && links[i] == linked;
    let sent = exit_signals(links, ended, reason) + down_signals(monitors, ended, reason);
    assert(sent[i] == (linked, Signal::Exit { from: ended, reason }));
}

/// Monitors observe without being affected: when a watched actor ends,
/// each watcher gets a down signal with its reference, and the default
/// handling of a down signal never stops the watcher.
pub proof fn lemma_watcher_receives_down(
    links: Seq<Pid>,
    monitors: Seq<(Pid, MonitorRef)>,
    ended: Pid,
    watcher: Pid,
    reference: MonitorRef,
    reason: ExitReason,
    trapping: bool,
)
    requires
        monitors.contains((watcher, reference)),
    ensures
        exists|i: int|
            0 <= i < links.len() + monitors.len() && (exit_signals(links, ended, reason)
                + down_signals(monitors, ended, reason))[i] == (
                watcher,
                Signal::Down { reference, pid: ended, reason },
            ),
        default_stop(Signal::Down { reference, pid: ended, reason }, trapping) is None,
{
    let j = choose|j: int| 0 <= j < monitors.len() && monitors[j] == (watcher, reference);
    let sent = exit_signals(links, ended, reason) + down_signals(monitors, ended, reason);
    assert(sent[links.len() + j] == down_signals(monitors, ended, reason)[j]);
}

/// Location transparency on a node: a live actor is found under its own
/// identifier and under the same number written with node 0, so `route`
/// sends to it locally and `is_process_alive` reports it alive, on a
/// distributed node as on a local-only one.
pub proof fn lemma_live_actor_is_reachable(s: ActorSystem, p: Pid)
    requires
        s.wf(),
        s.actors().dom().contains(p),
    ensures
        table_key(s.node_id(), p) == Some(p),
        table_key(s.node_id(), Pid { node: 0, id: p.id }) == Some(p),
{
}

/// Normalizing is undone by normalizing again on a distributed node (it
/// swaps node 0 and the node's own number), and is settled after one step
/// on a local-only node.
pub proof fn lemma_normalize_round_trip(local_node_id: u32, pid: Pid)
    ensures
        local_node_id != 0 ==> normalized(local_node_id, normalized(local_node_id, pid)) == pid,
        local_node_id == 0 ==> normalized(local_node_id, normalized(local_node_id, pid)) == normalized(
            local_node_id,
            pid,
        ),
        normalized(local_node_id, pid).id == pid.id,
{
}

// ---------------------------------------------------------------------------
// Listen addresses
// ---------------------------------------------------------------------------

/// The index of the first `:` at or after `from`, or the length when there
/// is none.
pub open spec fn colon_from(s: Seq<char>, from: int) -> int
    decreases s.len() - from,
{
    if from < 0 || from >= s.len() {
        s.len() as int
    } else if s[from] == ':' {
        from
    } else {
        colon_from(s, from + 1)
    }
}

/// The value of a sequence of decimal digits.
pub open spec fn digits_value(s: Seq<char>) -> nat
    decreases s.len(),
{
    if s.len() == 0 {
        0
    } else {
        digits_value(s.drop_last()) * 10 + ((s.last() as u32 - '0' as u32) as nat)
    }
}

/// Every character is a decimal digit.
pub open spec fn all_digits(s: Seq<char>) -> bool {
    forall|i: int| 0 <= i < s.len() ==> '0' <= #[trigger] s[i] <= '9'
}

/// What parsing text as a `u16` gives: an optional `+`, then one or more
/// decimal digits whose value fits in 16 bits; anything else is refused.
pub open spec fn parse_u16_spec(s: Seq<char>) -> Option<u16> {
    let d = if s.len() > 0 && s[0] == '+' {
        s.drop_first()
    } else {
        s
    };
    if d.len() > 0 && all_digits(d) && digits_value(d) <= 65535 {
        Some(digits_value(d) as u16)
    } else {
        None
    }
}

/// A prefix of a digit string never has a larger value than the whole.
proof fn lemma_digits_value_prefix(d: Seq<char>, k: int)
    requires
        0 <= k <= d.len(),
        all_digits(d),
    ensures
        digits_value(d.subrange(0, k)) <= digits_value(d),
    decreases d.len(),
{
    if k < d.len() {
        assert(all_digits(d.drop_last()));
        assert(d.drop_last().subrange(0, k) =~= d.subrange(0, k));
        lemma_digits_value_prefix(d.drop_last(), k);
    } else {
        assert(d.subrange(0, k) =~= d);
    }
}

/// Parses text as a `u16` the way `str::parse::<u16>` does: an optional
/// `+`, then one or more decimal digits whose value fits in 16 bits.
fn parse_u16(s: &str) -> (r: Option<u16>)
    ensures
        r == parse_u16_spec(s@),
{
    let n = s.unicode_len();
    let mut start: usize = 0;
    if n > 0 && s.get_char(0) == '+' {
        start = 1;
    }
    let ghost d = if s@.len() > 0 && s@[0] == '+' {
        s@.drop_first()
    } else {
        s@
    };
    assert(d =~= s@.subrange(start as int, n as int));
    if start == n {
        return None;
    }
    let mut value: u32 = 0;
    let mut i: usize = start;
    assert(d.subrange(0, 0) =~= Seq::<char>::empty());
    while i < n
        invariant
            n == s@.len(),
            start < n,
            start <= i <= n,
            d == s@.subrange(start as int, n as int),
            d == (if s@.len() > 0 && s@[0] == '+' {
                s@.drop_first()
            } else {
                s@
            }),
            all_digits(d.subrange(0, i - start)),
            value == digits_value(d.subrange(0, i - start)),
            value <= 65535,
        decreases n - i,
    {
        let c = s.get_char(i);
        assert(d[i - start] == c);
        if c < '0' || c > '9' {
            assert(!('0' <= d[i - start] <= '9'));
            return None;
        }
        let v = value * 10 + (c as u32 - '0' as u32);
        proof {
            let p = d.subrange(0, i + 1 - start);
            assert(p.drop_last() =~= d.subrange(0, i - start));
            assert(p.last() == c);
            assert(all_digits(p));
        }
        if v > 65535 {
            proof {
                if all_digits(d) {
                    lemma_digits_value_prefix(d, i + 1 - start);
                }
            }
            return None;
        }
        value = v;
        i = i + 1;
    }
    assert(d.subrange(0, n - start) =~= d);
    Some(value as u16)
}

/// The host and port an address of the form `host:port` names: the host is
/// the text before the first `:`, the port the text between it and the next
/// `:` (or the end), read as a `u16`. `None` when there is no `:` or the port
/// does not parse.
pub open spec fn listen_parts(a: Seq<char>) -> Option<(Seq<char>, u16)> {
    let c1 = colon_from(a, 0);
    if c1 >= a.len() {
        None
    } else {
        match parse_u16_spec(a.subrange(c1 + 1, colon_from(a, c1 + 1))) {
            Some(port) => Some((a.subrange(0, c1), port)),
            None => None,
        }
    }
}

/// The index of the first `:` at or after `from`, or the length.
fn find_colon(s: &str, n: usize, from: usize) -> (r: usize)
    requires
        n == s@.len(),
        from <= n,
    ensures
        r == colon_from(s@, from as int),
        from <= r <= n,
{
    let mut i = from;
    while i < n
        invariant
            n == s@.len(),
            from <= i <= n,
            colon_from(s@, from as int) == colon_from(s@, i as int),
        decreases n - i,
    {
        if s.get_char(i) == ':' {
            return i;
        }
        i = i + 1;
    }
    i
}

/// Splits a listen address `host:port` into its host and port, as
/// `listen_parts` says; an address without a valid port is refused with
/// `Invalid listen address: <address>`.
pub fn parse_listen_address(address: &str) -> (r: Result<(String, u16), ActorError>)
    ensures
        listen_parts(address@) matches Some((h, p)) ==> (r matches Ok((host, port)) && host@ == h
            && port == p),
        listen_parts(address@) is None ==> (r matches Err(ActorError::Other(m)) && m@
            == "Invalid listen address: "@ + address@),
{
    let n = address.unicode_len();
    let c1 = find_colon(address, n, 0);
    if c1 < n {
        let c2 = find_colon(address, n, c1 + 1);
        let port_text = address.substring_char(c1 + 1, c2);
        match parse_u16(port_text) {
            Some(port) => {
                let host = string_of(address.substring_char(0, c1));
                return Ok((host, port));
            },
            None => {},
        }
    }
    proof {
        reveal_strlit("Invalid listen address: ");
    }
    let mut m = string_of("Invalid listen address: ");
    push_str(&mut m, address);
    Err(ActorError::Other(m))
}

} // verus!
