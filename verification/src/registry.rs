use crate::error::ActorError;
use crate::pid::Pid;
use crate::text::string_of;
use dashmap::DashMap;
use vstd::prelude::*;

verus! {

/// What a name table holds: each registered name (as characters) and the
/// process registered under it.
pub uninterp spec fn name_table(m: DashMap<String, Pid>) -> Map<Seq<char>, Pid>;

/// What a reverse table holds: each process and the name recorded for it.
pub uninterp spec fn pid_table(m: DashMap<Pid, String>) -> Map<Pid, Seq<char>>;

/// The trusted call of `DashMap::new` for a name table: an empty map.
#[verifier::external_body]
fn names_new() -> (res: DashMap<String, Pid>)
    ensures
        name_table(res) =~= Map::empty(),
{
    DashMap::new()
}

/// The trusted call of `DashMap::entry` on a name table, inserting on a
/// vacant entry: true and the pair added when the name was absent, false
/// and the map unchanged when it was present.
#[verifier::external_body]
fn names_insert_if_vacant(m: &mut DashMap<String, Pid>, name: String, pid: Pid) -> (res: bool)
    ensures
        res == !name_table(*old(m)).dom().contains(name@),
        res ==> name_table(*final(m)) == name_table(*old(m)).insert(name@, pid),
        !res ==> name_table(*final(m)) == name_table(*old(m)),
{
    match m.entry(name) {
        dashmap::mapref::entry::Entry::Occupied(_) => false,
        dashmap::mapref::entry::Entry::Vacant(e) => {
            e.insert(pid);
            true
        },
    }
}

/// The trusted call of `DashMap::remove` on a name table: the removed
/// process, if the name was present, and the map without the name.
#[verifier::external_body]
fn names_remove(m: &mut DashMap<String, Pid>, name: &str) -> (res: Option<Pid>)
    ensures
        name_table(*final(m)) == name_table(*old(m)).remove(name@),
        res is Some <==> name_table(*old(m)).dom().contains(name@),
        res matches Some(p) ==> p == name_table(*old(m))[name@],
{
    m.remove(name).map(|(_, pid)| pid)
}

/// The trusted call of `DashMap::get` on a name table.
#[verifier::external_body]
fn names_get(m: &DashMap<String, Pid>, name: &str) -> (res: Option<Pid>)
    ensures
        res is Some <==> name_table(*m).dom().contains(name@),
        res matches Some(p) ==> p == name_table(*m)[name@],
{
    m.get(name).map(|entry| *entry.value())
}

/// The trusted call of `DashMap::len` on a name table.
#[verifier::external_body]
fn names_len(m: &DashMap<String, Pid>) -> (res: usize)
    ensures
        res == name_table(*m).len(),
{
    m.len()
}

/// The trusted call of `DashMap::iter` on a name table, each entry mapped to
/// a copy of its key: every registered name once, in no stated order.
#[verifier::external_body]
fn names_keys(m: &DashMap<String, Pid>) -> (res: Vec<String>)
    ensures
        res@.len() == name_table(*m).len(),
        forall|i: int| 0 <= i < res@.len() ==> name_table(*m).dom().contains(#[trigger] res@[i]@),
        forall|i: int, j: int| 0 <= i < j < res@.len() ==> res@[i]@ != res@[j]@,
{
    m.iter().map(|entry| entry.key().clone()).collect()
}

/// The trusted call of `DashMap::new` for a reverse table: an empty map.
#[verifier::external_body]
fn pids_new() -> (res: DashMap<Pid, String>)
    ensures
        pid_table(res) =~= Map::empty(),
{
    DashMap::new()
}

/// The trusted call of `DashMap::insert` on a reverse table: the pair is
/// added, replacing an earlier name for the process.
#[verifier::external_body]
fn pids_insert(m: &mut DashMap<Pid, String>, pid: Pid, name: String)
    ensures
        pid_table(*final(m)) == pid_table(*old(m)).insert(pid, name@),
{
    m.insert(pid, name);
}

/// The trusted call of `DashMap::remove` on a reverse table: the removed
/// name, if the process was present, and the map without the process.
#[verifier::external_body]
fn pids_remove(m: &mut DashMap<Pid, String>, pid: &Pid) -> (res: Option<String>)
    ensures
        pid_table(*final(m)) == pid_table(*old(m)).remove(*pid),
        res is Some <==> pid_table(*old(m)).dom().contains(*pid),
        res matches Some(n) ==> n@ == pid_table(*old(m))[*pid],
{
    m.remove(pid).map(|(_, name)| name)
}

/// The trusted call of `DashMap::get` on a reverse table, copying the name.
#[verifier::external_body]
fn pids_get(m: &DashMap<Pid, String>, pid: &Pid) -> (res: Option<String>)
    ensures
        res is Some <==> pid_table(*m).dom().contains(*pid),
        res matches Some(n) ==> n@ == pid_table(*m)[*pid],
{
    m.get(pid).map(|entry| entry.value().clone())
}

/// A registry of process names: names map to processes (`whereis`), and
/// processes map back to the name they were registered under (`name_of`).
pub struct Registry {
    names: DashMap<String, Pid>,
    pids: DashMap<Pid, String>,
}

impl Registry {
    /// The registered names and their processes.
    pub closed spec fn names(&self) -> Map<Seq<char>, Pid> {
        name_table(self.names)
    }

    /// The name recorded for each process.
    pub closed spec fn pids(&self) -> Map<Pid, Seq<char>> {
        pid_table(self.pids)
    }

    /// The registry's invariant: the two tables agree (a name is registered
    /// to a process exactly when that name is recorded for the process), and
    /// both are finite.
    pub open spec fn wf(&self) -> bool {
        &&& self.names().dom().finite()
        &&& self.pids().dom().finite()
        &&& forall|n: Seq<char>| #[trigger]
            self.names().dom().contains(n) ==> self.pids().dom().contains(self.names()[n])
                && self.pids()[self.names()[n]] == n
        &&& forall|p: Pid| #[trigger]
            self.pids().dom().contains(p) ==> self.names().dom().contains(self.pids()[p])
                && self.names()[self.pids()[p]] == p
    }

    /// The name table after `register(name, pid)` has dropped the process's
    /// earlier, different name.
    pub open spec fn names_without_old_name(&self, name: Seq<char>, pid: Pid) -> Map<Seq<char>, Pid> {
        if self.pids().dom().contains(pid) && self.pids()[pid] != name {
            self.names().remove(self.pids()[pid])
        } else {
            self.names()
        }
    }

    /// An empty registry.
    pub fn new() -> (r: Registry)
        ensures
            r.wf(),
            r.names() == Map::<Seq<char>, Pid>::empty(),
            r.pids() == Map::<Pid, Seq<char>>::empty(),
    {
        Registry { names: names_new(), pids: pids_new() }
    }

    /// Registers `pid` under `name`. An empty name is refused with
    /// `InvalidName`, a taken name with `NameAlreadyRegistered`; then nothing
    /// changes. Otherwise a name the process held before is released, and
    /// the process is registered under `name`.
    pub fn register(&mut self, name: &str, pid: Pid) -> (r: Result<(), ActorError>)
        requires
            old(self).wf(),
        ensures
            final(self).wf(),
            name@.len() == 0 ==> (r matches Err(ActorError::InvalidName(m)) && m@
                == "Name cannot be empty"@ && final(self).names() == old(self).names()
                && final(self).pids() == old(self).pids()),
            name@.len() > 0 && old(self).names().dom().contains(name@) ==> (r matches Err(
                ActorError::NameAlreadyRegistered(n),
            ) && n@ == name@ && final(self).names() == old(self).names() && final(self).pids()
                == old(self).pids()),
            name@.len() > 0 && !old(self).names().dom().contains(name@) ==> (r is Ok
                && final(self).names() == old(self).names_without_old_name(name@, pid).insert(
                name@,
                pid,
            ) && final(self).pids() == old(self).pids().insert(pid, name@)),
    {
        proof {
            reveal_strlit("Name cannot be empty");
        }
        if name.is_empty() {
            return Err(ActorError::InvalidName(string_of("Name cannot be empty")));
        }
        if names_get(&self.names, name).is_some() {
            return Err(ActorError::NameAlreadyRegistered(string_of(name)));
        }
        match pids_get(&self.pids, &pid) {
            Some(old_name) => {
                let _ = names_remove(&mut self.names, old_name.as_str());
            },
            None => {},
        }
        let ghost mid = name_table(self.names);
        assert(mid == old(self).names_without_old_name(name@, pid));
        if names_insert_if_vacant(&mut self.names, string_of(name), pid) {
            pids_insert(&mut self.pids, pid, string_of(name));
            proof {
                let nn = name_table(self.names);
                let pp = pid_table(self.pids);
                assert forall|n: Seq<char>| #[trigger] nn.dom().contains(n) implies pp.dom().contains(
                    nn[n],
                ) && pp[nn[n]] == n by {
                    if n != name@ {
                        assert(old(self).names().dom().contains(n));
                        assert(old(self).names()[n] != pid);
                    }
                }
                assert forall|p: Pid| #[trigger] pp.dom().contains(p) implies nn.dom().contains(
                    pp[p],
                ) && nn[pp[p]] == p by {
                    if p != pid {
                        assert(old(self).pids().dom().contains(p));
                        let q = old(self).pids()[p];
                        assert(old(self).names()[q] == p);
                        assert(q != name@);
                    }
                }
            }
            Ok(())
        } else {
            Err(ActorError::NameAlreadyRegistered(string_of(name)))
        }
    }

    /// Releases `name`, returning the process registered under it, or
    /// `NameNotRegistered` when the name is free.
    pub fn unregister(&mut self, name: &str) -> (r: Result<Pid, ActorError>)
        requires
            old(self).wf(),
        ensures
            final(self).wf(),
            old(self).names().dom().contains(name@) ==> (r == Ok::<Pid, ActorError>(
                old(self).names()[name@],
            ) && final(self).names() == old(self).names().remove(name@) && final(self).pids()
                == old(self).pids().remove(old(self).names()[name@])),
            !old(self).names().dom().contains(name@) ==> (r matches Err(
                ActorError::NameNotRegistered(n),
            ) && n@ == name@ && final(self).names() == old(self).names() && final(self).pids()
                == old(self).pids()),
    {
        match names_remove(&mut self.names, name) {
            Some(pid) => {
                let _ = pids_remove(&mut self.pids, &pid);
                Ok(pid)
            },
            None => Err(ActorError::NameNotRegistered(string_of(name))),
        }
    }

    /// The process registered under `name`, if any.
    pub fn whereis(&self, name: &str) -> (r: Option<Pid>)
        ensures
            r == (if self.names().dom().contains(name@) {
                Some(self.names()[name@])
            } else {
                None
            }),
    {
        names_get(&self.names, name)
    }

    /// Every registered name, each once, in no particular order.
    pub fn registered(&self) -> (r: Vec<String>)
        requires
            self.wf(),
        ensures
            r@.len() == self.names().len(),
            forall|i: int| 0 <= i < r@.len() ==> self.names().dom().contains(#[trigger] r@[i]@),
            forall|n: Seq<char>| #[trigger]
                self.names().dom().contains(n) ==> exists|i: int| 0 <= i < r@.len() && r@[i]@ == n,
            forall|i: int, j: int| 0 <= i < j < r@.len() ==> r@[i]@ != r@[j]@,
    {
        let r = names_keys(&self.names);
        proof {
            assert forall|n: Seq<char>| #[trigger]
                self.names().dom().contains(n) implies exists|i: int|
                0 <= i < r@.len() && r@[i]@ == n by {
                lemma_all_keys_listed(r@, self.names(), n);
            }
        }
        r
    }

    /// The name recorded for `pid`, if any.
    pub fn name_of(&self, pid: Pid) -> (r: Option<String>)
        ensures
            r is Some <==> self.pids().dom().contains(pid),
            r matches Some(n) ==> n@ == self.pids()[pid],
    {
        pids_get(&self.pids, &pid)
    }

    /// The number of registered names.
    pub fn len(&self) -> (r: usize)
        ensures
            r == self.names().len(),
    {
        names_len(&self.names)
    }

    /// True when no name is registered.
    pub fn is_empty(&self) -> (r: bool)
        requires
            self.wf(),
        ensures
            r == (self.names().len() == 0),
    {
        names_len(&self.names) == 0
    }

    /// Releases whatever name is recorded for `pid`, as done when a process
    /// terminates.
    pub fn cleanup_pid(&mut self, pid: Pid)
        requires
            old(self).wf(),
        ensures
            final(self).wf(),
            old(self).pids().dom().contains(pid) ==> final(self).pids() == old(self).pids().remove(pid)
                && final(self).names() == old(self).names().remove(old(self).pids()[pid]),
            !old(self).pids().dom().contains(pid) ==> final(self).pids() == old(self).pids()
                && final(self).names() == old(self).names(),
    {
        match pids_remove(&mut self.pids, &pid) {
            Some(name) => {
                let _ = names_remove(&mut self.names, name.as_str());
            },
            None => {},
        }
    }
}

proof fn lemma_all_keys_listed(r: Seq<String>, m: Map<Seq<char>, Pid>, n: Seq<char>)
    requires
        m.dom().finite(),
        r.len() == m.len(),
        forall|i: int| 0 <= i < r.len() ==> m.dom().contains(#[trigger] r[i]@),
        forall|i: int, j: int| 0 <= i < j < r.len() ==> r[i]@ != r[j]@,
        m.dom().contains(n),
    ensures
        exists|i: int| 0 <= i < r.len() && r[i]@ == n,
{
    let listed = r.map_values(|s: String| s@);
    assert forall|i: int, j: int| 0 <= i < j < listed.len() implies listed[i] != listed[j] by {}
    listed.unique_seq_to_set();
    let set = listed.to_set();
    assert(set.subset_of(m.dom())) by {
        assert forall|k: Seq<char>| set.contains(k) implies m.dom().contains(k) by {
            let i = choose|i: int| 0 <= i < listed.len() && listed[i] == k;
        }
    }
    if !set.contains(n) {
        assert(set.subset_of(m.dom().remove(n)));
        vstd::set_lib::lemma_len_subset(set, m.dom().remove(n));
        assert(false);
    }
    let i = choose|i: int| 0 <= i < listed.len() && listed[i] == n;
    assert(r[i]@ == n);
}

/// Laws of the registry.
///
/// A registered name resolves back: if `whereis(name)` gives a process, then
/// `name_of` of that process gives the name.
pub proof fn lemma_registered_name_resolves_back(reg: &Registry, name: Seq<char>)
    requires
        reg.wf(),
        reg.names().dom().contains(name),
    ensures
        reg.pids().dom().contains(reg.names()[name]),
        reg.pids()[reg.names()[name]] == name,
{
}

/// The tables agree both ways: the name recorded for a process is
/// registered to that process.
pub proof fn lemma_recorded_name_resolves(reg: &Registry, pid: Pid)
    requires
        reg.wf(),
        reg.pids().dom().contains(pid),
    ensures
        reg.names().dom().contains(reg.pids()[pid]),
        reg.names()[reg.pids()[pid]] == pid,
{
}

/// No process is registered under two names.
pub proof fn lemma_names_are_injective(reg: &Registry, a: Seq<char>, b: Seq<char>)
    requires
        reg.wf(),
        reg.names().dom().contains(a),
        reg.names().dom().contains(b),
        reg.names()[a] == reg.names()[b],
    ensures
        a == b,
{
}

} // verus!
