use crate::error::ActorError;
use crate::pid::{pid_text, Pid};
use crate::registry::Registry;
use crate::text::{decimal, push_decimal, push_str, string_of};
use dashmap::DashMap;
use tokio_util::sync::CancellationToken;
use vstd::prelude::*;

verus! {

/// Where a scheduled message goes: a process, or a registered name that is
/// resolved when the message is delivered.
#[derive(Debug, Clone, PartialEq, Eq)]
pub enum Destination {
    /// A specific process.
    Pid(Pid),
    /// A registered name.
    Name(String),
}

/// The text form of a destination: the process's text form, or the name.
pub open spec fn destination_text(d: Destination) -> Seq<char> {
    match d {
        Destination::Pid(p) => pid_text(p),
        Destination::Name(n) => n@,
    }
}

impl Destination {
    /// The destination named `name`.
    pub fn name(name: &str) -> (r: Destination)
        ensures
            r matches Destination::Name(n) && n@ == name@,
    {
        Destination::Name(string_of(name))
    }

    /// The text form: the process identifier or the name.
    pub fn to_string(&self) -> (r: String)
        ensures
            r@ == destination_text(*self),
    {
        match self {
            Destination::Pid(p) => p.to_string(),
            Destination::Name(n) => string_of(n.as_str()),
        }
    }

    /// The process a scheduled message goes to when it is delivered: the
    /// process itself, or the one registered under the name at that time;
    /// `NameNotRegistered` when the name is not registered.
    pub fn resolve(&self, registry: &Registry) -> (r: Result<Pid, ActorError>)
        ensures
            *self matches Destination::Pid(p) ==> r == Ok::<Pid, ActorError>(p),
            *self matches Destination::Name(n) ==> if registry.names().dom().contains(n@) {
                r == Ok::<Pid, ActorError>(registry.names()[n@])
            } else {
                r matches Err(ActorError::NameNotRegistered(m)) && m@ == n@
            },
    {
        match self {
            Destination::Pid(p) => Ok(*p),
            Destination::Name(n) => match registry.whereis(n.as_str()) {
                Some(p) => Ok(p),
                None => Err(ActorError::NameNotRegistered(string_of(n.as_str()))),
            },
        }
    }
}

impl From<Pid> for Destination {
    fn from(pid: Pid) -> (r: Destination) {
        Destination::Pid(pid)
    }
}

impl vstd::std_specs::convert::FromSpecImpl<Pid> for Destination {
    open spec fn obeys_from_spec() -> bool {
        true
    }

    open spec fn from_spec(v: Pid) -> Destination {
        Destination::Pid(v)
    }
}

impl From<String> for Destination {
    fn from(name: String) -> (r: Destination) {
        Destination::Name(name)
    }
}

impl vstd::std_specs::convert::FromSpecImpl<String> for Destination {
    open spec fn obeys_from_spec() -> bool {
        true
    }

    open spec fn from_spec(v: String) -> Destination {
        Destination::Name(v)
    }
}

impl<'a> From<&'a str> for Destination {
    fn from(name: &'a str) -> (r: Destination) {
        Destination::Name(string_of(name))
    }
}

impl<'a> vstd::std_specs::convert::FromSpecImpl<&'a str> for Destination {
    /// A fresh `String` has no spec value to equal, so this conversion is
    /// stated by `Destination::name` instead.
    open spec fn obeys_from_spec() -> bool {
        false
    }

    open spec fn from_spec(v: &'a str) -> Destination {
        arbitrary()
    }
}

/// Reference to a scheduled timer, used to cancel it.
#[derive(Debug, Clone, Copy, PartialEq, Eq, Hash, Structural)]
pub struct TimerRef(pub u64);

/// The text form of a timer reference: `#TimerRef<id>`.
pub open spec fn timer_ref_text(r: TimerRef) -> Seq<char> {
    "#TimerRef<"@ + decimal(r.0 as nat) + ">"@
}

impl TimerRef {
    /// The timer reference with the given number.
    pub fn new(id: u64) -> (r: TimerRef)
        ensures
            r.0 == id,
    {
        TimerRef(id)
    }

    /// The number of this reference.
    pub fn id(&self) -> (r: u64)
        ensures
            r == self.0,
    {
        self.0
    }

    /// The text form `#TimerRef<id>`.
    pub fn to_string(&self) -> (r: String)
        ensures
            r@ == timer_ref_text(*self),
    {
        let mut s = string_of("#TimerRef<");
        push_decimal(&mut s, self.0);
        push_str(&mut s, ">");
        s
    }
}

#[verifier::external_type_specification]
#[verifier::external_body]
pub struct ExCancellationToken(CancellationToken);

/// The timers a timer table holds.
pub uninterp spec fn active_timers(m: DashMap<TimerRef, CancellationToken>) -> Set<TimerRef>;

/// The trusted call of `DashMap::new` for a timer table: no timers.
#[verifier::external_body]
fn timers_new() -> (res: DashMap<TimerRef, CancellationToken>)
    ensures
        active_timers(res) =~= Set::empty(),
{
    DashMap::new()
}

/// The trusted call of `DashMap::insert` on a timer table: the timer is
/// added (with the given token; tokens are not described).
#[verifier::external_body]
fn timers_insert(m: &mut DashMap<TimerRef, CancellationToken>, r: TimerRef, token: CancellationToken)
    ensures
        active_timers(*final(m)) == active_timers(*old(m)).insert(r),
{
    m.insert(r, token);
}

/// The trusted call of `DashMap::remove` on a timer table: the token of the
/// removed timer when it was present, and the table without it.
#[verifier::external_body]
fn timers_remove(m: &mut DashMap<TimerRef, CancellationToken>, r: &TimerRef) -> (res: Option<
    CancellationToken,
>)
    ensures
        active_timers(*final(m)) == active_timers(*old(m)).remove(*r),
        res is Some <==> active_timers(*old(m)).contains(*r),
{
    m.remove(r).map(|(_, token)| token)
}

/// The trusted call of `DashMap::len` on a timer table.
#[verifier::external_body]
fn timers_len(m: &DashMap<TimerRef, CancellationToken>) -> (res: usize)
    ensures
        res == active_timers(*m).len(),
{
    m.len()
}

/// The trusted call of `CancellationToken::new`. Nothing is stated of the
/// token.
#[verifier::external_body]
fn token_new() -> CancellationToken {
    CancellationToken::new()
}

/// The trusted call of `CancellationToken::clone`: a handle to the same
/// token (not stated: tokens are opaque here).
#[verifier::external_body]
fn token_clone(t: &CancellationToken) -> CancellationToken {
    t.clone()
}

/// The trusted call of `CancellationToken::cancel`, which signals every
/// handle of the token. Its effect on the waiting delivery is not stated.
#[verifier::external_body]
fn token_cancel(t: &CancellationToken) {
    t.cancel()
}

/// The table of scheduled timers and the numbering of new ones.
pub struct Scheduler {
    timers: DashMap<TimerRef, CancellationToken>,
    next_timer_id: u64,
}

impl Scheduler {
    /// The timers that have neither fired nor been cancelled.
    pub closed spec fn active(&self) -> Set<TimerRef> {
        active_timers(self.timers)
    }

    /// The number the next timer gets.
    pub closed spec fn next_id(&self) -> u64 {
        self.next_timer_id
    }

    /// Every active timer has a number below the next one.
    pub open spec fn wf(&self) -> bool {
        &&& self.active().finite()
        &&& forall|r: TimerRef| #[trigger] self.active().contains(r) ==> r.0 < self.next_id()
        &&& self.next_id() >= 1
    }

    /// A scheduler with no timers, numbering from 1.
    pub fn new() -> (r: Scheduler)
        ensures
            r.wf(),
            r.active() == Set::<TimerRef>::empty(),
            r.next_id() == 1,
    {
        Scheduler { timers: timers_new(), next_timer_id: 1 }
    }

    /// Starts a timer: it gets the next number and becomes active. The
    /// returned token is the one `cancel_timer` cancels; the caller waits on
    /// it while the delay runs.
    pub fn start_timer(&mut self) -> (r: (TimerRef, CancellationToken))
        requires
            old(self).wf(),
            old(self).next_id() < u64::MAX,
        ensures
            final(self).wf(),
            r.0.0 == old(self).next_id(),
            !old(self).active().contains(r.0),
            final(self).active() == old(self).active().insert(r.0),
            final(self).next_id() == old(self).next_id() + 1,
    {
        let timer_ref = TimerRef::new(self.next_timer_id);
        self.next_timer_id = self.next_timer_id + 1;
        let token = token_new();
        timers_insert(&mut self.timers, timer_ref, token_clone(&token));
        (timer_ref, token)
    }

    /// Ends a timer whose delay has run out, and says whether its message is
    /// due: `true` exactly when the timer was still active (neither
    /// cancelled nor finished before). The timer is no longer active after.
    pub fn timer_finished(&mut self, timer_ref: TimerRef) -> (r: bool)
        requires
            old(self).wf(),
        ensures
            final(self).wf(),
            r == old(self).active().contains(timer_ref),
            final(self).active() == old(self).active().remove(timer_ref),
            final(self).next_id() == old(self).next_id(),
    {
        timers_remove(&mut self.timers, &timer_ref).is_some()
    }

    /// Cancels a timer: `Ok(true)` when it was active (it is then no longer
    /// active and its token is cancelled), `Ok(false)` when it had already
    /// fired or been cancelled.
    pub fn cancel_timer(&mut self, timer_ref: TimerRef) -> (r: Result<bool, ActorError>)
        requires
            old(self).wf(),
        ensures
            final(self).wf(),
            r matches Ok(b) && b == old(self).active().contains(timer_ref),
            final(self).active() == old(self).active().remove(timer_ref),
            final(self).next_id() == old(self).next_id(),
    {
        match timers_remove(&mut self.timers, &timer_ref) {
            Some(token) => {
                token_cancel(&token);
                Ok(true)
            },
            None => Ok(false),
        }
    }

    /// The number the next timer gets.
    pub fn next_timer_number(&self) -> (r: u64)
        ensures
            r == self.next_id(),
    {
        self.next_timer_id
    }

    /// The number of active timers.
    pub fn active_timer_count(&self) -> (r: usize)
        ensures
            r == self.active().len(),
    {
        timers_len(&self.timers)
    }
}

/// Cancelling a timer twice: the second cancel reports that nothing was
/// cancelled. Stated over the active sets before and after the first cancel.
pub proof fn lemma_cancel_is_idempotent(before: Set<TimerRef>, r: TimerRef)
    ensures
        !before.remove(r).contains(r),
        before.remove(r).remove(r) == before.remove(r),
{
    assert(before.remove(r).remove(r) =~= before.remove(r));
}

/// What cancelling answers, over a scheduler `s` in which `start_timer`
/// hands out `r` (the next number): the first cancel of `r` finds it active
/// and gives `Ok(true)`; after it `r` is no longer active, so a second
/// cancel gives `Ok(false)`; that cancel leaves the active timers as they
/// were before the start; and a number not yet handed out is never active,
/// so cancelling it gives `Ok(false)`.
pub proof fn lemma_cancel_answers(s: Scheduler, r: TimerRef)
    requires
        s.wf(),
        r.0 == s.next_id(),
    ensures
        s.active().insert(r).contains(r),
        !s.active().insert(r).remove(r).contains(r),
        s.active().insert(r).remove(r) == s.active(),
        forall|n: TimerRef| n.0 >= s.next_id() ==> !#[trigger] s.active().contains(n),
{
    assert(!s.active().contains(r));
    assert(s.active().insert(r).remove(r) =~= s.active());
}

/// A cancelled timer is never delivered, and a timer is delivered at most
/// once. Over a scheduler `s`: after `cancel_timer(r)` the active timers are
/// `s.active().remove(r)`, where `timer_finished(r)` (asked before any
/// delivery) answers false; likewise after a first `timer_finished(r)`,
/// whatever it answered, a second answers false.
pub proof fn lemma_cancelled_timer_never_delivered(s: Scheduler, r: TimerRef)
    requires
        s.wf(),
    ensures
        !s.active().remove(r).contains(r),
        s.active().remove(r).remove(r) == s.active().remove(r),
{
    assert(s.active().remove(r).remove(r) =~= s.active().remove(r));
}

} // verus!
