use crate::pid::Pid;
use crate::text::{push_decimal, push_str, string_of, decimal};
use vstd::prelude::*;

verus! {

/// Reason for an actor's termination.
#[derive(Debug, Clone, PartialEq, Eq)]
pub enum ExitReason {
    /// Normal termination.
    Normal,
    /// The actor was killed explicitly.
    Killed,
    /// The actor panicked with the given message.
    Panic(String),
    /// Termination because the supervisor shut down.
    Shutdown,
    /// A custom reason.
    Custom(String),
}

/// The text form of an exit reason.
pub open spec fn exit_reason_text(r: ExitReason) -> Seq<char> {
    match r {
        ExitReason::Normal => "normal"@,
        ExitReason::Killed => "killed"@,
        ExitReason::Panic(m) => "panic: "@ + m@,
        ExitReason::Shutdown => "shutdown"@,
        ExitReason::Custom(m) => m@,
    }
}

impl ExitReason {
    /// True exactly for a normal exit; normal exits are not restarted by
    /// supervisors.
    pub fn is_normal(&self) -> (r: bool)
        ensures
            r == (*self is Normal),
    {
        match self {
            ExitReason::Normal => true,
            _ => false,
        }
    }

    /// True unless the reason is `Killed`, which cannot be trapped.
    pub fn is_trappable(&self) -> (r: bool)
        ensures
            r == !(*self is Killed),
    {
        match self {
            ExitReason::Killed => false,
            _ => true,
        }
    }

    /// The text form: `normal`, `killed`, `panic: <msg>`, `shutdown`, or the
    /// custom message itself.
    pub fn to_string(&self) -> (r: String)
        ensures
            r@ == exit_reason_text(*self),
    {
        match self {
            ExitReason::Normal => string_of("normal"),
            ExitReason::Killed => string_of("killed"),
            ExitReason::Panic(m) => {
                let mut s = string_of("panic: ");
                push_str(&mut s, m.as_str());
                s
            },
            ExitReason::Shutdown => string_of("shutdown"),
            ExitReason::Custom(m) => string_of(m.as_str()),
        }
    }

    /// A copy of this reason with the same variant and text.
    pub fn duplicate(&self) -> (r: ExitReason)
        ensures
            r == *self,
    {
        match self {
            ExitReason::Normal => ExitReason::Normal,
            ExitReason::Killed => ExitReason::Killed,
            ExitReason::Panic(m) => ExitReason::Panic(m.clone()),
            ExitReason::Shutdown => ExitReason::Shutdown,
            ExitReason::Custom(m) => ExitReason::Custom(m.clone()),
        }
    }
}

/// Every reason that is normal can also be trapped; only `Killed` cannot.
pub proof fn lemma_normal_exit_is_trappable(r: ExitReason)
    ensures
        (r is Normal) ==> !(r is Killed),
        !(r is Killed) <==> (r matches ExitReason::Normal || r matches ExitReason::Panic(_)
            || r matches ExitReason::Shutdown || r matches ExitReason::Custom(_)),
{
}

/// Reference to a monitor relationship, carried in `Down` signals.
#[derive(Debug, Clone, Copy, PartialEq, Eq, Hash, Structural)]
pub struct MonitorRef(pub u64);

/// The text form of a monitor reference: `#Ref<id>`.
pub open spec fn monitor_ref_text(r: MonitorRef) -> Seq<char> {
    "#Ref<"@ + decimal(r.0 as nat) + ">"@
}

impl MonitorRef {
    /// A monitor reference with the given number.
    pub fn new(id: u64) -> (r: MonitorRef)
        ensures
            r.0 == id,
    {
        MonitorRef(id)
    }

    /// The number of this reference.
    pub fn id(&self) -> (r: u64)
        ensures
            r == self.0,
    {
        self.0
    }

    /// The text form `#Ref<id>`.
    pub fn to_string(&self) -> (r: String)
        ensures
            r@ == monitor_ref_text(*self),
    {
        let mut s = string_of("#Ref<");
        push_decimal(&mut s, self.0);
        push_str(&mut s, ">");
        s
    }
}

/// System signals exchanged between actors.
#[derive(Debug, Clone)]
pub enum Signal {
    /// Sent to linked actors when an actor terminates.
    Exit { from: Pid, reason: ExitReason },
    /// Sent to monitoring actors when a monitored actor terminates.
    Down { reference: MonitorRef, pid: Pid, reason: ExitReason },
    /// Request to terminate gracefully.
    Stop,
    /// Request to terminate a linked actor.
    Kill,
}

/// What travels through a mailbox: a user message of type `M`, or a signal.
#[derive(Debug)]
pub enum Envelope<M> {
    /// A user message.
    Message(M),
    /// A system signal.
    Signal(Signal),
}

impl<M> Envelope<M> {
    /// Wraps a user message.
    pub fn message(msg: M) -> (r: Envelope<M>)
        ensures
            r == Envelope::<M>::Message(msg),
    {
        Envelope::Message(msg)
    }

    /// Wraps a system signal.
    pub fn signal(signal: Signal) -> (r: Envelope<M>)
        ensures
            r == Envelope::<M>::Signal(signal),
    {
        Envelope::Signal(signal)
    }
}

impl ExitReason {
    /// The label of the reason's kind: `normal`, `shutdown`, `killed`,
    /// `panic` or `custom`.
    pub fn label(&self) -> (r: &'static str)
        ensures
            r@ == exit_reason_label(*self),
    {
        match self {
            ExitReason::Normal => "normal",
            ExitReason::Shutdown => "shutdown",
            ExitReason::Killed => "killed",
            ExitReason::Panic(_) => "panic",
            ExitReason::Custom(_) => "custom",
        }
    }
}

/// The label of an exit reason's kind.
pub open spec fn exit_reason_label(r: ExitReason) -> Seq<char> {
    match r {
        ExitReason::Normal => "normal"@,
        ExitReason::Shutdown => "shutdown"@,
        ExitReason::Killed => "killed"@,
        ExitReason::Panic(_) => "panic"@,
        ExitReason::Custom(_) => "custom"@,
    }
}

/// The label of a signal's kind.
pub open spec fn signal_label(s: Signal) -> Seq<char> {
    match s {
        Signal::Exit { .. } => "exit"@,
        Signal::Down { .. } => "down"@,
        Signal::Stop => "stop"@,
        Signal::Kill => "kill"@,
    }
}

impl Signal {
    /// The label of the signal's kind: `exit`, `down`, `stop` or `kill`.
    pub fn label(&self) -> (r: &'static str)
        ensures
            r@ == signal_label(*self),
    {
        match self {
            Signal::Exit { .. } => "exit",
            Signal::Down { .. } => "down",
            Signal::Stop => "stop",
            Signal::Kill => "kill",
        }
    }

    /// Whether an actor that traps exits (`trapping`) receives this signal
    /// as trapped: an exit signal whose reason can be trapped.
    pub fn is_trapped_by(&self, trapping: bool) -> (r: bool)
        ensures
            r == (trapping && (*self matches Signal::Exit { reason, .. } && !(reason is Killed))),
    {
        match self {
            Signal::Exit { reason, .. } => trapping && reason.is_trappable(),
            _ => false,
        }
    }
}

} // verus!
