use crate::pid::{pid_text, Pid};
use crate::text::{decimal, push_decimal, push_str, string_of};
use vstd::prelude::*;

verus! {

/// Errors of actor operations.
#[derive(Debug, Clone)]
pub enum ActorError {
    /// No actor with this identifier exists (or it terminated).
    ActorNotFound(Pid),
    /// A message could not be delivered.
    SendFailed(Pid),
    /// The mailbox is full.
    MailboxFull(Pid),
    /// The actor has already been stopped.
    ActorStopped(Pid),
    /// Actor initialization failed.
    InitFailed(String),
    /// The actor panicked.
    ActorPanicked(Pid, String),
    /// A supervisor error.
    SupervisorError(String),
    /// A link or monitor operation failed.
    LinkError(String),
    /// Waiting for a response timed out.
    Timeout,
    /// The name is already registered to another process.
    NameAlreadyRegistered(String),
    /// The name is not registered.
    NameNotRegistered(String),
    /// The process name is invalid.
    InvalidName(String),
    /// The timer was not found or already cancelled.
    TimerNotFound(u64),
    /// Any other error.
    Other(String),
}

/// The text form of an actor error.
pub open spec fn actor_error_text(e: ActorError) -> Seq<char> {
    match e {
        ActorError::ActorNotFound(p) => "Actor "@ + pid_text(p) + " not found"@,
        ActorError::SendFailed(p) => "Failed to send message to "@ + pid_text(p),
        ActorError::MailboxFull(p) => "Mailbox full for actor "@ + pid_text(p),
        ActorError::ActorStopped(p) => "Actor "@ + pid_text(p) + " already stopped"@,
        ActorError::InitFailed(m) => "Actor initialization failed: "@ + m@,
        ActorError::ActorPanicked(p, m) => "Actor "@ + pid_text(p) + " panicked: "@ + m@,
        ActorError::SupervisorError(m) => "Supervisor error: "@ + m@,
        ActorError::LinkError(m) => "Link/monitor operation failed: "@ + m@,
        ActorError::Timeout => "Operation timed out"@,
        ActorError::NameAlreadyRegistered(n) => "Name '"@ + n@ + "' is already registered"@,
        ActorError::NameNotRegistered(n) => "Name '"@ + n@ + "' is not registered"@,
        ActorError::InvalidName(m) => "Invalid name: "@ + m@,
        ActorError::TimerNotFound(t) => "Timer "@ + decimal(t as nat) + " not found"@,
        ActorError::Other(m) => "Actor error: "@ + m@,
    }
}

fn push_pid(s: &mut String, p: &Pid)
    ensures
        final(s)@ == old(s)@ + pid_text(*p),
{
    let t = p.to_string();
    push_str(s, t.as_str());
}

impl ActorError {
    /// A generic error carrying the given message.
    pub fn other(msg: &str) -> (r: ActorError)
        ensures
            r matches ActorError::Other(m) && m@ == msg@,
    {
        ActorError::Other(string_of(msg))
    }

    /// The text form of the error, e.g. `Actor <0.7.0> not found` or
    /// `Operation timed out`.
    pub fn to_string(&self) -> (r: String)
        ensures
            r@ == actor_error_text(*self),
    {
        match self {
            ActorError::ActorNotFound(p) => {
                let mut s = string_of("Actor ");
                push_pid(&mut s, p);
                push_str(&mut s, " not found");
                s
            },
            ActorError::SendFailed(p) => {
                let mut s = string_of("Failed to send message to ");
                push_pid(&mut s, p);
                s
            },
            ActorError::MailboxFull(p) => {
                let mut s = string_of("Mailbox full for actor ");
                push_pid(&mut s, p);
                s
            },
            ActorError::ActorStopped(p) => {
                let mut s = string_of("Actor ");
                push_pid(&mut s, p);
                push_str(&mut s, " already stopped");
                s
            },
            ActorError::InitFailed(m) => {
                let mut s = string_of("Actor initialization failed: ");
                push_str(&mut s, m.as_str());
                s
            },
            ActorError::ActorPanicked(p, m) => {
                let mut s = string_of("Actor ");
                push_pid(&mut s, p);
                push_str(&mut s, " panicked: ");
                push_str(&mut s, m.as_str());
                s
            },
            ActorError::SupervisorError(m) => {
                let mut s = string_of("Supervisor error: ");
                push_str(&mut s, m.as_str());
                s
            },
            ActorError::LinkError(m) => {
                let mut s = string_of("Link/monitor operation failed: ");
                push_str(&mut s, m.as_str());
                s
            },
            ActorError::Timeout => string_of("Operation timed out"),
            ActorError::NameAlreadyRegistered(n) => {
                let mut s = string_of("Name '");
                push_str(&mut s, n.as_str());
                push_str(&mut s, "' is already registered");
                s
            },
            ActorError::NameNotRegistered(n) => {
                let mut s = string_of("Name '");
                push_str(&mut s, n.as_str());
                push_str(&mut s, "' is not registered");
                s
            },
            ActorError::InvalidName(m) => {
                let mut s = string_of("Invalid name: ");
                push_str(&mut s, m.as_str());
                s
            },
            ActorError::TimerNotFound(t) => {
                let mut s = string_of("Timer ");
                push_decimal(&mut s, *t);
                push_str(&mut s, " not found");
                s
            },
            ActorError::Other(m) => {
                let mut s = string_of("Actor error: ");
                push_str(&mut s, m.as_str());
                s
            },
        }
    }
}

} // verus!
