use crate::message::{ExitReason, MonitorRef, Signal};
use crate::pid::Pid;
use vstd::prelude::*;

verus! {

/// The per-actor context: the actor's identity, whether it traps exits,
/// and whether (and why) it asked to stop. `R` is whatever the runtime
/// attaches to the context (its mailbox and a handle on the system).
pub struct ActorContext<R> {
    pid: Pid,
    runtime: R,
    trap_exit: bool,
    should_stop: bool,
    stop_reason: Option<ExitReason>,
}

impl<R> ActorContext<R> {
    /// The actor's identifier.
    pub closed spec fn pid_view(&self) -> Pid {
        self.pid
    }

    /// Whether exit signals are trapped.
    pub closed spec fn trapping(&self) -> bool {
        self.trap_exit
    }

    /// Whether the actor asked to stop.
    pub closed spec fn stopping(&self) -> bool {
        self.should_stop
    }

    /// The reason recorded with the last stop request.
    pub closed spec fn reason_view(&self) -> Option<ExitReason> {
        self.stop_reason
    }

    /// What the runtime attached.
    pub closed spec fn runtime_view(&self) -> R {
        self.runtime
    }

    /// A fresh context: not trapping exits, not stopping.
    pub fn new(pid: Pid, runtime: R) -> (r: ActorContext<R>)
        ensures
            r.pid_view() == pid,
            r.runtime_view() == runtime,
            !r.trapping(),
            !r.stopping(),
            r.reason_view() is None,
    {
        ActorContext { pid, runtime, trap_exit: false, should_stop: false, stop_reason: None }
    }

    /// The actor's identifier.
    pub fn pid(&self) -> (r: Pid)
        ensures
            r == self.pid_view(),
    {
        self.pid
    }

    /// True when exit signals from linked actors are delivered as signals
    /// instead of stopping the actor.
    pub fn is_trapping_exits(&self) -> (r: bool)
        ensures
            r == self.trapping(),
    {
        self.trap_exit
    }

    /// Sets whether exit signals are trapped.
    pub fn trap_exit(&mut self, trap: bool)
        ensures
            final(self).trapping() == trap,
            final(self).pid_view() == old(self).pid_view(),
            final(self).runtime_view() == old(self).runtime_view(),
            final(self).stopping() == old(self).stopping(),
            final(self).reason_view() == old(self).reason_view(),
    {
        self.trap_exit = trap;
    }

    /// Asks the actor to stop with `reason` once the current message or
    /// signal is handled.
    pub fn stop(&mut self, reason: ExitReason)
        ensures
            final(self).stopping(),
            final(self).reason_view() == Some(reason),
            final(self).pid_view() == old(self).pid_view(),
            final(self).runtime_view() == old(self).runtime_view(),
            final(self).trapping() == old(self).trapping(),
    {
        self.should_stop = true;
        self.stop_reason = Some(reason);
    }

    /// True once a stop was requested.
    pub fn should_stop(&self) -> (r: bool)
        ensures
            r == self.stopping(),
    {
        self.should_stop
    }

    /// The reason of the last stop request, if any.
    pub fn stop_reason(&self) -> (r: Option<&ExitReason>)
        ensures
            r is Some == self.reason_view() is Some,
            r matches Some(x) ==> *x == self.reason_view()->0,
    {
        self.stop_reason.as_ref()
    }

    /// How the actor ends after the message or signal just handled: `None`
    /// while it keeps running; once it asked to stop, the recorded reason,
    /// or `Normal` when none was recorded.
    pub fn exit_reason_after_step(&self) -> (r: Option<ExitReason>)
        ensures
            !self.stopping() ==> r is None,
            self.stopping() ==> r == Some(
                match self.reason_view() {
                    Some(reason) => reason,
                    None => ExitReason::Normal,
                },
            ),
    {
        if !self.should_stop {
            return None;
        }
        match &self.stop_reason {
            Some(reason) => Some(reason.duplicate()),
            None => Some(ExitReason::Normal),
        }
    }

    /// What the runtime attached.
    pub fn runtime(&self) -> (r: &R)
        ensures
            *r == self.runtime_view(),
    {
        &self.runtime
    }

    /// What the runtime attached, for the runtime to use.
    pub fn runtime_mut(&mut self) -> (r: &mut R)
        ensures
            *r == old(self).runtime_view(),
            final(self).runtime_view() == *final(r),
            final(self).pid_view() == old(self).pid_view(),
            final(self).trapping() == old(self).trapping(),
            final(self).stopping() == old(self).stopping(),
            final(self).reason_view() == old(self).reason_view(),
    {
        &mut self.runtime
    }
}

/// Whether the default signal handling stops an actor, and with which
/// reason: an exit signal stops it with the sender's reason unless that
/// reason is normal, or the actor traps exits and the reason can be
/// trapped (`Killed` cannot); `Stop` stops it normally, `Kill` with
/// `Killed`; a `Down` signal never stops it.
pub open spec fn default_stop(signal: Signal, trapping: bool) -> Option<ExitReason> {
    match signal {
        Signal::Exit { from, reason } => if !(reason is Normal) && (!trapping || reason is Killed) {
            Some(reason)
        } else {
            None
        },
        Signal::Down { .. } => None,
        Signal::Stop => Some(ExitReason::Normal),
        Signal::Kill => Some(ExitReason::Killed),
    }
}

/// The default reaction of an actor to a system signal, used by actors that
/// do not handle signals themselves: stops the actor as `default_stop`
/// says and leaves the context as it was otherwise.
pub fn handle_signal_default<R>(ctx: &mut ActorContext<R>, signal: Signal)
    ensures
        final(ctx).pid_view() == old(ctx).pid_view(),
        final(ctx).runtime_view() == old(ctx).runtime_view(),
        final(ctx).trapping() == old(ctx).trapping(),
        match default_stop(signal, old(ctx).trapping()) {
            Some(reason) => final(ctx).stopping() && final(ctx).reason_view() == Some(reason),
            None => final(ctx).stopping() == old(ctx).stopping() && final(ctx).reason_view()
                == old(ctx).reason_view(),
        },
{
    match signal {
        Signal::Exit { from, reason } => {
            if !reason.is_normal() && (!ctx.is_trapping_exits() || !reason.is_trappable()) {
                ctx.stop(reason);
            }
        },
        Signal::Down { .. } => {},
        Signal::Stop => ctx.stop(ExitReason::Normal),
        Signal::Kill => ctx.stop(ExitReason::Killed),
    }
}

/// A trapping actor survives every exit signal whose reason can be trapped:
/// the default handling never stops it for one.
pub proof fn lemma_trapped_exit_keeps_running(from: Pid, reason: ExitReason)
    requires
        !(reason is Killed),
    ensures
        default_stop(Signal::Exit { from, reason }, true) is None,
{
}

/// A normal exit of a linked actor never stops an actor, trapping or not.
pub proof fn lemma_normal_exit_never_stops(from: Pid, trapping: bool)
    ensures
        default_stop(Signal::Exit { from, reason: ExitReason::Normal }, trapping) is None,
{
}

/// An exit signal that stops an actor stops it with the signal's own
/// reason; an actor not trapping exits is stopped by every abnormal exit
/// signal, and a trapping one only by `Killed`.
pub proof fn lemma_exit_signal_passes_its_reason(from: Pid, reason: ExitReason, trapping: bool)
    ensures
        default_stop(Signal::Exit { from, reason }, trapping) is Some ==> default_stop(
            Signal::Exit { from, reason },
            trapping,
        ) == Some(reason),
        !trapping && !(reason is Normal) ==> default_stop(Signal::Exit { from, reason }, trapping)
            == Some(reason),
        trapping && reason is Killed ==> default_stop(Signal::Exit { from, reason }, trapping) == Some(
            reason,
        ),
{
}

/// `Stop` ends an actor normally and `Kill` ends it as killed, trapping or
/// not; a `Down` notice never ends it.
pub proof fn lemma_stop_and_kill(trapping: bool, reference: MonitorRef, pid: Pid, reason: ExitReason)
    ensures
        default_stop(Signal::Stop, trapping) == Some(ExitReason::Normal),
        default_stop(Signal::Kill, trapping) == Some(ExitReason::Killed),
        default_stop(Signal::Down { reference, pid, reason }, trapping) is None,
{
}

} // verus!
