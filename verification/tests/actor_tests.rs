use joerl::actor::{handle_signal_default, ActorContext};
use joerl::message::{ExitReason, MonitorRef, Signal};
use joerl::pid::Pid;

fn context() -> ActorContext<()> {
    ActorContext::new(Pid::with_node(0, 1), ())
}

#[test]
fn test_actor_context_pid() {
    let pid = Pid::with_node(0, 1);
    let ctx = ActorContext::new(pid, ());
    assert_eq!(ctx.pid(), pid);
}

#[test]
fn test_actor_context_trap_exit() {
    let mut ctx = context();
    assert!(!ctx.is_trapping_exits());
    ctx.trap_exit(true);
    assert!(ctx.is_trapping_exits());
}

#[test]
fn test_actor_context_stop() {
    let mut ctx = context();
    assert!(!ctx.should_stop());
    ctx.stop(ExitReason::Normal);
    assert!(ctx.should_stop());
    assert_eq!(ctx.stop_reason(), Some(&ExitReason::Normal));
}

#[test]
fn test_actor_handle_exit_signal() {
    let mut ctx = context();
    let signal = Signal::Exit {
        from: Pid::with_node(0, 2),
        reason: ExitReason::Panic("error".to_string()),
    };
    handle_signal_default(&mut ctx, signal);
    assert!(ctx.should_stop());
}

#[test]
fn test_actor_trap_exit_signal() {
    let mut ctx = context();
    ctx.trap_exit(true);
    let signal = Signal::Exit {
        from: Pid::with_node(0, 2),
        reason: ExitReason::Panic("error".to_string()),
    };
    handle_signal_default(&mut ctx, signal);
    assert!(!ctx.should_stop());
}

#[test]
fn test_actor_stop_signal() {
    let mut ctx = context();
    handle_signal_default(&mut ctx, Signal::Stop);
    assert!(ctx.should_stop());
    assert_eq!(ctx.stop_reason(), Some(&ExitReason::Normal));
}

#[test]
fn test_actor_kill_signal() {
    let mut ctx = context();
    handle_signal_default(&mut ctx, Signal::Kill);
    assert!(ctx.should_stop());
    assert_eq!(ctx.stop_reason(), Some(&ExitReason::Killed));
}

#[test]
fn normal_exits_and_down_signals_never_stop() {
    let mut ctx = context();
    handle_signal_default(
        &mut ctx,
        Signal::Exit { from: Pid::with_node(0, 2), reason: ExitReason::Normal },
    );
    handle_signal_default(
        &mut ctx,
        Signal::Down {
            reference: MonitorRef::new(1),
            pid: Pid::with_node(0, 2),
            reason: ExitReason::Killed,
        },
    );
    assert!(!ctx.should_stop());
    assert_eq!(ctx.stop_reason(), None);
}

#[test]
fn killed_exit_cannot_be_trapped() {
    let mut ctx = context();
    ctx.trap_exit(true);
    handle_signal_default(
        &mut ctx,
        Signal::Exit { from: Pid::with_node(0, 2), reason: ExitReason::Killed },
    );
    assert!(ctx.should_stop());
    assert_eq!(ctx.stop_reason(), Some(&ExitReason::Killed));
}

#[test]
fn exit_reason_after_a_step() {
    let mut ctx = context();
    assert_eq!(ctx.exit_reason_after_step(), None);
    ctx.stop(ExitReason::Shutdown);
    assert_eq!(ctx.exit_reason_after_step(), Some(ExitReason::Shutdown));
}
