use joerl::message::{Envelope, ExitReason, MonitorRef, Signal};
use joerl::pid::Pid;

#[test]
fn test_exit_reason_normal() {
    let reason = ExitReason::Normal;
    assert!(reason.is_normal());
    assert!(reason.is_trappable());
}

#[test]
fn test_exit_reason_killed() {
    let reason = ExitReason::Killed;
    assert!(!reason.is_normal());
    assert!(!reason.is_trappable());
}

#[test]
fn test_exit_reason_display() {
    assert_eq!(ExitReason::Normal.to_string(), "normal");
    assert_eq!(ExitReason::Killed.to_string(), "killed");
    assert_eq!(ExitReason::Panic("error".to_string()).to_string(), "panic: error");
}

#[test]
fn test_monitor_ref() {
    let ref1 = MonitorRef::new(1);
    let ref2 = MonitorRef::new(2);
    assert_ne!(ref1, ref2);
    assert_eq!(ref1, MonitorRef::new(1));
}

#[test]
fn test_signal_clone() {
    let signal = Signal::Stop;
    let cloned = signal.clone();
    assert!(matches!(cloned, Signal::Stop));
}

#[test]
fn exit_reason_texts_of_every_variant() {
    assert_eq!(ExitReason::Shutdown.to_string(), "shutdown");
    assert_eq!(ExitReason::Custom("disk full".to_string()).to_string(), "disk full");
    assert!(ExitReason::Shutdown.is_trappable());
    assert!(ExitReason::Custom("x".to_string()).is_trappable());
    assert!(!ExitReason::Panic("x".to_string()).is_normal());
}

#[test]
fn exit_reason_duplicate_is_equal() {
    let r = ExitReason::Panic("boom".to_string());
    assert_eq!(r.duplicate(), r);
}

#[test]
fn monitor_ref_text_and_id() {
    let r = MonitorRef::new(7);
    assert_eq!(r.id(), 7);
    assert_eq!(r.to_string(), "#Ref<7>");
}

#[test]
fn envelope_constructors() {
    let e: Envelope<u32> = Envelope::message(5);
    assert!(matches!(e, Envelope::Message(5)));
    let s: Envelope<u32> = Envelope::signal(Signal::Kill);
    assert!(matches!(s, Envelope::Signal(Signal::Kill)));
}

#[test]
fn pid_text_form() {
    let p = Pid::with_node(3, 42);
    assert_eq!(p.to_string(), "<3.42.0>");
    assert_eq!(p.node(), 3);
    assert_eq!(p.id(), 42);
    assert!(!p.is_local());
    assert!(Pid::with_node(0, 1).is_local());
}

#[test]
fn prop_pid_send_sync() {
    fn assert_send<T: Send>() {}
    fn assert_sync<T: Sync>() {}

    assert_send::<Pid>();
    assert_sync::<Pid>();
}

#[test]
fn labels_of_reasons_and_signals() {
    assert_eq!(ExitReason::Normal.label(), "normal");
    assert_eq!(ExitReason::Shutdown.label(), "shutdown");
    assert_eq!(ExitReason::Killed.label(), "killed");
    assert_eq!(ExitReason::Panic("x".to_string()).label(), "panic");
    assert_eq!(ExitReason::Custom("x".to_string()).label(), "custom");
    let p = Pid::with_node(0, 1);
    assert_eq!(Signal::Exit { from: p, reason: ExitReason::Normal }.label(), "exit");
    assert_eq!(
        Signal::Down { reference: MonitorRef::new(1), pid: p, reason: ExitReason::Normal }.label(),
        "down"
    );
    assert_eq!(Signal::Stop.label(), "stop");
    assert_eq!(Signal::Kill.label(), "kill");
}

#[test]
fn trapped_signals() {
    let p = Pid::with_node(0, 1);
    let panic_exit = Signal::Exit { from: p, reason: ExitReason::Panic("x".to_string()) };
    assert!(panic_exit.is_trapped_by(true));
    assert!(!panic_exit.is_trapped_by(false));
    let killed = Signal::Exit { from: p, reason: ExitReason::Killed };
    assert!(!killed.is_trapped_by(true));
    assert!(!Signal::Stop.is_trapped_by(true));
}
