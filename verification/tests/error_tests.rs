use joerl::error::ActorError;
use joerl::pid::Pid;

#[test]
fn test_error_display() {
    let pid = Pid::with_node(0, 1);
    let err = ActorError::ActorNotFound(pid);
    assert!(err.to_string().contains("not found"));
}

#[test]
fn test_error_clone() {
    let err1 = ActorError::Timeout;
    let err2 = err1.clone();
    assert!(matches!(err2, ActorError::Timeout));
}

#[test]
fn test_other_error() {
    let err = ActorError::other("custom error");
    assert!(matches!(err, ActorError::Other(_)));
}

#[test]
fn error_texts() {
    let p = Pid::with_node(0, 5);
    assert_eq!(ActorError::ActorNotFound(p).to_string(), "Actor <0.5.0> not found");
    assert_eq!(ActorError::SendFailed(p).to_string(), "Failed to send message to <0.5.0>");
    assert_eq!(ActorError::Timeout.to_string(), "Operation timed out");
    assert_eq!(ActorError::TimerNotFound(9).to_string(), "Timer 9 not found");
    assert_eq!(
        ActorError::NameAlreadyRegistered("a".to_string()).to_string(),
        "Name 'a' is already registered"
    );
}
