use joerl::error::ActorError;
use joerl::gen_server::{CallResponse, ReplyHandle};
use tokio::sync::oneshot;

#[test]
fn reply_reaches_the_caller() {
    let (tx, mut rx) = oneshot::channel::<u32>();
    let handle = ReplyHandle::new(tx);
    assert!(handle.reply(7).is_ok());
    assert_eq!(rx.try_recv().unwrap(), 7);
}

#[test]
fn reply_to_a_dropped_caller_fails() {
    let (tx, rx) = oneshot::channel::<u32>();
    drop(rx);
    let handle = ReplyHandle::new(tx);
    match handle.reply(7) {
        Err(ActorError::Other(m)) => assert_eq!(m, "reply failed: receiver dropped"),
        _ => panic!("expected a failure"),
    }
}

#[test]
fn call_responses() {
    let r: CallResponse<u32> = CallResponse::Reply(3);
    assert!(matches!(r, CallResponse::Reply(3)));
    let n: CallResponse<u32> = CallResponse::NoReply;
    assert!(matches!(n, CallResponse::NoReply));
}
