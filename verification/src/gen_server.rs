use crate::error::ActorError;
use crate::text::string_of;
use tokio::sync::oneshot;
use vstd::prelude::*;

verus! {

/// How a generic server answers a call.
#[derive(Debug)]
pub enum CallResponse<T> {
    /// Reply now with this value.
    Reply(T),
    /// Reply later, through the reply handle.
    NoReply,
}

#[verifier::external_type_specification]
#[verifier::external_body]
#[verifier::reject_recursive_types(T)]
pub struct ExOneshotSender<T>(oneshot::Sender<T>);

/// The trusted call of `tokio::sync::oneshot::Sender::send`: true when the
/// value was handed to a waiting receiver. Nothing is stated of the
/// outcome, which depends on whether the receiver still exists.
#[verifier::external_body]
fn oneshot_send<T>(tx: oneshot::Sender<T>, value: T) -> bool {
    tx.send(value).is_ok()
}

/// The handle a server replies to one call through, at most once.
#[verifier::reject_recursive_types(T)]
pub struct ReplyHandle<T> {
    reply_tx: Option<oneshot::Sender<T>>,
}

impl<T> ReplyHandle<T> {
    /// Whether the reply is still owed.
    pub closed spec fn pending(&self) -> bool {
        self.reply_tx is Some
    }

    /// A handle for the call whose caller waits on `reply_tx`.
    pub fn new(reply_tx: oneshot::Sender<T>) -> (r: ReplyHandle<T>)
        ensures
            r.pending(),
    {
        ReplyHandle { reply_tx: Some(reply_tx) }
    }

    /// Sends the reply. Fails with `reply already sent` when the reply was
    /// given before, and with `reply failed: receiver dropped` when the
    /// caller no longer waits.
    pub fn reply(self, value: T) -> (r: Result<(), ActorError>)
        ensures
            !self.pending() ==> (r matches Err(ActorError::Other(m)) && m@ == "reply already sent"@),
            self.pending() ==> (r is Ok || (r matches Err(ActorError::Other(m)) && m@
                == "reply failed: receiver dropped"@)),
    {
        match self.reply_tx {
            Some(tx) => {
                if oneshot_send(tx, value) {
                    Ok(())
                } else {
                    Err(ActorError::Other(string_of("reply failed: receiver dropped")))
                }
            },
            None => Err(ActorError::Other(string_of("reply already sent"))),
        }
    }
}

} // verus!
