//! The boundary to `mio`: the connection token, the sending half of an event
//! loop's channel, and the one call the library makes on it. Nothing here is
//! proved; the contract states what the crate's source shows.

use vstd::prelude::*;

use mio::NotifyError;
use mio::Sender;
use mio::Token;

use crate::msg::Msg;

verus! {

/// `mio::Token`: the name a connection registry gives a connection. The
/// library stores it and hands it on, and never looks inside.
#[verifier::external_type_specification]
#[verifier::external_body]
pub struct ExToken(Token);

/// `mio::Sender`: the sending half of an event loop's channel.
#[verifier::external_type_specification]
#[verifier::external_body]
#[verifier::reject_recursive_types(M)]
pub struct ExSender<M: Send>(Sender<M>);

/// `Clone` for `mio::Sender`: the clone is a second handle on the one queue
/// that `s` sends to, and the model does not tell the two apart.
pub assume_specification<M: Send>[ <Sender<M> as Clone>::clone ](s: &Sender<M>) -> (r: Sender<M>)
    ensures
        r == *s,
;

/// What became of a command that was handed to the channel.
pub enum SendOutcome {
    /// It is in the queue, and the event loop knows.
    Queued,
    /// It is in the queue, but waking the event loop failed.
    WakeFailed,
    /// The queue is full. The command comes back.
    Full(Msg),
    /// The event loop has released its end. The command comes back, unless
    /// the release came between queueing it and telling the event loop.
    Closed(Option<Msg>),
}

/// `mio::Sender::send`: one attempt to queue `msg`, without waiting. Whether
/// it succeeds depends on the event loop; a command that comes back is the
/// one that was handed in.
#[verifier::external_body]
pub(crate) fn try_send(ch: &Sender<Msg>, msg: Msg) -> (r: SendOutcome)
    ensures
        r matches SendOutcome::Full(m) ==> m == msg,
        r matches SendOutcome::Closed(Some(m)) ==> m == msg,
{
    match ch.send(msg) {
        Ok(()) => SendOutcome::Queued,
        Err(NotifyError::Io(_)) => SendOutcome::WakeFailed,
        Err(NotifyError::Full(m)) => SendOutcome::Full(m),
        Err(NotifyError::Closed(m)) => SendOutcome::Closed(m),
    }
}

} // verus!
