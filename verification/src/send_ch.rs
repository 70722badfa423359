//! The handle through which any thread queues commands for one reactor.
//!
//! Queueing never waits. The channel is bounded by the capacity its event
//! loop was built with: when it is full the command comes back in
//! `DispatchFailure::Full`, and the caller decides whether to try again.

use vstd::prelude::*;

use mio::Sender;
use mio::Token;

use crate::channel::try_send;
use crate::channel::SendOutcome;
use crate::conn_data::ConnData;
use crate::msg::Msg;

verus! {

/// Why a command did not reach the reactor, with the command where the
/// channel gave it back.
pub enum DispatchFailure {
    /// The reactor has stopped and released its end of the channel.
    Closed(Option<Msg>),
    /// The queue is full; nothing was queued.
    Full(Msg),
    /// The command was queued, but the reactor could not be woken.
    Io,
}

/// What a producer is told for each thing the channel can answer.
pub open spec fn dispatch_outcome(answer: SendOutcome) -> Result<(), DispatchFailure> {
    match answer {
        SendOutcome::Queued => Ok(()),
        SendOutcome::WakeFailed => Err(DispatchFailure::Io),
        SendOutcome::Full(m) => Err(DispatchFailure::Full(m)),
        SendOutcome::Closed(m) => Err(DispatchFailure::Closed(m)),
    }
}

/// Whether `r` can be the result of queueing `msg`: any command it gives
/// back is `msg` itself.
pub open spec fn gives_back_only(r: Result<(), DispatchFailure>, msg: Msg) -> bool {
    match r {
        Ok(()) => true,
        Err(DispatchFailure::Io) => true,
        Err(DispatchFailure::Full(m)) => m == msg,
        Err(DispatchFailure::Closed(Some(m))) => m == msg,
        Err(DispatchFailure::Closed(None)) => true,
    }
}

/// Turns the channel's answer into the producer's result.
pub fn dispatch_result(answer: SendOutcome) -> (r: Result<(), DispatchFailure>)
    ensures
        r == dispatch_outcome(answer),
{
    match answer {
        SendOutcome::Queued => Ok(()),
        SendOutcome::WakeFailed => Err(DispatchFailure::Io),
        SendOutcome::Full(m) => Err(DispatchFailure::Full(m)),
        SendOutcome::Closed(m) => Err(DispatchFailure::Closed(m)),
    }
}

/// A producer's handle on a reactor's channel.
#[derive(Debug)]
pub struct SendCh {
    ch: Sender<Msg>,
}

impl Clone for SendCh {
    /// Another handle on the same channel: no second channel, and no second
    /// reactor, comes of cloning.
    fn clone(&self) -> (r: SendCh)
        ensures
            r.channel() == self.channel(),
    {
        SendCh { ch: self.ch.clone() }
    }
}

impl SendCh {
    /// Binds a handle to the channel of one event loop.
    pub fn new(ch: Sender<Msg>) -> (r: SendCh)
        ensures
            r.channel() == ch,
    {
        SendCh { ch }
    }

    /// The channel this handle sends on.
    pub closed spec fn channel(&self) -> Sender<Msg> {
        self.ch
    }

    fn send(&self, msg: Msg) -> (r: Result<(), DispatchFailure>)
        ensures
            gives_back_only(r, msg),
    {
        dispatch_result(try_send(&self.ch, msg))
    }

    /// Asks the reactor to stop.
    pub fn kill(&self) -> (r: Result<(), DispatchFailure>)
        ensures
            gives_back_only(r, Msg::Quit),
    {
        self.send(Msg::Quit)
    }

    /// Asks the reactor to write `data` to the connection `token`.
    pub fn write_data(&self, token: Token, data: ConnData) -> (r: Result<(), DispatchFailure>)
        ensures
            gives_back_only(r, Msg::WriteData { token, data }),
    {
        self.send(Msg::WriteData { token, data })
    }

    /// Asks the reactor to send `data` to the peer at `addr`.
    pub fn send_peer(&self, addr: String, data: ConnData) -> (r: Result<(), DispatchFailure>)
        ensures
            gives_back_only(r, Msg::SendPeer { addr, data }),
    {
        self.send(Msg::SendPeer { addr, data })
    }
}

} // verus!
