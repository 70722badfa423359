//! The commands a reactor understands. The set is closed: a reactor handles
//! each of the four, and there is no fifth.

use vstd::prelude::*;

use mio::Token;

use crate::conn_data::ConnData;

verus! {

/// One command for the reactor.
pub enum Msg {
    /// Stop the event loop.
    Quit,
    /// Data was read from the connection `token`.
    ReadData { token: Token, data: ConnData },
    /// Write data to the connection `token`.
    WriteData { token: Token, data: ConnData },
    /// Send data to the remote peer at `addr`.
    SendPeer { addr: String, data: ConnData },
}

} // verus!
