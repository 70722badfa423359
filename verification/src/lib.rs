//! A command bus between producer threads and a single-threaded reactor,
//! with the wire framing of the messages it carries.

pub mod buf;
pub mod channel;
pub mod codec;
pub mod conn_data;
pub mod msg;
pub mod reactor;
pub mod send_ch;

pub use conn_data::ConnData;
pub use msg::Msg;
pub use reactor::Reactor;
pub use send_ch::SendCh;
