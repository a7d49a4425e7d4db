//! A mux provides a single receive end and multiple send ends. Data sent to any of the send ends
//! comes out the receive end, in order, tagged by the sender.
//!
//! The receive end and each sender are UNIX datagram sockets, and the address of a sender is the
//! tag of its data. This library holds all that a mux decides: the names of its sockets, what to
//! do when a name is taken, how large a buffer the next packet needs, and which data belongs to
//! which tag. It makes no socket call itself. A setup or a read asks for one call at a time, and
//! its caller hands back how the call went.

pub mod address;
pub mod async_mux;
pub mod bytes;
pub mod delivery;
pub mod error;
pub mod hex;
pub mod history;
pub mod mux;
pub mod naming;
pub mod path;
pub mod promises;
mod random;
pub mod read;
pub mod readings;
pub mod retry;
pub mod sender;
pub mod setup;
pub mod tag;

pub use address::Address;
pub use async_mux::AsyncMux;
pub use error::ErrorKind;
pub use error::Fault;
pub use error::MuxError;
pub use mux::Mux;
pub use read::ReadCall;
pub use read::ReadStep;
pub use read::Received;
pub use read::Sizing;
pub use sender::Datagram;
pub use sender::MuxSender;
pub use sender::SenderSetup;
pub use sender::SenderStep;
pub use setup::Action;
pub use setup::MuxSetup;
pub use setup::MuxStep;
pub use tag::Tag;
pub use tag::TaggedData;
