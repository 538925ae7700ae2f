//! A compact request/response protocol for small sensor devices: the wire
//! codec, the property handling engine and the decision logic of the
//! datagram client.

pub mod client;
pub mod frame;
pub mod io;
pub mod props;
pub mod types;

pub use frame::{Bus, Format, Request, Response};
pub use io::{Error, Read, SliceWriter, Write};
pub use types::Type;
