//! A WebSocket (RFC 6455) framing engine: a frame codec over plain bytes,
//! the control-frame policy of a session, and a fragment assembler.
//!
//! The library does no I/O. A session turns received bytes into frames and
//! answers, and turns frames into the bytes to send; the caller moves those
//! bytes over its transport.

mod close;
mod codec;
mod error;
mod fragment;
mod frame;
mod inflate;
mod mask;
mod session;

pub use crate::close::CloseCode;
pub use crate::error::WebSocketError;
pub use crate::fragment::FragmentCollector;
pub use crate::frame::is_control;
pub use crate::frame::Frame;
pub use crate::frame::OpCode;
pub use crate::inflate::inflate_payload;
pub use crate::mask::unmask;
pub use crate::session::Outgoing;
pub use crate::session::ReadEvent;
pub use crate::session::Role;
pub use crate::session::WebSocket;
pub use crate::codec::parse_frame;
pub use crate::codec::ParseOutcome;
