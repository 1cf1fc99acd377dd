//! Streams written to an ECU's data identifier, the way ISO 14229 writes
//! them.
//!
//! UDS is the diagnostic session of every modern vehicle: a tester asks a
//! service of an ECU and the ECU answers, positively with the service
//! identifier plus `0x40`, negatively with `0x7f` and a code. A Send
//! Location writes a Stream to a data identifier: `WriteDataByIdentifier`
//! when the Stream fits one message, a download in `TransferData` blocks
//! between `RequestDownload` and `RequestTransferExit` when it does not. A
//! Receive Location serves a data identifier as an ECU would, and the
//! bytes written to it arrive as a Stream. A download is as long as its
//! blocks, up to what its four bytes of size can say.
//!
//! Every function states what it returns, and is proved to return it. What
//! holds of the protocol as a whole stands in [`laws`]; its centre is that
//! what a tester writes arrives at the ECU whole
//! ([`laws::a_write_arrives`]).
//!
//! The library does no I/O. A link carries each request and each response
//! as one message; whoever holds it hands the messages that come to
//! [`UdsTransport`], [`Write`] and [`Ecu`], and delivers what they hand
//! back.
//!
//! The origin URI names the identifier that was written:
//! `uds://<bus>/0x<did>`.

pub mod ecu;
pub mod error;
pub mod laws;
pub mod loopback;
pub mod service;
pub mod text;
pub mod transport;
pub mod wire;
pub mod write;

pub use ecu::{Ecu, MAX_BLOCK_LENGTH};
pub use error::ProtocolError;
pub use service::{code, Negative, Request, Response};
pub use transport::{Arrived, UdsTransport, DEFAULT_DID};
pub use write::Write;
