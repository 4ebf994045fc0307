//! A checked control-and-packet layer for the Opus audio codec.
//!
//! The library holds what can be decided without touching a native codec
//! handle: the closed enumerations of the control protocol and their raw
//! encodings, the classification of native status codes into typed errors,
//! the conversion of buffer lengths to the native integer width, and the
//! Opus packet framing (table-of-contents queries, parsing, padding and
//! repacketization), all with proved contracts.
pub mod codec;
pub mod ctl;
pub mod error;
pub mod length;
pub mod packet;
pub mod repack_bounds;
pub mod repacketizer;
pub mod roundtrip;
pub mod types;

pub use codec::version;
pub use error::{Error, ErrorCode};
pub use repacketizer::{Repacketizer, RepacketizerState};
pub use types::{Application, Bandwidth, Bitrate, Channels, FrameSize, Signal};
