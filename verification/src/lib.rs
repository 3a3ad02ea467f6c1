//! Chunked, authenticated streaming encryption.
//!
//! A producer hands plaintext to a [`Session`] one chunk at a time. Each
//! chunk is sealed with an AEAD cipher under a nonce made of a random prefix,
//! a big-endian frame counter and a last-frame flag, and the sealed frame is
//! queued, in order, on a [`FrameSink`] from which a consumer takes it. A
//! short or empty chunk ends the stream.
//!
//! The session is specified as a state machine, every operation is proved
//! to follow it, and the laws of the stream are proved about the machine:
//! frame `i` is sealed under counter `i`, no nonce repeats, a frame is
//! counted exactly when it is queued, and the stream ends once.

pub mod aead;
pub mod cipher;
pub mod error;
pub mod laws;
pub mod lifecycle;
pub mod nonce;
pub mod platform;
pub mod session;
pub mod sink;
pub mod wire;

pub use crate::cipher::{CipherSuite, IV_LENGTH, KEY_LENGTH, SHORT_IV_LENGTH, TAG_LENGTH};
pub use crate::error::{ConfigurationError, ProcessOutcome, StreamError};
pub use crate::lifecycle::{create_stream, process_data, process_data_loop, SessionLifecycle};
pub use crate::platform::{platform, rust_release_mode, BuildTarget, Platform};
pub use crate::session::Session;
pub use crate::sink::{FrameSink, SinkEvent};
pub use crate::wire::{
    wire_create_stream, wire_platform, wire_process_data, wire_process_data_loop,
    wire_rust_release_mode, Wire2Api,
};
