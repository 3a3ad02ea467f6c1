//! What a stream operation reports: how it ended, or why it failed.

use vstd::prelude::*;

verus! {

/// Why a stream could not be set up from the values given.
#[derive(Clone, Copy, Debug, PartialEq, Eq, Structural)]
pub enum ConfigurationError {
    /// The key is not as long as the cipher's key.
    InvalidKeyLength,
    /// The nonce prefix is not as long as the cipher asks for.
    InvalidNonceLength,
    /// The chunk size is zero.
    InvalidChunkSize,
}

/// Why a stream operation failed.
#[derive(Clone, Copy, Debug, PartialEq, Eq, Structural)]
pub enum StreamError {
    /// The stream could not be set up; nothing was activated.
    Configuration(ConfigurationError),
    /// No stream has been set up.
    SessionNotInitialized,
    /// The stream has ended.
    SessionClosed,
    /// A stream is still active; it has to be closed before the next one.
    SessionAlreadyActive,
    /// Every frame counter has been used. The stream is closed.
    CounterExhausted,
    /// The sink does not accept a frame now. Nothing has changed, and the
    /// same chunk can be offered again.
    SinkUnavailable,
    /// The cipher did not seal the chunk. The stream is closed.
    EncryptionFailure,
}

/// How a chunk was processed.
#[derive(Clone, Copy, Debug, PartialEq, Eq, Structural)]
pub enum ProcessOutcome {
    /// The chunk was sealed into a frame, and the stream goes on.
    FrameEmitted,
    /// The stream has ended with this chunk: with a last frame if the chunk
    /// held anything, and with the sink closed.
    StreamClosed,
}

} // verus!
