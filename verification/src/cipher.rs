//! The ciphers a stream can be sealed with, and the lengths each one fixes.

use vstd::prelude::*;

verus! {

/// Length of a key, in bytes. Both ciphers take a 256-bit key.
pub const KEY_LENGTH: usize = 32;

/// Length of the authentication tag that ends every frame, in bytes.
pub const TAG_LENGTH: usize = 16;

/// Bytes of a nonce that the frame counter and the last-frame flag take up.
pub const NONCE_OVERHEAD: usize = 5;

/// Length of the nonce prefix of the extended-nonce cipher, in bytes.
pub const IV_LENGTH: usize = 19;

/// Length of the nonce prefix of the 12-byte-nonce cipher, in bytes.
pub const SHORT_IV_LENGTH: usize = 7;

/// The AEAD cipher of a stream. It is chosen when the stream is set up and
/// never changes afterwards.
#[derive(Clone, Copy, Debug, PartialEq, Eq, Structural)]
pub enum CipherSuite {
    /// ChaCha20-Poly1305 with a 12-byte nonce.
    ChaCha20Poly1305,
    /// XChaCha20-Poly1305 with a 24-byte nonce.
    XChaCha20Poly1305,
}

impl CipherSuite {
    /// Length of a full nonce, in bytes.
    pub open spec fn spec_nonce_length(self) -> nat {
        match self {
            CipherSuite::ChaCha20Poly1305 => 12,
            CipherSuite::XChaCha20Poly1305 => 24,
        }
    }

    /// Length of the part of the nonce that the caller supplies: the nonce
    /// without counter and flag.
    pub open spec fn spec_nonce_prefix_length(self) -> nat {
        (self.spec_nonce_length() - NONCE_OVERHEAD) as nat
    }

    /// Length of a full nonce, in bytes.
    pub fn nonce_length(self) -> (n: usize)
        ensures
            n == self.spec_nonce_length(),
    {
        match self {
            CipherSuite::ChaCha20Poly1305 => 12,
            CipherSuite::XChaCha20Poly1305 => 24,
        }
    }

    /// Length of the nonce prefix that a stream of this cipher is set up with.
    pub fn nonce_prefix_length(self) -> (n: usize)
        ensures
            n == self.spec_nonce_prefix_length(),
            n == match self {
                CipherSuite::ChaCha20Poly1305 => SHORT_IV_LENGTH,
                CipherSuite::XChaCha20Poly1305 => IV_LENGTH,
            },
    {
        self.nonce_length() - NONCE_OVERHEAD
    }
}

} // verus!
