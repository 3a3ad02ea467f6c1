//! Sealing one frame with the cipher of a stream.
//!
//! The ciphers themselves come from the `chacha20poly1305` crate; what is
//! taken on trust about them is stated on the items of this file up to
//! [`sealed`]. Everything from there on is verified against those statements.

use crate::cipher::{CipherSuite, KEY_LENGTH, TAG_LENGTH};
use chacha20poly1305::aead::Aead;
use chacha20poly1305::KeyInit;
use vstd::prelude::*;

verus! {

/// The error of the `aead` traits. It carries no information.
#[verifier::external_type_specification]
#[verifier::external_body]
pub struct ExAeadError(chacha20poly1305::aead::Error);

/// Greatest plaintext length, in bytes, that is handed to a cipher.
///
/// A ChaCha20 keystream has 2^32 blocks of 64 bytes. Block 0 makes the
/// Poly1305 key, and the stream cipher of the `chacha20` crate refuses to
/// reach the last block, so 2^32 - 2 blocks are left for the message. The
/// ciphers report a message of 2^32 - 1 blocks or more as an error, but they
/// panic on one that needs the last block only in part; this limit keeps
/// clear of both.
pub const MAX_PLAINTEXT_LENGTH: u64 = 0x3f_ffff_ff80;

/// What `ChaCha20Poly1305` makes of a plaintext under a key and a 12-byte
/// nonce, with no associated data: the ciphertext followed by the tag, or
/// `None` where the cipher reports an error.
pub uninterp spec fn chacha20poly1305_sealed(
    key: Seq<u8>,
    nonce: Seq<u8>,
    plaintext: Seq<u8>,
) -> Option<Seq<u8>>;

/// What `XChaCha20Poly1305` makes of a plaintext under a key and a 24-byte
/// nonce, with no associated data: the ciphertext followed by the tag, or
/// `None` where the cipher reports an error.
pub uninterp spec fn xchacha20poly1305_sealed(
    key: Seq<u8>,
    nonce: Seq<u8>,
    plaintext: Seq<u8>,
) -> Option<Seq<u8>>;

/// Whether a plaintext of this length can be handed to a cipher: it is
/// within [`MAX_PLAINTEXT_LENGTH`], and a buffer for it and its tag can be
/// allocated.
pub open spec fn sealable(length: nat) -> bool {
    length <= MAX_PLAINTEXT_LENGTH && length + TAG_LENGTH <= isize::MAX
}

/// Makes a `chacha20poly1305::ChaCha20Poly1305` from the key with
/// `KeyInit::new` and calls `Aead::encrypt` on it with the nonce and the
/// plaintext as the whole payload.
///
/// Trusted: the call is a function of key, nonce and plaintext alone, named
/// [`chacha20poly1305_sealed`], and a result that is not an error is 16 bytes
/// longer than the plaintext (`encrypt` copies the plaintext into a buffer,
/// encrypts it in place and appends the tag). The preconditions leave out
/// what the call panics on: a key or nonce of the wrong length (in
/// `GenericArray::from_slice`), and a plaintext that is not [`sealable`].
#[verifier::external_body]
fn chacha20poly1305_encrypt(key: &[u8], nonce: &[u8], plaintext: &[u8]) -> (result: Result<
    Vec<u8>,
    chacha20poly1305::aead::Error,
>)
    requires
        key@.len() == 32,
        nonce@.len() == 12,
        sealable(plaintext@.len()),
    ensures
        match result {
            Ok(frame) => chacha20poly1305_sealed(key@, nonce@, plaintext@) == Some(frame@)
                && frame@.len() == plaintext@.len() + 16,
            Err(_) => chacha20poly1305_sealed(key@, nonce@, plaintext@) is None,
        },
{
    let cipher = chacha20poly1305::ChaCha20Poly1305::new(chacha20poly1305::Key::from_slice(key));
    cipher.encrypt(chacha20poly1305::Nonce::from_slice(nonce), plaintext)
}

/// Makes a `chacha20poly1305::XChaCha20Poly1305` from the key with
/// `KeyInit::new` and calls `Aead::encrypt` on it with the nonce and the
/// plaintext as the whole payload.
///
/// Trusted: the call is a function of key, nonce and plaintext alone, named
/// [`xchacha20poly1305_sealed`], and a result that is not an error is 16
/// bytes longer than the plaintext. The preconditions leave out what the
/// call panics on, as for the 12-byte-nonce cipher.
#[verifier::external_body]
fn xchacha20poly1305_encrypt(key: &[u8], nonce: &[u8], plaintext: &[u8]) -> (result: Result<
    Vec<u8>,
    chacha20poly1305::aead::Error,
>)
    requires
        key@.len() == 32,
        nonce@.len() == 24,
        sealable(plaintext@.len()),
    ensures
        match result {
            Ok(frame) => xchacha20poly1305_sealed(key@, nonce@, plaintext@) == Some(frame@)
                && frame@.len() == plaintext@.len() + 16,
            Err(_) => xchacha20poly1305_sealed(key@, nonce@, plaintext@) is None,
        },
{
    let cipher = chacha20poly1305::XChaCha20Poly1305::new(chacha20poly1305::Key::from_slice(key));
    cipher.encrypt(chacha20poly1305::XNonce::from_slice(nonce), plaintext)
}

/// What the cipher of a stream makes of a plaintext, where the library hands
/// it one: with a key and a nonce of the lengths that the cipher asks for,
/// and a plaintext that is [`sealable`].
pub open spec fn cipher_output(
    suite: CipherSuite,
    key: Seq<u8>,
    nonce: Seq<u8>,
    plaintext: Seq<u8>,
) -> Option<Seq<u8>> {
    if key.len() != KEY_LENGTH || nonce.len() != suite.spec_nonce_length() || !sealable(
        plaintext.len(),
    ) {
        None
    } else {
        match suite {
            CipherSuite::ChaCha20Poly1305 => chacha20poly1305_sealed(key, nonce, plaintext),
            CipherSuite::XChaCha20Poly1305 => xchacha20poly1305_sealed(key, nonce, plaintext),
        }
    }
}

/// The frame that a plaintext is sealed into: the ciphertext, as long as the
/// plaintext, followed by the tag of 16 bytes. `None` where the cipher is not
/// handed the plaintext or reports an error.
pub open spec fn sealed(
    suite: CipherSuite,
    key: Seq<u8>,
    nonce: Seq<u8>,
    plaintext: Seq<u8>,
) -> Option<Seq<u8>> {
    match cipher_output(suite, key, nonce, plaintext) {
        Some(frame) => if frame.len() == plaintext.len() + TAG_LENGTH {
            Some(frame)
        } else {
            None
        },
        None => None,
    }
}

/// Seals a plaintext under a key and a full nonce.
pub fn seal(suite: CipherSuite, key: &[u8], nonce: &[u8], plaintext: &[u8]) -> (frame: Option<
    Vec<u8>,
>)
    ensures
        match frame {
            Some(bytes) => sealed(suite, key@, nonce@, plaintext@) == Some(bytes@),
            None => sealed(suite, key@, nonce@, plaintext@) is None,
        },
{
    if key.len() != KEY_LENGTH || nonce.len() != suite.nonce_length() {
        return None;
    }
    let length = plaintext.len();
    if length as u64 > MAX_PLAINTEXT_LENGTH || length > (isize::MAX as usize) - TAG_LENGTH {
        return None;
    }
    let result = match suite {
        CipherSuite::ChaCha20Poly1305 => chacha20poly1305_encrypt(key, nonce, plaintext),
        CipherSuite::XChaCha20Poly1305 => xchacha20poly1305_encrypt(key, nonce, plaintext),
    };
    match result {
        Ok(bytes) => Some(bytes),
        Err(_) => None,
    }
}

} // verus!
