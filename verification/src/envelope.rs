//! Envelope-producing encryption entry points: each operation drains key
//! material from a `KeyStreamBuffer` (and/or draws fresh local randomness),
//! combines it with the data through the XOR cipher, and returns the
//! ciphertext together with every key used and the buffer offset at which
//! consumption began — so the receiver needs no pre-shared secret.

use vstd::prelude::*;

use crate::cipher::xor_dual_spec;
use crate::cipher::xor_single;
use crate::cipher::xor_single_spec;
use crate::cipher::xor_vernam;
use crate::keystream::KeyStreamBuffer;
use crate::rng::random_bytes;
use vstd::string::StringSliceAdditionalSpecFns;

verus! {

/// What `String::from_utf8_lossy` makes of a byte sequence: the decoded
/// text, invalid UTF-8 sequences replaced. A function of the bytes alone.
pub uninterp spec fn lossy_text_of(bytes: Seq<u8>) -> Seq<char>;

/// Relies on String::from_utf8_lossy: decodes the bytes as UTF-8, replacing
/// invalid sequences; the result depends on the bytes alone.
#[verifier::external_body]
fn bytes_to_text_lossy(bytes: &Vec<u8>) -> (text: String)
    ensures
        text@ == lossy_text_of(bytes@),
{
    String::from_utf8_lossy(bytes.as_slice()).into_owned()
}

/// An exact copy of a byte vector.
fn copy_bytes(bytes: &Vec<u8>) -> (copy: Vec<u8>)
    ensures
        copy@ == bytes@,
{
    let mut copy: Vec<u8> = Vec::new();
    let mut i: usize = 0;
    while i < bytes.len()
        invariant
            i <= bytes@.len(),
            copy@ == bytes@.take(i as int),
        decreases bytes@.len() - i,
    {
        copy.push(bytes[i]);
        proof {
            assert(copy@ =~= bytes@.take(i + 1));
        }
        i = i + 1;
    }
    proof {
        assert(copy@ =~= bytes@);
    }
    copy
}

/// A single-key envelope: ciphertext, the key chunk that produced it (to be
/// attached to the message for the recipient), and the buffer offset at
/// which that key chunk began.
pub struct EncryptedWithKey {
    encrypted: Vec<u8>,
    key: Vec<u8>,
    offset: u64,
}

impl EncryptedWithKey {
    /// The ciphertext bytes.
    pub closed spec fn ciphertext(&self) -> Seq<u8> {
        self.encrypted@
    }

    /// The key chunk consumed to produce the ciphertext.
    pub closed spec fn key_spec(&self) -> Seq<u8> {
        self.key@
    }

    /// The buffer offset at which the key chunk began.
    pub closed spec fn offset_spec(&self) -> int {
        self.offset as int
    }

    /// Get the encrypted data.
    pub fn get_encrypted(&self) -> (bytes: Vec<u8>)
        ensures
            bytes@ == self.ciphertext(),
    {
        copy_bytes(&self.encrypted)
    }

    /// Get the key chunk, for attachment to the message.
    pub fn get_key(&self) -> (bytes: Vec<u8>)
        ensures
            bytes@ == self.key_spec(),
    {
        copy_bytes(&self.key)
    }

    /// Get the offset at which the key chunk was consumed.
    pub fn get_offset(&self) -> (offset: u64)
        ensures
            offset == self.offset_spec(),
    {
        self.offset
    }
}

/// A dual-key envelope: ciphertext together with the locally generated key
/// (`key_a`), the key consumed from the remote stream buffer (`key_b`), and
/// the buffer offset at which `key_b` began.
pub struct EncryptedDoubleKey {
    encrypted: Vec<u8>,
    key_a: Vec<u8>,
    key_b: Vec<u8>,
    offset: u64,
}

impl EncryptedDoubleKey {
    /// The ciphertext bytes.
    pub closed spec fn ciphertext(&self) -> Seq<u8> {
        self.encrypted@
    }

    /// The locally generated key.
    pub closed spec fn key_a_spec(&self) -> Seq<u8> {
        self.key_a@
    }

    /// The key consumed from the remote stream buffer.
    pub closed spec fn key_b_spec(&self) -> Seq<u8> {
        self.key_b@
    }

    /// The buffer offset at which `key_b` began.
    pub closed spec fn offset_spec(&self) -> int {
        self.offset as int
    }

    /// Get the encrypted data.
    pub fn get_encrypted(&self) -> (bytes: Vec<u8>)
        ensures
            bytes@ == self.ciphertext(),
    {
        copy_bytes(&self.encrypted)
    }

    /// Get the locally generated key.
    pub fn get_key_a(&self) -> (bytes: Vec<u8>)
        ensures
            bytes@ == self.key_a_spec(),
    {
        copy_bytes(&self.key_a)
    }

    /// Get the key consumed from the remote stream buffer.
    pub fn get_key_b(&self) -> (bytes: Vec<u8>)
        ensures
            bytes@ == self.key_b_spec(),
    {
        copy_bytes(&self.key_b)
    }

    /// Get the offset at which `key_b` was consumed.
    pub fn get_offset(&self) -> (offset: u64)
        ensures
            offset == self.offset_spec(),
    {
        self.offset
    }
}

/// Encrypt text against the key stream buffer: consume one key byte per
/// UTF-8 byte of the text (fewer on underrun) and XOR them together.
pub fn encrypt_text_with_buffer(buffer: &mut KeyStreamBuffer, text: &str) -> (encrypted: Vec<u8>)
    requires
        old(buffer).wf(),
        old(buffer).offset_spec() + old(buffer).chunk_len(text.spec_bytes().len() as int)
            <= u64::MAX,
    ensures
        final(buffer).wf(),
        encrypted@ == xor_single_spec(
            text.spec_bytes(),
            old(buffer).pending().take(old(buffer).chunk_len(text.spec_bytes().len() as int)),
        ),
        final(buffer).pending() == old(buffer).pending().skip(
            old(buffer).chunk_len(text.spec_bytes().len() as int),
        ),
        final(buffer).offset_spec() == old(buffer).offset_spec() + old(buffer).chunk_len(
            text.spec_bytes().len() as int,
        ),
{
    let data = text.as_bytes();
    let key = buffer.get_key_chunk(data.len());
    xor_single(data, key.as_slice())
}

/// Encrypt binary data against the key stream buffer: consume one key byte
/// per data byte (fewer on underrun) and XOR them together.
pub fn encrypt_with_buffer(buffer: &mut KeyStreamBuffer, data: &[u8]) -> (encrypted: Vec<u8>)
    requires
        old(buffer).wf(),
        old(buffer).offset_spec() + old(buffer).chunk_len(data@.len() as int) <= u64::MAX,
    ensures
        final(buffer).wf(),
        encrypted@ == xor_single_spec(
            data@,
            old(buffer).pending().take(old(buffer).chunk_len(data@.len() as int)),
        ),
        final(buffer).pending() == old(buffer).pending().skip(
            old(buffer).chunk_len(data@.len() as int),
        ),
        final(buffer).offset_spec() == old(buffer).offset_spec() + old(buffer).chunk_len(
            data@.len() as int,
        ),
{
    let key = buffer.get_key_chunk(data.len());
    xor_single(data, key.as_slice())
}

/// Decrypt data back to text with the transmitted key: the same XOR as
/// encryption, decoded as UTF-8 with invalid sequences replaced.
pub fn decrypt_to_text(data: &[u8], key: &[u8]) -> (text: String)
    ensures
        text@ == lossy_text_of(xor_single_spec(data@, key@)),
{
    let decrypted = xor_single(data, key);
    bytes_to_text_lossy(&decrypted)
}

/// Decrypt data with the transmitted key: XOR is symmetric, so this is the
/// single-key combination again.
pub fn decrypt_with_key(data: &[u8], key: &[u8]) -> (decrypted: Vec<u8>)
    ensures
        decrypted@ == xor_single_spec(data@, key@),
{
    xor_single(data, key)
}

/// Encrypt text and return the ciphertext together with the key used and
/// the offset at which it was consumed, so the key travels with the message
/// and is never stored.
pub fn encrypt_text_return_key(buffer: &mut KeyStreamBuffer, text: &str) -> (envelope:
    EncryptedWithKey)
    requires
        old(buffer).wf(),
        old(buffer).offset_spec() + old(buffer).chunk_len(text.spec_bytes().len() as int)
            <= u64::MAX,
    ensures
        final(buffer).wf(),
        envelope.offset_spec() == old(buffer).offset_spec(),
        envelope.key_spec() == old(buffer).pending().take(
            old(buffer).chunk_len(text.spec_bytes().len() as int),
        ),
        envelope.ciphertext() == xor_single_spec(text.spec_bytes(), envelope.key_spec()),
        final(buffer).pending() == old(buffer).pending().skip(
            old(buffer).chunk_len(text.spec_bytes().len() as int),
        ),
        final(buffer).offset_spec() == old(buffer).offset_spec() + envelope.key_spec().len(),
{
    let data = text.as_bytes();
    let offset = buffer.current_offset();
    let key = buffer.get_key_chunk(data.len());
    let encrypted = xor_single(data, key.as_slice());
    EncryptedWithKey { encrypted, key, offset }
}

/// Encrypt binary data and return the ciphertext together with the key used
/// and the offset at which it was consumed.
pub fn encrypt_data_return_key(buffer: &mut KeyStreamBuffer, data: &[u8]) -> (envelope:
    EncryptedWithKey)
    requires
        old(buffer).wf(),
        old(buffer).offset_spec() + old(buffer).chunk_len(data@.len() as int) <= u64::MAX,
    ensures
        final(buffer).wf(),
        envelope.offset_spec() == old(buffer).offset_spec(),
        envelope.key_spec() == old(buffer).pending().take(old(buffer).chunk_len(data@.len() as int)),
        envelope.ciphertext() == xor_single_spec(data@, envelope.key_spec()),
        final(buffer).pending() == old(buffer).pending().skip(
            old(buffer).chunk_len(data@.len() as int),
        ),
        final(buffer).offset_spec() == old(buffer).offset_spec() + envelope.key_spec().len(),
{
    let offset = buffer.current_offset();
    let key = buffer.get_key_chunk(data.len());
    let encrypted = xor_single(data, key.as_slice());
    EncryptedWithKey { encrypted, key, offset }
}

/// Encrypt one media frame against the key stream buffer, returning the
/// ciphertext with the key chunk attached for the recipient.
pub fn encrypt_frame(buffer: &mut KeyStreamBuffer, frame_data: &[u8]) -> (envelope:
    EncryptedWithKey)
    requires
        old(buffer).wf(),
        old(buffer).offset_spec() + old(buffer).chunk_len(frame_data@.len() as int) <= u64::MAX,
    ensures
        final(buffer).wf(),
        envelope.offset_spec() == old(buffer).offset_spec(),
        envelope.key_spec() == old(buffer).pending().take(
            old(buffer).chunk_len(frame_data@.len() as int),
        ),
        envelope.ciphertext() == xor_single_spec(frame_data@, envelope.key_spec()),
        final(buffer).pending() == old(buffer).pending().skip(
            old(buffer).chunk_len(frame_data@.len() as int),
        ),
        final(buffer).offset_spec() == old(buffer).offset_spec() + envelope.key_spec().len(),
{
    let offset = buffer.current_offset();
    let key = buffer.get_key_chunk(frame_data.len());
    let encrypted = xor_single(frame_data, key.as_slice());
    EncryptedWithKey { encrypted, key, offset }
}

/// Decrypt one media frame with the transmitted key.
pub fn decrypt_frame(encrypted_data: &[u8], key: &[u8]) -> (decrypted: Vec<u8>)
    ensures
        decrypted@ == xor_single_spec(encrypted_data@, key@),
{
    xor_single(encrypted_data, key)
}

/// Encrypt one media frame with a fresh locally generated random key, for
/// latency-sensitive media that must not block on remote key delivery. The
/// key is full length and travels in the envelope; no buffer offset applies.
pub fn encrypt_frame_local(frame_data: &[u8]) -> (envelope: EncryptedWithKey)
    ensures
        envelope.key_spec().len() == frame_data@.len(),
        envelope.ciphertext() == xor_single_spec(frame_data@, envelope.key_spec()),
        envelope.offset_spec() == 0,
{
    let key = random_bytes(frame_data.len());
    let encrypted = xor_single(frame_data, key.as_slice());
    EncryptedWithKey { encrypted, key, offset: 0 }
}

/// Encrypt text with a fresh local random key and a key consumed from the
/// remote stream buffer: the ciphertext is the dual-key combination, so
/// compromise of either entropy source alone does not expose the text.
pub fn encrypt_text_double_key(buffer: &mut KeyStreamBuffer, text: &str) -> (envelope:
    EncryptedDoubleKey)
    requires
        old(buffer).wf(),
        old(buffer).offset_spec() + old(buffer).chunk_len(text.spec_bytes().len() as int)
            <= u64::MAX,
    ensures
        final(buffer).wf(),
        envelope.offset_spec() == old(buffer).offset_spec(),
        envelope.key_a_spec().len() == text.spec_bytes().len(),
        envelope.key_b_spec() == old(buffer).pending().take(
            old(buffer).chunk_len(text.spec_bytes().len() as int),
        ),
        envelope.ciphertext() == xor_dual_spec(
            text.spec_bytes(),
            envelope.key_a_spec(),
            envelope.key_b_spec(),
        ),
        final(buffer).pending() == old(buffer).pending().skip(
            old(buffer).chunk_len(text.spec_bytes().len() as int),
        ),
        final(buffer).offset_spec() == old(buffer).offset_spec() + envelope.key_b_spec().len(),
{
    let data = text.as_bytes();
    let key_a = random_bytes(data.len());
    let offset = buffer.current_offset();
    let key_b = buffer.get_key_chunk(data.len());
    let encrypted = xor_vernam(data, key_a.as_slice(), key_b.as_slice());
    EncryptedDoubleKey { encrypted, key_a, key_b, offset }
}

} // verus!
