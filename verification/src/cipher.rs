//! Sealing and opening the record under a key derived from a secret.

use crate::bytes::{append, array_at};
use crate::error::Error;
use aes_gcm::aead::generic_array::GenericArray;
use aes_gcm::aead::{Aead, KeyInit};
use aes_gcm::Aes256Gcm;
use hkdf::Hkdf;
use sha2::Sha512;
use vstd::prelude::*;
use vstd::slice::slice_subrange;

verus! {

/// Number of bytes of a key.
pub const KEY_SIZE: usize = 32;

/// Number of bytes of a nonce.
pub const NONCE_SIZE: usize = 12;

/// Number of bytes of an authentication tag.
pub const TAG_SIZE: usize = 16;

/// By how many bytes a sealed text is longer than its plaintext: the tag
/// and the nonce.
pub const MAX_OVERHEAD: usize = 28;

/// The longest plaintext, in bytes, that AES-GCM encrypts.
pub const MAX_PLAINTEXT: u64 = 0x10_0000_0000;

/// The `KEY_SIZE` bytes that HKDF with SHA-512 derives from the salt `salt`,
/// the input keying material `ikm` and the context `info`.
pub uninterp spec fn hkdf_sha512(salt: Seq<u8>, ikm: Seq<u8>, info: Seq<u8>) -> Seq<u8>;

/// What AES-256-GCM makes of `plaintext` under `key` and `nonce`, with no
/// associated data: the ciphertext followed by the tag.
pub uninterp spec fn aes_256_gcm_encrypt(key: Seq<u8>, nonce: Seq<u8>, plaintext: Seq<u8>) -> Option<
    Seq<u8>,
>;

/// The plaintext that AES-256-GCM recovers from a ciphertext followed by its
/// tag under `key` and `nonce`, with no associated data; nothing where the
/// tag does not authenticate the ciphertext.
pub uninterp spec fn aes_256_gcm_decrypt(key: Seq<u8>, nonce: Seq<u8>, sealed: Seq<u8>) -> Option<
    Seq<u8>,
>;

/// The bytes of an optional vector.
pub open spec fn bytes_of(bytes: Option<Vec<u8>>) -> Option<Seq<u8>> {
    match bytes {
        Some(v) => Some(v@),
        None => None,
    }
}

/// `Hkdf::<Sha512>::new` of the crate `hkdf`, then `expand` into `KEY_SIZE`
/// bytes. The derived bytes depend on `salt`, `ikm` and `info` alone, and
/// `expand` refuses only outputs of more than 255 hash lengths, so a key
/// always comes back.
#[verifier::external_body]
fn hkdf_sha512_expand(salt: &[u8], ikm: &[u8], info: &[u8]) -> (okm: Option<[u8; KEY_SIZE]>)
    ensures
        okm is Some,
        okm matches Some(key) ==> key@ == hkdf_sha512(salt@, ikm@, info@),
{
    let mut okm = [0u8; KEY_SIZE];
    match Hkdf::<Sha512>::new(Some(salt), ikm).expand(info, &mut okm) {
        Ok(()) => Some(okm),
        Err(_) => None,
    }
}

/// `getrandom::getrandom` on `NONCE_SIZE` bytes. Nothing is known of the
/// bytes that come back, nor whether any do.
#[verifier::external_body]
fn fresh_nonce() -> (nonce: Option<[u8; NONCE_SIZE]>) {
    let mut nonce = [0u8; NONCE_SIZE];
    match getrandom::getrandom(&mut nonce) {
        Ok(()) => Some(nonce),
        Err(_) => None,
    }
}

/// `Aead::encrypt` of `aes_gcm::Aes256Gcm`. The result depends on the
/// arguments alone. It is refused only for a plaintext of more than
/// `MAX_PLAINTEXT` bytes; otherwise it is `TAG_SIZE` bytes longer than the
/// plaintext, and decrypting it under the same key and nonce gives the
/// plaintext back.
#[verifier::external_body]
fn aes_gcm_encrypt(key: &[u8; KEY_SIZE], nonce: &[u8; NONCE_SIZE], plaintext: &[u8]) -> (sealed:
    Option<Vec<u8>>)
    ensures
        bytes_of(sealed) == aes_256_gcm_encrypt(key@, nonce@, plaintext@),
        plaintext@.len() <= MAX_PLAINTEXT ==> sealed is Some,
        sealed matches Some(s) ==> {
            &&& s@.len() == plaintext@.len() + TAG_SIZE
            &&& aes_256_gcm_decrypt(key@, nonce@, s@) == Some(plaintext@)
        },
{
    let cipher = Aes256Gcm::new_from_slice(key).ok()?;
    cipher.encrypt(GenericArray::from_slice(nonce), plaintext).ok()
}

/// `Aead::decrypt` of `aes_gcm::Aes256Gcm`. The result depends on the
/// arguments alone; a plaintext that comes back is `TAG_SIZE` bytes shorter
/// than what was handed in.
#[verifier::external_body]
fn aes_gcm_decrypt(key: &[u8; KEY_SIZE], nonce: &[u8; NONCE_SIZE], sealed: &[u8]) -> (plaintext:
    Option<Vec<u8>>)
    ensures
        bytes_of(plaintext) == aes_256_gcm_decrypt(key@, nonce@, sealed@),
        plaintext matches Some(p) ==> p@.len() + TAG_SIZE == sealed@.len(),
{
    let cipher = Aes256Gcm::new_from_slice(key).ok()?;
    cipher.decrypt(GenericArray::from_slice(nonce), sealed).ok()
}

/// The context that the key of this store is derived for: the ASCII text
/// `vm-instance`.
pub open spec fn context_info() -> Seq<u8> {
    seq![0x76u8, 0x6d, 0x2d, 0x69, 0x6e, 0x73, 0x74, 0x61, 0x6e, 0x63, 0x65]
}

/// The key that `secret` gives: derived with an empty salt for the context
/// of this store.
pub open spec fn context_key(secret: Seq<u8>) -> Seq<u8> {
    hkdf_sha512(Seq::empty(), secret, context_info())
}

/// The sealed text of `plaintext` under `key` with the nonce `nonce`: the
/// ciphertext, the tag, then the nonce itself.
pub open spec fn sealed_with(key: Seq<u8>, nonce: Seq<u8>, plaintext: Seq<u8>) -> Option<Seq<u8>> {
    match aes_256_gcm_encrypt(key, nonce, plaintext) {
        Some(sealed) => Some(sealed + nonce),
        None => None,
    }
}

/// The plaintext of a sealed text under `key`: the last `NONCE_SIZE` bytes
/// are taken as the nonce, and what stands before them is decrypted. A text
/// too short to hold a nonce opens to nothing.
pub open spec fn opened(key: Seq<u8>, sealed: Seq<u8>) -> Option<Seq<u8>> {
    if sealed.len() < NONCE_SIZE {
        None
    } else {
        let split = sealed.len() - NONCE_SIZE;
        aes_256_gcm_decrypt(
            key,
            sealed.subrange(split, sealed.len() as int),
            sealed.subrange(0, split),
        )
    }
}

/// A key with which records are sealed and opened.
pub struct AeadContext {
    key: [u8; KEY_SIZE],
}

/// Derives the key of this store from `secret`.
pub fn aead_ctx_from_secret(secret: &[u8]) -> (ctx: Result<AeadContext, Error>)
    ensures
        ctx matches Ok(c) && c.spec_key() == context_key(secret@),
{
    let info: [u8; 11] = [0x76, 0x6d, 0x2d, 0x69, 0x6e, 0x73, 0x74, 0x61, 0x6e, 0x63, 0x65];
    assert(info@ =~= context_info());
    let salt: Vec<u8> = Vec::new();
    match hkdf_sha512_expand(salt.as_slice(), secret, &info) {
        Some(key) => Ok(AeadContext { key }),
        None => Err(Error::BoringSslFailed),
    }
}

impl AeadContext {
    /// The bytes of the key.
    pub closed spec fn spec_key(&self) -> Seq<u8> {
        self.key@
    }

    /// By how many bytes sealing lengthens a text.
    pub fn max_overhead() -> (overhead: usize)
        ensures
            overhead == MAX_OVERHEAD,
    {
        MAX_OVERHEAD
    }

    /// Seals `plaintext` with the nonce `nonce`.
    pub fn seal_with_nonce(&self, nonce: &[u8; NONCE_SIZE], plaintext: &[u8]) -> (sealed: Result<
        Vec<u8>,
        Error,
    >)
        ensures
            match sealed_with(self.spec_key(), nonce@, plaintext@) {
                Some(s) => sealed matches Ok(v) && v@ == s,
                None => sealed matches Err(e) && e == Error::BoringSslFailed,
            },
            plaintext@.len() <= MAX_PLAINTEXT ==> sealed is Ok,
            sealed matches Ok(v) ==> {
                &&& v@.len() == plaintext@.len() + MAX_OVERHEAD
                &&& opened(self.spec_key(), v@) == Some(plaintext@)
            },
    {
        match aes_gcm_encrypt(&self.key, nonce, plaintext) {
            Some(mut sealed) => {
                let ghost inner = sealed@;
                append(&mut sealed, nonce);
                proof {
                    let split = sealed@.len() - NONCE_SIZE;
                    assert(sealed@.subrange(split, sealed@.len() as int) =~= nonce@);
                    assert(sealed@.subrange(0, split) =~= inner);
                }
                Ok(sealed)
            },
            None => Err(Error::BoringSslFailed),
        }
    }

    /// Seals `plaintext` with a nonce drawn for this one use. Whatever nonce
    /// is drawn, a sealed text that comes back opens to `plaintext` under
    /// the same key.
    pub fn seal(&self, plaintext: &[u8]) -> (sealed: Result<Vec<u8>, Error>)
        ensures
            sealed matches Ok(v) ==> {
                &&& v@.len() == plaintext@.len() + MAX_OVERHEAD
                &&& opened(self.spec_key(), v@) == Some(plaintext@)
            },
            sealed matches Err(e) ==> e == Error::BoringSslFailed,
    {
        match fresh_nonce() {
            Some(nonce) => self.seal_with_nonce(&nonce, plaintext),
            None => Err(Error::BoringSslFailed),
        }
    }

    /// Opens a sealed text. Nothing comes back of a text that the key does
    /// not authenticate.
    pub fn open(&self, sealed: &[u8]) -> (plaintext: Result<Vec<u8>, Error>)
        ensures
            match opened(self.spec_key(), sealed@) {
                Some(p) => plaintext matches Ok(v) && v@ == p,
                None => plaintext matches Err(e) && e == Error::BoringSslFailed,
            },
            plaintext matches Ok(v) ==> v@.len() + MAX_OVERHEAD == sealed@.len(),
    {
        if sealed.len() < NONCE_SIZE {
            return Err(Error::BoringSslFailed);
        }
        let split: usize = sealed.len() - NONCE_SIZE;
        let nonce: [u8; NONCE_SIZE] = array_at(sealed, split);
        match aes_gcm_decrypt(&self.key, &nonce, slice_subrange(sealed, 0, split)) {
            Some(plaintext) => Ok(plaintext),
            None => Err(Error::BoringSslFailed),
        }
    }
}

} // verus!
