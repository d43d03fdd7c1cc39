//! Authenticated encryption of shards, nonce derivation and key checking.
//!
//! The AEAD nonce is never transmitted: sender and receiver both derive it
//! as `session_id (2, BE) ‖ shard_index (2, BE) ‖ eight zero bytes`.

use chacha20poly1305::aead::{AeadInPlace, KeyInit};
use chacha20poly1305::{ChaCha20Poly1305, Key, Nonce};
use vstd::prelude::*;
use vstd::string::StringExecFns;

use crate::error::FiudpError;
use crate::protocol::{lemma_be_u16_injective, NONCE_SIZE, TAG_SIZE};
use crate::types::{be_u16, SessionId, ShardIndex};

verus! {

/// Size of the pre-shared key in bytes (256 bits).
pub const KEY_SIZE: usize = 32;

/// The nonce of shard `shard_index` in session `session_id`.
pub open spec fn nonce_bytes(session_id: u16, shard_index: u16) -> Seq<u8> {
    be_u16(session_id) + be_u16(shard_index) + Seq::new(8, |i: int| 0u8)
}

/// Lets the error of the `aead` traits travel through the wrapper below.
#[verifier::external_type_specification]
#[verifier::external_body]
pub struct ExAeadError(chacha20poly1305::aead::Error);

/// Ciphertext and Poly1305 tag that ChaCha20-Poly1305 (RFC 8439) yields for
/// a key, a nonce, associated data and a plaintext.
pub uninterp spec fn chacha20poly1305_seal(
    key: Seq<u8>,
    nonce: Seq<u8>,
    aad: Seq<u8>,
    plaintext: Seq<u8>,
) -> (Seq<u8>, Seq<u8>);

/// Plaintext lengths that ChaCha20-Poly1305 encrypts: the keystream left
/// after the Poly1305 key block, `u32::MAX - 1` blocks of 64 bytes, covers
/// every started block of the plaintext.
pub open spec fn chacha20poly1305_accepts(len: nat) -> bool {
    (len + 63) / 64 <= 0xffff_fffe
}

/// Plaintext lengths that the crate's own length check rejects before any
/// keystream is applied: `u32::MAX` whole blocks or more.
pub open spec fn chacha20poly1305_length_rejected(len: nat) -> bool {
    len / 64 >= 0xffff_ffff
}

/// Encrypts `buffer` in place with `ChaCha20Poly1305::encrypt_in_place_detached`
/// under a cipher made by `ChaCha20Poly1305::new` from `key`, and returns the tag.
///
/// Trusted: the buffer then holds the first component and the tag is the
/// second component of [`chacha20poly1305_seal`] of the arguments; the call
/// fails, leaving the buffer as it was, exactly when the length check at the
/// top of the crate's `Cipher::encrypt_in_place_detached` rejects the buffer.
/// Lengths that pass that check but need more keystream than is left make
/// `apply_keystream` panic; `requires` leaves them out.
#[verifier::external_body]
fn chacha20poly1305_encrypt_detached(
    key: &[u8; KEY_SIZE],
    nonce: &[u8; NONCE_SIZE],
    aad: &[u8],
    buffer: &mut [u8],
) -> (r: Result<[u8; TAG_SIZE], chacha20poly1305::aead::Error>)
    requires
        chacha20poly1305_accepts(old(buffer)@.len()) || chacha20poly1305_length_rejected(
            old(buffer)@.len(),
        ),
    ensures
        final(buffer)@.len() == old(buffer)@.len(),
        chacha20poly1305_accepts(old(buffer)@.len()) <==> r is Ok,
        r is Ok ==> (final(buffer)@, r->Ok_0@) == chacha20poly1305_seal(
            key@,
            nonce@,
            aad@,
            old(buffer)@,
        ),
        r is Err ==> final(buffer)@ == old(buffer)@,
{
    let cipher = ChaCha20Poly1305::new(Key::from_slice(key));
    let tag = cipher.encrypt_in_place_detached(Nonce::from_slice(nonce), aad, buffer)?;
    let mut tag_bytes = [0u8; TAG_SIZE];
    tag_bytes.copy_from_slice(tag.as_slice());
    Ok(tag_bytes)
}

/// The `Debug` text of an `aead::Error`, formatted with `format!`.
///
/// Trusted: `aead::Error` is a unit struct with a derived `Debug`, whose
/// text is its name.
#[verifier::external_body]
fn aead_error_text(err: &chacha20poly1305::aead::Error) -> (r: String)
    ensures
        r@ == "Error"@,
{
    format!("{err:?}")
}

/// AEAD encryption of one shard.
///
/// `sealed` gives the ciphertext and tag that an implementation produces;
/// `accepts` gives the plaintext lengths on which it succeeds.
pub trait Encryptor {
    /// Ciphertext and tag for a nonce, associated data and plaintext.
    spec fn sealed(&self, nonce: Seq<u8>, aad: Seq<u8>, plaintext: Seq<u8>) -> (Seq<u8>, Seq<u8>);

    /// Whether a plaintext of `len` bytes is encrypted successfully.
    spec fn accepts(&self, len: nat) -> bool;

    /// Holds when encrypting `plaintext` can fail with `err`.
    spec fn rejects(&self, nonce: Seq<u8>, aad: Seq<u8>, plaintext: Seq<u8>, err: FiudpError) -> bool;

    /// Encrypt `buffer` in place and return the authentication tag.
    fn encrypt_in_place(
        &self,
        nonce: &[u8; NONCE_SIZE],
        aad: &[u8],
        buffer: &mut [u8],
    ) -> (r: Result<[u8; TAG_SIZE], FiudpError>)
        ensures
            final(buffer)@.len() == old(buffer)@.len(),
            self.accepts(old(buffer)@.len() as nat) ==> r is Ok,
            r is Ok ==> (final(buffer)@, r->Ok_0@) == self.sealed(nonce@, aad@, old(buffer)@),
            r matches Err(e) ==> self.rejects(nonce@, aad@, old(buffer)@, e),
    ;
}

/// ChaCha20-Poly1305 encryption under a 256-bit pre-shared key.
///
/// The cipher is instantiated from the key for each shard it encrypts.
pub struct ChaChaEncryptor {
    key: [u8; KEY_SIZE],
}

impl ChaChaEncryptor {
    /// The pre-shared key of this encryptor.
    pub closed spec fn key(&self) -> Seq<u8> {
        self.key@
    }

    /// Create an encryptor from a 32-byte pre-shared key.
    pub fn new(key: [u8; KEY_SIZE]) -> (r: Self)
        ensures
            r.key() == key@,
    {
        ChaChaEncryptor { key }
    }
}

impl Encryptor for ChaChaEncryptor {
    open spec fn sealed(&self, nonce: Seq<u8>, aad: Seq<u8>, plaintext: Seq<u8>) -> (Seq<u8>, Seq<u8>) {
        chacha20poly1305_seal(self.key(), nonce, aad, plaintext)
    }

    open spec fn accepts(&self, len: nat) -> bool {
        chacha20poly1305_accepts(len)
    }

    open spec fn rejects(&self, nonce: Seq<u8>, aad: Seq<u8>, plaintext: Seq<u8>, err: FiudpError) -> bool {
        &&& !chacha20poly1305_accepts(plaintext.len())
        &&& err matches FiudpError::Encryption(msg) && msg@ == "Error"@
    }

    /// Fails with `Encryption("Error")`, the text of the AEAD error, on every
    /// plaintext whose keystream does not fit the cipher; those the cipher's
    /// length check would let through are refused here before the call.
    fn encrypt_in_place(
        &self,
        nonce: &[u8; NONCE_SIZE],
        aad: &[u8],
        buffer: &mut [u8],
    ) -> (r: Result<[u8; TAG_SIZE], FiudpError>)
        ensures
            chacha20poly1305_accepts(old(buffer)@.len() as nat) <==> r is Ok,
            r is Ok ==> (final(buffer)@, r->Ok_0@) == chacha20poly1305_seal(
                self.key(),
                nonce@,
                aad@,
                old(buffer)@,
            ),
            r is Err ==> final(buffer)@ == old(buffer)@,
            r is Err ==> (r matches Err(FiudpError::Encryption(msg)) && msg@ == "Error"@),
    {
        let len: usize = buffer.len();
        let blocks: usize = len / 64 + if len % 64 != 0 { 1 } else { 0 };
        if blocks > 0xffff_fffe {
            return Err(FiudpError::Encryption(String::from_str("Error")));
        }
        match chacha20poly1305_encrypt_detached(&self.key, nonce, aad, buffer) {
            Ok(tag) => Ok(tag),
            Err(err) => Err(FiudpError::Encryption(aead_error_text(&err))),
        }
    }
}

/// An encryptor made from a key seals under exactly that key: for every
/// nonce, associated data and plaintext its ciphertext and tag are those of
/// ChaCha20-Poly1305 under the key given to [`ChaChaEncryptor::new`]
/// (whose `ensures` ties [`ChaChaEncryptor::key`] to it), byte for byte.
pub proof fn law_chacha_seals_under_its_key(
    encryptor: ChaChaEncryptor,
    nonce: Seq<u8>,
    aad: Seq<u8>,
    plaintext: Seq<u8>,
)
    ensures
        encryptor.sealed(nonce, aad, plaintext) == chacha20poly1305_seal(
            encryptor.key(),
            nonce,
            aad,
            plaintext,
        ),
        encryptor.accepts(plaintext.len()) <==> (plaintext.len() + 63) / 64 <= 0xffff_fffe,
{
}

/// Derive the 12-byte nonce of shard `shard_index` in session `session_id`.
pub fn derive_nonce(session_id: SessionId, shard_index: ShardIndex) -> (r: [u8; NONCE_SIZE])
    ensures
        r@ == nonce_bytes(session_id@, shard_index@),
{
    let s = session_id.to_be_bytes();
    let i = shard_index.to_be_bytes();
    let r = [s[0], s[1], i[0], i[1], 0u8, 0u8, 0u8, 0u8, 0u8, 0u8, 0u8, 0u8];
    assert(r@ =~= nonce_bytes(session_id@, shard_index@));
    r
}

/// Check the raw contents of a key file: exactly 32 bytes make the key.
pub fn key_from_bytes(bytes: &[u8]) -> (r: Result<[u8; KEY_SIZE], FiudpError>)
    ensures
        bytes@.len() == KEY_SIZE <==> r is Ok,
        r is Ok ==> r->Ok_0@ == bytes@,
        r is Err ==> r == Err::<[u8; KEY_SIZE], FiudpError>(
            FiudpError::InvalidKeyLength(bytes@.len() as usize),
        ),
{
    if bytes.len() != KEY_SIZE {
        return Err(FiudpError::InvalidKeyLength(bytes.len()));
    }
    let mut key = [0u8; KEY_SIZE];
    let mut k: usize = 0;
    while k < KEY_SIZE
        invariant
            k <= KEY_SIZE,
            bytes@.len() == KEY_SIZE,
            forall|j: int| 0 <= j < k ==> key@[j] == bytes@[j],
        decreases KEY_SIZE - k,
    {
        key[k] = bytes[k];
        k = k + 1;
    }
    assert(key@ =~= bytes@);
    Ok(key)
}

/// Nonces are unique per (session, shard): two shards get the same nonce
/// only when they have the same session identifier and shard index, so a
/// strictly increasing session identifier never reuses a nonce under a key.
pub proof fn law_nonce_unique(session_a: u16, index_a: u16, session_b: u16, index_b: u16)
    ensures
        nonce_bytes(session_a, index_a).len() == NONCE_SIZE,
        nonce_bytes(session_a, index_a) == nonce_bytes(session_b, index_b) ==> session_a
            == session_b && index_a == index_b,
{
    let a = nonce_bytes(session_a, index_a);
    let b = nonce_bytes(session_b, index_b);
    if a == b {
        assert(a.subrange(0, 2) =~= be_u16(session_a));
        assert(b.subrange(0, 2) =~= be_u16(session_b));
        assert(a.subrange(2, 4) =~= be_u16(index_a));
        assert(b.subrange(2, 4) =~= be_u16(index_b));
        lemma_be_u16_injective(session_a, session_b);
        lemma_be_u16_injective(index_a, index_b);
    }
}

} // verus!
