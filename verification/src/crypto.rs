//! The cryptographic primitives that the launcher calls: SHA-256, hex
//! encoding, AES-256-GCM and random nonces.

use vstd::prelude::*;
use aes_gcm::aead::rand_core::RngCore;
use aes_gcm::aead::{Aead, KeyInit, OsRng};
use aes_gcm::{Aes256Gcm, Key, Nonce};
use sha2::Digest;

verus! {

/// The SHA-256 digest of `data`.
pub uninterp spec fn sha256(data: Seq<u8>) -> Seq<u8>;

/// Hashes `data` with `sha2::Sha256::digest`. The contract names the digest
/// as a function of `data` and claims that it is 32 bytes long.
#[verifier::external_body]
pub(crate) fn sha256_digest(data: &[u8]) -> (res: Vec<u8>)
    ensures
        res@ == sha256(data@),
        res@.len() == 32,
{
    sha2::Sha256::digest(data).to_vec()
}

/// The lowercase hexadecimal digit of a number below 16.
pub open spec fn hex_digit(n: u8) -> char {
    if n < 10 {
        (n + 48) as char
    } else {
        (n + 87) as char
    }
}

/// The lowercase hexadecimal text of `data`: two digits per byte, the high
/// half first.
pub open spec fn hex_lower(data: Seq<u8>) -> Seq<char>
    decreases data.len(),
{
    if data.len() == 0 {
        seq![]
    } else {
        seq![hex_digit(data[0] / 16), hex_digit(data[0] % 16)] + hex_lower(data.drop_first())
    }
}

/// Encodes `data` with `hex::encode`. The contract claims the lowercase text,
/// two digits per byte, high half first, as that function's source writes it.
#[verifier::external_body]
pub(crate) fn hex_encode(data: &[u8]) -> (res: String)
    ensures
        res@ == hex_lower(data@),
{
    hex::encode(data)
}

/// The largest plaintext, in bytes, that AES-GCM encrypts.
pub open spec fn max_plaintext_len() -> nat {
    68719476736
}

/// The AES-256-GCM ciphertext, tag appended, of `plaintext` under `key` and
/// `nonce`, with no associated data.
pub uninterp spec fn aes256gcm_seal(key: Seq<u8>, nonce: Seq<u8>, plaintext: Seq<u8>) -> Seq<u8>;

/// The AES-256-GCM plaintext of `ciphertext` under `key` and `nonce`, with no
/// associated data, or nothing when the tag does not match.
pub uninterp spec fn aes256gcm_open(key: Seq<u8>, nonce: Seq<u8>, ciphertext: Seq<u8>) -> Option<Seq<u8>>;

/// Encrypts with `aes_gcm::Aes256Gcm`'s `Aead::encrypt`. The contract claims
/// what the crate's source shows: it fails exactly when the plaintext is
/// longer than 2^36 bytes, and otherwise gives the named ciphertext, 16 bytes
/// longer than the plaintext.
#[verifier::external_body]
pub(crate) fn aes256gcm_encrypt(key: &[u8], nonce: &[u8], plaintext: &[u8]) -> (res: Option<Vec<u8>>)
    requires
        key@.len() == 32,
        nonce@.len() == 12,
    ensures
        res is Some <==> plaintext@.len() <= max_plaintext_len(),
        res matches Some(c) ==> c@ == aes256gcm_seal(key@, nonce@, plaintext@),
        res matches Some(c) ==> c@.len() == plaintext@.len() + 16,
{
    let cipher = Aes256Gcm::new(Key::<Aes256Gcm>::from_slice(key));
    cipher.encrypt(Nonce::from_slice(nonce), plaintext).ok()
}

/// Decrypts with `aes_gcm::Aes256Gcm`'s `Aead::decrypt`. The contract claims
/// the named result; that a plaintext is 16 bytes shorter than its
/// ciphertext; and, as the crate's source shows (the tag is recomputed over
/// the same bytes and the same keystream is applied again), that a
/// ciphertext made by encrypting a plaintext under the same key and nonce
/// gives that plaintext back.
#[verifier::external_body]
pub(crate) fn aes256gcm_decrypt(key: &[u8], nonce: &[u8], ciphertext: &[u8]) -> (res: Option<Vec<u8>>)
    requires
        key@.len() == 32,
        nonce@.len() == 12,
    ensures
        res is Some <==> aes256gcm_open(key@, nonce@, ciphertext@) is Some,
        res matches Some(p) ==> aes256gcm_open(key@, nonce@, ciphertext@) == Some(p@),
        res matches Some(p) ==> p@.len() + 16 == ciphertext@.len(),
        forall|p: Seq<u8>|
            p.len() <= max_plaintext_len() && ciphertext@ == #[trigger] aes256gcm_seal(
                key@,
                nonce@,
                p,
            ) ==> res is Some && res->Some_0@ == p,
{
    let cipher = Aes256Gcm::new(Key::<Aes256Gcm>::from_slice(key));
    cipher.decrypt(Nonce::from_slice(nonce), ciphertext).ok()
}

/// Draws a fresh 12-byte nonce from the operating system's random source
/// with `OsRng::try_fill_bytes`, the fallible form of the fill that
/// `Aes256Gcm::generate_nonce` makes. The contract claims only the length;
/// the bytes are random, and nothing comes back when the source fails.
#[verifier::external_body]
pub(crate) fn random_nonce() -> (res: Option<Vec<u8>>)
    ensures
        res matches Some(n) ==> n@.len() == 12,
{
    let mut nonce = [0u8; 12];
    OsRng.try_fill_bytes(&mut nonce).ok().map(|_| nonce.to_vec())
}

/// The hexadecimal text of `data` is twice as long as `data`, and made of
/// digits and lowercase letters `a` to `f`.
pub proof fn lemma_hex_lower_shape(data: Seq<u8>)
    ensures
        hex_lower(data).len() == 2 * data.len(),
        forall|i: int|
            0 <= i < hex_lower(data).len() ==> {
                let c = #[trigger] hex_lower(data)[i];
                ('0' <= c && c <= '9') || ('a' <= c && c <= 'f')
            },
    decreases data.len(),
{
    if data.len() > 0 {
        lemma_hex_lower_shape(data.drop_first());
        let h = seq![hex_digit(data[0] / 16), hex_digit(data[0] % 16)];
        let t = hex_lower(data.drop_first());
        assert forall|i: int| 0 <= i < hex_lower(data).len() implies {
            let c = #[trigger] hex_lower(data)[i];
            ('0' <= c && c <= '9') || ('a' <= c && c <= 'f')
        } by {
            if i >= 2 {
                assert(hex_lower(data)[i] == t[i - 2]);
            }
        }
    }
}

} // verus!
