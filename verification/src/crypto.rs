//! Keys, signatures and sealed data.

use vstd::prelude::*;

use crate::encoding;

verus! {

/// The length of a symmetric key, in bytes.
pub const KEY_LEN: usize = 32;

/// The length of an XChaCha20-Poly1305 nonce, in bytes.
pub const NONCE_LEN: usize = 24;

/// The length of the tag behind sealed data, in bytes.
pub const TAG_LEN: usize = 16;

/// The most bytes that one nonce can seal: the cipher counts blocks of 64 bytes
/// in 32 bits, and the first of them is not for data.
pub const MAX_SEALED_BYTES: u64 = 274_877_906_816;

/// What PBKDF2 with HMAC-SHA-256 makes of a password and a salt.
pub uninterp spec fn pbkdf2_sha256(password: Seq<u8>, salt: Seq<u8>, rounds: u32) -> Seq<u8>;

/// What XChaCha20-Poly1305 makes of a text under a key and a nonce.
pub uninterp spec fn sealed(key: Seq<u8>, nonce: Seq<u8>, text: Seq<u8>) -> Seq<u8>;

/// What XChaCha20-Poly1305 opens under a key and a nonce.
pub uninterp spec fn opened(key: Seq<u8>, nonce: Seq<u8>, bytes: Seq<u8>) -> Option<Seq<u8>>;

/// The 32 secret bytes of the Ed25519 key that a PKCS#8 document holds.
pub uninterp spec fn pkcs8_seed(der: Seq<u8>) -> Option<Seq<u8>>;

/// The Ed25519 signature of a message.
pub uninterp spec fn ed25519_signature(seed: Seq<u8>, message: Seq<u8>) -> Seq<u8>;

/// The SHA-512 digest of some bytes.
pub uninterp spec fn sha512(bytes: Seq<u8>) -> Seq<u8>;

/// What a Curve25519 secret key opens of a sealed box.
pub uninterp spec fn unsealed(secret: Seq<u8>, bytes: Seq<u8>) -> Option<Seq<u8>>;

/// Calls `pbkdf2::pbkdf2_hmac` over `sha2::Sha256` for a key of 32 bytes. The
/// key is fixed by the password, the salt and the number of rounds.
#[verifier::external_body]
pub(crate) fn derive_key(password: &[u8], salt: &[u8], rounds: u32) -> (r: Vec<u8>)
    ensures
        r@ == pbkdf2_sha256(password@, salt@, rounds),
        r@.len() == KEY_LEN,
{
    let mut key = vec![0u8; KEY_LEN];
    pbkdf2::pbkdf2_hmac::<sha2::Sha256>(password, salt, rounds, &mut key);
    key
}

/// Calls `encrypt` of `chacha20poly1305::XChaCha20Poly1305`. The result is
/// fixed by the key, the nonce and the text; it is 16 bytes longer than the
/// text and opens to it under the same key and nonce. A key or a nonce of
/// another length makes the call panic, and a longer text makes it panic or
/// fail; it fails on no other.
#[verifier::external_body]
pub(crate) fn seal(key: &[u8], nonce: &[u8], text: &[u8]) -> (r: Vec<u8>)
    requires
        key@.len() == KEY_LEN,
        nonce@.len() == NONCE_LEN,
        text@.len() <= MAX_SEALED_BYTES,
    ensures
        r@ == sealed(key@, nonce@, text@),
        r@.len() == text@.len() + TAG_LEN,
        opened(key@, nonce@, r@) == Some(text@),
{
    let key = chacha20poly1305::Key::from_slice(key);
    let cipher = <chacha20poly1305::XChaCha20Poly1305 as chacha20poly1305::KeyInit>::new(key);
    let nonce = chacha20poly1305::XNonce::from_slice(nonce);
    chacha20poly1305::aead::Aead::encrypt(&cipher, nonce, text).unwrap()
}

/// Calls `decrypt` of `chacha20poly1305::XChaCha20Poly1305`. The result is
/// fixed by the key, the nonce and the bytes; what it opens to is 16 bytes
/// shorter than they are. A key or a nonce of another length makes the call
/// panic, and so may more bytes. That no other bytes than sealed ones open is
/// not claimed.
#[verifier::external_body]
pub(crate) fn open(key: &[u8], nonce: &[u8], bytes: &[u8]) -> (r: Option<Vec<u8>>)
    requires
        key@.len() == KEY_LEN,
        nonce@.len() == NONCE_LEN,
        bytes@.len() <= MAX_SEALED_BYTES,
    ensures
        encoding::opt_bytes(r) == opened(key@, nonce@, bytes@),
        r matches Some(text) ==> text@.len() + TAG_LEN == bytes@.len(),
{
    let key = chacha20poly1305::Key::from_slice(key);
    let cipher = <chacha20poly1305::XChaCha20Poly1305 as chacha20poly1305::KeyInit>::new(key);
    let nonce = chacha20poly1305::XNonce::from_slice(nonce);
    chacha20poly1305::aead::Aead::decrypt(&cipher, nonce, bytes).ok()
}

/// Fills bytes from `rand::rng`. Of every outcome only the length is known.
#[verifier::external_body]
pub(crate) fn random_bytes(len: usize) -> (r: Vec<u8>)
    ensures
        r@.len() == len,
{
    let mut bytes = vec![0u8; len];
    rand::RngCore::fill_bytes(&mut rand::rng(), &mut bytes);
    bytes
}

/// Calls `from_pkcs8_der` of `ed25519_dalek::SigningKey` and takes its 32
/// secret bytes. The result is fixed by the document.
#[verifier::external_body]
pub(crate) fn seed_from_pkcs8(der: &[u8]) -> (r: Option<Vec<u8>>)
    ensures
        encoding::opt_bytes(r) == pkcs8_seed(der@),
        r matches Some(seed) ==> seed@.len() == 32,
{
    let key = ed25519_dalek::pkcs8::DecodePrivateKey::from_pkcs8_der(der).ok()?;
    Some(ed25519_dalek::SigningKey::to_bytes(&key).to_vec())
}

/// Calls `sign` of the `ed25519_dalek::SigningKey` with the given secret
/// bytes. The 64 bytes of the signature are fixed by them and the message. The
/// call panics where there are not 32 secret bytes.
#[verifier::external_body]
pub(crate) fn sign(seed: &[u8], message: &[u8]) -> (r: Vec<u8>)
    requires
        seed@.len() == 32,
    ensures
        r@ == ed25519_signature(seed@, message@),
        r@.len() == 64,
{
    let key = ed25519_dalek::SigningKey::from_bytes(seed.try_into().unwrap());
    ed25519_dalek::Signer::sign(&key, message).to_bytes().to_vec()
}

/// Calls `sha2::Sha512::digest`. The 64 bytes are fixed by the input.
#[verifier::external_body]
pub(crate) fn sha512_digest(bytes: &[u8]) -> (r: Vec<u8>)
    ensures
        r@ == sha512(bytes@),
        r@.len() == 64,
{
    <sha2::Sha512 as sha2::Digest>::digest(bytes).to_vec()
}

/// Calls `unseal` of the `crypto_box::SecretKey` with the given bytes. The
/// result is fixed by them and the sealed box. The call panics where there are
/// not 32 secret bytes.
#[verifier::external_body]
pub(crate) fn unseal(secret: &[u8], bytes: &[u8]) -> (r: Option<Vec<u8>>)
    requires
        secret@.len() == 32,
    ensures
        encoding::opt_bytes(r) == unsealed(secret@, bytes@),
{
    let secret: [u8; 32] = secret.try_into().unwrap();
    crypto_box::SecretKey::from_bytes(secret).unseal(bytes).ok()
}

/// Calls `String::from_utf8`: text exactly where the bytes are valid UTF-8,
/// and then the text that they encode.
#[verifier::external_body]
pub(crate) fn utf8_text(bytes: Vec<u8>) -> (r: Option<String>)
    ensures
        r is Some <==> vstd::utf8::valid_utf8(bytes@),
        r matches Some(s) ==> s@ == vstd::utf8::decode_utf8(bytes@),
{
    String::from_utf8(bytes).ok()
}

} // verus!
