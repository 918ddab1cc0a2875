//! The encrypted file that holds a whole store.
//!
//! The file starts with four magic bytes, a version, a salt and a nonce. What
//! follows is the store as a JSON document, compressed and encrypted under a key
//! that is derived from a passphrase and the salt.

use vstd::prelude::*;

use crate::crypto;
use crate::encoding;
use crate::numerals;
use crate::text;

verus! {

pub const FULL_FILE_VERSION: u8 = 1;

pub const FULL_SALT_LEN: usize = 16;

pub const FULL_NONCE_LEN: usize = 24;

/// Where the encrypted part of a file starts.
pub const FULL_HEADER_LEN: usize = 45;

pub const FULL_KDF_ITERATIONS: u32 = 210_000;

pub const FULL_PRESET_PASSPHRASE: &'static str =
    "gT7kQ9mV2xN4pL8sR1dH6zW3cB5yF0uJ_aE7nK2tP9vM4rX1";

/// The largest JSON document that is taken over.
pub const MAX_IMPORT_JSON_BYTES: u64 = 2_097_152;

/// The largest encrypted file that is taken over.
pub const MAX_IMPORT_FILE_BYTES: u64 = 8_388_608;

/// The bytes that a file starts with: `CSWF`.
pub open spec fn magic() -> Seq<u8> {
    seq![67u8, 83u8, 87u8, 70u8]
}

// ---------------------------------------------------------------------------
// Compression
// ---------------------------------------------------------------------------

/// Why compressed data cannot be read
#[derive(Debug, Clone, PartialEq, Eq)]
pub enum InflateError {
    /// What is wrong with it
    Broken(String),
    TooLarge,
}

/// What is wrong with compressed data.
pub enum InflateProblem {
    Broken(Seq<char>),
    TooLarge,
}

impl View for InflateError {
    type V = InflateProblem;

    open spec fn view(&self) -> InflateProblem {
        match self {
            InflateError::Broken(cause) => InflateProblem::Broken(cause@),
            InflateError::TooLarge => InflateProblem::TooLarge,
        }
    }
}

/// What compressed data holds, where it is no longer than `max_bytes`.
pub open spec fn inflated(input: Seq<u8>, max_bytes: u64) -> Result<Seq<u8>, InflateProblem> {
    match encoding::zlib_inflated(input, (max_bytes + 1) as u64) {
        Err(cause) => Err(InflateProblem::Broken(cause)),
        Ok(bytes) => if bytes.len() > max_bytes {
            Err(InflateProblem::TooLarge)
        } else {
            Ok(bytes)
        },
    }
}

/// What compressed data holds, where it is no longer than `max_bytes`.
pub fn decompress_bytes_with_limit(input: &[u8], max_bytes: u64) -> (r: Result<
    Vec<u8>,
    InflateError,
>)
    requires
        max_bytes < u64::MAX,
    ensures
        match r {
            Ok(bytes) => inflated(input@, max_bytes) == Ok::<Seq<u8>, InflateProblem>(bytes@),
            Err(error) => inflated(input@, max_bytes) == Err::<Seq<u8>, InflateProblem>(error@),
        },
{
    match encoding::zlib_inflate(input, max_bytes + 1) {
        Err(cause) => Err(InflateError::Broken(cause)),
        Ok(bytes) => {
            if bytes.len() as u64 > max_bytes {
                Err(InflateError::TooLarge)
            } else {
                Ok(bytes)
            }
        },
    }
}

/// The data in compressed form. What comes out is not empty and holds the data
/// again.
pub fn compress_bytes(input: &[u8]) -> (r: Option<Vec<u8>>)
    ensures
        encoding::opt_bytes(r) == encoding::zlib_compressed(input@),
        r matches Some(out) ==> out@.len() > 0,
        r matches Some(out) ==> forall|max_bytes: u64|
            max_bytes < u64::MAX ==> #[trigger] inflated(out@, max_bytes) == (if input@.len()
                <= max_bytes {
                Ok::<Seq<u8>, InflateProblem>(input@)
            } else {
                Err::<Seq<u8>, InflateProblem>(InflateProblem::TooLarge)
            }),
{
    let r = encoding::zlib_compress(input);
    proof {
        if r is Some {
            let out = r->0@;
            assert forall|max_bytes: u64| max_bytes < u64::MAX implies #[trigger] inflated(
                out,
                max_bytes,
            ) == (if input@.len() <= max_bytes {
                Ok::<Seq<u8>, InflateProblem>(input@)
            } else {
                Err::<Seq<u8>, InflateProblem>(InflateProblem::TooLarge)
            }) by {
                let limit = (max_bytes + 1) as u64;
                assert(encoding::zlib_inflated(out, limit) is Ok);
                assert(input@.take(input@.len() as int) =~= input@);
            }
        }
    }
    r
}

// ---------------------------------------------------------------------------
// Bytes
// ---------------------------------------------------------------------------

fn push_bytes(out: &mut Vec<u8>, bytes: &[u8])
    ensures
        final(out)@ == old(out)@ + bytes@,
{
    let mut i: usize = 0;
    assert(out@ =~= old(out)@ + bytes@.take(0));
    while i < bytes.len()
        invariant
            i <= bytes@.len(),
            out@ == old(out)@ + bytes@.take(i as int),
        decreases bytes@.len() - i,
    {
        out.push(bytes[i]);
        i = i + 1;
        assert(out@ =~= old(out)@ + bytes@.take(i as int));
    }
    assert(bytes@.take(bytes@.len() as int) =~= bytes@);
}

/// The bytes from `from` up to `to`.
pub fn byte_range(bytes: &[u8], from: usize, to: usize) -> (r: Vec<u8>)
    requires
        from <= to <= bytes@.len(),
    ensures
        r@ == bytes@.subrange(from as int, to as int),
{
    let mut r: Vec<u8> = Vec::new();
    let mut i: usize = from;
    while i < to
        invariant
            from <= i <= to <= bytes@.len(),
            r@ == bytes@.subrange(from as int, i as int),
        decreases to - i,
    {
        r.push(bytes[i]);
        i = i + 1;
        assert(r@ =~= bytes@.subrange(from as int, i as int));
    }
    r
}

// ---------------------------------------------------------------------------
// Encryption
// ---------------------------------------------------------------------------

/// The key that a passphrase and a salt make.
pub open spec fn encryption_key(passphrase: Seq<char>, salt: Seq<u8>) -> Seq<u8> {
    crypto::pbkdf2_sha256(vstd::utf8::encode_utf8(passphrase), salt, FULL_KDF_ITERATIONS)
}

/// The key that a passphrase and a salt make.
pub fn derive_encryption_key(passphrase: &str, salt: &[u8]) -> (r: Vec<u8>)
    ensures
        r@ == encryption_key(passphrase@, salt@),
        r@.len() == crypto::KEY_LEN,
{
    crypto::derive_key(passphrase.as_bytes(), salt, FULL_KDF_ITERATIONS)
}

/// Why a store was not written
#[derive(Debug, Clone, Copy, PartialEq, Eq, Structural)]
pub enum ExportError {
    Compression,
    Encryption,
}

impl ExportError {
    pub fn message(&self) -> (r: String)
        ensures
            r@ == (match *self {
                ExportError::Compression => "Failed to compress account store"@,
                ExportError::Encryption => "Failed to encrypt account store"@,
            }),
    {
        match self {
            ExportError::Compression => "Failed to compress account store".to_string(),
            ExportError::Encryption => "Failed to encrypt account store".to_string(),
        }
    }
}

/// The file with the given salt, nonce and encrypted part.
pub open spec fn file_of(salt: Seq<u8>, nonce: Seq<u8>, ciphertext: Seq<u8>) -> Seq<u8> {
    magic() + seq![FULL_FILE_VERSION] + salt + nonce + ciphertext
}

/// The file for a JSON document.
pub open spec fn full_file(
    json: Seq<u8>,
    passphrase: Seq<char>,
    salt: Seq<u8>,
    nonce: Seq<u8>,
) -> Result<Seq<u8>, ExportError> {
    match encoding::zlib_compressed(json) {
        None => Err(ExportError::Compression),
        Some(compressed) => if compressed.len() > crypto::MAX_SEALED_BYTES {
            Err(ExportError::Encryption)
        } else {
            Ok(
                file_of(
                    salt,
                    nonce,
                    crypto::sealed(encryption_key(passphrase, salt), nonce, compressed),
                ),
            )
        },
    }
}

/// Why a file cannot be read
#[derive(Debug, Clone, Copy, PartialEq, Eq, Structural)]
pub enum VaultError {
    TooLarge,
    Truncated,
    BadHeader,
    UnknownVersion(u8),
    Undecryptable,
    Uninflatable,
}

impl VaultError {
    pub open spec fn text(self) -> Seq<char> {
        match self {
            VaultError::TooLarge => "Encrypted file is too large"@,
            VaultError::Truncated => "Encrypted file is invalid or truncated"@,
            VaultError::BadHeader => "Encrypted file header is invalid"@,
            VaultError::UnknownVersion(version) => "Unsupported encrypted file version: "@
                + numerals::decimal_of(version as nat),
            VaultError::Undecryptable => "Failed to decrypt file (wrong passphrase or corrupted file)"@,
            VaultError::Uninflatable => "Failed to decompress decrypted payload"@,
        }
    }

    pub fn message(&self) -> (r: String)
        ensures
            r@ == self.text(),
    {
        match self {
            VaultError::TooLarge => "Encrypted file is too large".to_string(),
            VaultError::Truncated => "Encrypted file is invalid or truncated".to_string(),
            VaultError::BadHeader => "Encrypted file header is invalid".to_string(),
            VaultError::UnknownVersion(version) => {
                let number = numerals::decimal(*version as u64);
                text::joined("Unsupported encrypted file version: ", number.as_str())
            },
            VaultError::Undecryptable => {
                "Failed to decrypt file (wrong passphrase or corrupted file)".to_string()
            },
            VaultError::Uninflatable => "Failed to decompress decrypted payload".to_string(),
        }
    }
}

/// The salt of a file.
pub open spec fn salt_of(file: Seq<u8>) -> Seq<u8> {
    file.subrange(5, 21)
}

/// The nonce of a file.
pub open spec fn nonce_of(file: Seq<u8>) -> Seq<u8> {
    file.subrange(21, 45)
}

/// The JSON document in a file.
pub open spec fn full_contents(file: Seq<u8>, passphrase: Seq<char>) -> Result<
    Seq<u8>,
    VaultError,
> {
    if file.len() > MAX_IMPORT_FILE_BYTES {
        Err(VaultError::TooLarge)
    } else if file.len() <= FULL_HEADER_LEN {
        Err(VaultError::Truncated)
    } else if file.take(4) != magic() {
        Err(VaultError::BadHeader)
    } else if file[4] != FULL_FILE_VERSION {
        Err(VaultError::UnknownVersion(file[4]))
    } else {
        match crypto::opened(
            encryption_key(passphrase, salt_of(file)),
            nonce_of(file),
            file.skip(FULL_HEADER_LEN as int),
        ) {
            None => Err(VaultError::Undecryptable),
            Some(compressed) => match inflated(compressed, MAX_IMPORT_JSON_BYTES) {
                Ok(json) => Ok(json),
                Err(error) => Err(VaultError::Uninflatable),
            },
        }
    }
}

/// The file for a JSON document. What it holds is read back, as long as neither
/// the document nor the file is too large to be taken over.
pub fn seal_document(
    json: &[u8],
    passphrase: &str,
    salt: &[u8],
    nonce: &[u8],
) -> (r: Result<Vec<u8>, ExportError>)
    requires
        salt@.len() == FULL_SALT_LEN,
        nonce@.len() == FULL_NONCE_LEN,
    ensures
        match r {
            Ok(file) => {
                &&& file@.len() > FULL_HEADER_LEN
                &&& full_file(json@, passphrase@, salt@, nonce@) == Ok::<Seq<u8>, ExportError>(
                    file@,
                )
                &&& json@.len() <= MAX_IMPORT_JSON_BYTES && file@.len() <= MAX_IMPORT_FILE_BYTES
                    ==> full_contents(file@, passphrase@) == Ok::<Seq<u8>, VaultError>(json@)
            },
            Err(error) => full_file(json@, passphrase@, salt@, nonce@) == Err::<
                Seq<u8>,
                ExportError,
            >(error),
        },
{
    let compressed = match compress_bytes(json) {
        Some(compressed) => compressed,
        None => {
            return Err(ExportError::Compression);
        },
    };
    if compressed.len() as u64 > crypto::MAX_SEALED_BYTES {
        return Err(ExportError::Encryption);
    }
    let key = derive_encryption_key(passphrase, salt);
    let ciphertext = crypto::seal(key.as_slice(), nonce, compressed.as_slice());
    let mut file: Vec<u8> = Vec::new();
    file.push(67);
    file.push(83);
    file.push(87);
    file.push(70);
    assert(file@ =~= magic());
    file.push(FULL_FILE_VERSION);
    assert(file@ =~= magic() + seq![FULL_FILE_VERSION]);
    push_bytes(&mut file, salt);
    push_bytes(&mut file, nonce);
    push_bytes(&mut file, ciphertext.as_slice());
    proof {
        assert(file@ == file_of(salt@, nonce@, ciphertext@));
        assert(file@.take(4) =~= magic());
        assert(salt_of(file@) =~= salt@);
        assert(nonce_of(file@) =~= nonce@);
        assert(file@.skip(FULL_HEADER_LEN as int) =~= ciphertext@);
        assert(file@[4] == FULL_FILE_VERSION);
        assert(inflated(compressed@, MAX_IMPORT_JSON_BYTES) is Ok || json@.len()
            > MAX_IMPORT_JSON_BYTES);
    }
    Ok(file)
}

/// The file for the JSON document of a store, with a new salt and a new nonce.
pub fn encode_full_encrypted_store(json: &[u8], passphrase: &str) -> (r: Result<
    Vec<u8>,
    ExportError,
>)
    ensures
        match r {
            Ok(file) => {
                &&& file@.len() > FULL_HEADER_LEN
                &&& full_file(json@, passphrase@, salt_of(file@), nonce_of(file@)) == Ok::<
                    Seq<u8>,
                    ExportError,
                >(file@)
                &&& json@.len() <= MAX_IMPORT_JSON_BYTES && file@.len() <= MAX_IMPORT_FILE_BYTES
                    ==> full_contents(file@, passphrase@) == Ok::<Seq<u8>, VaultError>(json@)
            },
            Err(error) => forall|salt: Seq<u8>, nonce: Seq<u8>| #[trigger]
                full_file(json@, passphrase@, salt, nonce) == Err::<Seq<u8>, ExportError>(error),
        },
{
    let salt = crypto::random_bytes(FULL_SALT_LEN);
    let nonce = crypto::random_bytes(FULL_NONCE_LEN);
    let r = seal_document(json, passphrase, salt.as_slice(), nonce.as_slice());
    proof {
        if r is Ok {
            let file = r->Ok_0@;
            let key = encryption_key(passphrase@, salt@);
            let ciphertext = crypto::sealed(key, nonce@, encoding::zlib_compressed(json@)->0);
            assert(file == file_of(salt@, nonce@, ciphertext));
            assert(salt_of(file) =~= salt@);
            assert(nonce_of(file) =~= nonce@);
        } else {
            assert(full_file(json@, passphrase@, salt@, nonce@) is Err);
        }
    }
    r
}

/// The JSON document in a file. One that is too short for a header and the tag of
/// the encrypted part has none.
pub fn decode_full_encrypted_store(file_bytes: &[u8], passphrase: &str) -> (r: Result<
    Vec<u8>,
    VaultError,
>)
    ensures
        match r {
            Ok(json) => full_contents(file_bytes@, passphrase@) == Ok::<Seq<u8>, VaultError>(
                json@,
            ),
            Err(error) => full_contents(file_bytes@, passphrase@) == Err::<Seq<u8>, VaultError>(
                error,
            ),
        },
        file_bytes@.len() < FULL_HEADER_LEN + crypto::TAG_LEN ==> r is Err,
{
    let len: usize = file_bytes.len();
    if len as u64 > MAX_IMPORT_FILE_BYTES {
        return Err(VaultError::TooLarge);
    }
    if len <= FULL_HEADER_LEN {
        return Err(VaultError::Truncated);
    }
    let starts_well = file_bytes[0] == 67 && file_bytes[1] == 83 && file_bytes[2] == 87
        && file_bytes[3] == 70;
    proof {
        if starts_well {
            assert(file_bytes@.take(4) =~= magic());
        } else {
            let m = magic();
            assert(file_bytes@.take(4)[0] == file_bytes@[0]);
            assert(file_bytes@.take(4)[1] == file_bytes@[1]);
            assert(file_bytes@.take(4)[2] == file_bytes@[2]);
            assert(file_bytes@.take(4)[3] == file_bytes@[3]);
            assert(m[0] == 67 && m[1] == 83 && m[2] == 87 && m[3] == 70);
        }
    }
    if !starts_well {
        return Err(VaultError::BadHeader);
    }
    let version: u8 = file_bytes[4];
    if version != FULL_FILE_VERSION {
        return Err(VaultError::UnknownVersion(version));
    }
    let salt = byte_range(file_bytes, 5, 21);
    let nonce = byte_range(file_bytes, 21, 45);
    let ciphertext = byte_range(file_bytes, FULL_HEADER_LEN, len);
    assert(ciphertext@ =~= file_bytes@.skip(FULL_HEADER_LEN as int));
    let key = derive_encryption_key(passphrase, salt.as_slice());
    let compressed = match crypto::open(key.as_slice(), nonce.as_slice(), ciphertext.as_slice()) {
        Some(compressed) => compressed,
        None => {
            return Err(VaultError::Undecryptable);
        },
    };
    match decompress_bytes_with_limit(compressed.as_slice(), MAX_IMPORT_JSON_BYTES) {
        Ok(json) => Ok(json),
        Err(_) => Err(VaultError::Uninflatable),
    }
}

/// A file that is not one of this kind is told from its first bytes, whatever the
/// passphrase: too long, too short, or with the wrong magic bytes or version.
pub proof fn law_foreign_files_are_rejected(file: Seq<u8>, passphrase: Seq<char>)
    requires
        file.len() > MAX_IMPORT_FILE_BYTES || file.len() <= FULL_HEADER_LEN || file.take(4)
            != magic() || file[4] != FULL_FILE_VERSION,
    ensures
        full_contents(file, passphrase) is Err,
        full_contents(file, passphrase) != Err::<Seq<u8>, VaultError>(VaultError::Undecryptable),
{
}

/// A file in which a byte of the magic or the version was changed is rejected,
/// whatever the passphrase.
pub proof fn law_changed_headers_are_rejected(
    file: Seq<u8>,
    at: int,
    byte: u8,
    passphrase: Seq<char>,
)
    requires
        file.len() > FULL_HEADER_LEN,
        file.take(4) == magic(),
        file[4] == FULL_FILE_VERSION,
        0 <= at < 5,
        byte != file[at],
    ensures
        full_contents(file.update(at, byte), passphrase) is Err,
{
    let changed = file.update(at, byte);
    if at < 4 {
        assert(changed.take(4)[at] == byte);
        assert(file.take(4)[at] == file[at]);
    }
}

/// No more than the given number of bytes comes out of compressed data, and what comes out
/// is what it holds.
pub proof fn law_inflated_data_is_limited(input: Seq<u8>, max_bytes: u64)
    requires
        max_bytes < u64::MAX,
    ensures
        inflated(input, max_bytes) matches Ok(bytes) ==> {
            &&& bytes.len() <= max_bytes
            &&& encoding::zlib_inflated(input, (max_bytes + 1) as u64) == Ok::<Seq<u8>, Seq<char>>(
                bytes,
            )
        },
        encoding::zlib_inflated(input, (max_bytes + 1) as u64) matches Ok(bytes) && bytes.len()
            > max_bytes ==> inflated(input, max_bytes) == Err::<Seq<u8>, InflateProblem>(
            InflateProblem::TooLarge,
        ),
        encoding::zlib_inflated(input, (max_bytes + 1) as u64) matches Err(cause) ==> inflated(
            input,
            max_bytes,
        ) == Err::<Seq<u8>, InflateProblem>(InflateProblem::Broken(cause)),
{
}

/// A file starts with `CSWF`, the version 1, sixteen bytes of salt and twenty-four bytes of
/// nonce. The compressed document follows, encrypted under the key that 210000 rounds make
/// of the passphrase and this salt.
pub proof fn law_files_carry_salt_and_nonce(
    json: Seq<u8>,
    passphrase: Seq<char>,
    salt: Seq<u8>,
    nonce: Seq<u8>,
)
    requires
        salt.len() == 16,
        nonce.len() == 24,
    ensures
        full_file(json, passphrase, salt, nonce) matches Ok(file) ==> {
            let key = crypto::pbkdf2_sha256(vstd::utf8::encode_utf8(passphrase), salt, 210_000u32);
            &&& file.take(5) == seq![67u8, 83u8, 87u8, 70u8, 1u8]
            &&& file.subrange(5, 21) == salt
            &&& file.subrange(21, 45) == nonce
            &&& encoding::zlib_compressed(json) is Some
            &&& file.skip(45) == crypto::sealed(key, nonce, encoding::zlib_compressed(json)->0)
            &&& salt_of(file) == salt
            &&& nonce_of(file) == nonce
        },
{
    if let Ok(file) = full_file(json, passphrase, salt, nonce) {
        assert(file.take(5) =~= seq![67u8, 83u8, 87u8, 70u8, 1u8]);
        assert(file.subrange(5, 21) =~= salt);
        assert(file.subrange(21, 45) =~= nonce);
        assert(file.skip(45) =~= crypto::sealed(
            encryption_key(passphrase, salt),
            nonce,
            encoding::zlib_compressed(json)->0,
        ));
    }
}

/// What is read from a file was encrypted under its own salt and nonce and the passphrase,
/// and is no longer than two mebibytes; the file is no longer than eight.
pub proof fn law_files_are_opened_with_their_salt(file: Seq<u8>, passphrase: Seq<char>)
    ensures
        full_contents(file, passphrase) matches Ok(json) ==> {
            let key = crypto::pbkdf2_sha256(
                vstd::utf8::encode_utf8(passphrase),
                file.subrange(5, 21),
                210_000u32,
            );
            let compressed = crypto::opened(key, file.subrange(21, 45), file.skip(45));
            &&& 45 < file.len() <= 8_388_608
            &&& file[0] == 67 && file[1] == 83 && file[2] == 87 && file[3] == 70 && file[4] == 1
            &&& compressed is Some
            &&& encoding::zlib_inflated(compressed->0, 2_097_153) == Ok::<Seq<u8>, Seq<char>>(json)
            &&& json.len() <= 2_097_152
        },
{
    if full_contents(file, passphrase) is Ok {
        assert(file.take(4)[0] == 67 && file.take(4)[1] == 83 && file.take(4)[2] == 87
            && file.take(4)[3] == 70);
    }
}

/// What is wrong with a file is told by the first thing that is: its size, its first
/// bytes, its version, and only then what the passphrase opens.
pub proof fn law_first_file_problem_is_told(file: Seq<u8>, passphrase: Seq<char>)
    ensures
        file.len() > 8_388_608 <==> full_contents(file, passphrase) == Err::<Seq<u8>, VaultError>(
            VaultError::TooLarge,
        ),
        file.len() <= 45 <==> full_contents(file, passphrase) == Err::<Seq<u8>, VaultError>(
            VaultError::Truncated,
        ),
        45 < file.len() <= 8_388_608 ==> {
            &&& file.take(4) != seq![67u8, 83u8, 87u8, 70u8] <==> full_contents(file, passphrase)
                == Err::<Seq<u8>, VaultError>(VaultError::BadHeader)
            &&& file.take(4) == seq![67u8, 83u8, 87u8, 70u8] && file[4] != 1 ==> full_contents(
                file,
                passphrase,
            ) == Err::<Seq<u8>, VaultError>(VaultError::UnknownVersion(file[4]))
            &&& file.take(4) == seq![67u8, 83u8, 87u8, 70u8] && file[4] == 1 ==> (full_contents(
                file,
                passphrase,
            ) == Err::<Seq<u8>, VaultError>(VaultError::Undecryptable) <==> crypto::opened(
                crypto::pbkdf2_sha256(
                    vstd::utf8::encode_utf8(passphrase),
                    file.subrange(5, 21),
                    210_000u32,
                ),
                file.subrange(21, 45),
                file.skip(45),
            ) is None)
        },
{
}

} // verus!
