//! Base64, zlib and percent encoding.

use vstd::prelude::*;

verus! {

/// What `base64` reads from text in the URL-safe alphabet without padding, or
/// what it says is wrong with the text.
pub uninterp spec fn base64_url_decoded(text: Seq<char>) -> Result<Seq<u8>, Seq<char>>;

/// What `base64` reads from text in the URL-safe alphabet with padding.
pub uninterp spec fn base64_url_padded_decoded(text: Seq<char>) -> Option<Seq<u8>>;

/// What `base64` reads from text in the standard alphabet with padding.
pub uninterp spec fn base64_decoded(text: Seq<char>) -> Option<Seq<u8>>;

/// The URL-safe base64 text of some bytes, without padding.
pub uninterp spec fn base64_url_text(bytes: Seq<u8>) -> Seq<char>;

/// The standard base64 text of some bytes, with padding.
pub uninterp spec fn base64_text(bytes: Seq<u8>) -> Seq<char>;

/// What `zlib` compression makes of some bytes, at the best level.
pub uninterp spec fn zlib_compressed(bytes: Seq<u8>) -> Option<Seq<u8>>;

/// The first `limit` bytes that come out of a zlib stream, or all of them
/// where they are fewer; what is said to be wrong where the stream is broken
/// before that.
pub uninterp spec fn zlib_inflated(bytes: Seq<u8>, limit: u64) -> Result<Seq<u8>, Seq<char>>;

pub open spec fn opt_bytes(r: Option<Vec<u8>>) -> Option<Seq<u8>> {
    match r {
        Some(v) => Some(v@),
        None => None,
    }
}

/// The bytes of a result, or what its error says.
pub open spec fn bytes_or_text(r: Result<Vec<u8>, String>) -> Result<Seq<u8>, Seq<char>> {
    match r {
        Ok(bytes) => Ok(bytes@),
        Err(error) => Err(error@),
    }
}

/// Bytes that were read, with nothing wrong.
pub open spec fn was_read(bytes: Seq<u8>) -> Result<Seq<u8>, Seq<char>> {
    Ok(bytes)
}

/// A character of the URL-safe base64 alphabet.
pub open spec fn is_base64_url_char(c: char) -> bool {
    'A' <= c <= 'Z' || 'a' <= c <= 'z' || '0' <= c <= '9' || c == '-' || c == '_'
}

/// The smaller of two numbers.
pub open spec fn least(a: int, b: int) -> int {
    if a <= b {
        a
    } else {
        b
    }
}

/// Calls `base64`'s `decode` with the engine `URL_SAFE_NO_PAD`. The result is
/// fixed by the text, and so is what the error says where there is one.
#[verifier::external_body]
pub(crate) fn decode_base64_url(text: &str) -> (r: Result<Vec<u8>, String>)
    ensures
        bytes_or_text(r) == base64_url_decoded(text@),
{
    base64::Engine::decode(&base64::engine::general_purpose::URL_SAFE_NO_PAD, text).map_err(
        |error| error.to_string(),
    )
}

/// Calls `base64`'s `decode` with the engine `URL_SAFE`. The result is fixed
/// by the text.
#[verifier::external_body]
pub(crate) fn decode_base64_url_padded(text: &str) -> (r: Option<Vec<u8>>)
    ensures
        opt_bytes(r) == base64_url_padded_decoded(text@),
{
    base64::Engine::decode(&base64::engine::general_purpose::URL_SAFE, text).ok()
}

/// Calls `base64`'s `decode` with the engine `STANDARD`. The result is fixed
/// by the text.
#[verifier::external_body]
pub(crate) fn decode_base64(text: &str) -> (r: Option<Vec<u8>>)
    ensures
        opt_bytes(r) == base64_decoded(text@),
{
    base64::Engine::decode(&base64::engine::general_purpose::STANDARD, text).ok()
}

/// Calls `base64`'s `encode` with the engine `URL_SAFE_NO_PAD`. The text is
/// fixed by the bytes, is in the URL-safe alphabet, has four characters for three
/// bytes, rounded up, and decodes to the bytes.
#[verifier::external_body]
pub(crate) fn encode_base64_url(bytes: &[u8]) -> (r: String)
    ensures
        r@ == base64_url_text(bytes@),
        base64_url_decoded(r@) == was_read(bytes@),
        r@.len() == (bytes@.len() * 4 + 2) / 3,
        forall|i: int| 0 <= i < r@.len() ==> is_base64_url_char(#[trigger] r@[i]),
{
    base64::Engine::encode(&base64::engine::general_purpose::URL_SAFE_NO_PAD, bytes)
}

/// Calls `base64`'s `encode` with the engine `STANDARD`. The text is fixed by
/// the bytes and decodes to them.
#[verifier::external_body]
pub(crate) fn encode_base64(bytes: &[u8]) -> (r: String)
    ensures
        r@ == base64_text(bytes@),
        base64_decoded(r@) == Some(bytes@),
{
    base64::Engine::encode(&base64::engine::general_purpose::STANDARD, bytes)
}

/// Writes the bytes to a `flate2::write::ZlibEncoder` at the best level and
/// finishes it. What comes out is fixed by the bytes, and inflates to them: to
/// the first `limit` of them for any limit. It starts with a header, so that it
/// is never empty. Whether the call can fail is left open.
#[verifier::external_body]
pub(crate) fn zlib_compress(bytes: &[u8]) -> (r: Option<Vec<u8>>)
    ensures
        opt_bytes(r) == zlib_compressed(bytes@),
        r matches Some(out) ==> out@.len() > 0,
        r matches Some(out) ==> forall|limit: u64| #[trigger]
            zlib_inflated(out@, limit) == was_read(
                bytes@.take(least(limit as int, bytes@.len() as int)),
            ),
{
    let mut encoder = flate2::write::ZlibEncoder::new(Vec::new(), flate2::Compression::best());
    std::io::Write::write_all(&mut encoder, bytes).ok()?;
    encoder.finish().ok()
}

/// Reads at most `limit` bytes out of a `flate2::read::ZlibDecoder` over the
/// bytes. What comes out is fixed by the bytes and the limit, and so is what the
/// error says where there is one.
#[verifier::external_body]
pub(crate) fn zlib_inflate(bytes: &[u8], limit: u64) -> (r: Result<Vec<u8>, String>)
    ensures
        bytes_or_text(r) == zlib_inflated(bytes@, limit),
        r matches Ok(out) ==> out@.len() <= limit,
{
    let decoder = flate2::read::ZlibDecoder::new(bytes);
    let mut out = Vec::new();
    match std::io::Read::read_to_end(&mut std::io::Read::take(decoder, limit), &mut out) {
        Ok(_) => Ok(out),
        Err(error) => Err(error.to_string()),
    }
}

/// A byte that percent encoding leaves as it is.
pub open spec fn is_unreserved(b: u8) -> bool {
    let c = b as char;
    'A' <= c <= 'Z' || 'a' <= c <= 'z' || '0' <= c <= '9' || c == '-' || c == '_' || c == '.' || c
        == '~'
}

/// A hexadecimal digit in upper case.
pub open spec fn upper_hex(n: int) -> char {
    if n < 10 {
        ('0' as u32 + n) as char
    } else {
        ('A' as u32 + n - 10) as char
    }
}

/// Bytes in percent encoding: letters, digits and `-`, `_`, `.`, `~` as they
/// are, every other byte as `%` and its two hexadecimal digits.
pub open spec fn percent_encoded(bytes: Seq<u8>) -> Seq<char>
    decreases bytes.len(),
{
    if bytes.len() == 0 {
        Seq::empty()
    } else {
        let b = bytes.last();
        percent_encoded(bytes.drop_last()) + if is_unreserved(b) {
            seq![b as char]
        } else {
            seq!['%', upper_hex(b as int / 16), upper_hex(b as int % 16)]
        }
    }
}

/// Calls `urlencoding::encode`, which percent-encodes the UTF-8 bytes of the
/// text.
#[verifier::external_body]
pub(crate) fn percent_encode(text: &str) -> (r: String)
    ensures
        r@ == percent_encoded(vstd::utf8::encode_utf8(text@)),
{
    urlencoding::encode(text).into_owned()
}

} // verus!
