//! The digests that a signature is made of. OpenSSL computes them; this module
//! gives each a name in contracts and turns its failures into [`SignError`].
use vstd::prelude::*;
use vstd::string::*;
use vstd::utf8::encode_utf8;
use openssl::error::ErrorStack;
use crate::text::trimmed;

verus! {

/// OpenSSL's error report, carried through unread.
#[verifier::external_type_specification]
#[verifier::external_body]
pub struct ExErrorStack(openssl::error::ErrorStack);

/// The HMAC-SHA256 code of `data` under `key`.
pub uninterp spec fn hmac_sha256_of(key: Seq<u8>, data: Seq<u8>) -> Seq<u8>;

/// The SHA-256 digest of `data`.
pub uninterp spec fn sha256_of(data: Seq<u8>) -> Seq<u8>;

/// The base64 text of `data`, as OpenSSL's block encoder writes it.
pub uninterp spec fn base64_of(data: Seq<u8>) -> Seq<char>;

/// The longest key, in bytes, that OpenSSL takes for an HMAC.
pub const MAX_KEY_BYTES: usize = 0x7fff_ffff;

/// The longest input, in bytes, that is handed to the base64 encoder.
pub const MAX_ENCODE_BYTES: usize = 0x3fff_ffff;

/// Why a request could not be signed.
#[derive(Debug, Clone, Copy, PartialEq, Eq, Structural)]
pub enum SignError {
    /// The request's URI is empty or does not begin with `/`.
    InvalidArgument,
    /// A cryptographic primitive refused its input or failed.
    InternalCryptoFailure,
}

/// Calls `PKey::hmac`, `Signer::new` with `MessageDigest::sha256()` and
/// `Signer::sign_oneshot_to_vec` of the `openssl` crate. Trusted: when they
/// succeed the bytes returned are the HMAC-SHA256 code of `data` under `key`.
/// `PKey::hmac` asserts that the key's length fits a C `int`, hence the
/// precondition. Nothing is claimed about when the calls fail.
#[verifier::external_body]
fn hmac_sha256_digest(key: &[u8], data: &[u8]) -> (res: Result<Vec<u8>, ErrorStack>)
    requires
        key@.len() <= MAX_KEY_BYTES,
    ensures
        res matches Ok(mac) ==> mac@ == hmac_sha256_of(key@, data@),
{
    let pkey = openssl::pkey::PKey::hmac(key)?;
    let mut signer = openssl::sign::Signer::new(openssl::hash::MessageDigest::sha256(), &pkey)?;
    signer.sign_oneshot_to_vec(data)
}

/// Calls `openssl::sha::sha256`. Trusted: the 32 bytes returned are the
/// SHA-256 digest of `data`.
#[verifier::external_body]
fn sha256_digest(data: &[u8]) -> (res: Vec<u8>)
    ensures
        res@ == sha256_of(data@),
        res@.len() == 32,
{
    openssl::sha::sha256(data).to_vec()
}

/// Calls `openssl::base64::encode_block`. Trusted: the text returned is the
/// base64 encoding of `data`. The encoder asserts that the input's length and
/// the output's fit a C `int`, hence the precondition.
#[verifier::external_body]
fn base64_block(data: &[u8]) -> (res: String)
    requires
        data@.len() <= MAX_ENCODE_BYTES,
    ensures
        res@ == base64_of(data@),
{
    openssl::base64::encode_block(data)
}

/// The trimmed base64 text of a byte string.
pub open spec fn base64_text(data: Seq<u8>) -> Seq<char> {
    trimmed(base64_of(data))
}

/// The trimmed base64 text of the HMAC-SHA256 code of `data` under `key`, both
/// taken as UTF-8.
pub open spec fn base64_hmac_of(data: Seq<char>, key: Seq<char>) -> Seq<char> {
    base64_text(hmac_sha256_of(encode_utf8(key), encode_utf8(data)))
}

/// The trimmed base64 text of the SHA-256 digest of `data`.
pub open spec fn base64_sha256_of(data: Seq<u8>) -> Seq<char> {
    base64_text(sha256_of(data))
}

/// Turns the outcome of an HMAC computation into signature text: the trimmed
/// base64 of the code where there is one of encodable length, and an internal
/// failure otherwise.
pub fn encode_mac(mac: Result<Vec<u8>, ErrorStack>) -> (res: Result<String, SignError>)
    ensures
        match mac {
            Ok(code) => if code@.len() <= MAX_ENCODE_BYTES {
                res matches Ok(text) && text@ == base64_text(code@)
            } else {
                res == Err::<String, SignError>(SignError::InternalCryptoFailure)
            },
            Err(_) => res == Err::<String, SignError>(SignError::InternalCryptoFailure),
        },
{
    match mac {
        Ok(code) => {
            if code.len() <= MAX_ENCODE_BYTES {
                let encoded = base64_block(code.as_slice());
                Ok(encoded.as_str().trim().to_owned())
            } else {
                Err(SignError::InternalCryptoFailure)
            }
        },
        Err(_) => Err(SignError::InternalCryptoFailure),
    }
}

/// Computes the HMAC-SHA256 code of `data` under the key `keystr` and encodes
/// it as trimmed base64. A key of more than [`MAX_KEY_BYTES`] bytes is an
/// internal failure, as is any failure of the primitive.
pub fn base64_hmac_sha256(data: &str, keystr: &str) -> (res: Result<String, SignError>)
    ensures
        res matches Ok(text) ==> text@ == base64_hmac_of(data@, keystr@),
        res matches Err(e) ==> e == SignError::InternalCryptoFailure,
        encode_utf8(keystr@).len() > MAX_KEY_BYTES ==> res is Err,
{
    let key = keystr.as_bytes();
    if key.len() > MAX_KEY_BYTES {
        return Err(SignError::InternalCryptoFailure);
    }
    let mac = hmac_sha256_digest(key, data.as_bytes());
    encode_mac(mac)
}

/// Computes the SHA-256 digest of `data` and encodes it as trimmed base64.
pub fn base64_sha256(data: &[u8]) -> (res: String)
    ensures
        res@ == base64_sha256_of(data@),
{
    let digest = sha256_digest(data);
    let encoded = base64_block(digest.as_slice());
    encoded.as_str().trim().to_owned()
}

} // verus!
