use crate::bytes::{concat_bytes, string_from_utf8};
use crate::error::CryptoError;
use crate::keys::{os_random_bytes, DerivedKey};
use crate::transport::{
    base64_bytes, base64_text, from_text, ill_formed, is_base64_symbol, to_text, well_padded,
};
use aes_gcm::aead::Aead;
use aes_gcm::KeyInit;
use vstd::prelude::*;
use vstd::slice::slice_subrange;
use vstd::string::*;
use vstd::utf8::*;

verus! {

/// The number of bytes in a nonce, which leads every envelope.
pub const NONCE_SIZE: usize = 12;

/// The number of bytes in the authentication tag, which ends every envelope.
pub const TAG_SIZE: usize = 16;

/// The longest plaintext, in bytes, that the cipher seals.
pub const MAX_PLAINTEXT_LEN: u64 = 0x10_0000_0000;

/// The error of the AEAD cipher, which says nothing of the cause.
#[verifier::external_type_specification]
#[verifier::external_body]
pub struct ExAeadError(aes_gcm::Error);

/// The ciphertext and tag that AES-256-GCM gives for a key, a nonce and a
/// plaintext, with no associated data.
pub uninterp spec fn aes256_gcm_seal(key: Seq<u8>, nonce: Seq<u8>, plaintext: Seq<u8>) -> Seq<u8>;

/// The plaintext that AES-256-GCM opens a ciphertext with tag to, with no
/// associated data, if the tag verifies.
pub uninterp spec fn aes256_gcm_open(key: Seq<u8>, nonce: Seq<u8>, sealed: Seq<u8>) -> Option<
    Seq<u8>,
>;

/// Calls `Aead::encrypt` on an `Aes256Gcm` made of the key.
///
/// Trusted: the call succeeds exactly when the plaintext is no longer than
/// `MAX_PLAINTEXT_LEN`; what it returns is named by [`aes256_gcm_seal`], is
/// `TAG_SIZE` bytes longer than the plaintext, and opens to the plaintext
/// under the same key and nonce; the same ciphertext with any other tag
/// does not open, since the cipher recomputes the tag from key, nonce and
/// ciphertext and compares.
#[verifier::external_body]
fn aead_seal(key: &[u8; 32], nonce: &[u8], plaintext: &[u8]) -> (res: Result<
    Vec<u8>,
    aes_gcm::Error,
>)
    requires
        nonce@.len() == NONCE_SIZE,
    ensures
        res is Ok <==> plaintext@.len() <= MAX_PLAINTEXT_LEN,
        match res {
            Ok(sealed) => {
                &&& sealed@ == aes256_gcm_seal(key@, nonce@, plaintext@)
                &&& sealed@.len() == plaintext@.len() + TAG_SIZE
                &&& aes256_gcm_open(key@, nonce@, sealed@) == Some(plaintext@)
                &&& forall|other: Seq<u8>|
                    #![trigger aes256_gcm_open(key@, nonce@, other)]
                    other.len() == sealed@.len() && other != sealed@ && other.subrange(
                        0,
                        plaintext@.len() as int,
                    ) == sealed@.subrange(0, plaintext@.len() as int) ==> aes256_gcm_open(
                        key@,
                        nonce@,
                        other,
                    ) is None
            },
            Err(_) => true,
        },
{
    let cipher = aes_gcm::Aes256Gcm::new(aes_gcm::Key::<aes_gcm::Aes256Gcm>::from_slice(key));
    cipher.encrypt(aes_gcm::Nonce::from_slice(nonce), plaintext)
}

/// Calls `Aead::decrypt` on an `Aes256Gcm` made of the key.
///
/// Trusted: the call succeeds exactly when [`aes256_gcm_open`] is defined,
/// and then returns that plaintext, `TAG_SIZE` bytes shorter than the input;
/// an input shorter than a tag is always refused.
#[verifier::external_body]
fn aead_open(key: &[u8; 32], nonce: &[u8], sealed: &[u8]) -> (res: Result<Vec<u8>, aes_gcm::Error>)
    requires
        nonce@.len() == NONCE_SIZE,
    ensures
        match res {
            Ok(plaintext) => {
                &&& aes256_gcm_open(key@, nonce@, sealed@) == Some(plaintext@)
                &&& plaintext@.len() + TAG_SIZE == sealed@.len()
            },
            Err(_) => aes256_gcm_open(key@, nonce@, sealed@) is None,
        },
        sealed@.len() < TAG_SIZE ==> res is Err,
{
    let cipher = aes_gcm::Aes256Gcm::new(aes_gcm::Key::<aes_gcm::Aes256Gcm>::from_slice(key));
    cipher.decrypt(aes_gcm::Nonce::from_slice(nonce), sealed)
}

/// What becomes of an attempt to open an envelope, or its text form.
pub enum Opened {
    /// The text is not base64.
    Undecodable,
    /// The envelope is no longer than a nonce.
    Malformed,
    /// The tag does not verify under the key.
    Rejected,
    /// The tag verifies, but the plaintext is not UTF-8.
    NotText,
    /// The secret.
    Text(Seq<char>),
}

/// What opening `envelope` under `key` gives.
pub open spec fn open_envelope(key: Seq<u8>, envelope: Seq<u8>) -> Opened {
    if envelope.len() <= NONCE_SIZE {
        Opened::Malformed
    } else {
        match aes256_gcm_open(
            key,
            envelope.subrange(0, NONCE_SIZE as int),
            envelope.subrange(NONCE_SIZE as int, envelope.len() as int),
        ) {
            None => Opened::Rejected,
            Some(plaintext) => if valid_utf8(plaintext) {
                Opened::Text(decode_utf8(plaintext))
            } else {
                Opened::NotText
            },
        }
    }
}

/// Whether `other` is `envelope` with a changed authentication tag: the
/// same length, the same nonce and ciphertext, and a difference in the last
/// `TAG_SIZE` bytes.
pub open spec fn retagged(envelope: Seq<u8>, other: Seq<u8>) -> bool {
    &&& envelope.len() >= NONCE_SIZE + TAG_SIZE
    &&& other.len() == envelope.len()
    &&& other != envelope
    &&& other.subrange(0, envelope.len() - TAG_SIZE) == envelope.subrange(
        0,
        envelope.len() - TAG_SIZE,
    )
}

/// What decoding `text` and opening the envelope under `key` gives.
pub open spec fn open_text(key: Seq<u8>, text: Seq<char>) -> Opened {
    match base64_bytes(text) {
        None => Opened::Undecodable,
        Some(envelope) => open_envelope(key, envelope),
    }
}

/// Whether `res` is what an attempt with outcome `outcome` returns.
pub open spec fn reports(res: Result<String, CryptoError>, outcome: Opened) -> bool {
    match outcome {
        Opened::Undecodable => res matches Err(CryptoError::Base64DecodeError(_)),
        Opened::Malformed => res matches Err(CryptoError::FormatError),
        Opened::Rejected => res matches Err(CryptoError::AeadError),
        Opened::NotText => res matches Err(CryptoError::Utf8Error(_)),
        Opened::Text(secret) => res matches Ok(text) && text@ == secret,
    }
}

/// Splits an envelope into its nonce and its sealed body.
///
/// Fails with `FormatError` exactly when the envelope is no longer than a
/// nonce.
pub fn split_envelope(envelope: &[u8]) -> (res: Result<(&[u8], &[u8]), CryptoError>)
    ensures
        envelope@.len() <= NONCE_SIZE ==> res matches Err(CryptoError::FormatError),
        envelope@.len() > NONCE_SIZE ==> match res {
            Ok((nonce, sealed)) => {
                &&& nonce@ == envelope@.subrange(0, NONCE_SIZE as int)
                &&& sealed@ == envelope@.subrange(NONCE_SIZE as int, envelope@.len() as int)
            },
            Err(_) => false,
        },
{
    if envelope.len() <= NONCE_SIZE {
        return Err(CryptoError::FormatError);
    }
    let nonce = slice_subrange(envelope, 0, NONCE_SIZE);
    let sealed = slice_subrange(envelope, NONCE_SIZE, envelope.len());
    Ok((nonce, sealed))
}

/// Frames what the cipher returned behind its nonce.
///
/// A refusal of the cipher becomes `AeadError`.
pub fn sealed_envelope(nonce: &[u8], sealed: Result<Vec<u8>, aes_gcm::Error>) -> (res: Result<
    Vec<u8>,
    CryptoError,
>)
    ensures
        match sealed {
            Ok(body) => res matches Ok(envelope) && envelope@ == nonce@ + body@,
            Err(_) => res matches Err(CryptoError::AeadError),
        },
{
    match sealed {
        Ok(body) => Ok(concat_bytes(nonce, body.as_slice())),
        Err(_) => Err(CryptoError::AeadError),
    }
}

/// Reads what the cipher opened as text.
///
/// A refusal of the cipher becomes `AeadError`, and plaintext that is not
/// UTF-8 becomes `Utf8Error`: no part of it is handed out.
pub fn opened_text(opened: Result<Vec<u8>, aes_gcm::Error>) -> (res: Result<String, CryptoError>)
    ensures
        match opened {
            Ok(plaintext) => if valid_utf8(plaintext@) {
                res matches Ok(text) && text@ == decode_utf8(plaintext@)
            } else {
                res matches Err(CryptoError::Utf8Error(_))
            },
            Err(_) => res matches Err(CryptoError::AeadError),
        },
{
    match opened {
        Ok(plaintext) => match string_from_utf8(plaintext) {
            Ok(text) => Ok(text),
            Err(e) => Err(CryptoError::Utf8Error(e)),
        },
        Err(_) => Err(CryptoError::AeadError),
    }
}

/// Seals `text` under `key` with the given nonce.
///
/// Succeeds exactly when the text's UTF-8 form is no longer than
/// `MAX_PLAINTEXT_LEN` and fails with `AeadError` otherwise. The envelope is
/// the nonce followed by the cipher's output, and opens to `text` under the
/// same key. With any change to its tag the envelope is rejected.
pub fn seal_with_nonce(key: &DerivedKey, nonce: &[u8], text: &str) -> (res: Result<
    Vec<u8>,
    CryptoError,
>)
    requires
        nonce@.len() == NONCE_SIZE,
    ensures
        match res {
            Ok(envelope) => {
                &&& text.spec_bytes().len() <= MAX_PLAINTEXT_LEN
                &&& envelope@ == nonce@ + aes256_gcm_seal(key@, nonce@, text.spec_bytes())
                &&& envelope@.len() == NONCE_SIZE + text.spec_bytes().len() + TAG_SIZE
                &&& open_envelope(key@, envelope@) == Opened::Text(text@)
                &&& forall|other: Seq<u8>|
                    retagged(envelope@, other) ==> #[trigger] open_envelope(key@, other)
                        == Opened::Rejected
            },
            Err(e) => text.spec_bytes().len() > MAX_PLAINTEXT_LEN && e is AeadError,
        },
{
    let sealed = aead_seal(key.as_bytes(), nonce, text.as_bytes());
    let res = sealed_envelope(nonce, sealed);
    proof {
        broadcast use encode_utf8_valid_utf8, encode_utf8_decode_utf8;

        if let Ok(envelope) = &res {
            let body = aes256_gcm_seal(key@, nonce@, text.spec_bytes());
            assert(envelope@.subrange(0, NONCE_SIZE as int) =~= nonce@);
            assert(envelope@.subrange(NONCE_SIZE as int, envelope@.len() as int) =~= body);
            assert(valid_utf8(encode_utf8(text@)));
            assert(decode_utf8(encode_utf8(text@)) == text@);
            assert forall|other: Seq<u8>| retagged(envelope@, other) implies #[trigger] open_envelope(
                key@,
                other,
            ) == Opened::Rejected by {
                lemma_retagged_body(nonce@, body, other);
            }
        }
    }
    res
}

/// An envelope with a changed tag keeps the nonce, and its body differs in
/// the tag alone.
proof fn lemma_retagged_body(nonce: Seq<u8>, body: Seq<u8>, other: Seq<u8>)
    requires
        nonce.len() == NONCE_SIZE,
        body.len() >= TAG_SIZE,
        retagged(nonce + body, other),
    ensures
        other.subrange(0, NONCE_SIZE as int) == nonce,
        other.subrange(NONCE_SIZE as int, other.len() as int).len() == body.len(),
        other.subrange(NONCE_SIZE as int, other.len() as int) != body,
        other.subrange(NONCE_SIZE as int, other.len() as int).subrange(0, body.len() - TAG_SIZE)
            == body.subrange(0, body.len() - TAG_SIZE),
{
    let envelope = nonce + body;
    let kept = envelope.len() - TAG_SIZE;
    let other_body = other.subrange(NONCE_SIZE as int, other.len() as int);
    assert forall|i: int| 0 <= i < kept implies other[i] == envelope[i] by {
        assert(other.subrange(0, kept)[i] == envelope.subrange(0, kept)[i]);
    }
    assert(other.subrange(0, NONCE_SIZE as int) =~= nonce);
    assert(other_body.subrange(0, body.len() - TAG_SIZE) =~= body.subrange(
        0,
        body.len() - TAG_SIZE,
    ));
    if other_body == body {
        assert(other =~= envelope);
    }
}

/// Seals `text` under `key` with a fresh random nonce.
///
/// Succeeds exactly when the text's UTF-8 form is no longer than
/// `MAX_PLAINTEXT_LEN` and fails with `AeadError` otherwise. The envelope
/// is a nonce of `NONCE_SIZE` bytes followed by the cipher's output for that
/// nonce, and `decrypt` under the same key gives `text` back. With any
/// change to its tag the envelope is rejected.
pub fn encrypt(key: &DerivedKey, text: &str) -> (res: Result<Vec<u8>, CryptoError>)
    ensures
        match res {
            Ok(envelope) => {
                &&& text.spec_bytes().len() <= MAX_PLAINTEXT_LEN
                &&& envelope@.len() == NONCE_SIZE + text.spec_bytes().len() + TAG_SIZE
                &&& envelope@.subrange(NONCE_SIZE as int, envelope@.len() as int)
                    == aes256_gcm_seal(
                    key@,
                    envelope@.subrange(0, NONCE_SIZE as int),
                    text.spec_bytes(),
                )
                &&& open_envelope(key@, envelope@) == Opened::Text(text@)
                &&& forall|other: Seq<u8>|
                    retagged(envelope@, other) ==> #[trigger] open_envelope(key@, other)
                        == Opened::Rejected
            },
            Err(e) => text.spec_bytes().len() > MAX_PLAINTEXT_LEN && e is AeadError,
        },
{
    let nonce = os_random_bytes(NONCE_SIZE);
    let res = seal_with_nonce(key, nonce.as_slice(), text);
    proof {
        if let Ok(envelope) = &res {
            let body = aes256_gcm_seal(key@, nonce@, text.spec_bytes());
            assert(envelope@.subrange(0, NONCE_SIZE as int) =~= nonce@);
            assert(envelope@.subrange(NONCE_SIZE as int, envelope@.len() as int) =~= body);
        }
    }
    res
}

/// Opens an envelope under `key`.
///
/// Fails with `FormatError` when the envelope is no longer than a nonce,
/// with `AeadError` when the tag does not verify, and with `Utf8Error` when
/// the plaintext is not UTF-8; otherwise returns the secret.
pub fn decrypt(key: &DerivedKey, encrypted_data: &[u8]) -> (res: Result<String, CryptoError>)
    ensures
        reports(res, open_envelope(key@, encrypted_data@)),
        encrypted_data@.len() <= NONCE_SIZE ==> res matches Err(CryptoError::FormatError),
        NONCE_SIZE < encrypted_data@.len() < NONCE_SIZE + TAG_SIZE ==> res matches Err(
            CryptoError::AeadError,
        ),
{
    match split_envelope(encrypted_data) {
        Err(e) => Err(e),
        Ok((nonce, sealed)) => opened_text(aead_open(key.as_bytes(), nonce, sealed)),
    }
}

/// Seals `text` under `key` and encodes the envelope as base64 text.
///
/// Succeeds exactly when `encrypt` does. The text is the encoding of an
/// envelope of `NONCE_SIZE + TAG_SIZE` bytes more than the secret's UTF-8
/// form, made of alphabet symbols and the padding that ends it, and
/// `decrypt_base64` under the same key gives `text` back.
pub fn encrypt_to_base64(key: &DerivedKey, text: &str) -> (res: Result<String, CryptoError>)
    ensures
        match res {
            Ok(encoded) => {
                &&& text.spec_bytes().len() <= MAX_PLAINTEXT_LEN
                &&& exists|envelope: Seq<u8>|
                    {
                        &&& envelope.len() == NONCE_SIZE + text.spec_bytes().len() + TAG_SIZE
                        &&& encoded@ == #[trigger] base64_text(envelope)
                        &&& open_envelope(key@, envelope) == Opened::Text(text@)
                    }
                &&& well_padded(encoded@, NONCE_SIZE + text.spec_bytes().len() + TAG_SIZE)
                &&& forall|i: int|
                    0 <= i < encoded@.len() ==> is_base64_symbol(#[trigger] encoded@[i])
                &&& open_text(key@, encoded@) == Opened::Text(text@)
            },
            Err(e) => text.spec_bytes().len() > MAX_PLAINTEXT_LEN && e is AeadError,
        },
{
    match encrypt(key, text) {
        Ok(envelope) => {
            let encoded = to_text(envelope.as_slice());
            assert(encoded@ == base64_text(envelope@));
            Ok(encoded)
        },
        Err(e) => Err(e),
    }
}

/// Decodes base64 text and opens the envelope under `key`.
///
/// Fails with `Base64DecodeError` when the text is not base64, which
/// includes every text whose shape is `ill_formed`, and as `decrypt` does on
/// the decoded envelope otherwise.
pub fn decrypt_base64(key: &DerivedKey, base64_text: &str) -> (res: Result<String, CryptoError>)
    ensures
        reports(res, open_text(key@, base64_text@)),
        ill_formed(base64_text@) ==> res matches Err(CryptoError::Base64DecodeError(_)),
{
    match from_text(base64_text) {
        Err(e) => Err(e),
        Ok(envelope) => decrypt(key, envelope.as_slice()),
    }
}

} // verus!
