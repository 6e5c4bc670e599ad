use crate::error::CryptoError;
use base64::Engine;
use vstd::prelude::*;

verus! {

/// The padded standard base64 text of a byte sequence.
pub uninterp spec fn base64_text(bytes: Seq<u8>) -> Seq<char>;

/// The bytes that a text decodes to as padded standard base64, if it is
/// well formed.
pub uninterp spec fn base64_bytes(text: Seq<char>) -> Option<Seq<u8>>;

/// The 64 symbols of the standard alphabet.
pub open spec fn is_alphabet_symbol(c: char) -> bool {
    ||| 'A' <= c <= 'Z'
    ||| 'a' <= c <= 'z'
    ||| '0' <= c <= '9'
    ||| c == '+'
    ||| c == '/'
}

/// The characters that padded standard base64 text is made of: the symbols
/// of the standard alphabet and the padding sign.
pub open spec fn is_base64_symbol(c: char) -> bool {
    is_alphabet_symbol(c) || c == '='
}

/// The number of characters that encode `n` bytes: four for every three
/// bytes begun.
pub open spec fn encoded_len(n: int) -> int {
    4 * ((n + 2) / 3)
}

/// The number of padding signs that end the encoding of `n` bytes.
pub open spec fn padding_len(n: int) -> int {
    (3 - n % 3) % 3
}

/// Whether `text` has the shape of the encoding of `n` bytes: its length,
/// alphabet symbols first, and the padding signs at the end.
pub open spec fn well_padded(text: Seq<char>, n: int) -> bool {
    &&& text.len() == encoded_len(n)
    &&& forall|i: int|
        0 <= i < text.len() - padding_len(n) ==> is_alphabet_symbol(#[trigger] text[i])
    &&& forall|i: int| text.len() - padding_len(n) <= i < text.len() ==> #[trigger] text[i] == '='
}

/// Whether the shape of `text` alone shows that it is no padded standard
/// base64: a length that is no multiple of four, a character outside
/// alphabet and padding, or a padding sign before the last two places.
pub open spec fn ill_formed(text: Seq<char>) -> bool {
    ||| text.len() % 4 != 0
    ||| exists|i: int| 0 <= i < text.len() && !is_base64_symbol(#[trigger] text[i])
    ||| exists|i: int| 0 <= i < text.len() - 2 && #[trigger] text[i] == '='
}

/// Calls `Engine::encode` on `base64::engine::general_purpose::STANDARD`.
///
/// Trusted: the result is the encoding named by [`base64_text`]; it holds
/// four characters for every three bytes begun, alphabet symbols followed by
/// the padding signs that fill the last group; and decoding it gives the
/// input back. A slice holds fewer bytes than the encoder's length
/// computation can overflow on.
#[verifier::external_body]
fn standard_encode(bytes: &[u8]) -> (text: String)
    ensures
        text@ == base64_text(bytes@),
        base64_bytes(text@) == Some(bytes@),
        well_padded(text@, bytes@.len() as int),
{
    base64::engine::general_purpose::STANDARD.encode(bytes)
}

/// Calls `Engine::decode` on `base64::engine::general_purpose::STANDARD`.
///
/// Trusted: the call succeeds exactly when [`base64_bytes`] is defined on
/// the text and then returns those bytes. It always fails on a text whose
/// length is no multiple of four, on a character outside alphabet and
/// padding, and on a padding sign before the last two places.
#[verifier::external_body]
fn standard_decode(text: &str) -> (res: Result<Vec<u8>, base64::DecodeError>)
    ensures
        match res {
            Ok(bytes) => base64_bytes(text@) == Some(bytes@),
            Err(_) => base64_bytes(text@) is None,
        },
        ill_formed(text@) ==> res is Err,
{
    base64::engine::general_purpose::STANDARD.decode(text)
}

/// Turns the outcome of a base64 decoding into the library's result.
pub fn decoded_envelope(decoded: Result<Vec<u8>, base64::DecodeError>) -> (res: Result<
    Vec<u8>,
    CryptoError,
>)
    ensures
        match decoded {
            Ok(bytes) => res == Ok::<Vec<u8>, CryptoError>(bytes),
            Err(e) => res == Err::<Vec<u8>, CryptoError>(CryptoError::Base64DecodeError(e)),
        },
{
    match decoded {
        Ok(bytes) => Ok(bytes),
        Err(e) => Err(CryptoError::Base64DecodeError(e)),
    }
}

/// Encodes an envelope as printable text.
///
/// Decoding the text gives the envelope back: `from_text(&to_text(b))` is
/// `Ok(b)` for every `b`. The text holds four characters for every three
/// bytes begun: alphabet symbols, then the padding signs.
pub fn to_text(envelope: &[u8]) -> (text: String)
    ensures
        text@ == base64_text(envelope@),
        base64_bytes(text@) == Some(envelope@),
        well_padded(text@, envelope@.len() as int),
        forall|i: int| 0 <= i < text@.len() ==> is_base64_symbol(#[trigger] text@[i]),
        !ill_formed(text@),
{
    let text = standard_encode(envelope);
    proof {
        lemma_well_padded_is_well_formed(text@, envelope@.len() as int);
    }
    text
}

/// Text in the shape of an encoding is made of symbols and padding only,
/// and nothing in its shape shows it to be malformed.
pub proof fn lemma_well_padded_is_well_formed(text: Seq<char>, n: int)
    requires
        n >= 0,
        well_padded(text, n),
    ensures
        forall|i: int| 0 <= i < text.len() ==> is_base64_symbol(#[trigger] text[i]),
        !ill_formed(text),
{
    assert forall|i: int| 0 <= i < text.len() implies is_base64_symbol(#[trigger] text[i]) by {
        if i < text.len() - padding_len(n) {
            assert(is_alphabet_symbol(text[i]));
        } else {
            assert(text[i] == '=');
        }
    }
    assert forall|i: int| 0 <= i < text.len() - 2 implies #[trigger] text[i] != '=' by {
        assert(is_alphabet_symbol(text[i]));
    }
}

/// Decodes printable text into an envelope.
///
/// Fails with `Base64DecodeError` exactly when the text is not well-formed
/// padded standard base64, which includes every text whose shape is
/// `ill_formed`.
pub fn from_text(text: &str) -> (res: Result<Vec<u8>, CryptoError>)
    ensures
        match res {
            Ok(bytes) => base64_bytes(text@) == Some(bytes@),
            Err(e) => base64_bytes(text@) is None && e is Base64DecodeError,
        },
        ill_formed(text@) ==> res is Err,
{
    decoded_envelope(standard_decode(text))
}

} // verus!
