//! Inline documents travel as base64 text. This module turns such text into
//! the document's bytes and back, by the `base64` crate's standard engine.

use crate::job::Error;
use base64::engine::general_purpose::STANDARD;
use base64::DecodeError;
use base64::Engine;
use vstd::prelude::*;

verus! {

/// The failure that `base64` reports for text it cannot decode. Nothing is
/// known of what is inside.
#[verifier::external_type_specification]
#[verifier::external_body]
pub struct ExDecodeError(DecodeError);

/// The text that the standard engine of `base64` produces for `data`.
pub uninterp spec fn base64_text(data: Seq<u8>) -> Seq<char>;

/// The bytes that the standard engine of `base64` reads from `text`, or
/// `None` where it rejects `text`.
pub uninterp spec fn base64_data(text: Seq<char>) -> Option<Seq<u8>>;

/// The length of the text for `len` bytes: four characters for every three
/// bytes or part of three.
pub open spec fn encoded_len(len: nat) -> nat {
    4 * ((len + 2) / 3)
}

/// Calls `Engine::encode` on `base64`'s `STANDARD` engine. Not proved: that
/// the result is the same text for the same bytes, which is what naming it
/// `base64_text` claims. The call panics where the length of the text does
/// not fit in `usize`; the precondition leaves those inputs out.
#[verifier::external_body]
fn standard_encode(data: &[u8]) -> (text: String)
    requires
        encoded_len(data@.len()) <= usize::MAX,
    ensures
        text@ == base64_text(data@),
{
    STANDARD.encode(data)
}

/// Calls `Engine::decode` on `base64`'s `STANDARD` engine. Not proved: that
/// the result depends on the text alone, which is what naming it
/// `base64_data` claims; an error stands for `None`.
#[verifier::external_body]
fn standard_decode(text: &str) -> (data: Result<Vec<u8>, DecodeError>)
    ensures
        match data {
            Ok(bytes) => base64_data(text@) == Some(bytes@),
            Err(_) => base64_data(text@) is None,
        },
{
    STANDARD.decode(text)
}

/// Formats a `DecodeError` by its `Display`. Nothing is claimed of the text.
#[verifier::external_body]
fn decode_error_text(error: &DecodeError) -> (text: String) {
    format!("{}", error)
}

/// What a decoding attempt means for a conversion: the bytes where there are
/// some, and otherwise a failed conversion that carries the decoder's words.
pub fn decoded_payload(decoded: Result<Vec<u8>, String>) -> (payload: Result<Vec<u8>, Error>)
    ensures
        payload == match decoded {
            Ok(bytes) => Ok::<Vec<u8>, Error>(bytes),
            Err(detail) => Err::<Vec<u8>, Error>(Error::ConversionFailed(detail)),
        },
{
    match decoded {
        Ok(bytes) => Ok(bytes),
        Err(detail) => Err(Error::ConversionFailed(detail)),
    }
}

/// Whether a document of `len` bytes can be encoded: the text must not be
/// longer than `usize` can say.
pub fn encodable(len: usize) -> (fits: bool)
    ensures
        fits == (encoded_len(len as nat) <= usize::MAX),
{
    len / 3 < usize::MAX / 4
        || (len / 3 == usize::MAX / 4 && len % 3 == 0)
}

/// Encodes a document as standard base64 text.
pub fn encode_payload(data: &[u8]) -> (text: String)
    requires
        encoded_len(data@.len()) <= usize::MAX,
    ensures
        text@ == base64_text(data@),
{
    standard_encode(data)
}

/// Decodes standard base64 text into the document it stands for. Text that
/// is no base64 gives `ConversionFailed` with the decoder's description.
pub fn decode_payload(text: &str) -> (data: Result<Vec<u8>, Error>)
    ensures
        match data {
            Ok(bytes) => base64_data(text@) == Some(bytes@),
            Err(e) => base64_data(text@) is None && e is ConversionFailed,
        },
{
    match standard_decode(text) {
        Ok(bytes) => decoded_payload(Ok(bytes)),
        Err(error) => decoded_payload(Err(decode_error_text(&error))),
    }
}

} // verus!
