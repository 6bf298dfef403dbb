//! The base64 image codec: trusted bindings to the standard padded engine of
//! the base64 crate, and the library's own decode interface around them.

use vstd::prelude::*;
use vstd::string::StringExecFns;
use base64::Engine;

verus! {

/// The string that the standard padded base64 engine encodes `bytes` to.
pub uninterp spec fn b64_of(bytes: Seq<u8>) -> Seq<char>;

/// `s` is the canonical padded base64 encoding of some byte sequence.
pub open spec fn b64_decodable(s: Seq<char>) -> bool {
    exists|w: Seq<u8>| b64_of(w) == s
}

/// The byte sequence whose canonical encoding `s` is.
pub open spec fn b64_decoded(s: Seq<char>) -> Seq<u8> {
    choose|w: Seq<u8>| b64_of(w) == s
}

/// The error type of the base64 crate's decode.
#[verifier::external_type_specification]
#[verifier::external_body]
pub struct ExDecodeError(base64::DecodeError);

/// Relies on `Engine::encode` of `base64::engine::general_purpose::STANDARD`:
/// encodes with the standard alphabet and canonical padding, four output
/// characters for every three input bytes begun.
#[verifier::external_body]
fn b64_encode(bytes: &[u8]) -> (r: String)
    ensures
        r@ == b64_of(bytes@),
        r@.len() == 4 * ((bytes@.len() + 2) / 3),
{
    base64::engine::general_purpose::STANDARD.encode(bytes)
}

/// Relies on `Engine::decode` of `base64::engine::general_purpose::STANDARD`:
/// with canonical padding required and trailing bits refused, it accepts
/// exactly the strings the engine itself encodes to, and returns the one byte
/// sequence that encodes to its input.
#[verifier::external_body]
fn b64_decode(payload: &str) -> (r: Result<Vec<u8>, base64::DecodeError>)
    ensures
        r matches Ok(v) ==> b64_of(v@) == payload@ && forall|w: Seq<u8>|
            b64_of(w) == payload@ ==> w == v@,
        r is Err ==> forall|w: Seq<u8>| b64_of(w) != payload@,
{
    base64::engine::general_purpose::STANDARD.decode(payload)
}

/// Decode failure: the payload held a character outside the standard base64
/// alphabet, or its padding or length was invalid.
#[derive(Clone, Copy, Debug, PartialEq, Eq, Structural)]
pub struct DecodeFailure;

/// Decodes a standard padded base64 payload. Succeeds exactly when the
/// payload is the canonical encoding of some byte sequence, and then returns
/// that byte sequence.
pub fn decode_base64(payload: &str) -> (r: Result<Vec<u8>, DecodeFailure>)
    ensures
        r is Ok <==> b64_decodable(payload@),
        r matches Ok(v) ==> b64_of(v@) == payload@ && v@ == b64_decoded(payload@),
{
    match b64_decode(payload) {
        Ok(v) => {
            proof {
                assert(b64_decodable(payload@));
                assert(b64_of(b64_decoded(payload@)) == payload@);
            }
            Ok(v)
        },
        Err(_) => Err(DecodeFailure),
    }
}

/// Encodes bytes as standard padded base64 and frames them as the inline
/// jpeg data URI that a request carries a local image in.
pub fn jpeg_data_uri(bytes: &[u8]) -> (r: String)
    ensures
        r@ == "data:image/jpeg;base64,"@ + b64_of(bytes@),
{
    let mut uri = String::from_str("data:image/jpeg;base64,");
    let encoded = b64_encode(bytes);
    uri.append(encoded.as_str());
    uri
}

/// Law: decoding an encoding gives the bytes back — the round trip through
/// standard padded base64 is the identity on every byte sequence.
pub fn encode_decode_round_trip(bytes: &[u8]) -> (r: Vec<u8>)
    ensures
        r@ == bytes@,
{
    let encoded = b64_encode(bytes);
    match b64_decode(encoded.as_str()) {
        Ok(v) => v,
        Err(_) => {
            proof {
                assert(b64_of(bytes@) == encoded@);
                assert(false);
            }
            Vec::new()
        },
    }
}

} // verus!
