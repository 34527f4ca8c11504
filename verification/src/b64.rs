//! Trusted boundary to the base64 crate. The telephony provider carries audio
//! as base64 text in both directions, so the library encodes outbound audio
//! and decodes inbound media payloads through the two wrappers here.

use base64::Engine;
use vstd::prelude::*;

verus! {

/// The RFC 4648 standard-alphabet, padded base64 encoding of a byte sequence,
/// as produced by base64's STANDARD engine.
pub uninterp spec fn base64_of(b: Seq<u8>) -> Seq<char>;

#[verifier::external_type_specification]
#[verifier::external_body]
pub struct ExDecodeError(base64::DecodeError);

/// Relies on base64's `Engine::encode` with the STANDARD engine: the standard
/// alphabet with padding, so the output is a function of the bytes alone and
/// is four characters long for every three input bytes, rounded up. A byte
/// vector holds at most `isize::MAX` bytes, so the output length fits and the
/// engine's buffer-size overflow cannot arise.
#[verifier::external_body]
pub(crate) fn base64_encode(bytes: &Vec<u8>) -> (r: String)
    ensures
        r@ == base64_of(bytes@),
        r@.len() == 4 * ((bytes@.len() + 2) / 3),
{
    base64::engine::general_purpose::STANDARD.encode(bytes)
}

/// Relies on base64's `Engine::decode` with the STANDARD engine: canonical
/// padding is required and stray trailing bits are rejected, so decoding
/// succeeds exactly on canonical encodings and inverts `encode`.
#[verifier::external_body]
pub(crate) fn base64_decode(s: &str) -> (r: Result<Vec<u8>, base64::DecodeError>)
    ensures
        forall|b: Seq<u8>| s@ == #[trigger] base64_of(b) ==> r is Ok && r->Ok_0@ == b,
        r matches Ok(v) ==> s@ == base64_of(v@),
{
    base64::engine::general_purpose::STANDARD.decode(s)
}

} // verus!
