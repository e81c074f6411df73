//! The wire form of an offer's payload: the opaque bytes travel as a
//! standard base64 string at the boundary and are decoded back to raw bytes
//! before storage.

use vstd::prelude::*;

verus! {

/// The base64 string (standard alphabet, padded) that encodes the bytes.
pub uninterp spec fn base64_of(b: Seq<u8>) -> Seq<char>;

/// The bytes a base64 string decodes to, if it is well formed.
pub uninterp spec fn base64_decoded(s: Seq<char>) -> Option<Seq<u8>>;

#[verifier::external_type_specification]
#[verifier::external_body]
pub struct ExDecodeError(base64::DecodeError);

/// Relies on base64::encode with the standard alphabet: the encoding is a
/// function of the bytes alone, an empty input encodes to an empty string,
/// and base64::decode inverts the encoding.
#[verifier::external_body]
fn base64_encode(b: &Vec<u8>) -> (r: String)
    requires
        b@.len() <= usize::MAX / 4,
    ensures
        r@ == base64_of(b@),
        base64_decoded(r@) == Some(b@),
        b@.len() == 0 ==> r@.len() == 0,
{
    base64::encode(b)
}

/// Relies on base64::decode with the standard alphabet: whether a string
/// decodes, and to which bytes, is a function of the string alone.
#[verifier::external_body]
fn base64_decode(s: &str) -> (r: Result<Vec<u8>, base64::DecodeError>)
    ensures
        match r {
            Ok(v) => base64_decoded(s@) == Some(v@),
            Err(_) => base64_decoded(s@) is None,
        },
{
    base64::decode(s)
}

/// Encodes a payload for the wire: the standard base64 string of its bytes,
/// which [`payload_from_wire`] turns back into exactly these bytes.
pub fn payload_to_wire(data: &Vec<u8>) -> (r: String)
    requires
        data@.len() <= usize::MAX / 4,
    ensures
        r@ == base64_of(data@),
        base64_decoded(r@) == Some(data@),
{
    base64_encode(data)
}

/// Decodes a payload from the wire: the bytes the base64 string stands for,
/// or nothing when the string is not well-formed base64.
pub fn payload_from_wire(s: &str) -> (r: Option<Vec<u8>>)
    ensures
        match r {
            Some(v) => base64_decoded(s@) == Some(v@),
            None => base64_decoded(s@) is None,
        },
{
    match base64_decode(s) {
        Ok(v) => Some(v),
        Err(_) => None,
    }
}

} // verus!
