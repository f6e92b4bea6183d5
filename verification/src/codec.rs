use vstd::prelude::*;
use vstd::utf8::valid_utf8;

verus! {

/// What the standard base64 engine (standard alphabet, canonical padding
/// required) decodes `input` to, or `None` where it rejects `input`.
pub uninterp spec fn base64_standard_decoded(input: Seq<u8>) -> Option<Seq<u8>>;

/// The message with which std reports that `bytes` is not UTF-8.
pub uninterp spec fn utf8_error_message(bytes: Seq<u8>) -> Seq<char>;

/// `Engine::decode` of the base64 crate on its `STANDARD` engine: the decoded
/// bytes, or `None` where the engine returns a `DecodeError`. The contract
/// only gives the outcome its name.
#[verifier::external_body]
pub(crate) fn decode_base64(input: &[u8]) -> (r: Option<Vec<u8>>)
    ensures
        r.is_some() == base64_standard_decoded(input@).is_some(),
        r.is_some() ==> r.unwrap()@ == base64_standard_decoded(input@).unwrap(),
{
    match base64::Engine::decode(&base64::engine::general_purpose::STANDARD, input) {
        Ok(decoded) => Some(decoded),
        Err(_) => None,
    }
}

/// `std::str::from_utf8`: `None` exactly where the call succeeds, which is
/// taken to be where `bytes` is well-formed UTF-8 as vstd defines it;
/// otherwise the error's message as its `Display` impl writes it, which the
/// contract only names.
#[verifier::external_body]
pub(crate) fn utf8_failure(bytes: &[u8]) -> (r: Option<String>)
    ensures
        r.is_none() == valid_utf8(bytes@),
        r.is_some() ==> r.unwrap()@ == utf8_error_message(bytes@),
{
    match std::str::from_utf8(bytes) {
        Ok(_) => None,
        Err(e) => Some(e.to_string()),
    }
}

} // verus!
