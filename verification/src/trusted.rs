//! The trusted boundary to outside crates: base64 decoding, random draws,
//! and the current time. Each wrapper holds one outside call; Verus believes
//! the stated contract.

use vstd::prelude::*;

use base64::Engine;

verus! {

/// What base64's standard-alphabet decoder returns for a given input:
/// `None` where the input is not valid base64. The decoding is a function of
/// the input characters alone.
pub uninterp spec fn b64_decoding(s: Seq<char>) -> Option<Seq<u8>>;

/// Relies on base64's `STANDARD` engine (`Engine::decode`): decoding depends
/// on the input characters alone and rejects malformed input.
#[verifier::external_body]
pub(crate) fn base64_decode(s: &str) -> (r: Result<Vec<u8>, ()>)
    ensures
        match r {
            Ok(v) => b64_decoding(s@) == Some(v@),
            Err(_) => b64_decoding(s@) is None,
        },
{
    match base64::engine::general_purpose::STANDARD.decode(s) {
        Ok(v) => Ok(v),
        Err(_) => Err(()),
    }
}

/// Relies on `rand::random`: one draw from the thread-local generator.
/// Nothing is promised of the value.
#[verifier::external_body]
pub(crate) fn random_u32() -> u32 {
    rand::random::<u32>()
}

/// Relies on `chrono::Utc::now`: the current time as milliseconds since the
/// Unix epoch. Nothing is promised of the value.
#[verifier::external_body]
pub(crate) fn current_timestamp_millis() -> i64 {
    chrono::Utc::now().timestamp_millis()
}

} // verus!
