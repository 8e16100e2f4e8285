use vstd::prelude::*;
use base64::Engine;
use vstd::utf8::{encode_utf8, valid_utf8};

verus! {

/// What base64's standard-alphabet decoder returns for a given string: the
/// decoded bytes, or nothing when the input is not valid base64.  The
/// outcome is a function of the input characters alone.
pub uninterp spec fn base64_decoded(s: Seq<char>) -> Option<Seq<u8>>;

/// Relies on base64's `Engine::decode` with the `BASE64_STANDARD` engine:
/// the result is deterministic in the input string.
#[verifier::external_body]
fn base64_decode(s: &str) -> (r: Option<Vec<u8>>)
    ensures
        (r matches Some(v) ==> base64_decoded(s@) == Some(v@)),
        (r is None ==> base64_decoded(s@) is None),
{
    base64::prelude::BASE64_STANDARD.decode(s).ok()
}

/// Relies on `String::from_utf8`: it succeeds exactly on valid UTF-8 and
/// returns the decoded text, stated through vstd's UTF-8 model.
#[verifier::external_body]
fn utf8_to_string(v: Vec<u8>) -> (r: Option<String>)
    ensures
        (r matches Some(s) ==> valid_utf8(v@) && encode_utf8(s@) == v@),
        (r is None ==> !valid_utf8(v@)),
{
    String::from_utf8(v).ok()
}

/// The readable text behind a base64-encoded node id: the id decoded and
/// interpreted as UTF-8, or nothing when either step is impossible.
pub fn user_id_text(id: &str) -> (r: Option<String>)
    ensures
        (r matches Some(s) ==> (base64_decoded(id@) matches Some(b) && valid_utf8(b)
            && encode_utf8(s@) == b)),
        (r is None ==> (base64_decoded(id@) is None || (base64_decoded(id@) matches Some(b)
            && !valid_utf8(b)))),
{
    match base64_decode(id) {
        None => None,
        Some(bytes) => utf8_to_string(bytes),
    }
}

} // verus!
