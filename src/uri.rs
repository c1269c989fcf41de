//! Percent-decoding of URI components, for showing file names to users.
use vstd::prelude::*;
use crate::diagram::opt_view;

verus! {

/// What percent-decoding `s` and reading the bytes as UTF-8 gives; none
/// when the bytes are not UTF-8.
pub uninterp spec fn percent_decoded(s: Seq<char>) -> Option<Seq<char>>;

/// Relies on `percent_encoding::percent_decode_str` followed by
/// `PercentDecode::decode_utf8`: each `%` with two hex digits becomes the
/// byte they denote, every other byte stays, and the bytes are read back
/// as UTF-8. Without a `%` the input comes back as it is.
#[verifier::external_body]
fn percent_decode_utf8(s: &str) -> (r: Option<String>)
    ensures
        opt_view(r) == percent_decoded(s@),
        (forall|i: int| 0 <= i < s@.len() ==> s@[i] != '%') ==> opt_view(r) == Some(s@),
{
    match percent_encoding::percent_decode_str(s).decode_utf8() {
        Ok(c) => Some(c.into_owned()),
        Err(_) => None,
    }
}

/// The decoded text when decoding succeeded, else the raw text.
pub fn decoded_or_raw(decoded: Option<String>, raw: &str) -> (r: String)
    ensures
        r@ == match opt_view(decoded) {
            Some(t) => t,
            None => raw@,
        },
{
    match decoded {
        Some(t) => t,
        None => String::from_str(raw),
    }
}

/// Decodes percent-encoded text (`my%20file.txt` becomes `my file.txt`);
/// text that does not decode to UTF-8 is returned unchanged.
pub fn decode_uri_component(s: &str) -> (r: String)
    ensures
        r@ == match percent_decoded(s@) {
            Some(t) => t,
            None => s@,
        },
        (forall|i: int| 0 <= i < s@.len() ==> s@[i] != '%') ==> r@ == s@,
{
    decoded_or_raw(percent_decode_utf8(s), s)
}

} // verus!
