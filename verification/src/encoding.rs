//! Percent-encoding for long-poll response bodies and JSON string quoting
//! for the gRPC and v2 HTTP response bodies. Both are outside computations,
//! named here and called through trusted wrappers.

use vstd::prelude::*;

verus! {

/// The RFC 3986 percent-encoding of a text, as `urlencoding` renders it:
/// every byte but alphanumerics and `-`, `_`, `.`, `~` escaped. A function
/// of the input alone.
pub uninterp spec fn percent_encoded(s: Seq<char>) -> Seq<char>;

/// Relies on `urlencoding::encode`: percent-encodes every byte of the UTF-8
/// form except alphanumerics and `-`, `_`, `.`, `~`; each input character
/// yields at least one output character, so the result is empty exactly for
/// the empty input.
#[verifier::external_body]
pub fn percent_encode(s: &str) -> (r: String)
    ensures
        r@ == percent_encoded(s@),
        r@.len() == 0 <==> s@.len() == 0,
{
    urlencoding::encode(s).into_owned()
}

/// The JSON string literal denoting a text, quotes included, as
/// `serde_json` renders it. A function of the input alone.
pub uninterp spec fn json_quoted(s: Seq<char>) -> Seq<char>;

/// Relies on `serde_json::to_string` on a `&str`: the JSON string literal
/// for the text, quotes included. Serializing a string value cannot fail,
/// so the error arm is dead.
#[verifier::external_body]
pub fn json_quote(s: &str) -> (r: String)
    ensures
        r@ == json_quoted(s@),
{
    serde_json::to_string(s).unwrap_or_default()
}

} // verus!
