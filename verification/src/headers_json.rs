//! How a link's header pairs are stored: a JSON array of `[name, value]`
//! arrays, written and read by `serde_json`.
use vstd::prelude::*;

use crate::types::pairs_view;

verus! {

#[verifier::external_type_specification]
#[verifier::external_body]
pub struct ExJsonError(serde_json::Error);

/// Name for the text `serde_json::to_string` makes of a list of pairs, or
/// `None` when it reports an error.
pub uninterp spec fn json_of_pairs(pairs: Seq<(Seq<char>, Seq<char>)>) -> Option<Seq<char>>;

/// Name for the list of pairs `serde_json::from_str` reads from `text`, or
/// `None` when it reports an error.
pub uninterp spec fn pairs_of_json(text: Seq<char>) -> Option<Seq<(Seq<char>, Seq<char>)>>;

/// Calls `serde_json::to_string` on the pairs. Its documentation says that
/// serializing fails only when a `Serialize` impl chooses to or a map has
/// non-string keys, neither of which a list of string pairs has; its source
/// escapes every quote, backslash and control character of each string, which
/// `serde_json::from_str` reads back. The contract says so: the call succeeds
/// with the named text, and that text reads back as the same pairs.
#[verifier::external_body]
fn to_json(pairs: &Vec<(String, String)>) -> (r: Result<String, serde_json::Error>)
    ensures
        r is Ok,
        r matches Ok(s) ==> json_of_pairs(pairs_view(pairs@)) == Some(s@),
        r matches Ok(s) ==> pairs_of_json(s@) == Some(pairs_view(pairs@)),
{
    serde_json::to_string(pairs)
}

/// Calls `serde_json::from_str` for a `Vec<(String, String)>`. The contract
/// says only that a success is the named list and a failure is where the name
/// is `None`.
#[verifier::external_body]
fn from_json(text: &str) -> (r: Result<Vec<(String, String)>, serde_json::Error>)
    ensures
        r matches Ok(v) ==> pairs_of_json(text@) == Some(pairs_view(v@)),
        r is Err ==> pairs_of_json(text@) is None,
{
    serde_json::from_str(text)
}

/// The stored form of a link's header pairs, `None` when they cannot be
/// encoded (which a list of string pairs never is). The stored form reads
/// back as the same pairs.
pub fn encode_headers(pairs: &Vec<(String, String)>) -> (r: Option<String>)
    ensures
        match json_of_pairs(pairs_view(pairs@)) {
            Some(t) => r matches Some(s) && s@ == t,
            None => r is None,
        },
        r matches Some(s) && pairs_of_json(s@) == Some(pairs_view(pairs@)),
{
    match to_json(pairs) {
        Ok(s) => Some(s),
        Err(_) => None,
    }
}

/// The header pairs stored for a link; a column that does not hold such a
/// list reads as no headers.
pub fn decode_headers(text: &str) -> (r: Vec<(String, String)>)
    ensures
        match pairs_of_json(text@) {
            Some(p) => pairs_view(r@) == p,
            None => r@.len() == 0,
        },
{
    match from_json(text) {
        Ok(v) => v,
        Err(_) => Vec::new(),
    }
}

} // verus!
