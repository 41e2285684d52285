//! Recognition of JSON object documents.

use vstd::prelude::*;

verus! {

/// Whether the bytes form a JSON document whose top level is an object;
/// the answer depends on the bytes alone.
pub uninterp spec fn is_json_object(s: Seq<u8>) -> bool;

/// Relies on `serde_json::from_slice::<Map<String, Value>>` to decide
/// whether the bytes parse as a JSON object, a function of the bytes
/// alone.
#[verifier::external_body]
fn json_object_valid(s: &[u8]) -> (r: bool)
    ensures
        r == is_json_object(s@),
{
    serde_json::from_slice::<serde_json::Map<String, serde_json::Value>>(s).is_ok()
}

/// Recognizes JSON object documents.
#[derive(Debug)]
pub struct MagicJsonMatcher {
    pub valid_json: bool,
}

impl Default for MagicJsonMatcher {
    fn default() -> (r: Self)
        ensures
            !r.valid_json,
    {
        MagicJsonMatcher { valid_json: false }
    }
}

impl MagicJsonMatcher {
    /// Classifies a buffer: sets the flag exactly when the bytes parse as
    /// a JSON object.
    pub fn magic_match(&mut self, data: &[u8])
        ensures
            final(self).valid_json == is_json_object(data@),
    {
        self.valid_json = json_object_valid(data);
    }
}

} // verus!
