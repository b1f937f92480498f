//! Draws from outside sources of chance and identity, and JSON quoting.
use rand::Rng;
use vstd::prelude::*;

verus! {

/// The JSON string literal that `serde_json` writes for a text.
pub uninterp spec fn json_string_of(s: Seq<char>) -> Seq<char>;

/// Relies on `rand::Rng::gen_range` over `rand::thread_rng()`: a uniform draw
/// in `[0, bound)`; the range must not be empty.
#[verifier::external_body]
pub(crate) fn roll_below(bound: u32) -> (r: u32)
    requires
        bound > 0,
    ensures
        r < bound,
{
    rand::thread_rng().gen_range(0..bound)
}

/// Relies on `uuid::Uuid::new_v4` and its `Display`: a random identifier in
/// its hyphenated form of 36 characters.
#[verifier::external_body]
pub(crate) fn fresh_uuid() -> (r: String)
    ensures
        r@.len() == 36,
{
    uuid::Uuid::new_v4().to_string()
}

/// Relies on `serde_json::to_string` on a `str`: the quoted, escaped JSON
/// string literal of the text. Serialising a `str` writes into a `Vec` and
/// never fails.
#[verifier::external_body]
pub(crate) fn json_quote(s: &str) -> (r: String)
    ensures
        r@ == json_string_of(s@),
{
    serde_json::to_string(s).unwrap_or_default()
}

} // verus!
