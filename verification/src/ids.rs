//! Mention identifiers come from the `uuid` crate: freshly drawn for new
//! records, rendered into the canonical mention URL, and parsed back on the
//! read path.

use vstd::prelude::*;
use crate::types::MentionId;

verus! {

/// The text `uuid` renders for the identifier with 128-bit value `n`: the
/// hyphenated lower-case form.
pub uninterp spec fn uuid_text_of(n: u128) -> Seq<char>;

/// The identifier value `uuid` reads out of a string, or `None` where the
/// string is not a well-formed UUID.
pub uninterp spec fn uuid_of_text(s: Seq<char>) -> Option<u128>;

/// Relies on `uuid::Uuid::new_v4`: a randomly drawn identifier; nothing is
/// assumed of its value, and callers must treat collisions as possible.
#[verifier::external_body]
pub fn new_mention_id() -> MentionId {
    MentionId(uuid::Uuid::new_v4().as_u128())
}

/// Relies on `uuid::Uuid::parse_str` and `Uuid::as_u128`: the outcome
/// depends on the string alone.
#[verifier::external_body]
pub fn parse_mention_id(s: &str) -> (r: Option<MentionId>)
    ensures
        r matches Some(m) ==> uuid_of_text(s@) == Some(m.0),
        r is None ==> uuid_of_text(s@) is None,
{
    match uuid::Uuid::parse_str(s) {
        Ok(u) => Some(MentionId(u.as_u128())),
        Err(_) => None,
    }
}

/// Relies on `uuid::Uuid::from_u128` and the `Display` rendering: the text
/// depends on the identifier alone, and `parse_str` reads that text back to
/// the same identifier.
#[verifier::external_body]
pub fn mention_id_text(id: MentionId) -> (r: String)
    ensures
        r@ == uuid_text_of(id.0),
        uuid_of_text(r@) == Some(id.0),
{
    uuid::Uuid::from_u128(id.0).to_string()
}

} // verus!
