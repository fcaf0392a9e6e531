//! Identifiers and simulated telemetry, drawn from the uuid and rand crates.
use rand::Rng;
use vstd::prelude::*;

verus! {

/// The hyphenated lower-case text of a UUID given by its 128-bit value.
pub uninterp spec fn uuid_text(v: u128) -> Seq<char>;

/// The 128-bit value of the UUID that a text denotes, if it denotes one.
pub uninterp spec fn uuid_parsed(s: Seq<char>) -> Option<u128>;

/// Relies on uuid::Uuid::to_string (its Display impl): the text depends on the value alone.
#[verifier::external_body]
pub(crate) fn uuid_string(v: u128) -> (r: String)
    ensures
        r@ == uuid_text(v),
{
    uuid::Uuid::from_u128(v).to_string()
}

/// Relies on uuid::Uuid::parse_str: the outcome depends on the text alone.
#[verifier::external_body]
pub(crate) fn parse_uuid(s: &str) -> (r: Option<u128>)
    ensures
        r == uuid_parsed(s@),
{
    match uuid::Uuid::parse_str(s) {
        Ok(u) => Some(u.as_u128()),
        Err(_) => None,
    }
}

/// Relies on uuid::Uuid::new_v4: a random identifier; nothing is known of its value.
#[verifier::external_body]
pub(crate) fn random_uuid() -> (r: u128) {
    uuid::Uuid::new_v4().as_u128()
}

/// Relies on rand's Rng::gen_range over the thread-local generator: a value
/// in the half-open range, which must not be empty.
#[verifier::external_body]
pub(crate) fn random_in(lo: i32, hi: i32) -> (r: i32)
    requires
        lo < hi,
    ensures
        lo <= r < hi,
{
    rand::thread_rng().gen_range(lo..hi)
}

} // verus!
