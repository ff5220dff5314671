//! Identifiers of agents and delegations, and fingerprints of texts.
use std::collections::hash_map::DefaultHasher;
use std::hash::{Hash, Hasher};
use vstd::prelude::*;

use crate::text;
use crate::text::hex16;

verus! {

/// The hyphenated text of an identifier: its hexadecimal digits in five groups.
pub open spec fn id_text(id: u128) -> Seq<char> {
    let digits = text::hex_padded(id as nat, 32);
    digits.subrange(0, 8) + "-"@ + digits.subrange(8, 12) + "-"@ + digits.subrange(12, 16) + "-"@
        + digits.subrange(16, 20) + "-"@ + digits.subrange(20, 32)
}

/// The identifier that `uuid` reads from a text, where it reads one.
pub uninterp spec fn id_parsed(text: Seq<char>) -> Option<u128>;

/// `uuid::Uuid::to_string` of the identifier with these bits: its lower-case hexadecimal
/// digits, in groups of eight, four, four, four and twelve with hyphens between them, from
/// which `parse_id` gives the identifier back.
#[verifier::external_body]
pub(crate) fn id_to_text(id: u128) -> (r: String)
    ensures
        r@ == id_text(id),
        id_parsed(r@) == Some(id),
{
    uuid::Uuid::from_u128(id).to_string()
}

/// `uuid::Uuid::parse_str`: the bits of the identifier that the text holds, or
/// nothing where it holds none.
#[verifier::external_body]
pub(crate) fn parse_id(text: &str) -> (r: Option<u128>)
    ensures
        r == id_parsed(text@),
{
    uuid::Uuid::parse_str(text).ok().map(|id| id.as_u128())
}

/// `uuid::Uuid::new_v4`: an identifier drawn at random. Nothing is known of its
/// value.
#[verifier::external_body]
pub(crate) fn fresh_id() -> (r: u128) {
    uuid::Uuid::new_v4().as_u128()
}

/// What the `Hash` impl of `str` writes into a hasher for a text.
pub uninterp spec fn hash_writes(text: Seq<char>) -> Seq<Seq<u8>>;

/// `Hash::hash` of std on a string slice: adds the writes that stand for the text to
/// those that the hasher has taken.
#[verifier::external_body]
fn hash_into(text: &str, hasher: &mut DefaultHasher)
    ensures
        final(hasher)@ == old(hasher)@ + hash_writes(text@),
{
    text.hash(hasher);
}

/// The hash that a fresh `DefaultHasher` gives for a text.
pub open spec fn text_hash(text: Seq<char>) -> u64 {
    <DefaultHasher as vstd::std_specs::hash::DefaultHasherAdditionalSpecFns>::spec_finish(
        Seq::<Seq<u8>>::empty() + hash_writes(text),
    )
}

/// The hash that a fresh `DefaultHasher` gives for a text.
pub fn hash_text(text: &str) -> (r: u64)
    ensures
        r == text_hash(text@),
{
    let mut hasher = DefaultHasher::new();
    hash_into(text, &mut hasher);
    hasher.finish()
}

/// The hash of a text as sixteen hexadecimal digits.
pub fn hash_hex(input: &str) -> (r: String)
    ensures
        r@ == text::hex_padded(text_hash(input@) as nat, 16),
{
    hex16(hash_text(input))
}

} // verus!
