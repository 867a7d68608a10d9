//! Opaque identifiers: source tags and asset ids.
//!
//! A tag groups the scenes that came from one watched source; an asset id
//! names one blob published to the HTTP asset store. Both are random
//! version-4 UUIDs, carried as their 128-bit values.

use vstd::prelude::*;

verus! {

/// A tag marking every scene that originated from the same source.
#[derive(Debug, Clone, Copy, PartialEq, Eq, Structural, Hash)]
pub struct Tag(pub u128);

impl Tag {
    /// A fresh random tag.
    pub fn new() -> (t: Tag) {
        Tag(random_uuid_v4())
    }
}

/// A fresh id for an asset to be published on the HTTP asset store.
pub fn create_asset_id() -> (id: u128) {
    random_uuid_v4()
}

/// Relies on uuid::Uuid::new_v4 and uuid::Uuid::as_u128: a random
/// version-4, RFC 9562-variant UUID. Its version nibble is 4 and its
/// variant bits are binary 10; nothing else is promised of a random value.
#[verifier::external_body]
fn random_uuid_v4() -> (r: u128)
    ensures
        (r >> 76) & 0xf == 4,
        (r >> 62) & 0x3 == 2,
{
    uuid::Uuid::new_v4().as_u128()
}

/// The version nibble of a tag's UUID value.
pub fn tag_version(t: &Tag) -> (v: u8)
    ensures
        v == ((t.0 >> 76) & 0xf) as u8,
{
    (((t.0 >> 76) & 0xf) as u8)
}

} // verus!
