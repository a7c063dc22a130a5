use vstd::prelude::*;

verus! {

/// The identity of an entity: a 128-bit value, fixed when the entity is
/// created and used as the key for every cross-subsystem lookup.
#[derive(Clone, Copy, Debug, PartialEq, Eq, Hash, Structural)]
pub struct EntityId {
    pub value: u128,
}

/// The version field of a 128-bit UUID read as a big-endian integer.
pub open spec fn uuid_version(v: u128) -> u128 {
    (v >> 76u128) & 0xfu128
}

/// The two top bits of the variant field of a 128-bit UUID read as a
/// big-endian integer.
pub open spec fn uuid_variant(v: u128) -> u128 {
    (v >> 62u128) & 0x3u128
}

/// Relies on `uuid::Uuid::new_v4` and `Uuid::as_u128`: a random UUID whose
/// version field is 4 and whose variant bits are `10` (RFC 4122), read as a
/// big-endian integer.
#[verifier::external_body]
fn random_uuid_v4() -> (r: u128)
    ensures
        uuid_version(r) == 4,
        uuid_variant(r) == 2,
{
    uuid::Uuid::new_v4().as_u128()
}

impl EntityId {
    /// A fresh random identity (a version-4 UUID).
    pub fn new_random() -> (r: EntityId)
        ensures
            uuid_version(r.value) == 4,
            uuid_variant(r.value) == 2,
    {
        EntityId { value: random_uuid_v4() }
    }
}

} // verus!
