use vstd::prelude::*;

verus! {

/// A token carries the version-4 marks of a random UUID: version nibble 4 and
/// the two top variant bits `10`, read as a big-endian 128-bit integer.
pub open spec fn is_v4_token(t: u128) -> bool {
    (t >> 76u128) & 0xfu128 == 4u128 && (t >> 62u128) & 0x3u128 == 2u128
}

/// Relies on `uuid::Uuid::new_v4`, a random version-4 UUID, and on
/// `uuid::Uuid::as_u128`, its 16 bytes read as a big-endian integer. Nothing
/// is promised of the value beyond the version and variant bits. `new_v4`
/// panics where the operating system yields no random bytes.
#[verifier::external_body]
pub(crate) fn random_token() -> (r: u128)
    ensures
        is_v4_token(r),
{
    uuid::Uuid::new_v4().as_u128()
}

} // verus!
