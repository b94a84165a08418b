use vstd::prelude::*;

use crate::record::is_uuid_text;

verus! {

/// Relies on `chrono::Utc::now` and `DateTime::timestamp`: the current time as
/// whole seconds since the Unix epoch. `Utc::now` panics for a system clock
/// set before the epoch, so every value it returns is non-negative.
#[verifier::external_body]
pub(crate) fn unix_now() -> (r: i64)
    ensures
        r >= 0,
{
    chrono::Utc::now().timestamp()
}

/// Relies on `uuid::Uuid::new_v4` and its `Display`: a random version-4 UUID in
/// its hyphenated lowercase form (`LowerHex` of `Hyphenated`), 8-4-4-4-12
/// lowercase hexadecimal digits.
#[verifier::external_body]
pub(crate) fn fresh_certificate_id() -> (r: String)
    ensures
        is_uuid_text(r@),
{
    uuid::Uuid::new_v4().to_string()
}

/// Relies on `uuid::Uuid::new_v4` and `Uuid::as_fields`: the first 32 bits
/// of a random UUID. Nothing is known of the value.
#[verifier::external_body]
pub(crate) fn random_serial_seed() -> u32 {
    uuid::Uuid::new_v4().as_fields().0
}

} // verus!
