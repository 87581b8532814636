//! Identifiers for groups and devices: opaque 128-bit values, generated
//! randomly and rendered as canonical UUID text at process boundaries.

use vstd::prelude::*;

verus! {

/// A 128-bit identifier for a group or a device.
#[derive(Clone, Copy, PartialEq, Eq, Structural, Debug, Hash)]
pub struct Uid {
    pub value: u128,
}

impl Uid {
    pub fn new(value: u128) -> (r: Uid)
        ensures
            r.value == value,
    {
        Uid { value }
    }
}

/// Relies on uuid::Uuid::new_v4 (a random version-4 UUID) and
/// uuid::Uuid::as_u128; the result is random, so nothing is promised of it.
#[verifier::external_body]
pub(crate) fn fresh_uid() -> Uid {
    Uid { value: uuid::Uuid::new_v4().as_u128() }
}

} // verus!
