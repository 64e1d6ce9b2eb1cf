//! Declaration of semver's version type, so that a value of it can be
//! carried through opaquely.

use vstd::prelude::*;

verus! {

/// `semver::Version`, declared for use in fields and signatures; nothing of
/// its inside is visible here.
#[verifier::external_type_specification]
#[verifier::external_body]
pub struct ExSemverVersion(semver::Version);

} // verus!
