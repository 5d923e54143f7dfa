//! Version numbers as the resolution carries them.

use vstd::prelude::*;

verus! {

/// A version of the package: three numbers, the most significant first.
#[derive(Debug, Clone, Copy, PartialEq, Eq, Structural, Hash)]
pub struct Version {
    pub major: u8,
    pub minor: u8,
    pub patch: u8,
}

impl Version {
    /// The version `major.minor.patch`.
    pub fn new(major: u8, minor: u8, patch: u8) -> (version: Self)
        ensures
            version.major == major,
            version.minor == minor,
            version.patch == patch,
    {
        Version { major, minor, patch }
    }
}

} // verus!
