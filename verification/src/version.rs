//! Runtime (Java) version numbers and their relation to class-file major
//! versions. A runtime version `v` corresponds to class-file major version
//! `v + 44`; only runtime versions 1 through 21 (major versions 45 through
//! 65) are supported. These two bounds are the single point of change when
//! new runtime versions must be supported.

use vstd::prelude::*;

verus! {

/// Lowest supported class-file major version (runtime version 1).
pub const MIN_MAJOR_VERSION: u16 = 45;

/// Highest supported class-file major version (runtime version 21).
pub const MAX_MAJOR_VERSION: u16 = 65;

/// Offset between a class-file major version and the runtime version.
pub const MAJOR_VERSION_OFFSET: u16 = 44;

/// A Java runtime version in the supported range 1 through 21 (inclusive).
#[derive(Clone, Copy, Debug, PartialEq, Eq, Structural)]
pub struct JavaVersion(pub u16);

/// Whether a class-file major version is one of the supported versions.
pub open spec fn supported_major_version(major_version: u16) -> bool {
    MIN_MAJOR_VERSION <= major_version <= MAX_MAJOR_VERSION
}

impl JavaVersion {
    /// The class-file major version that corresponds to this runtime version.
    pub fn to_major_version(&self) -> (r: u16)
        requires
            self.0 + MAJOR_VERSION_OFFSET <= u16::MAX,
        ensures
            r == self.0 + MAJOR_VERSION_OFFSET,
    {
        self.0 + MAJOR_VERSION_OFFSET
    }

    /// The plain version number, for callers that present the result.
    pub fn value(&self) -> (r: u16)
        ensures
            r == self.0,
    {
        self.0
    }
}

/// Maps a class-file major version to the runtime version required to run
/// it: `major_version - 44`. Returns `None` exactly when the major version
/// is outside the supported range 45 through 65.
pub fn major_version_to_java_version(major_version: u16) -> (r: Option<JavaVersion>)
    ensures
        (r is Some) == supported_major_version(major_version),
        r matches Some(v) ==> v.0 == major_version - MAJOR_VERSION_OFFSET,
{
    if MIN_MAJOR_VERSION <= major_version && major_version <= MAX_MAJOR_VERSION {
        Some(JavaVersion(major_version - MAJOR_VERSION_OFFSET))
    } else {
        None
    }
}

} // verus!
