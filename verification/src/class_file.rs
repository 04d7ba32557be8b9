//! Extraction of the version fields from the binary header of a class
//! file. A class file begins with a fixed four-byte magic marker, then a
//! big-endian 16-bit minor version and a big-endian 16-bit major version.
//! Nothing past these eight bytes is read.

use vstd::prelude::*;
use crate::version::JavaVersion;
use crate::version::MAJOR_VERSION_OFFSET;
use crate::version::major_version_to_java_version;
use crate::version::supported_major_version;

verus! {

/// First byte of the magic marker; the marker is CA FE BA BE.
pub const MAGIC_0: u8 = 0xCA;

/// Second byte of the magic marker.
pub const MAGIC_1: u8 = 0xFE;

/// Third byte of the magic marker.
pub const MAGIC_2: u8 = 0xBA;

/// Fourth byte of the magic marker.
pub const MAGIC_3: u8 = 0xBE;

/// The two version fields of a class-file header.
#[derive(Clone, Copy, Debug, PartialEq, Eq, Structural)]
pub struct ClassFileHeader {
    pub major_version: u16,
    pub minor_version: u16,
}

/// How a single class file can fail to yield a runtime version.
#[derive(Clone, Copy, Debug, PartialEq, Eq, Structural)]
pub enum ClassError {
    /// The bytes are too short or do not begin with the magic marker.
    MalformedClassFile,
    /// The major version (carried here) is outside the supported range.
    UnsupportedVersion(u16),
}

/// Whether the bytes are long enough to hold the header and begin with the
/// magic marker.
pub open spec fn valid_class_header(b: Seq<u8>) -> bool {
    b.len() >= 8 && b[0] == MAGIC_0 && b[1] == MAGIC_1 && b[2] == MAGIC_2 && b[3] == MAGIC_3
}

/// The big-endian 16-bit value at offset `i`.
pub open spec fn be_u16_at(b: Seq<u8>, i: int) -> u16
    recommends
        0 <= i,
        i + 2 <= b.len(),
{
    ((b[i] as int) * 256 + (b[i + 1] as int)) as u16
}

/// The major version stored in a valid header (bytes 6 and 7).
pub open spec fn major_version_of(b: Seq<u8>) -> u16 {
    be_u16_at(b, 6)
}

/// The minor version stored in a valid header (bytes 4 and 5).
pub open spec fn minor_version_of(b: Seq<u8>) -> u16 {
    be_u16_at(b, 4)
}

/// Reads the two version fields from the start of a class file. Succeeds
/// exactly when the bytes hold a valid header: at least eight bytes,
/// beginning with the magic marker.
pub fn read_version(bytes: &Vec<u8>) -> (r: Result<ClassFileHeader, ClassError>)
    ensures
        (r is Ok) == valid_class_header(bytes@),
        r matches Ok(h) ==> h.major_version == major_version_of(bytes@)
            && h.minor_version == minor_version_of(bytes@),
        r matches Err(e) ==> e == ClassError::MalformedClassFile,
{
    if bytes.len() < 8 {
        return Err(ClassError::MalformedClassFile);
    }
    if bytes[0] != MAGIC_0 || bytes[1] != MAGIC_1 || bytes[2] != MAGIC_2 || bytes[3] != MAGIC_3 {
        return Err(ClassError::MalformedClassFile);
    }
    let minor: u16 = (bytes[4] as u16) * 256 + bytes[5] as u16;
    let major: u16 = (bytes[6] as u16) * 256 + bytes[7] as u16;
    Ok(ClassFileHeader { major_version: major, minor_version: minor })
}

/// Maps a class-file major version to its runtime version, or reports the
/// unsupported value. Succeeds exactly on major versions 45 through 65.
pub fn to_runtime_version(major_version: u16) -> (r: Result<JavaVersion, ClassError>)
    ensures
        (r is Ok) == supported_major_version(major_version),
        r matches Ok(v) ==> v.0 == major_version - MAJOR_VERSION_OFFSET,
        r matches Err(e) ==> e == ClassError::UnsupportedVersion(major_version),
{
    match major_version_to_java_version(major_version) {
        Some(v) => Ok(v),
        None => Err(ClassError::UnsupportedVersion(major_version)),
    }
}

/// The runtime version required by a single class file: header extraction
/// followed by the major-version mapping. Fails with `MalformedClassFile`
/// on an invalid header, and with `UnsupportedVersion` when the header is
/// valid but its major version is outside 45 through 65.
pub fn java_version_from_class_bytes(bytes: &Vec<u8>) -> (r: Result<JavaVersion, ClassError>)
    ensures
        (r is Ok) == (valid_class_header(bytes@)
            && supported_major_version(major_version_of(bytes@))),
        r matches Ok(v) ==> v.0 == major_version_of(bytes@) - MAJOR_VERSION_OFFSET,
        !valid_class_header(bytes@) ==> r == Err::<JavaVersion, ClassError>(
            ClassError::MalformedClassFile,
        ),
        valid_class_header(bytes@) && !supported_major_version(major_version_of(bytes@))
            ==> r == Err::<JavaVersion, ClassError>(
            ClassError::UnsupportedVersion(major_version_of(bytes@)),
        ),
{
    match read_version(bytes) {
        Ok(header) => to_runtime_version(header.major_version),
        Err(e) => Err(e),
    }
}

} // verus!
