use javamin::class_file::ClassError;
use javamin::class_file::java_version_from_class_bytes;
use javamin::class_file::read_version;
use javamin::class_file::to_runtime_version;
use javamin::version::major_version_to_java_version;

fn class_bytes(major: u16) -> Vec<u8> {
    vec![0xCA, 0xFE, 0xBA, 0xBE, 0, 0, (major >> 8) as u8, (major & 0xFF) as u8]
}

#[test]
fn every_major_version_maps_by_offset_or_fails() {
    for major in 0..=u16::MAX {
        let mapped = major_version_to_java_version(major);
        let converted = to_runtime_version(major);
        if (45..=65).contains(&major) {
            let v = mapped.expect("supported major version must map");
            assert_eq!(v.value(), major - 44);
            assert_eq!(converted.expect("supported major version must convert").value(), major - 44);
        } else {
            assert!(mapped.is_none());
            assert_eq!(converted.unwrap_err(), ClassError::UnsupportedVersion(major));
        }
    }
}

#[test]
fn to_major_version_inverts_the_mapping() {
    for major in 45..=65u16 {
        let v = major_version_to_java_version(major).unwrap();
        assert_eq!(v.to_major_version(), major);
    }
}

#[test]
fn major_version_61_reads_as_runtime_17() {
    let bytes = class_bytes(0x3D);
    let header = read_version(&bytes).expect("valid header must parse");
    assert_eq!(header.major_version, 61);
    assert_eq!(header.minor_version, 0);
    let v = to_runtime_version(header.major_version).expect("61 is supported");
    assert_eq!(v.value(), 17);
    assert_eq!(java_version_from_class_bytes(&bytes).unwrap().value(), 17);
}

#[test]
fn short_bytes_are_malformed() {
    let bytes = vec![0xCA, 0xFE, 0xBA];
    assert_eq!(read_version(&bytes).unwrap_err(), ClassError::MalformedClassFile);
}

#[test]
fn wrong_magic_is_malformed() {
    let bytes = vec![0xCA, 0xFE, 0xBA, 0xBF, 0, 0, 0, 61];
    assert_eq!(read_version(&bytes).unwrap_err(), ClassError::MalformedClassFile);
    assert_eq!(
        java_version_from_class_bytes(&bytes).unwrap_err(),
        ClassError::MalformedClassFile
    );
}

#[test]
fn minor_version_is_read_from_bytes_four_and_five() {
    let bytes = vec![0xCA, 0xFE, 0xBA, 0xBE, 0x01, 0x02, 0x00, 0x34];
    let header = read_version(&bytes).unwrap();
    assert_eq!(header.minor_version, 258);
    assert_eq!(header.major_version, 52);
}

#[test]
fn out_of_range_class_file_is_unsupported() {
    let too_new = class_bytes(70);
    assert_eq!(
        java_version_from_class_bytes(&too_new).unwrap_err(),
        ClassError::UnsupportedVersion(70)
    );
    let too_old = class_bytes(44);
    assert_eq!(
        java_version_from_class_bytes(&too_old).unwrap_err(),
        ClassError::UnsupportedVersion(44)
    );
}
