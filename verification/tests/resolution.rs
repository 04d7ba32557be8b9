use javamin::archive::ArchiveEntry;
use javamin::archive::ArchiveError;
use javamin::archive::is_class_file_name;
use javamin::archive::resolve_archive;
use javamin::archive::resolve_multi_release;
use javamin::archive::resolve_simple;
use javamin::class_file::ClassError;
use javamin::manifest::is_multi_release_manifest;
use javamin::multi_release::EffectiveVersion;
use javamin::multi_release::greater_effective;
use javamin::multi_release::lesser_effective;
use javamin::multi_release::split_multi_release_path_to_java_version_and_filepath;
use javamin::multi_release::starts_with_versions_prefix;

fn class_bytes(major: u16) -> Vec<u8> {
    vec![0xCA, 0xFE, 0xBA, 0xBE, 0, 0, (major >> 8) as u8, (major & 0xFF) as u8]
}

fn entry(name: &str, bytes: Vec<u8>) -> ArchiveEntry {
    ArchiveEntry { name: name.as_bytes().to_vec(), bytes }
}

fn plain_manifest() -> Vec<u8> {
    b"Manifest-Version: 1.0\n".to_vec()
}

fn multi_release_manifest() -> Vec<u8> {
    b"Manifest-Version: 1.0\nMulti-Release: true\n".to_vec()
}

#[test]
fn simple_resolution_takes_the_maximum_major_version() {
    let entries = vec![
        entry("com/A.class", class_bytes(52)),
        entry("com/B.class", class_bytes(55)),
        entry("com/C.class", class_bytes(61)),
        entry("META-INF/MANIFEST.MF", b"Manifest-Version: 1.0\n".to_vec()),
    ];
    assert_eq!(resolve_simple(&entries).unwrap().value(), 17);
}

#[test]
fn simple_resolution_is_order_independent() {
    let orders = [[52u16, 55, 61], [61, 52, 55], [55, 61, 52]];
    for majors in orders {
        let entries: Vec<ArchiveEntry> = majors
            .iter()
            .enumerate()
            .map(|(i, m)| entry(&format!("p/C{}.class", i), class_bytes(*m)))
            .collect();
        assert_eq!(resolve_simple(&entries).unwrap().value(), 17);
    }
}

#[test]
fn archive_without_class_files_fails() {
    let entries = vec![
        entry("META-INF/MANIFEST.MF", plain_manifest()),
        entry("readme.txt", b"hello".to_vec()),
    ];
    assert_eq!(resolve_simple(&entries).unwrap_err(), ArchiveError::NoClassFilesFound);
    assert_eq!(
        resolve_simple(&Vec::new()).unwrap_err(),
        ArchiveError::NoClassFilesFound
    );
}

#[test]
fn malformed_entry_aborts_resolution_with_its_name() {
    let entries = vec![
        entry("com/A.class", class_bytes(52)),
        entry("com/Broken.class", vec![0, 1, 2]),
        entry("com/C.class", class_bytes(61)),
    ];
    let err = resolve_simple(&entries).unwrap_err();
    assert_eq!(
        err,
        ArchiveError::EntryFailed {
            name: b"com/Broken.class".to_vec(),
            error: ClassError::MalformedClassFile,
        }
    );
}

#[test]
fn aggregated_unsupported_version_is_reported() {
    let entries = vec![
        entry("com/A.class", class_bytes(52)),
        entry("com/New.class", class_bytes(70)),
    ];
    assert_eq!(resolve_simple(&entries).unwrap_err(), ArchiveError::UnsupportedVersion(70));
}

#[test]
fn missing_manifest_fails_resolution() {
    let entries = vec![entry("com/A.class", class_bytes(52))];
    assert_eq!(
        resolve_archive(None, &entries).unwrap_err(),
        ArchiveError::ManifestMissing
    );
}

#[test]
fn manifest_declaration_is_matched_exactly() {
    assert!(is_multi_release_manifest(&multi_release_manifest()));
    assert!(is_multi_release_manifest(&b"Multi-Release: true".to_vec()));
    assert!(!is_multi_release_manifest(&plain_manifest()));
    assert!(!is_multi_release_manifest(&b"Multi-Release: false\n".to_vec()));
    assert!(!is_multi_release_manifest(&b"Multi-Release: true \n".to_vec()));
    assert!(!is_multi_release_manifest(&b"Multi-Release: true\r\n".to_vec()));
    assert!(!is_multi_release_manifest(&b"X-Multi-Release: true\n".to_vec()));
    assert!(!is_multi_release_manifest(&b"".to_vec()));
}

#[test]
fn versioned_path_splits_into_version_and_base_path() {
    let path = b"META-INF/versions/17/com/A.class".to_vec();
    assert!(starts_with_versions_prefix(&path));
    let (v, base) = split_multi_release_path_to_java_version_and_filepath(&path).unwrap();
    assert_eq!(v.value(), 17);
    assert_eq!(base, b"com/A.class".to_vec());
}

#[test]
fn out_of_range_directory_numbers_split_to_nothing() {
    let low = b"META-INF/versions/7/com/A.class".to_vec();
    assert!(split_multi_release_path_to_java_version_and_filepath(&low).is_none());
    let high = b"META-INF/versions/99/com/A.class".to_vec();
    assert!(split_multi_release_path_to_java_version_and_filepath(&high).is_none());
    let empty = b"META-INF/versions/".to_vec();
    assert!(split_multi_release_path_to_java_version_and_filepath(&empty).is_none());
    let not_a_number = b"META-INF/versions/x9/com/A.class".to_vec();
    assert!(split_multi_release_path_to_java_version_and_filepath(&not_a_number).is_none());
}

#[test]
fn override_caps_the_base_entry_version() {
    let entries = vec![
        entry("META-INF/MANIFEST.MF", multi_release_manifest()),
        entry("com/A.class", class_bytes(52)),
        entry("META-INF/versions/17/com/A.class", class_bytes(61)),
    ];
    // The base entry needs runtime version 8; the override entry's
    // directory version 17 can only cap that, so the lesser value 8 wins.
    assert_eq!(resolve_multi_release(&entries).unwrap().value(), 8);
    assert_eq!(
        resolve_archive(Some(&multi_release_manifest()), &entries).unwrap().value(),
        8
    );
}

#[test]
fn directory_version_joins_the_maximum_on_the_runtime_scale() {
    let entries = vec![
        entry("com/A.class", class_bytes(61)),
        entry("META-INF/versions/9/com/A.class", class_bytes(52)),
        entry("com/B.class", class_bytes(52)),
    ];
    // Base A is capped to the directory version 9, which then wins the
    // maximum against B's runtime version 8 without any further offset.
    assert_eq!(resolve_multi_release(&entries).unwrap().value(), 9);
}

#[test]
fn versioned_entries_are_not_aggregated_themselves() {
    let entries = vec![
        entry("com/A.class", class_bytes(52)),
        entry("META-INF/versions/21/com/B.class", class_bytes(65)),
    ];
    // The versioned entry overrides a base path that does not exist, so
    // only the base entry counts.
    assert_eq!(resolve_multi_release(&entries).unwrap().value(), 8);
}

#[test]
fn out_of_range_directories_contribute_no_override() {
    let entries = vec![
        entry("com/A.class", class_bytes(61)),
        entry("META-INF/versions/7/com/A.class", class_bytes(45)),
        entry("META-INF/versions/99/com/A.class", class_bytes(45)),
    ];
    assert_eq!(resolve_multi_release(&entries).unwrap().value(), 17);
}

#[test]
fn later_override_of_the_same_path_wins() {
    let entries = vec![
        entry("com/A.class", class_bytes(61)),
        entry("META-INF/versions/13/com/A.class", class_bytes(57)),
        entry("META-INF/versions/9/com/A.class", class_bytes(53)),
    ];
    assert_eq!(resolve_multi_release(&entries).unwrap().value(), 9);
}

#[test]
fn multi_release_archive_without_base_classes_fails() {
    let entries = vec![
        entry("META-INF/MANIFEST.MF", multi_release_manifest()),
        entry("META-INF/versions/17/com/A.class", class_bytes(61)),
    ];
    assert_eq!(
        resolve_multi_release(&entries).unwrap_err(),
        ArchiveError::NoClassFilesFound
    );
}

#[test]
fn without_declaration_versioned_entries_resolve_as_plain_entries() {
    let manifest = plain_manifest();
    let entries = vec![
        entry("com/A.class", class_bytes(52)),
        entry("META-INF/versions/17/com/A.class", class_bytes(61)),
    ];
    let via_archive = resolve_archive(Some(&manifest), &entries);
    let via_simple = resolve_simple(&entries);
    assert_eq!(via_archive, via_simple);
    // Simple resolution reads every `.class` entry, wherever it lies.
    assert_eq!(via_simple.unwrap().value(), 17);
}

#[test]
fn resolving_twice_yields_identical_results() {
    let manifest = multi_release_manifest();
    let entries = vec![
        entry("com/A.class", class_bytes(52)),
        entry("META-INF/versions/17/com/A.class", class_bytes(61)),
        entry("com/B.class", class_bytes(55)),
    ];
    let first = resolve_archive(Some(&manifest), &entries);
    let second = resolve_archive(Some(&manifest), &entries);
    assert_eq!(first, second);
    let broken = vec![entry("a.class", vec![1])];
    assert_eq!(resolve_simple(&broken), resolve_simple(&broken));
}

#[test]
fn class_file_names_end_in_the_class_suffix() {
    assert!(is_class_file_name(&b"com/A.class".to_vec()));
    assert!(is_class_file_name(&b".class".to_vec()));
    assert!(!is_class_file_name(&b"com/A.clas".to_vec()));
    assert!(!is_class_file_name(&b"class".to_vec()));
    assert!(!is_class_file_name(&b"com/A.class.txt".to_vec()));
}

#[test]
fn effective_versions_compare_on_the_runtime_scale() {
    let dir = EffectiveVersion::Runtime(17);
    let raw = EffectiveVersion::RawMajor(52);
    // Major 52 stands for runtime 8, so it is the lesser of the two.
    assert_eq!(lesser_effective(dir, raw), raw);
    assert_eq!(greater_effective(dir, raw), dir);
    let start = EffectiveVersion::RawMajor(0);
    assert_eq!(greater_effective(start, EffectiveVersion::Runtime(9)), EffectiveVersion::Runtime(9));
}
