//! Determines the minimum Java runtime version required to run compiled
//! class files and Java archives, from the class-file version header and,
//! for archives, from an aggregation over all contained class entries with
//! multi-release override handling.

pub mod archive;
pub mod byteops;
pub mod class_file;
pub mod laws;
pub mod manifest;
pub mod multi_release;
pub mod version;

pub use archive::ArchiveEntry;
pub use archive::ArchiveError;
pub use archive::resolve_archive;
pub use archive::resolve_multi_release;
pub use archive::resolve_simple;
pub use class_file::ClassError;
pub use class_file::ClassFileHeader;
pub use class_file::java_version_from_class_bytes;
pub use class_file::read_version;
pub use class_file::to_runtime_version;
pub use manifest::is_multi_release_manifest;
pub use version::JavaVersion;
pub use version::major_version_to_java_version;
