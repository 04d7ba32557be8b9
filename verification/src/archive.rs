//! Resolution of the minimum runtime version over all class entries of an
//! archive. An archive is handed over as the plain list of its entries, in
//! the archive's native order, each a name and its raw bytes; the manifest
//! text, when the archive has one, comes beside it. Non-multi-release
//! resolution folds the maximum class-file major version over every
//! `.class` entry; multi-release resolution first builds the override map
//! from the versioned-directory entries, lets it cap each base entry's
//! version, and folds the maximum on the runtime-version scale.

use vstd::prelude::*;
use crate::byteops::copy_range;
use crate::class_file::ClassError;
use crate::class_file::read_version;
use crate::class_file::valid_class_header;
use crate::class_file::major_version_of;
use crate::manifest::declares_multi_release;
use crate::manifest::is_multi_release_manifest;
use crate::multi_release::EffectiveVersion;
use crate::multi_release::MAX_OVERRIDE_VERSION;
use crate::multi_release::MIN_OVERRIDE_VERSION;
use crate::multi_release::greater_effective;
use crate::multi_release::has_versions_prefix;
use crate::multi_release::lesser_effective;
use crate::multi_release::lookup_override;
use crate::multi_release::map_of;
use crate::multi_release::override_map;
use crate::multi_release::override_of;
use crate::multi_release::lemma_override_map_range;
use crate::multi_release::pairs_view;
use crate::multi_release::runtime_scale;
use crate::multi_release::split_multi_release_path_to_java_version_and_filepath;
use crate::multi_release::starts_with_versions_prefix;
use crate::version::JavaVersion;
use crate::version::MAJOR_VERSION_OFFSET;
use crate::version::major_version_to_java_version;

verus! {

/// One archive entry: its `/`-separated name and its raw bytes.
#[derive(Debug, PartialEq, Eq)]
pub struct ArchiveEntry {
    pub name: Vec<u8>,
    pub bytes: Vec<u8>,
}

/// How resolving an archive can fail.
#[derive(Debug, PartialEq, Eq)]
pub enum ArchiveError {
    /// The archive has no manifest entry, so its multi-release status
    /// cannot be determined.
    ManifestMissing,
    /// No entry of the archive is a class file.
    NoClassFilesFound,
    /// The named entry could not be read as a class file.
    EntryFailed { name: Vec<u8>, error: ClassError },
    /// The aggregated major version (carried here) is outside the
    /// supported range.
    UnsupportedVersion(u16),
}

/// The outcome a resolution must reach, as a function of the archive's
/// contents alone.
pub enum ResolutionOutcome {
    /// The required runtime version.
    Resolved(int),
    /// The aggregated major version was outside the supported range.
    Unsupported(int),
    /// The named entry is not a valid class file.
    MalformedEntry(Seq<u8>),
    /// No entry qualified as a class file.
    NoClassFiles,
    /// No manifest text was available.
    NoManifest,
}

/// The entries reduced to what resolution reads of them: name and bytes.
pub open spec fn entry_views(s: Seq<ArchiveEntry>) -> Seq<(Seq<u8>, Seq<u8>)> {
    s.map_values(|e: ArchiveEntry| (e.name@, e.bytes@))
}

/// The entry names alone.
pub open spec fn names_of(v: Seq<(Seq<u8>, Seq<u8>)>) -> Seq<Seq<u8>> {
    v.map_values(|e: (Seq<u8>, Seq<u8>)| e.0)
}

/// Length in bytes of the suffix `.class`.
pub const CLASS_SUFFIX_LEN: usize = 6;

/// Byte `k` of the suffix `.class`.
pub open spec fn class_suffix_byte(k: int) -> u8 {
    if k == 0 {
        46
    } else if k == 1 {
        99
    } else if k == 2 {
        108
    } else if k == 3 {
        97
    } else {
        115
    }
}

/// The suffix `.class` as a byte sequence.
pub open spec fn class_suffix() -> Seq<u8> {
    Seq::new(CLASS_SUFFIX_LEN as nat, |k: int| class_suffix_byte(k))
}

/// Whether an entry name ends in `.class`.
pub open spec fn is_class_name(name: Seq<u8>) -> bool {
    name.len() >= CLASS_SUFFIX_LEN
        && name.subrange(name.len() - CLASS_SUFFIX_LEN, name.len() as int) == class_suffix()
}

/// Byte `k` of the suffix, for the executable suffix check.
fn class_suffix_byte_at(k: usize) -> (r: u8)
    requires
        k < CLASS_SUFFIX_LEN,
    ensures
        r == class_suffix_byte(k as int),
{
    if k == 0 {
        46
    } else if k == 1 {
        99
    } else if k == 2 {
        108
    } else if k == 3 {
        97
    } else {
        115
    }
}

/// True exactly when the name ends in `.class`.
pub fn is_class_file_name(name: &Vec<u8>) -> (r: bool)
    ensures
        r == is_class_name(name@),
{
    let n = name.len();
    if n < CLASS_SUFFIX_LEN {
        return false;
    }
    let base = n - CLASS_SUFFIX_LEN;
    let mut j: usize = 0;
    while j < CLASS_SUFFIX_LEN
        invariant
            n == name@.len(),
            CLASS_SUFFIX_LEN <= n,
            base == n - CLASS_SUFFIX_LEN,
            0 <= j <= CLASS_SUFFIX_LEN,
            forall|k: int| 0 <= k < j ==> name@[base + k] == class_suffix_byte(k),
        decreases CLASS_SUFFIX_LEN - j,
    {
        if name[base + j] != class_suffix_byte_at(j) {
            proof {
                assert(name@.subrange(base as int, n as int)[j as int]
                    != class_suffix()[j as int]);
            }
            return false;
        }
        j += 1;
    }
    proof {
        assert(name@.subrange(base as int, n as int) =~= class_suffix());
    }
    true
}

/// Whether an entry is a class file by name.
pub open spec fn is_class_entry(e: (Seq<u8>, Seq<u8>)) -> bool {
    is_class_name(e.0)
}

/// Whether an entry is a class file outside the versioned directory.
pub open spec fn is_base_class_entry(e: (Seq<u8>, Seq<u8>)) -> bool {
    !has_versions_prefix(e.0) && is_class_name(e.0)
}

/// Whether some entry is a class file.
pub open spec fn has_class_entry(v: Seq<(Seq<u8>, Seq<u8>)>) -> bool {
    exists|j: int| 0 <= j < v.len() && is_class_entry(v[j])
}

/// Whether some entry is a class file outside the versioned directory.
pub open spec fn has_base_class_entry(v: Seq<(Seq<u8>, Seq<u8>)>) -> bool {
    exists|j: int| 0 <= j < v.len() && is_base_class_entry(v[j])
}

/// A class entry whose bytes are not a valid class-file header.
pub open spec fn bad_class_at(v: Seq<(Seq<u8>, Seq<u8>)>, j: int) -> bool {
    is_class_entry(v[j]) && !valid_class_header(v[j].1)
}

/// A base class entry whose bytes are not a valid class-file header.
pub open spec fn bad_base_at(v: Seq<(Seq<u8>, Seq<u8>)>, j: int) -> bool {
    is_base_class_entry(v[j]) && !valid_class_header(v[j].1)
}

/// Index of the first class entry with an invalid header, or the length
/// when every class entry is valid.
pub open spec fn first_bad_class(v: Seq<(Seq<u8>, Seq<u8>)>) -> int
    decreases v.len(),
{
    if v.len() == 0 {
        0
    } else if bad_class_at(v, 0) {
        0
    } else {
        1 + first_bad_class(v.drop_first())
    }
}

/// Index of the first base class entry with an invalid header, or the
/// length when every base class entry is valid.
pub open spec fn first_bad_base(v: Seq<(Seq<u8>, Seq<u8>)>) -> int
    decreases v.len(),
{
    if v.len() == 0 {
        0
    } else if bad_base_at(v, 0) {
        0
    } else {
        1 + first_bad_base(v.drop_first())
    }
}

/// `first_bad_class` points at a bad class entry (when within bounds),
/// with none before it.
pub proof fn lemma_first_bad_class(v: Seq<(Seq<u8>, Seq<u8>)>)
    ensures
        0 <= first_bad_class(v) <= v.len(),
        first_bad_class(v) < v.len() ==> bad_class_at(v, first_bad_class(v)),
        forall|j: int| 0 <= j < first_bad_class(v) ==> !bad_class_at(v, j),
    decreases v.len(),
{
    if v.len() == 0 {
    } else if bad_class_at(v, 0) {
    } else {
        lemma_first_bad_class(v.drop_first());
        assert forall|j: int| 0 <= j < first_bad_class(v) implies !bad_class_at(v, j) by {
            if j > 0 {
                assert(!bad_class_at(v.drop_first(), j - 1));
                assert(v.drop_first()[j - 1] == v[j]);
            }
        }
        if first_bad_class(v) < v.len() {
            assert(bad_class_at(v.drop_first(), first_bad_class(v.drop_first())));
            assert(v.drop_first()[first_bad_class(v) - 1] == v[first_bad_class(v)]);
        }
    }
}

/// Any position holding the first bad class entry is `first_bad_class`.
pub proof fn lemma_first_bad_class_at(v: Seq<(Seq<u8>, Seq<u8>)>, k: int)
    requires
        0 <= k < v.len(),
        bad_class_at(v, k),
        forall|j: int| 0 <= j < k ==> !bad_class_at(v, j),
    ensures
        first_bad_class(v) == k,
{
    lemma_first_bad_class(v);
    if first_bad_class(v) < k {
        assert(bad_class_at(v, first_bad_class(v)));
    }
    if first_bad_class(v) > k {
        assert(!bad_class_at(v, k));
    }
}

/// With every class entry valid, `first_bad_class` is the length.
pub proof fn lemma_no_bad_class(v: Seq<(Seq<u8>, Seq<u8>)>)
    requires
        forall|j: int| 0 <= j < v.len() ==> !bad_class_at(v, j),
    ensures
        first_bad_class(v) == v.len(),
{
    lemma_first_bad_class(v);
    if first_bad_class(v) < v.len() {
        assert(!bad_class_at(v, first_bad_class(v)));
    }
}

/// `first_bad_base` points at a bad base class entry (when within
/// bounds), with none before it.
pub proof fn lemma_first_bad_base(v: Seq<(Seq<u8>, Seq<u8>)>)
    ensures
        0 <= first_bad_base(v) <= v.len(),
        first_bad_base(v) < v.len() ==> bad_base_at(v, first_bad_base(v)),
        forall|j: int| 0 <= j < first_bad_base(v) ==> !bad_base_at(v, j),
    decreases v.len(),
{
    if v.len() == 0 {
    } else if bad_base_at(v, 0) {
    } else {
        lemma_first_bad_base(v.drop_first());
        assert forall|j: int| 0 <= j < first_bad_base(v) implies !bad_base_at(v, j) by {
            if j > 0 {
                assert(!bad_base_at(v.drop_first(), j - 1));
                assert(v.drop_first()[j - 1] == v[j]);
            }
        }
        if first_bad_base(v) < v.len() {
            assert(bad_base_at(v.drop_first(), first_bad_base(v.drop_first())));
            assert(v.drop_first()[first_bad_base(v) - 1] == v[first_bad_base(v)]);
        }
    }
}

/// Any position holding the first bad base class entry is
/// `first_bad_base`.
pub proof fn lemma_first_bad_base_at(v: Seq<(Seq<u8>, Seq<u8>)>, k: int)
    requires
        0 <= k < v.len(),
        bad_base_at(v, k),
        forall|j: int| 0 <= j < k ==> !bad_base_at(v, j),
    ensures
        first_bad_base(v) == k,
{
    lemma_first_bad_base(v);
    if first_bad_base(v) < k {
        assert(bad_base_at(v, first_bad_base(v)));
    }
    if first_bad_base(v) > k {
        assert(!bad_base_at(v, k));
    }
}

/// With every base class entry valid, `first_bad_base` is the length.
pub proof fn lemma_no_bad_base(v: Seq<(Seq<u8>, Seq<u8>)>)
    requires
        forall|j: int| 0 <= j < v.len() ==> !bad_base_at(v, j),
    ensures
        first_bad_base(v) == v.len(),
{
    lemma_first_bad_base(v);
    if first_bad_base(v) < v.len() {
        assert(!bad_base_at(v, first_bad_base(v)));
    }
}

/// The maximum class-file major version over the class entries, folded in
/// entry order from 0.
pub open spec fn max_major(v: Seq<(Seq<u8>, Seq<u8>)>) -> int
    decreases v.len(),
{
    if v.len() == 0 {
        0
    } else {
        let m = max_major(v.drop_last());
        if is_class_entry(v.last()) {
            let c = major_version_of(v.last().1) as int;
            if c > m {
                c
            } else {
                m
            }
        } else {
            m
        }
    }
}

/// What one base class entry contributes on the runtime-version scale:
/// its own major version less the offset, capped by the override map's
/// directory version for its path when one exists.
pub open spec fn entry_effective(e: (Seq<u8>, Seq<u8>), m: Map<Seq<u8>, u16>) -> int {
    let c = major_version_of(e.1) as int - MAJOR_VERSION_OFFSET;
    if m.dom().contains(e.0) {
        let d = m[e.0] as int;
        if d <= c {
            d
        } else {
            c
        }
    } else {
        c
    }
}

/// The maximum effective value over the base class entries, on the
/// runtime-version scale, folded from the scale value of major version 0.
pub open spec fn mr_max(v: Seq<(Seq<u8>, Seq<u8>)>, m: Map<Seq<u8>, u16>) -> int
    decreases v.len(),
{
    if v.len() == 0 {
        -(MAJOR_VERSION_OFFSET as int)
    } else {
        let x = mr_max(v.drop_last(), m);
        if is_base_class_entry(v.last()) {
            let c = entry_effective(v.last(), m);
            if c > x {
                c
            } else {
                x
            }
        } else {
            x
        }
    }
}

/// The outcome of non-multi-release resolution: the first class entry
/// with an invalid header aborts it; with none, an archive without class
/// entries has no resolution; otherwise the maximum major version is
/// mapped to a runtime version when supported and reported otherwise.
pub open spec fn simple_outcome(v: Seq<(Seq<u8>, Seq<u8>)>) -> ResolutionOutcome {
    if first_bad_class(v) < v.len() {
        ResolutionOutcome::MalformedEntry(v[first_bad_class(v)].0)
    } else if !has_class_entry(v) {
        ResolutionOutcome::NoClassFiles
    } else if 45 <= max_major(v) <= 65 {
        ResolutionOutcome::Resolved(max_major(v) - MAJOR_VERSION_OFFSET)
    } else {
        ResolutionOutcome::Unsupported(max_major(v))
    }
}

/// The outcome of multi-release resolution. Versioned-directory entries
/// feed the override map and are never themselves aggregated; the base
/// class entries are folded on the runtime-version scale, and a maximum
/// outside the supported range is reported as the major version it stands
/// for.
pub open spec fn multi_release_outcome(v: Seq<(Seq<u8>, Seq<u8>)>) -> ResolutionOutcome {
    let m = override_map(names_of(v));
    if first_bad_base(v) < v.len() {
        ResolutionOutcome::MalformedEntry(v[first_bad_base(v)].0)
    } else if !has_base_class_entry(v) {
        ResolutionOutcome::NoClassFiles
    } else if 1 <= mr_max(v, m) <= 21 {
        ResolutionOutcome::Resolved(mr_max(v, m))
    } else {
        ResolutionOutcome::Unsupported(mr_max(v, m) + MAJOR_VERSION_OFFSET)
    }
}

/// The outcome of resolving an archive: without manifest text there is
/// none; a manifest with the multi-release declaration selects
/// multi-release resolution, any other the simple one.
pub open spec fn archive_outcome(
    manifest: Option<Seq<u8>>,
    v: Seq<(Seq<u8>, Seq<u8>)>,
) -> ResolutionOutcome {
    match manifest {
        Option::None => ResolutionOutcome::NoManifest,
        Option::Some(m) => if declares_multi_release(m) {
            multi_release_outcome(v)
        } else {
            simple_outcome(v)
        },
    }
}

/// Whether an executable result is the one an outcome demands.
pub open spec fn outcome_matches(
    r: Result<JavaVersion, ArchiveError>,
    o: ResolutionOutcome,
) -> bool {
    match o {
        ResolutionOutcome::Resolved(rv) => r matches Ok(j) && j.0 as int == rv,
        ResolutionOutcome::Unsupported(m) => r matches Err(ArchiveError::UnsupportedVersion(x))
            && x as int == m,
        ResolutionOutcome::MalformedEntry(nm) => r matches Err(ArchiveError::EntryFailed {
            name,
            error,
        }) && name@ == nm && error == ClassError::MalformedClassFile,
        ResolutionOutcome::NoClassFiles => r matches Err(ArchiveError::NoClassFilesFound),
        ResolutionOutcome::NoManifest => r matches Err(ArchiveError::ManifestMissing),
    }
}

/// The manifest text an optional byte vector stands for.
pub open spec fn manifest_view(m: Option<&Vec<u8>>) -> Option<Seq<u8>> {
    match m {
        Option::Some(b) => Option::Some(b@),
        Option::None => Option::None,
    }
}

/// Resolves an archive without multi-release semantics: every `.class`
/// entry counts, the maximum major version over them is mapped to the
/// runtime version required to run them all.
pub fn resolve_simple(entries: &Vec<ArchiveEntry>) -> (r: Result<JavaVersion, ArchiveError>)
    ensures
        outcome_matches(r, simple_outcome(entry_views(entries@))),
{
    let ghost v = entry_views(entries@);
    let n = entries.len();
    let mut max_mv: u16 = 0;
    let mut has_class: bool = false;
    let mut i: usize = 0;
    while i < n
        invariant
            n == entries@.len(),
            v == entry_views(entries@),
            v.len() == n,
            0 <= i <= n,
            forall|j: int| 0 <= j < i ==> !bad_class_at(v, j),
            has_class == exists|j: int| 0 <= j < i && is_class_entry(v[j]),
            max_mv as int == max_major(v.take(i as int)),
        decreases n - i,
    {
        let e = &entries[i];
        proof {
            assert(v[i as int] == (entries@[i as int].name@, entries@[i as int].bytes@));
        }
        if is_class_file_name(&e.name) {
            has_class = true;
            match read_version(&e.bytes) {
                Ok(h) => {
                    if h.major_version > max_mv {
                        max_mv = h.major_version;
                    }
                },
                Err(_) => {
                    let name_copy = copy_range(&e.name, 0, e.name.len());
                    proof {
                        lemma_first_bad_class_at(v, i as int);
                        assert(name_copy@ =~= v[i as int].0);
                    }
                    return Err(ArchiveError::EntryFailed {
                        name: name_copy,
                        error: ClassError::MalformedClassFile,
                    });
                },
            }
        }
        i += 1;
        proof {
            assert(v.take(i as int).drop_last() =~= v.take(i - 1));
            assert(v.take(i as int).last() == v[i - 1]);
        }
    }
    proof {
        assert(v.take(n as int) =~= v);
        lemma_no_bad_class(v);
    }
    if !has_class {
        return Err(ArchiveError::NoClassFilesFound);
    }
    match major_version_to_java_version(max_mv) {
        Some(jv) => Ok(jv),
        None => Err(ArchiveError::UnsupportedVersion(max_mv)),
    }
}

/// Resolves a multi-release archive: a first pass builds the override map
/// from the versioned-directory entries; a second pass folds the base
/// class entries, each capped by its override when one exists, on the
/// runtime-version scale.
pub fn resolve_multi_release(entries: &Vec<ArchiveEntry>) -> (r: Result<JavaVersion, ArchiveError>)
    ensures
        outcome_matches(r, multi_release_outcome(entry_views(entries@))),
{
    let ghost v = entry_views(entries@);
    let ghost nm = names_of(v);
    let ghost m_spec = override_map(nm);
    let n = entries.len();
    let mut pairs: Vec<(Vec<u8>, u16)> = Vec::new();
    let mut i: usize = 0;
    while i < n
        invariant
            n == entries@.len(),
            v == entry_views(entries@),
            nm == names_of(v),
            v.len() == n,
            nm.len() == n,
            0 <= i <= n,
            map_of(pairs_view(pairs@)) == override_map(nm.take(i as int)),
        decreases n - i,
    {
        let e = &entries[i];
        proof {
            assert(v[i as int] == (entries@[i as int].name@, entries@[i as int].bytes@));
            assert(nm[i as int] == v[i as int].0);
        }
        if starts_with_versions_prefix(&e.name) {
            match split_multi_release_path_to_java_version_and_filepath(&e.name) {
                Some(pair) => {
                    let ghost q = override_of(nm[i as int]).unwrap();
                    let ghost before = pairs@;
                    let (jv, base) = pair;
                    pairs.push((base, jv.0));
                    proof {
                        assert(pairs_view(pairs@).drop_last() =~= pairs_view(before));
                        assert(pairs_view(pairs@).last() == (q.1, q.0));
                        assert(map_of(pairs_view(pairs@)) == map_of(pairs_view(before)).insert(
                            q.1,
                            q.0,
                        ));
                    }
                },
                None => {},
            }
        }
        i += 1;
        proof {
            assert(nm.take(i as int).drop_last() =~= nm.take(i - 1));
            assert(nm.take(i as int).last() == nm[i - 1]);
            assert(override_map(nm.take(i as int)) == match override_of(nm[i - 1]) {
                Some(p) => override_map(nm.take(i - 1)).insert(p.1, p.0),
                None => override_map(nm.take(i - 1)),
            });
        }
    }
    proof {
        assert(nm.take(n as int) =~= nm);
        lemma_override_map_range(nm);
    }
    let mut acc = EffectiveVersion::RawMajor(0);
    let mut has_class: bool = false;
    let mut i: usize = 0;
    while i < n
        invariant
            n == entries@.len(),
            v == entry_views(entries@),
            nm == names_of(v),
            v.len() == n,
            0 <= i <= n,
            map_of(pairs_view(pairs@)) == m_spec,
            m_spec == override_map(nm),
            forall|p: Seq<u8>| m_spec.dom().contains(p) ==> MIN_OVERRIDE_VERSION
                <= #[trigger] m_spec[p] <= MAX_OVERRIDE_VERSION,
            forall|j: int| 0 <= j < i ==> !bad_base_at(v, j),
            has_class == exists|j: int| 0 <= j < i && is_base_class_entry(v[j]),
            runtime_scale(acc) == mr_max(v.take(i as int), m_spec),
            acc matches EffectiveVersion::Runtime(rv) ==> MIN_OVERRIDE_VERSION <= rv
                <= MAX_OVERRIDE_VERSION,
        decreases n - i,
    {
        let e = &entries[i];
        proof {
            assert(v[i as int] == (entries@[i as int].name@, entries@[i as int].bytes@));
        }
        let versioned = starts_with_versions_prefix(&e.name);
        let named_class = is_class_file_name(&e.name);
        if !versioned && named_class {
            has_class = true;
            match read_version(&e.bytes) {
                Ok(h) => {
                    let eff = match lookup_override(&pairs, &e.name) {
                        Some(dv) => lesser_effective(
                            EffectiveVersion::Runtime(dv),
                            EffectiveVersion::RawMajor(h.major_version),
                        ),
                        None => EffectiveVersion::RawMajor(h.major_version),
                    };
                    proof {
                        assert(runtime_scale(eff) == entry_effective(v[i as int], m_spec));
                    }
                    acc = greater_effective(acc, eff);
                },
                Err(_) => {
                    let name_copy = copy_range(&e.name, 0, e.name.len());
                    proof {
                        lemma_first_bad_base_at(v, i as int);
                        assert(name_copy@ =~= v[i as int].0);
                    }
                    return Err(ArchiveError::EntryFailed {
                        name: name_copy,
                        error: ClassError::MalformedClassFile,
                    });
                },
            }
        }
        i += 1;
        proof {
            assert(v.take(i as int).drop_last() =~= v.take(i - 1));
            assert(v.take(i as int).last() == v[i - 1]);
        }
    }
    proof {
        assert(v.take(n as int) =~= v);
        lemma_no_bad_base(v);
    }
    if !has_class {
        return Err(ArchiveError::NoClassFilesFound);
    }
    match acc {
        EffectiveVersion::Runtime(rv) => Ok(JavaVersion(rv)),
        EffectiveVersion::RawMajor(mv) => match major_version_to_java_version(mv) {
            Some(jv) => Ok(jv),
            None => Err(ArchiveError::UnsupportedVersion(mv)),
        },
    }
}

/// Resolves an archive from its optional manifest text and its entries:
/// fails with `ManifestMissing` without manifest text, and otherwise
/// dispatches on the multi-release declaration.
pub fn resolve_archive(
    manifest: Option<&Vec<u8>>,
    entries: &Vec<ArchiveEntry>,
) -> (r: Result<JavaVersion, ArchiveError>)
    ensures
        outcome_matches(r, archive_outcome(manifest_view(manifest), entry_views(entries@))),
{
    match manifest {
        None => Err(ArchiveError::ManifestMissing),
        Some(m) => {
            if is_multi_release_manifest(m) {
                resolve_multi_release(entries)
            } else {
                resolve_simple(entries)
            }
        },
    }
}

} // verus!
