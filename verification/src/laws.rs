//! Laws of the resolution model that relate several functions: what the
//! resolvers return is a pure function of the archive's contents, the
//! simple resolution does not depend on entry order, an archive without
//! the multi-release declaration resolves exactly as the simple
//! resolution does, and a versioned directory with an out-of-range number
//! contributes nothing to the override map.

use vstd::prelude::*;
use vstd::seq_lib::group_to_multiset_ensures;
use crate::archive::ArchiveError;
use crate::archive::ResolutionOutcome;
use crate::archive::archive_outcome;
use crate::archive::bad_class_at;
use crate::archive::has_class_entry;
use crate::archive::is_class_entry;
use crate::archive::lemma_no_bad_class;
use crate::archive::max_major;
use crate::archive::outcome_matches;
use crate::archive::simple_outcome;
use crate::class_file::major_version_of;
use crate::manifest::declares_multi_release;
use crate::multi_release::all_digits;
use crate::multi_release::digits_value;
use crate::multi_release::first_slash;
use crate::multi_release::has_versions_prefix;
use crate::multi_release::is_ascii_digit;
use crate::multi_release::lemma_first_slash_at;
use crate::multi_release::override_map;
use crate::multi_release::override_of;
use crate::multi_release::versions_prefix;
use crate::multi_release::MAX_OVERRIDE_VERSION;
use crate::multi_release::MIN_OVERRIDE_VERSION;
use crate::multi_release::VERSIONS_PREFIX_LEN;
use crate::version::JavaVersion;

verus! {

/// Every class entry's major version is bounded by the folded maximum,
/// which never falls below the fold's starting value 0.
pub proof fn lemma_max_major_bound(v: Seq<(Seq<u8>, Seq<u8>)>)
    ensures
        max_major(v) >= 0,
        forall|j: int| 0 <= j < v.len() && is_class_entry(#[trigger] v[j])
            ==> major_version_of(v[j].1) as int <= max_major(v),
    decreases v.len(),
{
    if v.len() == 0 {
    } else {
        lemma_max_major_bound(v.drop_last());
        assert forall|j: int| 0 <= j < v.len() && is_class_entry(#[trigger] v[j])
            implies major_version_of(v[j].1) as int <= max_major(v) by {
            if j < v.len() - 1 {
                assert(v.drop_last()[j] == v[j]);
                assert(major_version_of(v.drop_last()[j].1) as int <= max_major(v.drop_last()));
            }
        }
    }
}

/// Without a class entry the folded maximum stays at 0.
pub proof fn lemma_max_major_no_class(v: Seq<(Seq<u8>, Seq<u8>)>)
    requires
        !has_class_entry(v),
    ensures
        max_major(v) == 0,
    decreases v.len(),
{
    if v.len() == 0 {
    } else {
        assert(!has_class_entry(v.drop_last())) by {
            if has_class_entry(v.drop_last()) {
                let j = choose|j: int| 0 <= j < v.drop_last().len()
                    && is_class_entry(v.drop_last()[j]);
                assert(v.drop_last()[j] == v[j]);
                assert(is_class_entry(v[j]));
            }
        }
        lemma_max_major_no_class(v.drop_last());
        assert(!is_class_entry(v.last()));
    }
}

/// With a class entry present, the folded maximum is attained by one.
pub proof fn lemma_max_major_witness(v: Seq<(Seq<u8>, Seq<u8>)>)
    requires
        has_class_entry(v),
    ensures
        exists|j: int| 0 <= j < v.len() && is_class_entry(#[trigger] v[j])
            && major_version_of(v[j].1) as int == max_major(v),
    decreases v.len(),
{
    let last = v.len() - 1;
    if is_class_entry(v[last]) && major_version_of(v[last].1) as int == max_major(v) {
        assert(0 <= last < v.len() && is_class_entry(v[last])
            && major_version_of(v[last].1) as int == max_major(v));
    } else {
        if !has_class_entry(v.drop_last()) {
            assert(is_class_entry(v[last])) by {
                let j = choose|j: int| 0 <= j < v.len() && is_class_entry(v[j]);
                if j < last {
                    assert(v.drop_last()[j] == v[j]);
                    assert(is_class_entry(v.drop_last()[j]));
                }
            }
            lemma_max_major_no_class(v.drop_last());
            assert(max_major(v) == major_version_of(v[last].1) as int);
        } else {
            lemma_max_major_witness(v.drop_last());
            let j = choose|j: int| 0 <= j < v.drop_last().len()
                && is_class_entry(#[trigger] v.drop_last()[j])
                && major_version_of(v.drop_last()[j].1) as int == max_major(v.drop_last());
            assert(v.drop_last()[j] == v[j]);
            lemma_max_major_bound(v.drop_last());
            assert(is_class_entry(v[j]) && major_version_of(v[j].1) as int == max_major(v));
        }
    }
}

/// Simple resolution does not depend on the order of the entries: two
/// archives holding the same entries as a multiset, with every class
/// entry a valid class file, resolve to the same outcome.
pub proof fn lemma_simple_outcome_order_irrelevant(
    a: Seq<(Seq<u8>, Seq<u8>)>,
    b: Seq<(Seq<u8>, Seq<u8>)>,
)
    requires
        a.to_multiset() == b.to_multiset(),
        forall|j: int| 0 <= j < a.len() ==> !bad_class_at(a, j),
    ensures
        simple_outcome(a) == simple_outcome(b),
{
    broadcast use group_to_multiset_ensures;

    assert forall|j: int| 0 <= j < b.len() implies !bad_class_at(b, j) by {
        assert(b.contains(b[j]));
        assert(b.to_multiset().count(b[j]) > 0);
        assert(a.contains(b[j]));
        let k = choose|k: int| 0 <= k < a.len() && a[k] == b[j];
        assert(!bad_class_at(a, k));
    }
    lemma_no_bad_class(a);
    lemma_no_bad_class(b);
    assert(has_class_entry(a) == has_class_entry(b)) by {
        if has_class_entry(a) {
            let j = choose|j: int| 0 <= j < a.len() && is_class_entry(a[j]);
            assert(a.contains(a[j]));
            assert(a.to_multiset().count(a[j]) > 0);
            assert(b.to_multiset().count(a[j]) > 0);
            assert(b.contains(a[j]));
            let k = choose|k: int| 0 <= k < b.len() && b[k] == a[j];
            assert(is_class_entry(b[k]));
        }
        if has_class_entry(b) {
            let j = choose|j: int| 0 <= j < b.len() && is_class_entry(b[j]);
            assert(b.contains(b[j]));
            assert(b.to_multiset().count(b[j]) > 0);
            assert(a.to_multiset().count(b[j]) > 0);
            assert(a.contains(b[j]));
            let k = choose|k: int| 0 <= k < a.len() && a[k] == b[j];
            assert(is_class_entry(a[k]));
        }
    }
    if has_class_entry(a) {
        assert(max_major(a) <= max_major(b)) by {
            lemma_max_major_witness(a);
            let j = choose|j: int| 0 <= j < a.len() && is_class_entry(#[trigger] a[j])
                && major_version_of(a[j].1) as int == max_major(a);
            assert(a.contains(a[j]));
            assert(a.to_multiset().count(a[j]) > 0);
            assert(b.to_multiset().count(a[j]) > 0);
            assert(b.contains(a[j]));
            let k = choose|k: int| 0 <= k < b.len() && b[k] == a[j];
            lemma_max_major_bound(b);
            assert(major_version_of(b[k].1) as int <= max_major(b));
        }
        assert(max_major(b) <= max_major(a)) by {
            lemma_max_major_witness(b);
            let j = choose|j: int| 0 <= j < b.len() && is_class_entry(#[trigger] b[j])
                && major_version_of(b[j].1) as int == max_major(b);
            assert(b.contains(b[j]));
            assert(b.to_multiset().count(b[j]) > 0);
            assert(a.to_multiset().count(b[j]) > 0);
            assert(a.contains(b[j]));
            let k = choose|k: int| 0 <= k < a.len() && a[k] == b[j];
            lemma_max_major_bound(a);
            assert(major_version_of(a[k].1) as int <= max_major(a));
        }
    }
}

/// Whether two resolution results say the same thing: the same runtime
/// version, or the same error with the same entry name and detail.
pub open spec fn results_agree(
    r1: Result<JavaVersion, ArchiveError>,
    r2: Result<JavaVersion, ArchiveError>,
) -> bool {
    match (r1, r2) {
        (Result::Ok(a), Result::Ok(b)) => a == b,
        (Result::Err(e1), Result::Err(e2)) => match (e1, e2) {
            (ArchiveError::ManifestMissing, ArchiveError::ManifestMissing) => true,
            (ArchiveError::NoClassFilesFound, ArchiveError::NoClassFilesFound) => true,
            (
                ArchiveError::EntryFailed { name: n1, error: c1 },
                ArchiveError::EntryFailed { name: n2, error: c2 },
            ) => n1@ == n2@ && c1 == c2,
            (ArchiveError::UnsupportedVersion(v1), ArchiveError::UnsupportedVersion(v2)) => v1
                == v2,
            _ => false,
        },
        _ => false,
    }
}

/// Resolution is a pure function of the archive's contents: any two
/// results that the one contract allows for the same manifest text and
/// entry contents say the same thing, so resolving the same archive twice
/// yields identical results.
pub proof fn lemma_resolution_deterministic(
    manifest: Option<Seq<u8>>,
    v: Seq<(Seq<u8>, Seq<u8>)>,
    r1: Result<JavaVersion, ArchiveError>,
    r2: Result<JavaVersion, ArchiveError>,
)
    requires
        outcome_matches(r1, archive_outcome(manifest, v)),
        outcome_matches(r2, archive_outcome(manifest, v)),
    ensures
        results_agree(r1, r2),
{
}

/// An archive whose manifest does not declare `Multi-Release: true`
/// resolves exactly as the simple resolution does, whatever entries it
/// holds under `META-INF/versions/`.
pub proof fn lemma_without_declaration_simple(m: Seq<u8>, v: Seq<(Seq<u8>, Seq<u8>)>)
    requires
        !declares_multi_release(m),
    ensures
        archive_outcome(Option::Some(m), v) == simple_outcome(v),
{
}

/// A resolved archive always demands a supported runtime version, from 1
/// through 21: values that reached the maximum on the runtime-version
/// scale, whether from a directory number or from a converted major
/// version, are never offset a second time.
pub proof fn lemma_resolved_value_supported(manifest: Option<Seq<u8>>, v: Seq<(Seq<u8>, Seq<u8>)>)
    ensures
        archive_outcome(manifest, v) matches ResolutionOutcome::Resolved(rv) ==> 1 <= rv <= 21,
{
}

/// A versioned-directory entry whose directory number is outside 9
/// through 21 is ignored by the override-map build: it maps to no
/// override, and appending it to the entry names leaves the map as it
/// was.
pub proof fn lemma_out_of_range_directory_ignored(
    names: Seq<Seq<u8>>,
    digits: Seq<u8>,
    rest: Seq<u8>,
)
    requires
        all_digits(digits),
        !(MIN_OVERRIDE_VERSION <= digits_value(digits) <= MAX_OVERRIDE_VERSION),
    ensures
        override_of(versions_prefix() + digits + seq![47u8] + rest) is None,
        override_map(names.push(versions_prefix() + digits + seq![47u8] + rest))
            == override_map(names),
{
    let name = versions_prefix() + digits + seq![47u8] + rest;
    assert(name.subrange(0, VERSIONS_PREFIX_LEN as int) =~= versions_prefix());
    assert(has_versions_prefix(name));
    let s = name.skip(VERSIONS_PREFIX_LEN as int);
    assert(s =~= digits + seq![47u8] + rest);
    assert(first_slash(s) == digits.len()) by {
        assert(s[digits.len() as int] == 47);
        assert forall|j: int| 0 <= j < digits.len() implies s[j] != 47 by {
            assert(s[j] == digits[j]);
            assert(is_ascii_digit(digits[j]));
        }
        lemma_first_slash_at(s, digits.len() as int);
    }
    assert(s.take(digits.len() as int) =~= digits);
    assert(override_of(name) is None);
    assert(names.push(name).drop_last() =~= names);
    assert(override_map(names.push(name)) == override_map(names));
}

} // verus!
