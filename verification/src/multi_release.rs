//! Multi-release archive support: recognising entries under the versioned
//! directory `META-INF/versions/<N>/`, the override map built from them,
//! and the tagged version values that let a directory-scoped runtime
//! version and a raw class-file major version be compared in one unit.

use vstd::prelude::*;
use crate::byteops::copy_range;
use crate::byteops::bytes_eq;
use crate::version::JavaVersion;

verus! {

/// Length in bytes of the versioned-directory prefix `META-INF/versions/`.
pub const VERSIONS_PREFIX_LEN: usize = 18;

/// Lowest directory number for which multi-release behaviour is defined.
pub const MIN_OVERRIDE_VERSION: u16 = 9;

/// Highest directory number for which multi-release behaviour is defined.
pub const MAX_OVERRIDE_VERSION: u16 = 21;

/// Byte `k` of the prefix `META-INF/versions/`.
pub open spec fn versions_prefix_byte(k: int) -> u8 {
    if k == 0 {
        77
    } else if k == 1 {
        69
    } else if k == 2 {
        84
    } else if k == 3 {
        65
    } else if k == 4 {
        45
    } else if k == 5 {
        73
    } else if k == 6 {
        78
    } else if k == 7 {
        70
    } else if k == 8 {
        47
    } else if k == 9 {
        118
    } else if k == 10 {
        101
    } else if k == 11 {
        114
    } else if k == 12 {
        115
    } else if k == 13 {
        105
    } else if k == 14 {
        111
    } else if k == 15 {
        110
    } else if k == 16 {
        115
    } else {
        47
    }
}

/// The prefix `META-INF/versions/` as a byte sequence.
pub open spec fn versions_prefix() -> Seq<u8> {
    Seq::new(VERSIONS_PREFIX_LEN as nat, |k: int| versions_prefix_byte(k))
}

/// Whether an entry name lies under the versioned directory.
pub open spec fn has_versions_prefix(name: Seq<u8>) -> bool {
    name.len() >= VERSIONS_PREFIX_LEN
        && name.subrange(0, VERSIONS_PREFIX_LEN as int) == versions_prefix()
}

/// Byte `k` of the prefix, for the executable prefix check.
fn versions_prefix_byte_at(k: usize) -> (r: u8)
    requires
        k < VERSIONS_PREFIX_LEN,
    ensures
        r == versions_prefix_byte(k as int),
{
    if k == 0 {
        77
    } else if k == 1 {
        69
    } else if k == 2 {
        84
    } else if k == 3 {
        65
    } else if k == 4 {
        45
    } else if k == 5 {
        73
    } else if k == 6 {
        78
    } else if k == 7 {
        70
    } else if k == 8 {
        47
    } else if k == 9 {
        118
    } else if k == 10 {
        101
    } else if k == 11 {
        114
    } else if k == 12 {
        115
    } else if k == 13 {
        105
    } else if k == 14 {
        111
    } else if k == 15 {
        110
    } else if k == 16 {
        115
    } else {
        47
    }
}

/// True exactly when the name starts with `META-INF/versions/`.
pub fn starts_with_versions_prefix(name: &Vec<u8>) -> (r: bool)
    ensures
        r == has_versions_prefix(name@),
{
    if name.len() < VERSIONS_PREFIX_LEN {
        return false;
    }
    let mut j: usize = 0;
    while j < VERSIONS_PREFIX_LEN
        invariant
            0 <= j <= VERSIONS_PREFIX_LEN <= name@.len(),
            forall|k: int| 0 <= k < j ==> name@[k] == versions_prefix_byte(k),
        decreases VERSIONS_PREFIX_LEN - j,
    {
        if name[j] != versions_prefix_byte_at(j) {
            proof {
                assert(name@.subrange(0, VERSIONS_PREFIX_LEN as int)[j as int]
                    != versions_prefix()[j as int]);
            }
            return false;
        }
        j += 1;
    }
    proof {
        assert(name@.subrange(0, VERSIONS_PREFIX_LEN as int) =~= versions_prefix());
    }
    true
}

/// Whether a byte is a decimal digit.
pub open spec fn is_ascii_digit(b: u8) -> bool {
    48 <= b <= 57
}

/// Whether every byte of the sequence is a decimal digit.
pub open spec fn all_digits(s: Seq<u8>) -> bool {
    forall|k: int| 0 <= k < s.len() ==> is_ascii_digit(#[trigger] s[k])
}

/// The integer a sequence of decimal digits denotes.
pub open spec fn digits_value(s: Seq<u8>) -> int
    decreases s.len(),
{
    if s.len() == 0 {
        0
    } else {
        digits_value(s.drop_last()) * 10 + (s.last() - 48)
    }
}

/// Index of the first `/` in the sequence, or its length when it has none.
pub open spec fn first_slash(s: Seq<u8>) -> int
    decreases s.len(),
{
    if s.len() == 0 {
        0
    } else if s[0] == 47 {
        0
    } else {
        1 + first_slash(s.drop_first())
    }
}

/// `first_slash` points at a `/` (when within bounds), with no `/` before.
pub proof fn lemma_first_slash(s: Seq<u8>)
    ensures
        0 <= first_slash(s) <= s.len(),
        first_slash(s) < s.len() ==> s[first_slash(s)] == 47,
        forall|j: int| 0 <= j < first_slash(s) ==> s[j] != 47,
    decreases s.len(),
{
    if s.len() == 0 {
    } else if s[0] == 47 {
    } else {
        lemma_first_slash(s.drop_first());
        assert forall|j: int| 0 <= j < first_slash(s) implies s[j] != 47 by {
            if j > 0 {
                assert(s.drop_first()[j - 1] != 47);
                assert(s.drop_first()[j - 1] == s[j]);
            }
        }
    }
}

/// Any position holding the first `/` of the sequence is `first_slash`.
pub proof fn lemma_first_slash_at(s: Seq<u8>, k: int)
    requires
        0 <= k < s.len(),
        s[k] == 47,
        forall|j: int| 0 <= j < k ==> s[j] != 47,
    ensures
        first_slash(s) == k,
{
    lemma_first_slash(s);
    if first_slash(s) < k {
        assert(s[first_slash(s)] == 47);
    }
    if first_slash(s) > k {
        assert(s[k] != 47);
    }
}

/// What a versioned-directory entry name contributes to the override map:
/// the directory number (already a runtime version) and the base path that
/// follows it, or nothing when the name does not match the pattern
/// `META-INF/versions/<N>/<path>` with `N` a decimal number from 9 to 21.
pub open spec fn override_of(name: Seq<u8>) -> Option<(u16, Seq<u8>)> {
    if !has_versions_prefix(name) {
        None
    } else {
        let rest = name.skip(VERSIONS_PREFIX_LEN as int);
        let k = first_slash(rest);
        if k < rest.len() && all_digits(rest.take(k))
            && MIN_OVERRIDE_VERSION <= digits_value(rest.take(k)) <= MAX_OVERRIDE_VERSION {
            Some((digits_value(rest.take(k)) as u16, rest.skip(k + 1)))
        } else {
            None
        }
    }
}

/// Splits a versioned-directory entry name into the runtime version that
/// its directory number denotes and the base path after it. Returns `None`
/// when the segment after `META-INF/versions/` is not a decimal number
/// from 9 to 21 followed by `/`.
pub fn split_multi_release_path_to_java_version_and_filepath(path: &Vec<u8>) -> (r: Option<
    (JavaVersion, Vec<u8>),
>)
    requires
        has_versions_prefix(path@),
    ensures
        (r is Some) == (override_of(path@) is Some),
        r matches Some(p) ==> override_of(path@) matches Some(q) && p.0.0 == q.0 && p.1@ == q.1,
{
    let ghost rest = path@.skip(VERSIONS_PREFIX_LEN as int);
    let n = path.len();
    let mut k: usize = VERSIONS_PREFIX_LEN;
    while k < n && path[k] != 47
        invariant
            VERSIONS_PREFIX_LEN <= k <= n,
            n == path@.len(),
            forall|j: int| VERSIONS_PREFIX_LEN <= j < k ==> path@[j] != 47,
        decreases n - k,
    {
        k += 1;
    }
    proof {
        assert(forall|j: int| 0 <= j < k - VERSIONS_PREFIX_LEN ==> rest[j] != 47);
        if k < n {
            lemma_first_slash_at(rest, k - VERSIONS_PREFIX_LEN);
        } else {
            lemma_first_slash(rest);
            if first_slash(rest) < rest.len() {
                assert(rest[first_slash(rest)] == 47);
            }
        }
    }
    if k == n {
        return None;
    }
    let ghost seg = rest.take(k - VERSIONS_PREFIX_LEN);
    let mut value: u32 = 0;
    let mut j: usize = VERSIONS_PREFIX_LEN;
    while j < k
        invariant
            VERSIONS_PREFIX_LEN <= j <= k < n,
            n == path@.len(),
            has_versions_prefix(path@),
            rest == path@.skip(VERSIONS_PREFIX_LEN as int),
            seg == rest.take(k - VERSIONS_PREFIX_LEN),
            first_slash(rest) == k - VERSIONS_PREFIX_LEN,
            forall|t: int| VERSIONS_PREFIX_LEN <= t < j ==> is_ascii_digit(#[trigger] path@[t]),
            value <= 22,
            value == if digits_value(rest.take(j - VERSIONS_PREFIX_LEN)) <= 21 {
                digits_value(rest.take(j - VERSIONS_PREFIX_LEN))
            } else {
                22
            },
        decreases k - j,
    {
        let b = path[j];
        if b < 48 || b > 57 {
            proof {
                assert(seg[j - VERSIONS_PREFIX_LEN] == path@[j as int]);
                assert(!all_digits(seg));
            }
            return None;
        }
        let d: u32 = (b - 48) as u32;
        value = if value * 10 + d > 21 {
            22
        } else {
            value * 10 + d
        };
        j += 1;
        proof {
            let m = j - VERSIONS_PREFIX_LEN;
            assert(rest.take(m as int).drop_last() =~= rest.take(m - 1));
            assert(rest.take(m as int).last() == path@[j - 1]);
        }
    }
    proof {
        assert(seg =~= rest.take(k - VERSIONS_PREFIX_LEN));
        assert(all_digits(seg));
    }
    if 9 <= value && value <= 21 {
        let rest_path = copy_range(path, k + 1, n);
        proof {
            assert(rest.skip(k - VERSIONS_PREFIX_LEN + 1) =~= path@.subrange(
                k + 1,
                n as int,
            ));
        }
        Some((JavaVersion(value as u16), rest_path))
    } else {
        None
    }
}

/// A candidate version tagged with its unit: a raw class-file major
/// version still needing the offset conversion, or an already-scaled
/// runtime version taken from a versioned-directory number.
#[derive(Clone, Copy, Debug, PartialEq, Eq, Structural)]
pub enum EffectiveVersion {
    RawMajor(u16),
    Runtime(u16),
}

/// Both units on the runtime-version scale, the one they are compared and
/// folded in: a raw major version counts as `major - 44`.
pub open spec fn runtime_scale(e: EffectiveVersion) -> int {
    match e {
        EffectiveVersion::RawMajor(m) => m as int - 44,
        EffectiveVersion::Runtime(v) => v as int,
    }
}

/// The runtime-scale value, for the executable comparisons.
fn runtime_scale_i32(e: &EffectiveVersion) -> (r: i32)
    ensures
        r as int == runtime_scale(*e),
{
    match e {
        EffectiveVersion::RawMajor(m) => *m as i32 - 44,
        EffectiveVersion::Runtime(v) => *v as i32,
    }
}

/// The argument whose runtime-scale value is smaller (the first on a tie).
pub fn lesser_effective(a: EffectiveVersion, b: EffectiveVersion) -> (r: EffectiveVersion)
    ensures
        r == a || r == b,
        runtime_scale(r) == if runtime_scale(a) <= runtime_scale(b) {
            runtime_scale(a)
        } else {
            runtime_scale(b)
        },
{
    if runtime_scale_i32(&a) <= runtime_scale_i32(&b) {
        a
    } else {
        b
    }
}

/// The argument whose runtime-scale value is larger (the first on a tie).
pub fn greater_effective(a: EffectiveVersion, b: EffectiveVersion) -> (r: EffectiveVersion)
    ensures
        r == a || r == b,
        runtime_scale(r) == if runtime_scale(a) >= runtime_scale(b) {
            runtime_scale(a)
        } else {
            runtime_scale(b)
        },
{
    if runtime_scale_i32(&a) >= runtime_scale_i32(&b) {
        a
    } else {
        b
    }
}

/// The map an association list denotes; a later pair wins over an earlier
/// one with the same key.
pub open spec fn map_of(pairs: Seq<(Seq<u8>, u16)>) -> Map<Seq<u8>, u16>
    decreases pairs.len(),
{
    if pairs.len() == 0 {
        Map::empty()
    } else {
        map_of(pairs.drop_last()).insert(pairs.last().0, pairs.last().1)
    }
}

/// The view of an association list held in vectors.
pub open spec fn pairs_view(pairs: Seq<(Vec<u8>, u16)>) -> Seq<(Seq<u8>, u16)> {
    pairs.map_values(|p: (Vec<u8>, u16)| (p.0@, p.1))
}

/// The override map of an archive: one pass over the entry names, in
/// order; every versioned-directory entry records its directory number
/// under its base path, a later entry overwriting an earlier one with the
/// same base path.
pub open spec fn override_map(names: Seq<Seq<u8>>) -> Map<Seq<u8>, u16>
    decreases names.len(),
{
    if names.len() == 0 {
        Map::empty()
    } else {
        let m = override_map(names.drop_last());
        match override_of(names.last()) {
            Some(p) => m.insert(p.1, p.0),
            None => m,
        }
    }
}

/// Every value in an override map is a runtime version from 9 to 21.
pub proof fn lemma_override_map_range(names: Seq<Seq<u8>>)
    ensures
        forall|p: Seq<u8>| override_map(names).dom().contains(p)
            ==> MIN_OVERRIDE_VERSION <= #[trigger] override_map(names)[p] <= MAX_OVERRIDE_VERSION,
    decreases names.len(),
{
    if names.len() == 0 {
    } else {
        lemma_override_map_range(names.drop_last());
        let m = override_map(names.drop_last());
        match override_of(names.last()) {
            Some(p) => {
                assert forall|q: Seq<u8>| override_map(names).dom().contains(q)
                    implies MIN_OVERRIDE_VERSION <= #[trigger] override_map(names)[q]
                        <= MAX_OVERRIDE_VERSION by {
                    if q != p.1 {
                        assert(m.dom().contains(q));
                    }
                }
            },
            None => {},
        }
    }
}

/// Looks a base path up in the association list that a resolution pass
/// built; the result is what the denoted map holds for the path.
pub fn lookup_override(pairs: &Vec<(Vec<u8>, u16)>, key: &Vec<u8>) -> (r: Option<u16>)
    ensures
        (r is Some) == map_of(pairs_view(pairs@)).dom().contains(key@),
        r matches Some(v) ==> map_of(pairs_view(pairs@))[key@] == v,
{
    let ghost pv = pairs_view(pairs@);
    let mut found: Option<u16> = None;
    let mut i: usize = 0;
    while i < pairs.len()
        invariant
            0 <= i <= pairs@.len(),
            pv == pairs_view(pairs@),
            pv.len() == pairs@.len(),
            found == if map_of(pv.take(i as int)).dom().contains(key@) {
                Some(map_of(pv.take(i as int))[key@])
            } else {
                None::<u16>
            },
        decreases pairs@.len() - i,
    {
        if bytes_eq(&pairs[i].0, key) {
            found = Some(pairs[i].1);
        }
        i += 1;
        proof {
            assert(pv.take(i as int).drop_last() =~= pv.take(i - 1));
            assert(pv.take(i as int).last() == (pairs@[i - 1].0@, pairs@[i - 1].1));
        }
    }
    proof {
        assert(pv.take(i as int) =~= pv);
    }
    found
}

} // verus!
