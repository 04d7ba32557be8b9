//! Recognition of the multi-release declaration in an archive manifest.
//! The manifest is plain text split on line feeds; an archive is
//! multi-release exactly when one of its lines is, byte for byte,
//! `Multi-Release: true`.

use vstd::prelude::*;

verus! {

/// Length in bytes of the line `Multi-Release: true`.
pub const MULTI_RELEASE_LINE_LEN: usize = 19;

/// Byte `k` of the line `Multi-Release: true`.
pub open spec fn multi_release_line_byte(k: int) -> u8 {
    if k == 0 {
        77
    } else if k == 1 {
        117
    } else if k == 2 {
        108
    } else if k == 3 {
        116
    } else if k == 4 {
        105
    } else if k == 5 {
        45
    } else if k == 6 {
        82
    } else if k == 7 {
        101
    } else if k == 8 {
        108
    } else if k == 9 {
        101
    } else if k == 10 {
        97
    } else if k == 11 {
        115
    } else if k == 12 {
        101
    } else if k == 13 {
        58
    } else if k == 14 {
        32
    } else if k == 15 {
        116
    } else if k == 16 {
        114
    } else if k == 17 {
        117
    } else {
        101
    }
}

/// The line `Multi-Release: true` as a byte sequence.
pub open spec fn multi_release_line() -> Seq<u8> {
    Seq::new(MULTI_RELEASE_LINE_LEN as nat, |k: int| multi_release_line_byte(k))
}

/// Whether position `i` of the manifest starts a full line that is exactly
/// `Multi-Release: true`: the bytes match, a line feed or the start of the
/// text comes just before, and a line feed or the end just after.
pub open spec fn is_multi_release_line_at(m: Seq<u8>, i: int) -> bool {
    &&& 0 <= i
    &&& i + MULTI_RELEASE_LINE_LEN <= m.len()
    &&& m.subrange(i, i + MULTI_RELEASE_LINE_LEN) == multi_release_line()
    &&& (i == 0 || m[i - 1] == 10)
    &&& (i + MULTI_RELEASE_LINE_LEN == m.len() || m[i + MULTI_RELEASE_LINE_LEN] == 10)
}

/// Whether some line of the manifest is exactly `Multi-Release: true`.
pub open spec fn declares_multi_release(m: Seq<u8>) -> bool {
    exists|i: int| is_multi_release_line_at(m, i)
}

/// The line `Multi-Release: true` holds no line feed.
proof fn lemma_line_has_no_newline()
    ensures
        forall|k: int| 0 <= k < MULTI_RELEASE_LINE_LEN
            ==> #[trigger] multi_release_line()[k] != 10,
{
}

/// Byte `k` of the line, for the executable comparison.
fn multi_release_line_byte_at(k: usize) -> (r: u8)
    requires
        k < MULTI_RELEASE_LINE_LEN,
    ensures
        r == multi_release_line_byte(k as int),
{
    if k == 0 {
        77
    } else if k == 1 {
        117
    } else if k == 2 {
        108
    } else if k == 3 {
        116
    } else if k == 4 {
        105
    } else if k == 5 {
        45
    } else if k == 6 {
        82
    } else if k == 7 {
        101
    } else if k == 8 {
        108
    } else if k == 9 {
        101
    } else if k == 10 {
        97
    } else if k == 11 {
        115
    } else if k == 12 {
        101
    } else if k == 13 {
        58
    } else if k == 14 {
        32
    } else if k == 15 {
        116
    } else if k == 16 {
        114
    } else if k == 17 {
        117
    } else {
        101
    }
}

/// True exactly when the 19 bytes at `start` are `Multi-Release: true`.
fn line_matches(m: &Vec<u8>, start: usize) -> (r: bool)
    requires
        start + MULTI_RELEASE_LINE_LEN <= m@.len(),
    ensures
        r == (m@.subrange(start as int, start + MULTI_RELEASE_LINE_LEN) == multi_release_line()),
{
    let n = m.len();
    let mut j: usize = 0;
    while j < MULTI_RELEASE_LINE_LEN
        invariant
            n == m@.len(),
            start + MULTI_RELEASE_LINE_LEN <= m@.len(),
            0 <= j <= MULTI_RELEASE_LINE_LEN,
            forall|k: int| 0 <= k < j ==> m@[start + k] == multi_release_line_byte(k),
        decreases MULTI_RELEASE_LINE_LEN - j,
    {
        if m[start + j] != multi_release_line_byte_at(j) {
            proof {
                assert(m@.subrange(start as int, start + MULTI_RELEASE_LINE_LEN)[j as int]
                    != multi_release_line()[j as int]);
            }
            return false;
        }
        j += 1;
    }
    proof {
        assert(m@.subrange(start as int, start + MULTI_RELEASE_LINE_LEN) =~= multi_release_line());
    }
    true
}

/// Scans the manifest line by line and reports whether one line is exactly
/// `Multi-Release: true`.
pub fn is_multi_release_manifest(manifest: &Vec<u8>) -> (r: bool)
    ensures
        r == declares_multi_release(manifest@),
{
    let n = manifest.len();
    let mut start: usize = 0;
    while start <= n
        invariant
            n == manifest@.len(),
            start <= n + 1,
            start == 0 || (start - 1 < n && manifest@[start - 1] == 10) || start == n + 1,
            forall|i: int| is_multi_release_line_at(manifest@, i) ==> i >= start,
        decreases n + 1 - start,
    {
        let mut end: usize = start;
        while end < n && manifest[end] != 10
            invariant
                start <= end <= n,
                n == manifest@.len(),
                forall|t: int| start <= t < end ==> manifest@[t] != 10,
            decreases n - end,
        {
            end += 1;
        }
        let matched = if end - start == MULTI_RELEASE_LINE_LEN {
            line_matches(manifest, start)
        } else {
            false
        };
        if matched {
            proof {
                assert(is_multi_release_line_at(manifest@, start as int));
            }
            return true;
        }
        proof {
            lemma_line_has_no_newline();
            assert forall|i: int| is_multi_release_line_at(manifest@, i) implies i >= end + 1 by {
                if i <= end {
                    if i > start {
                        assert(manifest@[i - 1] == 10);
                        assert(manifest@[i - 1] != 10);
                    } else {
                        if end - start == MULTI_RELEASE_LINE_LEN {
                            assert(manifest@.subrange(
                                start as int,
                                start + MULTI_RELEASE_LINE_LEN,
                            ) == multi_release_line());
                        } else if end - start > MULTI_RELEASE_LINE_LEN {
                            assert(manifest@[start + MULTI_RELEASE_LINE_LEN] != 10);
                        } else {
                            if i + MULTI_RELEASE_LINE_LEN <= n {
                                assert(manifest@[end as int] == 10);
                                assert(manifest@.subrange(i, i + MULTI_RELEASE_LINE_LEN)[end
                                    - start] == manifest@[end as int]);
                                assert(multi_release_line()[end - start] != 10);
                            }
                        }
                    }
                }
            }
        }
        if end == n {
            proof {
                assert forall|i: int| !is_multi_release_line_at(manifest@, i) by {
                    if is_multi_release_line_at(manifest@, i) {
                        assert(i >= end + 1);
                    }
                }
            }
            return false;
        }
        start = end + 1;
    }
    proof {
        assert(!declares_multi_release(manifest@)) by {
            if declares_multi_release(manifest@) {
                let i = choose|i: int| is_multi_release_line_at(manifest@, i);
                assert(i >= start);
                assert(i + MULTI_RELEASE_LINE_LEN <= n);
            }
        }
    }
    false
}

} // verus!
