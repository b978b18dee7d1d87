//! The generic probe fallback: parsing the prober's one-record output of
//! `width x height x duration` into stream metadata.
//!
//! Width and height are decimal integers; the duration is decimal seconds
//! with an optional fractional part (which is dropped: durations are kept in
//! whole seconds) and optional trailing whitespace. Any malformed or missing
//! field is a terminal failure for the file.

use vstd::prelude::*;
use crate::errors::TriageError;
use crate::paths::DOT;
use crate::video::VideoMetadata;

verus! {

/// The field separator of the probe record.
pub const X_SEP: u8 = 120;

pub open spec fn is_digit(b: u8) -> bool {
    48 <= b <= 57
}

pub open spec fn all_digits(s: Seq<u8>) -> bool {
    forall|i: int| 0 <= i < s.len() ==> is_digit(#[trigger] s[i])
}

/// The value of a decimal digit string, most significant digit first.
pub open spec fn digits_val(s: Seq<u8>) -> int
    recommends
        all_digits(s),
    decreases s.len(),
{
    if s.len() == 0 {
        0
    } else {
        digits_val(s.drop_last()) * 10 + (s.last() - 48)
    }
}

/// The first index at or past `i` where `s` holds `b`, or the length of `s`.
pub open spec fn find_first(s: Seq<u8>, b: u8, i: int) -> int
    recommends
        0 <= i <= s.len(),
    decreases s.len() - i,
{
    if i >= s.len() {
        s.len() as int
    } else if s[i] == b {
        i
    } else {
        find_first(s, b, i + 1)
    }
}

/// `s` with trailing ASCII whitespace removed.
pub open spec fn is_ws(b: u8) -> bool {
    b == 32 || b == 9 || b == 10 || b == 13
}

pub open spec fn trim_end(s: Seq<u8>) -> Seq<u8>
    decreases s.len(),
{
    if s.len() > 0 && is_ws(s.last()) {
        trim_end(s.drop_last())
    } else {
        s
    }
}

/// A well-formed unsigned integer field that fits the given bound.
pub open spec fn is_uint_field(s: Seq<u8>, bound: int) -> bool {
    s.len() > 0 && all_digits(s) && digits_val(s) <= bound
}

/// A well-formed duration field: integer seconds, an optional `.` followed
/// by fractional digits, trailing whitespace already removed.
pub open spec fn dur_field_wf(t: Seq<u8>) -> bool {
    let d = find_first(t, DOT, 0);
    &&& is_uint_field(t.subrange(0, d), u64::MAX as int)
    &&& (d < t.len() ==> all_digits(t.subrange(d + 1, t.len() as int)))
}

/// The whole seconds of a well-formed duration field.
pub open spec fn dur_field_secs(t: Seq<u8>) -> int {
    digits_val(t.subrange(0, find_first(t, DOT, 0)))
}

/// What a probe record means: the first three `x`-separated fields are
/// width, height and duration; anything after a third separator is ignored.
pub open spec fn spec_probe_record(s: Seq<u8>) -> Option<VideoMetadata> {
    let x1 = find_first(s, X_SEP, 0);
    if !is_uint_field(s.subrange(0, x1), u32::MAX as int) || x1 >= s.len() {
        None
    } else {
        let x2 = find_first(s, X_SEP, x1 + 1);
        if !is_uint_field(s.subrange(x1 + 1, x2), u32::MAX as int) || x2 >= s.len() {
            None
        } else {
            let x3 = find_first(s, X_SEP, x2 + 1);
            let t = trim_end(s.subrange(x2 + 1, x3));
            if dur_field_wf(t) {
                Some(
                    VideoMetadata {
                        width: digits_val(s.subrange(0, x1)) as u32,
                        height: digits_val(s.subrange(x1 + 1, x2)) as u32,
                        duration_secs: dur_field_secs(t) as u64,
                    },
                )
            } else {
                None
            }
        }
    }
}

proof fn lemma_digits_val_step(s: Seq<u8>, k: int)
    requires
        0 <= k < s.len(),
    ensures
        digits_val(s.subrange(0, k + 1)) == digits_val(s.subrange(0, k)) * 10 + (s[k] - 48),
{
    assert(s.subrange(0, k + 1).drop_last() =~= s.subrange(0, k));
    assert(s.subrange(0, k + 1).last() == s[k]);
}

proof fn lemma_digits_val_nonneg(s: Seq<u8>)
    requires
        all_digits(s),
    ensures
        digits_val(s) >= 0,
    decreases s.len(),
{
    if s.len() > 0 {
        assert(all_digits(s.drop_last()));
        lemma_digits_val_nonneg(s.drop_last());
    }
}

/// Under an all-digit string, every prefix value bounds the whole value
/// from below.
proof fn lemma_digits_val_grow(s: Seq<u8>, k: int)
    requires
        0 <= k <= s.len(),
        all_digits(s),
    ensures
        digits_val(s) >= digits_val(s.subrange(0, k)),
    decreases s.len() - k,
{
    if k < s.len() {
        lemma_digits_val_step(s, k);
        assert(all_digits(s.subrange(0, k)));
        lemma_digits_val_nonneg(s.subrange(0, k));
        lemma_digits_val_grow(s, k + 1);
    } else {
        assert(s.subrange(0, k) =~= s);
    }
}

/// The first position of `b` in `s` at or past `from`.
pub fn find_first_byte(s: &[u8], b: u8, from: usize) -> (r: usize)
    requires
        from <= s@.len(),
    ensures
        r == find_first(s@, b, from as int),
        from <= r <= s@.len(),
{
    let n = s.len();
    let mut i = from;
    while i < n
        invariant
            n == s@.len(),
            from <= i <= n,
            find_first(s@, b, from as int) == find_first(s@, b, i as int),
        decreases n - i,
    {
        if s[i] == b {
            return i;
        }
        i = i + 1;
    }
    n
}

/// Parses an all-digit field as a `u64`, detecting overflow exactly.
pub fn parse_u64_digits(s: &[u8]) -> (r: Option<u64>)
    ensures
        r is Some <==> is_uint_field(s@, u64::MAX as int),
        r matches Some(v) ==> v == digits_val(s@),
{
    let n = s.len();
    if n == 0 {
        return None;
    }
    let mut acc: u64 = 0;
    let mut i: usize = 0;
    while i < n
        invariant
            n == s@.len(),
            0 < n,
            i <= n,
            all_digits(s@.subrange(0, i as int)),
            acc == digits_val(s@.subrange(0, i as int)),
        decreases n - i,
    {
        let b = s[i];
        if b < 48 || b > 57 {
            proof {
                assert(!is_digit(s@[i as int]));
            }
            return None;
        }
        let d = b - 48;
        proof {
            lemma_digits_val_step(s@, i as int);
        }
        if acc > 1844674407370955161u64 || (acc == 1844674407370955161u64 && d > 5) {
            proof {
                if all_digits(s@) {
                    assert(digits_val(s@.subrange(0, i + 1)) > u64::MAX);
                    lemma_digits_val_grow(s@, i + 1);
                }
            }
            return None;
        }
        acc = acc * 10 + (d as u64);
        proof {
            assert(all_digits(s@.subrange(0, i + 1))) by {
                assert(forall|j: int|
                    0 <= j < i ==> #[trigger] s@.subrange(0, i + 1)[j] == s@.subrange(
                        0,
                        i as int,
                    )[j]);
                assert(s@.subrange(0, i + 1)[i as int] == s@[i as int]);
            }
        }
        i = i + 1;
    }
    proof {
        assert(s@.subrange(0, n as int) =~= s@);
    }
    Some(acc)
}

/// Parses an all-digit field as a `u32`, detecting overflow exactly.
pub fn parse_u32_digits(s: &[u8]) -> (r: Option<u32>)
    ensures
        r is Some <==> is_uint_field(s@, u32::MAX as int),
        r matches Some(v) ==> v == digits_val(s@),
{
    match parse_u64_digits(s) {
        Some(v) => {
            if v <= 0xffff_ffffu64 {
                Some(v as u32)
            } else {
                None
            }
        },
        None => {
            proof {
                if is_uint_field(s@, u32::MAX as int) {
                    assert(is_uint_field(s@, u64::MAX as int));
                }
            }
            None
        },
    }
}

/// The length of `s` once trailing whitespace is dropped.
fn trim_end_idx(s: &[u8]) -> (r: usize)
    ensures
        r <= s@.len(),
        trim_end(s@) == s@.subrange(0, r as int),
{
    let n = s.len();
    let mut i = n;
    proof {
        assert(s@.subrange(0, n as int) =~= s@);
    }
    while i > 0
        invariant_except_break
            i <= n,
            n == s@.len(),
            trim_end(s@) == trim_end(s@.subrange(0, i as int)),
        ensures
            i <= n,
            n == s@.len(),
            trim_end(s@) == s@.subrange(0, i as int),
        decreases i,
    {
        let b = s[i - 1];
        if !(b == 32 || b == 9 || b == 10 || b == 13) {
            proof {
                assert(trim_end(s@.subrange(0, i as int)) == s@.subrange(0, i as int));
            }
            break;
        }
        proof {
            assert(s@.subrange(0, i as int).drop_last() =~= s@.subrange(0, i - 1));
        }
        i = i - 1;
    }
    proof {
        if i == 0 {
            assert(trim_end(s@.subrange(0, 0)) == s@.subrange(0, 0));
        }
    }
    i
}

/// Whether every byte of `s` is a decimal digit.
fn is_all_digits(s: &[u8]) -> (r: bool)
    ensures
        r == all_digits(s@),
{
    let n = s.len();
    let mut i: usize = 0;
    while i < n
        invariant
            n == s@.len(),
            i <= n,
            forall|j: int| 0 <= j < i ==> is_digit(#[trigger] s@[j]),
        decreases n - i,
    {
        let b = s[i];
        if b < 48 || b > 57 {
            proof {
                assert(!is_digit(s@[i as int]));
            }
            return false;
        }
        i = i + 1;
    }
    true
}

impl VideoMetadata {
    /// Parses the record printed by the generic probing tool. This is the
    /// last metadata provider in the fallback chain: a failure here is a
    /// terminal `MetadataUnavailable` for the file.
    pub fn ffmpeg(record: &[u8]) -> (r: Result<VideoMetadata, TriageError>)
        ensures
            r is Ok <==> spec_probe_record(record@) is Some,
            r matches Ok(m) ==> spec_probe_record(record@) == Some(m),
            r matches Err(e) ==> e == TriageError::MetadataUnavailable,
    {
        let n = record.len();
        let x1 = find_first_byte(record, X_SEP, 0);
        let width = match parse_u32_digits(&record[0..x1]) {
            Some(w) => w,
            None => {
                return Err(TriageError::MetadataUnavailable);
            },
        };
        if x1 == n {
            return Err(TriageError::MetadataUnavailable);
        }
        let x2 = find_first_byte(record, X_SEP, x1 + 1);
        let height = match parse_u32_digits(&record[x1 + 1..x2]) {
            Some(h) => h,
            None => {
                return Err(TriageError::MetadataUnavailable);
            },
        };
        if x2 == n {
            return Err(TriageError::MetadataUnavailable);
        }
        let x3 = find_first_byte(record, X_SEP, x2 + 1);
        let seg = &record[x2 + 1..x3];
        let t_end = trim_end_idx(seg);
        let t = &seg[0..t_end];
        let ghost tt = trim_end(record@.subrange(x2 + 1, x3 as int));
        proof {
            assert(t@ == tt);
        }
        let d = find_first_byte(t, DOT, 0);
        let duration_secs = match parse_u64_digits(&t[0..d]) {
            Some(v) => v,
            None => {
                return Err(TriageError::MetadataUnavailable);
            },
        };
        if d < t.len() {
            if !is_all_digits(&t[d + 1..t.len()]) {
                return Err(TriageError::MetadataUnavailable);
            }
        }
        Ok(VideoMetadata { width, height, duration_secs })
    }
}

} // verus!
