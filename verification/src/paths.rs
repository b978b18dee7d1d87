//! Path suffix handling: finding a file name's extension and recognizing
//! the container formats (and flac audio) by it, case-insensitively.
//!
//! Paths are handled as byte strings. The extension of a path is the part of
//! its final component (after the last `/`) that follows the last `.`, and it
//! does not exist when that component has no `.` past its first byte.

use vstd::prelude::*;
use crate::video::VideoExt;

verus! {

pub const SLASH: u8 = 47;

pub const DOT: u8 = 46;

/// The last index below `i` at which `s` holds `b`, or -1 when there is none.
pub open spec fn find_last(s: Seq<u8>, b: u8, i: int) -> int
    recommends
        0 <= i <= s.len(),
    decreases i,
{
    if i <= 0 {
        -1
    } else if s[i - 1] == b {
        i - 1
    } else {
        find_last(s, b, i - 1)
    }
}

proof fn lemma_find_last_spec(s: Seq<u8>, b: u8, i: int)
    requires
        0 <= i <= s.len(),
    ensures
        -1 <= find_last(s, b, i) < i,
        find_last(s, b, i) >= 0 ==> s[find_last(s, b, i)] == b,
        forall|j: int| find_last(s, b, i) < j < i ==> s[j] != b,
    decreases i,
{
    if i > 0 {
        lemma_find_last_spec(s, b, i - 1);
    }
}

proof fn lemma_find_last_unique(s: Seq<u8>, b: u8, i: int, k: int)
    requires
        0 <= i <= s.len(),
        -1 <= k < i,
        k >= 0 ==> s[k] == b,
        forall|j: int| k < j < i ==> s[j] != b,
    ensures
        find_last(s, b, i) == k,
{
    lemma_find_last_spec(s, b, i);
    let r = find_last(s, b, i);
    if r < k {
        assert(s[k] != b);
    } else if r > k {
        assert(s[r] != b);
    }
}

/// The final component of a path: everything after the last `/`.
pub open spec fn spec_file_name(p: Seq<u8>) -> Seq<u8> {
    p.subrange(find_last(p, SLASH, p.len() as int) + 1, p.len() as int)
}

/// The extension of a path, when its final component has one.
pub open spec fn spec_extension(p: Seq<u8>) -> Option<Seq<u8>> {
    let f = spec_file_name(p);
    let d = find_last(f, DOT, f.len() as int);
    if d <= 0 {
        None
    } else {
        Some(f.subrange(d + 1, f.len() as int))
    }
}

/// ASCII lowercasing of one byte.
pub open spec fn to_lower_byte(b: u8) -> u8 {
    if 65 <= b <= 90 {
        (b + 32) as u8
    } else {
        b
    }
}

/// ASCII lowercasing of a byte string.
pub open spec fn lower_bytes(s: Seq<u8>) -> Seq<u8> {
    s.map_values(|b: u8| to_lower_byte(b))
}

fn lower_u8(b: u8) -> (r: u8)
    ensures
        r == to_lower_byte(b),
{
    if 65 <= b && b <= 90 {
        b + 32
    } else {
        b
    }
}

/// The last position of `b` in `p`, scanning from the end.
fn find_last_byte(p: &[u8], b: u8) -> (r: Option<usize>)
    ensures
        r matches Some(k) ==> k == find_last(p@, b, p@.len() as int) && k < p@.len(),
        r is None ==> find_last(p@, b, p@.len() as int) == -1,
{
    let mut i = p.len();
    while i > 0
        invariant
            i <= p@.len(),
            find_last(p@, b, p@.len() as int) == find_last(p@, b, i as int),
        decreases i,
    {
        if p[i - 1] == b {
            return Some(i - 1);
        }
        i = i - 1;
    }
    None
}

/// The extension of `p`, as its own byte string.
pub fn extension_of(p: &[u8]) -> (r: Option<Vec<u8>>)
    ensures
        r is Some <==> spec_extension(p@) is Some,
        r matches Some(e) ==> spec_extension(p@) == Some(e@),
{
    let ghost len = p@.len() as int;
    let n = p.len();
    let start = match find_last_byte(p, SLASH) {
        Some(k) => k + 1,
        None => 0,
    };
    let ghost f = spec_file_name(p@);
    proof {
        lemma_find_last_spec(p@, SLASH, len);
        assert(f.len() == len - start);
    }
    let dot = find_last_byte(p, DOT);
    match dot {
        Some(dp) if dp > start => {
            proof {
                lemma_find_last_spec(p@, DOT, len);
                assert(f[dp - start] == p@[dp as int]);
                assert forall|j: int| dp - start < j < f.len() implies f[j] != DOT by {
                    assert(f[j] == p@[start + j]);
                }
                lemma_find_last_unique(f, DOT, f.len() as int, dp - start);
            }
            let mut e: Vec<u8> = Vec::new();
            let mut i = dp + 1;
            while i < n
                invariant
                    n == p@.len(),
                    dp + 1 <= i <= p@.len(),
                    e@ == p@.subrange(dp + 1, i as int),
                decreases p@.len() - i,
            {
                e.push(p[i]);
                proof {
                    assert(e@ =~= p@.subrange(dp + 1, i + 1));
                }
                i = i + 1;
            }
            proof {
                assert(f.subrange(dp - start + 1, f.len() as int) =~= p@.subrange(
                    dp + 1,
                    len,
                ));
            }
            Some(e)
        },
        _ => {
            proof {
                lemma_find_last_spec(p@, DOT, len);
                let dp = find_last(p@, DOT, len);
                let d = find_last(f, DOT, f.len() as int);
                if dp >= start {
                    assert(f[dp - start] == p@[dp]);
                    assert forall|j: int| dp - start < j < f.len() implies f[j] != DOT by {
                        assert(f[j] == p@[start + j]);
                    }
                    lemma_find_last_unique(f, DOT, f.len() as int, dp - start);
                } else {
                    assert forall|j: int| -1 < j < f.len() implies f[j] != DOT by {
                        assert(f[j] == p@[start + j]);
                    }
                    lemma_find_last_unique(f, DOT, f.len() as int, -1);
                }
            }
            None
        },
    }
}

/// Whether a path names a flac audio file: its extension, lowercased, is
/// `flac`.
pub open spec fn spec_is_flac(p: Seq<u8>) -> bool {
    spec_extension(p) matches Some(e) && lower_bytes(e) == seq![102u8, 108u8, 97u8, 99u8]
}

pub fn is_flac(p: &[u8]) -> (r: bool)
    ensures
        r == spec_is_flac(p@),
{
    match extension_of(p) {
        Some(e) => {
            proof {
                assert(lower_bytes(e@).len() == e@.len());
            }
            if e.len() != 4 {
                return false;
            }
            let ok = lower_u8(e[0]) == 102 && lower_u8(e[1]) == 108 && lower_u8(e[2]) == 97
                && lower_u8(e[3]) == 99;
            proof {
                assert(lower_bytes(e@)[0] == to_lower_byte(e@[0]));
                assert(lower_bytes(e@)[1] == to_lower_byte(e@[1]));
                assert(lower_bytes(e@)[2] == to_lower_byte(e@[2]));
                assert(lower_bytes(e@)[3] == to_lower_byte(e@[3]));
                if ok {
                    assert(lower_bytes(e@) =~= seq![102u8, 108u8, 97u8, 99u8]);
                }
            }
            ok
        },
        None => false,
    }
}

/// The container format a lowercased extension names, if any.
pub open spec fn spec_ext_kind(e: Seq<u8>) -> Option<VideoExt> {
    let l = lower_bytes(e);
    if l == seq![109u8, 112u8, 52u8] {
        Some(VideoExt::Mp4)
    } else if l == seq![109u8, 107u8, 118u8] {
        Some(VideoExt::Mkv)
    } else if l == seq![97u8, 118u8, 105u8] {
        Some(VideoExt::Avi)
    } else if l == seq![116u8, 115u8] {
        Some(VideoExt::Ts)
    } else if l == seq![119u8, 109u8, 118u8] {
        Some(VideoExt::Wmv)
    } else {
        None
    }
}

impl VideoExt {
    /// The format the given extension bytes name, matched case-insensitively.
    pub fn from_extension(e: &[u8]) -> (r: Option<VideoExt>)
        ensures
            r == spec_ext_kind(e@),
    {
        proof {
            assert(lower_bytes(e@).len() == e@.len());
        }
        if e.len() == 2 {
            let a = lower_u8(e[0]);
            let b = lower_u8(e[1]);
            proof {
                assert(lower_bytes(e@)[0] == to_lower_byte(e@[0]));
                assert(lower_bytes(e@)[1] == to_lower_byte(e@[1]));
            }
            if a == 116 && b == 115 {
                proof {
                    assert(lower_bytes(e@) =~= seq![116u8, 115u8]);
                }
                return Some(VideoExt::Ts);
            }
            return None;
        }
        if e.len() != 3 {
            return None;
        }
        let a = lower_u8(e[0]);
        let b = lower_u8(e[1]);
        let c = lower_u8(e[2]);
        proof {
            assert(lower_bytes(e@)[0] == to_lower_byte(e@[0]));
            assert(lower_bytes(e@)[1] == to_lower_byte(e@[1]));
            assert(lower_bytes(e@)[2] == to_lower_byte(e@[2]));
        }
        if a == 109 && b == 112 && c == 52 {
            proof {
                assert(lower_bytes(e@) =~= seq![109u8, 112u8, 52u8]);
            }
            Some(VideoExt::Mp4)
        } else if a == 109 && b == 107 && c == 118 {
            proof {
                assert(lower_bytes(e@) =~= seq![109u8, 107u8, 118u8]);
            }
            Some(VideoExt::Mkv)
        } else if a == 97 && b == 118 && c == 105 {
            proof {
                assert(lower_bytes(e@) =~= seq![97u8, 118u8, 105u8]);
            }
            Some(VideoExt::Avi)
        } else if a == 119 && b == 109 && c == 118 {
            proof {
                assert(lower_bytes(e@) =~= seq![119u8, 109u8, 118u8]);
            }
            Some(VideoExt::Wmv)
        } else {
            None
        }
    }

    /// The container format a path's extension names, if any.
    pub fn from_path(p: &[u8]) -> (r: Option<VideoExt>)
        ensures
            r == spec_path_ext_kind(p@),
    {
        match extension_of(p) {
            Some(e) => VideoExt::from_extension(e.as_slice()),
            None => None,
        }
    }
}

/// The container format of a path, through its extension.
pub open spec fn spec_path_ext_kind(p: Seq<u8>) -> Option<VideoExt> {
    match spec_extension(p) {
        Some(e) => spec_ext_kind(e),
        None => None,
    }
}

} // verus!
