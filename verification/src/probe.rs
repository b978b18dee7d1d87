//! The structured metadata fast paths: what the mp4 and matroska container
//! headers mean, once parsed.
//!
//! The raw parses are done by the `mp4` and `matroska` crates at the
//! caller's boundary, not here: container parsers can panic on crafted byte
//! streams, so the caller makes the call behind a panic guard, treats an
//! abort like any parse failure, and hands the parsed header in as plain
//! values. Everything computed from those values — the largest track, the
//! duration in seconds, the fallback from display to pixel dimensions — is
//! verified here.

use vstd::prelude::*;
use crate::errors::TriageError;
use crate::video::VideoMetadata;

verus! {

/// What an mp4 header parse yields: the (height, width) of each track, and
/// the movie header's raw duration and timescale.
pub struct Mp4Header {
    pub tracks: Vec<(u16, u16)>,
    pub mvhd_duration: u64,
    pub mvhd_timescale: u32,
}

/// The dimension settings of one matroska video track: display width,
/// pixel width, display height, pixel height. A track whose settings are
/// not video settings is `None`.
pub type MkvTrackDims = Option<(Option<u64>, u64, Option<u64>, u64)>;

/// What a matroska header parse yields: the segment's duration in whole
/// seconds, when present, and the video tracks in file order.
pub struct MkvHeader {
    pub duration_secs: Option<u64>,
    pub video_tracks: Vec<MkvTrackDims>,
}

/// The order in which tracks are ranked: by height, then by width.
pub open spec fn lex_le(a: (u16, u16), b: (u16, u16)) -> bool {
    a.0 < b.0 || (a.0 == b.0 && a.1 <= b.1)
}

/// The largest (height, width) pair of a track list.
pub open spec fn spec_max_track(ts: Seq<(u16, u16)>) -> (u16, u16) {
    choose|t: (u16, u16)| ts.contains(t) && forall|u: (u16, u16)| ts.contains(u) ==> lex_le(u, t)
}

/// The largest (height, width) pair of a track list, or `None` when the
/// list is empty.
pub fn max_track(tracks: &Vec<(u16, u16)>) -> (r: Option<(u16, u16)>)
    ensures
        r is Some <==> tracks@.len() > 0,
        r matches Some(m) ==> tracks@.contains(m) && forall|i: int|
            0 <= i < tracks@.len() ==> lex_le(#[trigger] tracks@[i], m),
{
    let n = tracks.len();
    if n == 0 {
        return None;
    }
    let mut best = tracks[0];
    let ghost mut bi: int = 0;
    let mut k: usize = 1;
    while k < n
        invariant
            n == tracks@.len(),
            1 <= k <= n,
            0 <= bi < k,
            best == tracks@[bi],
            forall|i: int| 0 <= i < k ==> lex_le(#[trigger] tracks@[i], best),
        decreases n - k,
    {
        let t = tracks[k];
        if t.0 > best.0 || (t.0 == best.0 && t.1 > best.1) {
            best = t;
            proof {
                bi = k as int;
            }
        }
        k = k + 1;
    }
    proof {
        assert(tracks@.contains(best)) by {
            assert(tracks@[bi] == best);
        }
    }
    Some(best)
}

/// What the mp4 fast path returns for a parsed header: the largest track
/// gives height and width, and the duration is the movie header's duration
/// over its timescale, in whole seconds. A header with no track or a zero
/// timescale yields nothing.
pub open spec fn spec_mp4_metadata(
    tracks: Seq<(u16, u16)>,
    mvhd_duration: u64,
    mvhd_timescale: u32,
) -> Option<VideoMetadata> {
    if tracks.len() > 0 && mvhd_timescale > 0 {
        let hw = spec_max_track(tracks);
        Some(
            VideoMetadata {
                width: hw.1 as u32,
                height: hw.0 as u32,
                duration_secs: (mvhd_duration as int / mvhd_timescale as int) as u64,
            },
        )
    } else {
        None
    }
}

/// `display` when the track carries it, the pixel dimension otherwise.
pub open spec fn spec_dim_or(display: Option<u64>, pixel: u64) -> u64 {
    match display {
        Some(d) => d,
        None => pixel,
    }
}

/// What the matroska fast path returns for a parsed header: the duration
/// must be present, the first video track must carry video settings, and
/// its display dimensions (or pixel dimensions in their absence) must fit
/// u32.
pub open spec fn spec_mkv_metadata(
    duration_secs: Option<u64>,
    tracks: Seq<MkvTrackDims>,
) -> Option<VideoMetadata> {
    match duration_secs {
        Some(dur) => {
            if tracks.len() > 0 {
                match tracks[0] {
                    Some(t) => {
                        let w = spec_dim_or(t.0, t.1);
                        let h = spec_dim_or(t.2, t.3);
                        if w <= u32::MAX && h <= u32::MAX {
                            Some(
                                VideoMetadata {
                                    width: w as u32,
                                    height: h as u32,
                                    duration_secs: dur,
                                },
                            )
                        } else {
                            None
                        }
                    },
                    None => None,
                }
            } else {
                None
            }
        },
        None => None,
    }
}

impl VideoMetadata {
    /// The structured fast path for the mp4 container, from its parsed
    /// header.
    pub fn mp4(h: &Mp4Header) -> (r: Result<VideoMetadata, TriageError>)
        ensures
            r is Ok <==> spec_mp4_metadata(h.tracks@, h.mvhd_duration, h.mvhd_timescale) is Some,
            r matches Ok(m) ==> spec_mp4_metadata(h.tracks@, h.mvhd_duration, h.mvhd_timescale)
                == Some(m),
            r matches Err(e) ==> e == TriageError::MetadataUnavailable,
    {
        if h.mvhd_timescale == 0 {
            return Err(TriageError::MetadataUnavailable);
        }
        let hw = match max_track(&h.tracks) {
            Some(hw) => hw,
            None => {
                return Err(TriageError::MetadataUnavailable);
            },
        };
        proof {
            assert forall|u: (u16, u16)| h.tracks@.contains(u) implies lex_le(u, hw) by {
                let i = choose|i: int| 0 <= i < h.tracks@.len() && h.tracks@[i] == u;
                assert(lex_le(h.tracks@[i], hw));
            }
            let c = spec_max_track(h.tracks@);
            assert(h.tracks@.contains(c) && forall|u: (u16, u16)|
                h.tracks@.contains(u) ==> lex_le(u, c)) by {
                assert(h.tracks@.contains(hw) && forall|u: (u16, u16)|
                    h.tracks@.contains(u) ==> lex_le(u, hw));
            }
            assert(lex_le(c, hw) && lex_le(hw, c));
            assert(c == hw);
        }
        Ok(
            VideoMetadata {
                width: hw.1 as u32,
                height: hw.0 as u32,
                duration_secs: h.mvhd_duration / (h.mvhd_timescale as u64),
            },
        )
    }

    /// The structured fast path for the matroska container, from its parsed
    /// header.
    pub fn mkv(h: &MkvHeader) -> (r: Result<VideoMetadata, TriageError>)
        ensures
            r is Ok <==> spec_mkv_metadata(h.duration_secs, h.video_tracks@) is Some,
            r matches Ok(m) ==> spec_mkv_metadata(h.duration_secs, h.video_tracks@) == Some(m),
            r matches Err(e) ==> e == TriageError::MetadataUnavailable,
    {
        let dur = match h.duration_secs {
            Some(d) => d,
            None => {
                return Err(TriageError::MetadataUnavailable);
            },
        };
        if h.video_tracks.len() == 0 {
            return Err(TriageError::MetadataUnavailable);
        }
        let t = match h.video_tracks[0] {
            Some(t) => t,
            None => {
                return Err(TriageError::MetadataUnavailable);
            },
        };
        let w = match t.0 {
            Some(d) => d,
            None => t.1,
        };
        let hh = match t.2 {
            Some(d) => d,
            None => t.3,
        };
        if w > 0xffff_ffffu64 || hh > 0xffff_ffffu64 {
            return Err(TriageError::MetadataUnavailable);
        }
        Ok(VideoMetadata { width: w as u32, height: hh as u32, duration_secs: dur })
    }
}

} // verus!
