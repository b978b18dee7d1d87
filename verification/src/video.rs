//! The descriptor of one video file and the classification rules that decide
//! whether it is a transcode candidate.

use vstd::prelude::*;
use crate::errors::TriageError;

verus! {

/// Offset granted to every file before it counts as oversized (300 MiB).
pub const SIZE_OFFSET: u64 = 300 * 1024 * 1024;

/// Baseline of acceptable file size per second of video, in bytes.
pub const SIZE_PER_SECOND: u64 = 300000;

/// The side length above which a video is scaled down.
pub const TARGET_RESOLUTION: u32 = 720;

/// The container formats the triage accepts.
#[derive(Clone, Copy, PartialEq, Eq, Debug, Structural)]
pub enum VideoExt {
    Mp4,
    Mkv,
    Avi,
    Ts,
    Wmv,
}

/// Width, height and whole-second duration of a video stream.
#[derive(Clone, Copy, PartialEq, Eq, Debug, Structural)]
pub struct VideoMetadata {
    pub width: u32,
    pub height: u32,
    pub duration_secs: u64,
}

/// One video file: its path, container format, size on disk and stream
/// metadata. Immutable after creation; handed from stage to stage by value.
#[derive(Debug)]
pub struct Video {
    pub path: String,
    pub ext: VideoExt,
    pub size: u64,
    pub metadata: VideoMetadata,
}

impl Video {
    /// Assembles the descriptor of a probed file. A file whose duration
    /// came out as zero seconds can never be scored — dividing by it is a
    /// hard failure for the file, not for the run — so it is rejected here.
    pub fn from_parts(path: String, ext: VideoExt, size: u64, metadata: VideoMetadata) -> (r:
        Result<Video, TriageError>)
        ensures
            r is Ok <==> metadata.duration_secs > 0,
            r matches Ok(v) ==> v == (Video { path: path, ext, size, metadata }) && v.has_score(),
            r matches Err(e) ==> e == TriageError::MetadataUnavailable,
    {
        if metadata.duration_secs == 0 {
            Err(TriageError::MetadataUnavailable)
        } else {
            Ok(Video { path, ext, size, metadata })
        }
    }

    /// The smaller of width and height: the side that decides whether a
    /// scale filter is needed.
    pub open spec fn spec_resolution(&self) -> u32 {
        if self.metadata.width < self.metadata.height {
            self.metadata.width
        } else {
            self.metadata.height
        }
    }

    /// A file is oversized when its size exceeds a duration-scaled baseline
    /// plus a fixed offset, which gives short files some slack.
    pub open spec fn spec_is_over_sized(&self) -> bool {
        self.size > self.metadata.duration_secs * SIZE_PER_SECOND + SIZE_OFFSET
    }

    /// The severity score: bytes of file size per second of video.
    pub open spec fn spec_score(&self) -> int {
        self.size as int / self.metadata.duration_secs as int
    }

    /// Whether the duration allows a score to be computed at all.
    pub open spec fn has_score(&self) -> bool {
        self.metadata.duration_secs > 0
    }

    pub fn resolution(&self) -> (r: u32)
        ensures
            r == self.spec_resolution(),
    {
        if self.metadata.width < self.metadata.height {
            self.metadata.width
        } else {
            self.metadata.height
        }
    }

    /// The scale filter the encoder needs for this file, if any: videos whose
    /// short side is within the target are left alone, others have their long
    /// edge scaled to the target with the short edge following automatically.
    pub fn vf_filter(&self) -> (r: Option<&'static str>)
        ensures
            r is Some <==> self.spec_resolution() > TARGET_RESOLUTION,
            self.spec_resolution() > TARGET_RESOLUTION
                && self.metadata.width > self.metadata.height ==> (r matches Some(f)
                && f@ == "scale=-1:720"@),
            self.spec_resolution() > TARGET_RESOLUTION
                && self.metadata.width <= self.metadata.height ==> (r matches Some(f)
                && f@ == "scale=720:-1"@),
    {
        if self.resolution() <= TARGET_RESOLUTION {
            return None;
        }
        if self.metadata.width > self.metadata.height {
            Some("scale=-1:720")
        } else {
            Some("scale=720:-1")
        }
    }

    pub fn is_over_sized(&self) -> (r: bool)
        ensures
            r == self.spec_is_over_sized(),
    {
        match self.metadata.duration_secs.checked_mul(SIZE_PER_SECOND) {
            Some(base) => match base.checked_add(SIZE_OFFSET) {
                Some(threshold) => self.size > threshold,
                None => false,
            },
            None => false,
        }
    }

    pub fn size_per_second(&self) -> (r: u64)
        requires
            self.has_score(),
        ensures
            r == self.spec_score(),
    {
        self.size / self.metadata.duration_secs
    }
}

/// Whether a descriptor qualifies for re-encoding: a forced resolution
/// normalization on a video above the target resolution, a forced container
/// normalization on a non-mp4 file, or an oversized file.
pub open spec fn spec_is_candidate(v: &Video, force_720: bool, force_mp4: bool) -> bool {
    ||| force_720 && v.spec_resolution() > TARGET_RESOLUTION
    ||| force_mp4 && v.ext != VideoExt::Mp4
    ||| v.spec_is_over_sized()
}

pub fn is_candidate(v: &Video, force_720: bool, force_mp4: bool) -> (r: bool)
    ensures
        r == spec_is_candidate(v, force_720, force_mp4),
{
    let check_720 = force_720 && v.resolution() > TARGET_RESOLUTION;
    let check_mp4 = force_mp4 && v.ext != VideoExt::Mp4;
    if check_720 || check_mp4 {
        return true;
    }
    v.is_over_sized()
}

/// Law: the oversized predicate is monotonic in size. Of two descriptors
/// with the same duration, if the smaller one is oversized, so is the larger.
pub proof fn lemma_over_sized_monotonic_in_size(a: &Video, b: &Video)
    requires
        a.metadata.duration_secs == b.metadata.duration_secs,
        a.size > b.size,
        b.spec_is_over_sized(),
    ensures
        a.spec_is_over_sized(),
{
}

} // verus!
