//! Video-transcode triage: walk a library of video files, extract technical
//! metadata, classify files that need re-encoding, and keep a bounded working
//! set of the most severely oversized candidates.

pub mod errors;
pub mod executor;
pub mod parse;
pub mod paths;
pub mod probe;
pub mod select;
pub mod video;
pub mod walk;

pub use errors::TriageError;
pub use video::Video;
pub use video::VideoExt;
pub use video::VideoMetadata;
