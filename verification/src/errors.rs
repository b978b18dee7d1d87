//! The error taxonomy of the triage run.
//!
//! Per-file errors (`MetadataUnavailable`, `EncodeFailed`, `MoveFailed`,
//! `Walk`) never abort a multi-file batch; the two run-level errors
//! (`NothingToDo`, `EmptyCorpus`) end the run before any encoding begins.

use vstd::prelude::*;

verus! {

#[derive(Clone, Copy, PartialEq, Eq, Debug, Structural)]
pub enum TriageError {
    /// A directory could not be read during the walk.
    Walk,
    /// Every metadata provider failed for the file.
    MetadataUnavailable,
    /// The encoder exited with a non-zero status.
    EncodeFailed,
    /// The cross-device copy or the rename of the re-encoded file failed.
    MoveFailed,
    /// Single-file mode was given a file that is not oversized.
    NothingToDo,
    /// The candidate stream produced no file to work on.
    EmptyCorpus,
}

impl TriageError {
    /// A short description of the error, for reporting.
    pub fn describe(&self) -> (r: &'static str)
        ensures
            self is Walk ==> r@ == "cannot read directory"@,
            self is MetadataUnavailable ==> r@ == "cannot read video metadata"@,
            self is EncodeFailed ==> r@ == "the encoder failed"@,
            self is MoveFailed ==> r@ == "cannot move the re-encoded file"@,
            self is NothingToDo ==> r@ == "the video looks fine"@,
            self is EmptyCorpus ==> r@ == "the list is empty"@,
    {
        proof {
            reveal_strlit("cannot read directory");
            reveal_strlit("cannot read video metadata");
            reveal_strlit("the encoder failed");
            reveal_strlit("cannot move the re-encoded file");
            reveal_strlit("the video looks fine");
            reveal_strlit("the list is empty");
        }
        match self {
            TriageError::Walk => "cannot read directory",
            TriageError::MetadataUnavailable => "cannot read video metadata",
            TriageError::EncodeFailed => "the encoder failed",
            TriageError::MoveFailed => "cannot move the re-encoded file",
            TriageError::NothingToDo => "the video looks fine",
            TriageError::EmptyCorpus => "the list is empty",
        }
    }
}

} // verus!
